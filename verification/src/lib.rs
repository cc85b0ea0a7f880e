//! Verified core of a tray-resident uploader that runs the Immich CLI once per
//! watched folder.
pub mod ansi;
pub mod cli;
pub mod config;
pub mod idmap;
pub mod labels;
pub mod logbuf;
pub mod process;
pub mod session;
pub mod text;
pub mod winstyle;

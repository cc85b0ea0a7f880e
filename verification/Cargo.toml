[package]
name = "immich-auto-uploader"
version = "0.1.0"
edition = "2021"
publish = false

[dependencies]
vte = "0.15"
uuid = { version = "1", features = ["v4"] }
anyhow = "1"
serde = { version = "1", features = ["derive"] }
serde_json = "1"
directories = "6"
tokio = { version = "1", features = ["process", "io-util", "rt-multi-thread", "sync", "macros", "time"] }
kill_tree = { version = "0.2", features = ["tokio"] }
which = "*"
tracing = "0.1"
tracing-subscriber = { version = "0.3", default-features = false, features = ["fmt", "std"] }
winreg = "0.56"

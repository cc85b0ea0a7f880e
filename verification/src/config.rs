//! The persisted settings: watched folders and application switches, their
//! defaults, and what a load attempt yields.
use vstd::prelude::*;
use vstd::string::*;
use crate::text::{decimal_spec, push_decimal, push_str};

verus! {

broadcast use vstd::string::group_string_axioms;

/// The settings layout this version writes and understands.
pub const SCHEMA_VERSION: u32 = 1;

/// How uploads of a folder are put into albums.
#[derive(Clone, Copy, Debug, PartialEq, Eq, Structural)]
pub enum AlbumMode {
    /// No album.
    NoAlbum,
    /// An album named after the folder (`--album`).
    FromFolder,
    /// The album named in the folder's `album_name` (`--album-name`).
    Named,
}

impl Default for AlbumMode {
    fn default() -> (r: Self)
        ensures
            r == AlbumMode::NoAlbum,
    {
        AlbumMode::NoAlbum
    }
}

/// One watched folder and the options its uploads run with.
#[derive(Clone, Debug, PartialEq)]
pub struct FolderConfig {
    pub id: String,
    pub path: String,
    pub enabled: bool,
    pub recursive: bool,
    pub album_mode: AlbumMode,
    pub album_name: String,
    pub include_hidden: bool,
    pub ignore_patterns: Vec<String>,
    pub concurrency: u32,
}

/// A folder's settings as mathematical values.
pub struct FolderConfigView {
    pub id: Seq<char>,
    pub path: Seq<char>,
    pub enabled: bool,
    pub recursive: bool,
    pub album_mode: AlbumMode,
    pub album_name: Seq<char>,
    pub include_hidden: bool,
    pub ignore_patterns: Seq<Seq<char>>,
    pub concurrency: u32,
}

/// The characters of each string of `v`.
pub open spec fn strings_view(v: Seq<String>) -> Seq<Seq<char>> {
    v.map_values(|s: String| s@)
}

impl View for FolderConfig {
    type V = FolderConfigView;

    open spec fn view(&self) -> FolderConfigView {
        FolderConfigView {
            id: self.id@,
            path: self.path@,
            enabled: self.enabled,
            recursive: self.recursive,
            album_mode: self.album_mode,
            album_name: self.album_name@,
            include_hidden: self.include_hidden,
            ignore_patterns: strings_view(self.ignore_patterns@),
            concurrency: self.concurrency,
        }
    }
}

/// The value of a switch that is on unless the settings say otherwise.
pub fn default_true() -> (r: bool)
    ensures
        r == true,
{
    true
}

/// The number of parallel uploads a folder gets unless set.
pub fn default_concurrency() -> (r: u32)
    ensures
        r == 4,
{
    4
}

/// The schema version assumed when the settings do not carry one.
pub fn default_schema_version() -> (r: u32)
    ensures
        r == SCHEMA_VERSION,
{
    SCHEMA_VERSION
}

/// How many times a failed watcher is run at most unless set.
pub fn default_max_restart() -> (r: u32)
    ensures
        r == 5,
{
    5
}

/// The pause in seconds before a failed watcher is run again unless set.
pub fn default_backoff() -> (r: u64)
    ensures
        r == 30,
{
    30
}

/// The canonical text of a random (version 4) UUID: 36 characters, lower-case
/// hexadecimal digits in groups of 8-4-4-4-12 joined by `-`, the version digit
/// `4`, and a variant digit among `8`, `9`, `a`, `b`.
pub open spec fn is_v4_uuid_text(s: Seq<char>) -> bool {
    &&& s.len() == 36
    &&& forall|i: int|
        0 <= i < 36 ==> if i == 8 || i == 13 || i == 18 || i == 23 {
            #[trigger] s[i] == '-'
        } else {
            ('0' <= s[i] && s[i] <= '9') || ('a' <= s[i] && s[i] <= 'f')
        }
    &&& s[14] == '4'
    &&& (s[19] == '8' || s[19] == '9' || s[19] == 'a' || s[19] == 'b')
}

/// `uuid::Uuid::new_v4()` rendered by `to_string`. The identifier is random;
/// the contract states only its shape, which `new_v4` (version and variant bits)
/// and the hyphenated lower-case `Display` fix.
#[verifier::external_body]
fn new_v4_uuid_string() -> (s: String)
    ensures
        is_v4_uuid_text(s@),
{
    uuid::Uuid::new_v4().to_string()
}

/// The settings a folder added at `path` starts with.
pub open spec fn new_folder_spec(id: Seq<char>, path: Seq<char>) -> FolderConfigView {
    FolderConfigView {
        id,
        path,
        enabled: true,
        recursive: true,
        album_mode: AlbumMode::NoAlbum,
        album_name: Seq::empty(),
        include_hidden: false,
        ignore_patterns: Seq::empty(),
        concurrency: 4,
    }
}

impl FolderConfig {
    /// A folder at `path` with a fresh random identifier, enabled, recursive,
    /// no album, hidden files left out, nothing ignored and four parallel uploads.
    pub fn new(path: String) -> (r: Self)
        ensures
            is_v4_uuid_text(r@.id),
            r@ == new_folder_spec(r@.id, path@),
    {
        let r = FolderConfig {
            id: new_v4_uuid_string(),
            path,
            enabled: true,
            recursive: true,
            album_mode: AlbumMode::NoAlbum,
            album_name: String::new(),
            include_hidden: false,
            ignore_patterns: Vec::new(),
            concurrency: 4,
        };
        assert(strings_view(r.ignore_patterns@) =~= Seq::<Seq<char>>::empty());
        r
    }

    /// A copy of this folder's settings.
    pub fn copy(&self) -> (r: Self)
        ensures
            r@ == self@,
    {
        FolderConfig {
            id: self.id.clone(),
            path: self.path.clone(),
            enabled: self.enabled,
            recursive: self.recursive,
            album_mode: self.album_mode,
            album_name: self.album_name.clone(),
            include_hidden: self.include_hidden,
            ignore_patterns: copy_strings(&self.ignore_patterns),
            concurrency: self.concurrency,
        }
    }
}

/// A copy of the strings of `v`.
pub fn copy_strings(v: &Vec<String>) -> (r: Vec<String>)
    ensures
        strings_view(r@) == strings_view(v@),
        r@.len() == v@.len(),
{
    let mut r: Vec<String> = Vec::new();
    let mut i: usize = 0;
    while i < v.len()
        invariant
            i <= v@.len(),
            r@.len() == i,
            forall|j: int| 0 <= j < i ==> #[trigger] r@[j]@ == v@[j]@,
        decreases v.len() - i,
    {
        r.push(v[i].clone());
        i = i + 1;
    }
    assert(strings_view(r@) =~= strings_view(v@));
    r
}


/// All settings of the application.
#[derive(Clone, Debug)]
pub struct Config {
    pub schema_version: u32,
    pub server_url: String,
    pub start_on_boot: bool,
    pub start_minimized_to_tray: bool,
    pub auto_start_watching_on_launch: bool,
    pub auto_restart_on_failure: bool,
    pub max_restart_attempts: u32,
    pub restart_backoff_seconds: u64,
    pub folders: Vec<FolderConfig>,
}

/// The settings as mathematical values.
pub struct ConfigView {
    pub schema_version: u32,
    pub server_url: Seq<char>,
    pub start_on_boot: bool,
    pub start_minimized_to_tray: bool,
    pub auto_start_watching_on_launch: bool,
    pub auto_restart_on_failure: bool,
    pub max_restart_attempts: u32,
    pub restart_backoff_seconds: u64,
    pub folders: Seq<FolderConfigView>,
}

/// The views of the folders of `v`.
pub open spec fn folders_view(v: Seq<FolderConfig>) -> Seq<FolderConfigView> {
    v.map_values(|f: FolderConfig| f@)
}

impl View for Config {
    type V = ConfigView;

    open spec fn view(&self) -> ConfigView {
        ConfigView {
            schema_version: self.schema_version,
            server_url: self.server_url@,
            start_on_boot: self.start_on_boot,
            start_minimized_to_tray: self.start_minimized_to_tray,
            auto_start_watching_on_launch: self.auto_start_watching_on_launch,
            auto_restart_on_failure: self.auto_restart_on_failure,
            max_restart_attempts: self.max_restart_attempts,
            restart_backoff_seconds: self.restart_backoff_seconds,
            folders: folders_view(self.folders@),
        }
    }
}

/// The settings used when none are stored: the current schema, no server,
/// no start with the system, start hidden in the tray, start watching at
/// launch, restart failed watchers up to five times thirty seconds apart, and
/// no folders.
pub open spec fn default_config_spec() -> ConfigView {
    ConfigView {
        schema_version: SCHEMA_VERSION,
        server_url: Seq::empty(),
        start_on_boot: false,
        start_minimized_to_tray: true,
        auto_start_watching_on_launch: true,
        auto_restart_on_failure: true,
        max_restart_attempts: 5,
        restart_backoff_seconds: 30,
        folders: Seq::empty(),
    }
}

impl Default for Config {
    fn default() -> (r: Self)
        ensures
            r@ == default_config_spec(),
    {
        let r = Config {
            schema_version: SCHEMA_VERSION,
            server_url: String::new(),
            start_on_boot: false,
            start_minimized_to_tray: true,
            auto_start_watching_on_launch: true,
            auto_restart_on_failure: true,
            max_restart_attempts: 5,
            restart_backoff_seconds: 30,
            folders: Vec::new(),
        };
        assert(folders_view(r.folders@) =~= Seq::<FolderConfigView>::empty());
        r
    }
}

/// What an attempt to read the stored settings came to.
pub enum LoadOutcome {
    /// The system offers no directory for settings.
    NoConfigDir,
    /// No settings file exists yet.
    NotFound,
    /// The file exists but could not be read; the error's text.
    ReadFailed(String),
    /// The file was read but is not valid settings; the error's text.
    ParseFailed(String),
    /// The settings the file holds.
    Parsed(Config),
}

/// The settings to start with, and a warning for the user where the stored
/// ones could not be used.
pub struct LoadResult {
    pub config: Config,
    pub warning: Option<String>,
}

/// The warning shown when the system offers no settings directory.
pub open spec fn no_config_dir_warning() -> Seq<char> {
    "config ディレクトリを取得できません。デフォルトで起動します"@
}

/// The warning for a settings file of a newer, unknown schema `v`.
pub open spec fn unknown_schema_warning(v: u32) -> Seq<char> {
    "未知の schema_version="@ + decimal_spec(v as nat)
        + " のため、デフォルト設定で起動しました (元ファイルは保持)"@
}

/// The warning for settings that failed to parse with error text `e`.
pub open spec fn parse_failed_warning(e: Seq<char>) -> Seq<char> {
    "config 解析失敗: "@ + e + ". デフォルトで起動"@
}

/// The warning for a settings file that could not be read, with error text `e`.
pub open spec fn read_failed_warning(e: Seq<char>) -> Seq<char> {
    "config 読み込み失敗: "@ + e + ". デフォルトで起動"@
}

/// The settings chosen for an outcome: the stored ones when they parsed and
/// their schema is not newer than [`SCHEMA_VERSION`], else the defaults.
pub open spec fn loaded_config_spec(outcome: LoadOutcome) -> ConfigView {
    match outcome {
        LoadOutcome::Parsed(c) => if c.schema_version > SCHEMA_VERSION {
            default_config_spec()
        } else {
            c@
        },
        _ => default_config_spec(),
    }
}

/// The warning for an outcome, if any.
pub open spec fn load_warning_spec(outcome: LoadOutcome) -> Option<Seq<char>> {
    match outcome {
        LoadOutcome::NoConfigDir => Some(no_config_dir_warning()),
        LoadOutcome::NotFound => None,
        LoadOutcome::ReadFailed(e) => Some(read_failed_warning(e@)),
        LoadOutcome::ParseFailed(e) => Some(parse_failed_warning(e@)),
        LoadOutcome::Parsed(c) => if c.schema_version > SCHEMA_VERSION {
            Some(unknown_schema_warning(c.schema_version))
        } else {
            None
        },
    }
}

/// Whatever reading the stored settings came to, the settings to start with
/// are never of a schema newer than this version understands, and a warning
/// comes with every fallback to the defaults except a missing file.
pub proof fn lemma_loaded_schema_known(outcome: LoadOutcome)
    ensures
        loaded_config_spec(outcome).schema_version <= SCHEMA_VERSION,
        load_warning_spec(outcome) is None ==> (outcome is NotFound || (outcome matches LoadOutcome::Parsed(c) && loaded_config_spec(outcome) == c@)),
{
}

/// Whenever the stored settings cannot be used as they are (no settings
/// directory, no file yet, a file that cannot be read or parsed, or settings
/// of a newer schema), the settings to start with are exactly the defaults:
/// the current schema, no server, no start with the system, start in the
/// tray, watching at launch, failed watchers restarted up to five times
/// thirty seconds apart, and no folders.
pub proof fn lemma_fallback_is_the_defaults(outcome: LoadOutcome)
    requires
        !(outcome matches LoadOutcome::Parsed(c) && c.schema_version <= SCHEMA_VERSION),
    ensures
        loaded_config_spec(outcome) == default_config_spec(),
        loaded_config_spec(outcome).schema_version == SCHEMA_VERSION,
        loaded_config_spec(outcome).server_url.len() == 0,
        !loaded_config_spec(outcome).start_on_boot,
        loaded_config_spec(outcome).start_minimized_to_tray,
        loaded_config_spec(outcome).auto_start_watching_on_launch,
        loaded_config_spec(outcome).auto_restart_on_failure,
        loaded_config_spec(outcome).max_restart_attempts == 5,
        loaded_config_spec(outcome).restart_backoff_seconds == 30,
        loaded_config_spec(outcome).folders.len() == 0,
{
}

/// The characters of an optional string.
pub open spec fn opt_string_view(o: Option<String>) -> Option<Seq<char>> {
    match o {
        Some(s) => Some(s@),
        None => None,
    }
}

impl Config {
    /// The settings to start with, given what reading the stored ones came to.
    /// Stored settings of a known schema are used as they are; in every other
    /// case the defaults are, with a warning unless there was simply no file.
    pub fn load_or_default(outcome: LoadOutcome) -> (r: LoadResult)
        ensures
            r.config@ == loaded_config_spec(outcome),
            opt_string_view(r.warning) == load_warning_spec(outcome),
    {
        match outcome {
            LoadOutcome::NoConfigDir => LoadResult {
                config: Config::default(),
                warning: Some(
                    String::from_str("config ディレクトリを取得できません。デフォルトで起動します"),
                ),
            },
            LoadOutcome::NotFound => LoadResult { config: Config::default(), warning: None },
            LoadOutcome::ReadFailed(e) => {
                let mut w = String::from_str("config 読み込み失敗: ");
                push_str(&mut w, e.as_str());
                push_str(&mut w, ". デフォルトで起動");
                LoadResult { config: Config::default(), warning: Some(w) }
            },
            LoadOutcome::ParseFailed(e) => {
                let mut w = String::from_str("config 解析失敗: ");
                push_str(&mut w, e.as_str());
                push_str(&mut w, ". デフォルトで起動");
                LoadResult { config: Config::default(), warning: Some(w) }
            },
            LoadOutcome::Parsed(cfg) => {
                if cfg.schema_version > SCHEMA_VERSION {
                    let mut w = String::from_str("未知の schema_version=");
                    push_decimal(&mut w, cfg.schema_version as u64);
                    push_str(&mut w, " のため、デフォルト設定で起動しました (元ファイルは保持)");
                    LoadResult { config: Config::default(), warning: Some(w) }
                } else {
                    LoadResult { config: cfg, warning: None }
                }
            },
        }
    }
}

} // verus!

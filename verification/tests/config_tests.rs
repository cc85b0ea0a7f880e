use immich_auto_uploader::config::{
    default_backoff, default_concurrency, default_max_restart, default_schema_version, default_true,
    AlbumMode, Config, FolderConfig, LoadOutcome, SCHEMA_VERSION,
};

fn is_v4_text(s: &str) -> bool {
    let b: Vec<char> = s.chars().collect();
    b.len() == 36
        && b.iter().enumerate().all(|(i, c)| {
            if [8, 13, 18, 23].contains(&i) {
                *c == '-'
            } else {
                c.is_ascii_digit() || ('a'..='f').contains(c)
            }
        })
        && b[14] == '4'
        && "89ab".contains(b[19])
}

#[test]
fn defaults_match_the_documented_values() {
    let c = Config::default();
    assert_eq!(c.schema_version, 1);
    assert_eq!(c.server_url, "");
    assert!(!c.start_on_boot);
    assert!(c.start_minimized_to_tray);
    assert!(c.auto_start_watching_on_launch);
    assert!(c.auto_restart_on_failure);
    assert_eq!(c.max_restart_attempts, 5);
    assert_eq!(c.restart_backoff_seconds, 30);
    assert!(c.folders.is_empty());
    assert!(default_true());
    assert_eq!(default_concurrency(), 4);
    assert_eq!(default_schema_version(), SCHEMA_VERSION);
    assert_eq!(default_max_restart(), 5);
    assert_eq!(default_backoff(), 30);
    assert_eq!(AlbumMode::default(), AlbumMode::NoAlbum);
}

#[test]
fn new_folder_gets_fresh_id_and_defaults() {
    let a = FolderConfig::new("C:\\Users\\neo\\Pictures\\VRChat".to_string());
    let b = FolderConfig::new("C:\\Users\\neo\\Pictures\\VRChat".to_string());
    assert!(is_v4_text(&a.id));
    assert!(is_v4_text(&b.id));
    assert_ne!(a.id, b.id);
    assert_eq!(a.path, "C:\\Users\\neo\\Pictures\\VRChat");
    assert!(a.enabled && a.recursive && !a.include_hidden);
    assert_eq!(a.album_mode, AlbumMode::NoAlbum);
    assert_eq!(a.album_name, "");
    assert!(a.ignore_patterns.is_empty());
    assert_eq!(a.concurrency, 4);
    assert_eq!(a.copy(), a);
}

fn sample_config(version: u32) -> Config {
    let mut c = Config::default();
    c.schema_version = version;
    c.server_url = "http://192.168.10.71:30041".to_string();
    c.max_restart_attempts = 9;
    c
}

#[test]
fn load_keeps_known_schema() {
    let r = Config::load_or_default(LoadOutcome::Parsed(sample_config(1)));
    assert!(r.warning.is_none());
    assert_eq!(r.config.server_url, "http://192.168.10.71:30041");
    assert_eq!(r.config.max_restart_attempts, 9);
    let r = Config::load_or_default(LoadOutcome::Parsed(sample_config(0)));
    assert!(r.warning.is_none());
    assert_eq!(r.config.schema_version, 0);
}

#[test]
fn load_rejects_newer_schema() {
    let r = Config::load_or_default(LoadOutcome::Parsed(sample_config(2)));
    assert_eq!(r.config.server_url, "");
    assert_eq!(r.config.max_restart_attempts, 5);
    assert_eq!(
        r.warning.as_deref(),
        Some("未知の schema_version=2 のため、デフォルト設定で起動しました (元ファイルは保持)")
    );
}

#[test]
fn load_failures_fall_back_to_defaults_with_a_warning() {
    let r = Config::load_or_default(LoadOutcome::NotFound);
    assert!(r.warning.is_none());
    assert_eq!(r.config.schema_version, SCHEMA_VERSION);
    let r = Config::load_or_default(LoadOutcome::NoConfigDir);
    assert_eq!(
        r.warning.as_deref(),
        Some("config ディレクトリを取得できません。デフォルトで起動します")
    );
    let r = Config::load_or_default(LoadOutcome::ParseFailed("expected value at line 1".to_string()));
    assert_eq!(r.warning.as_deref(), Some("config 解析失敗: expected value at line 1. デフォルトで起動"));
    let r = Config::load_or_default(LoadOutcome::ReadFailed("denied".to_string()));
    assert_eq!(r.warning.as_deref(), Some("config 読み込み失敗: denied. デフォルトで起動"));
    assert!(r.config.folders.is_empty());
}

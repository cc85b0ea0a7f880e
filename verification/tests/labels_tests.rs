use immich_auto_uploader::config::{AlbumMode, FolderConfig};
use immich_auto_uploader::labels::{album_label, folder_summary, join_lines, parse_ignore_patterns};
use immich_auto_uploader::winstyle::{app_value_name, run_key, run_value, taskbar_style};

#[test]
fn row_labels() {
    let mut f = FolderConfig::new("p".to_string());
    assert_eq!(album_label(&f), "Album: None");
    f.album_mode = AlbumMode::FromFolder;
    assert_eq!(album_label(&f), "Album: From folder");
    f.album_mode = AlbumMode::Named;
    f.album_name = "夏".to_string();
    assert_eq!(album_label(&f), "Album: \"夏\"");
    assert_eq!(folder_summary(&f), "Recursive: Yes  Hidden: No  Concurrency: 4");
    f.recursive = false;
    f.include_hidden = true;
    f.concurrency = 16;
    assert_eq!(folder_summary(&f), "Recursive: No  Hidden: Yes  Concurrency: 16");
}

#[test]
fn ignore_patterns_round_trip() {
    let v = vec!["*.tmp".to_string(), "Thumbs.db".to_string()];
    let text = join_lines(&v);
    assert_eq!(text, "*.tmp\nThumbs.db");
    assert_eq!(parse_ignore_patterns(&text), v);
    assert_eq!(join_lines(&vec![]), "");
    assert_eq!(join_lines(&vec!["a".to_string()]), "a");
}

#[test]
fn ignore_patterns_follow_str_lines() {
    for text in ["", "\n", "a\n\nb\n", "a\r\nb", "  \n*.x\r\n\t\nlast\r", "x\r\r\ny", "\r\n\r\n"] {
        let expected: Vec<String> =
            text.lines().map(|s| s.to_string()).filter(|s| !s.trim().is_empty()).collect();
        assert_eq!(parse_ignore_patterns(text), expected, "{text:?}");
    }
}

#[test]
fn registry_and_window_style() {
    assert_eq!(app_value_name(), "ImmichAutoUploader");
    assert_eq!(run_key(), r"Software\Microsoft\Windows\CurrentVersion\Run");
    assert_eq!(run_value(r"C:\Apps\uploader.exe"), "\"C:\\Apps\\uploader.exe\"");
    let tool: isize = 0x80;
    let app: isize = 0x40000;
    assert_eq!(taskbar_style(app | 0x100, tool, app, true), (tool | 0x100, true));
    assert_eq!(taskbar_style(tool | 0x100, tool, app, false), (app | 0x100, true));
    assert_eq!(taskbar_style(tool, tool, app, true), (tool, false));
}

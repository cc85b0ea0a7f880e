use immich_auto_uploader::config::{Config, FolderConfig};
use immich_auto_uploader::process::LogEvent;
use immich_auto_uploader::logbuf::{LogBuffer, LOG_LIMIT};
use immich_auto_uploader::session::{
    chrono_like_timestamp, label_from_file_name, log_file_name, login_button_enabled, App,
    enabled_change, CliStatus, FolderState, LogTab, LoginStatus, WatchToggle,
};

#[test]
fn log_buffer_keeps_the_latest_lines() {
    let mut b = LogBuffer::new();
    for i in 0..(LOG_LIMIT + 3) {
        b.push_system(format!("l{i}"));
    }
    assert_eq!(b.len(), LOG_LIMIT);
    let lines = b.iter_display();
    assert_eq!(lines.len(), LOG_LIMIT);
    assert_eq!(lines[0], "l3");
    assert_eq!(lines[LOG_LIMIT - 1], format!("l{}", LOG_LIMIT + 2));
}

#[test]
fn log_buffer_partial_lines() {
    let mut b = LogBuffer::new();
    b.push_line("50%".to_string(), true);
    b.push_line("80%".to_string(), true);
    assert_eq!(b.iter_display(), vec!["80%".to_string()]);
    b.push_system("[system] x".to_string());
    assert_eq!(b.iter_display(), vec!["[system] x".to_string(), "80%".to_string()]);
    b.push_line("done".to_string(), false);
    assert_eq!(b.iter_display(), vec!["[system] x".to_string(), "done".to_string()]);
    b.clear();
    assert!(b.iter_display().is_empty());
    assert_eq!(b.len(), 0);
}

#[test]
fn folder_state_labels_and_colors() {
    assert_eq!(FolderState::Idle.label(), "● Idle");
    assert_eq!(FolderState::Watching.label(), "● Watching");
    assert_eq!(FolderState::Stopping.label(), "● Stopping");
    assert_eq!(FolderState::Error.label(), "● Error");
    assert_eq!(FolderState::Idle.rgb(), (160, 160, 160));
    assert_eq!(FolderState::Watching.rgb(), (80, 200, 120));
    assert_eq!(FolderState::Stopping.rgb(), (255, 255, 0));
    assert_eq!(FolderState::Error.rgb(), (220, 80, 80));
}

fn app_with_folder() -> (App, String) {
    let mut cfg = Config::default();
    let mut f = FolderConfig::new("/home/neo/Pictures".to_string());
    f.id = "f1".to_string();
    cfg.folders.push(f);
    let mut g = FolderConfig::new("/home/neo/Videos".to_string());
    g.id = "f2".to_string();
    g.enabled = false;
    cfg.folders.push(g);
    (App::new(cfg, Some("old file".to_string())), "f1".to_string())
}

#[test]
fn new_app_state() {
    let (app, id) = app_with_folder();
    assert_eq!(app.folder_state(&id), FolderState::Idle);
    assert_eq!(app.all_log.iter_display(), vec!["[warn] old file".to_string()]);
    assert_eq!(app.enabled_folder_ids(), vec!["f1".to_string()]);
    assert_eq!(app.folders_to_autostart(), vec!["f1".to_string()]);
    assert_eq!(app.folder_label("f1"), "Pictures");
    assert_eq!(app.folder_label("zz"), "zz");
    let app2 = App::new(Config::default(), None);
    assert!(app2.all_log.iter_display().is_empty());
}

#[test]
fn log_events_update_logs_and_states() {
    let (mut app, id) = app_with_folder();
    app.handle_log_event(LogEvent::Started { folder_id: id.clone(), pid: 77 });
    assert_eq!(app.folder_state(&id), FolderState::Watching);
    app.handle_log_event(LogEvent::Line { folder_id: id.clone(), line: "50%".to_string(), partial: true });
    app.handle_log_event(LogEvent::Line { folder_id: id.clone(), line: "done".to_string(), partial: false });
    app.handle_log_event(LogEvent::Exited { folder_id: id.clone(), code: Some(1), was_canceled: false });
    assert_eq!(app.folder_state(&id), FolderState::Error);
    app.selected_tab = LogTab::Folder(id.clone());
    assert_eq!(
        app.selected_log_lines(),
        vec![
            "[system] watcher started (pid=77)".to_string(),
            "done".to_string(),
            "[system] exit code=Some(1) canceled=false".to_string(),
        ]
    );
    app.selected_tab = LogTab::All;
    assert_eq!(
        app.selected_log_lines(),
        vec![
            "[warn] old file".to_string(),
            "[Pictures] [system] watcher started (pid=77)".to_string(),
            "[Pictures] done".to_string(),
            "[Pictures] [system] exit code=Some(1) canceled=false".to_string(),
        ]
    );
    app.handle_log_event(LogEvent::Exited { folder_id: id.clone(), code: Some(0), was_canceled: false });
    assert_eq!(app.folder_state(&id), FolderState::Idle);
    app.handle_log_event(LogEvent::Error { folder_id: id.clone(), message: "x".to_string() });
    assert_eq!(app.folder_state(&id), FolderState::Error);
    app.handle_log_event(LogEvent::Exited { folder_id: id.clone(), code: None, was_canceled: true });
    assert_eq!(app.folder_state(&id), FolderState::Idle);
    app.handle_log_event(LogEvent::Error { folder_id: "gone".to_string(), message: "m".to_string() });
    assert_eq!(app.folder_state("gone"), FolderState::Error);
    let lines = app.selected_log_lines();
    assert_eq!(lines.last().unwrap(), "[gone] [error] m");
    app.clear_selected_log();
    assert!(app.selected_log_lines().is_empty());
}

#[test]
fn folder_management() {
    let (mut app, id) = app_with_folder();
    let launch = app.prepare_watcher(&id).unwrap();
    assert_eq!(launch.folder.id, "f1");
    assert_eq!(launch.generation, 0);
    assert!(launch.auto_restart);
    assert_eq!(launch.max_attempts, 5);
    assert_eq!(launch.backoff_secs, 30);
    assert_eq!(app.folder_state(&id), FolderState::Watching);
    assert!(app.is_running(&id));
    assert_eq!(app.running_ids(), vec![id.clone()]);
    assert!(app.prepare_watcher(&id).is_none());
    assert!(app.prepare_watcher("nope").is_none());
    assert!(app.stop_watcher(&id));
    assert!(!app.stop_watcher(&id));
    assert_eq!(app.folder_state(&id), FolderState::Stopping);
    assert!(!app.is_running(&id));
    app.config.max_restart_attempts = 0;
    let again = app.prepare_watcher(&id).unwrap();
    assert_eq!(again.max_attempts, 1);
    assert_eq!(again.generation, 1);
    assert!(app.stop_watcher(&id));

    app.add_folder("/tmp/new".to_string());
    assert_eq!(app.config.folders.len(), 3);
    let new_id = app.config.folders[2].id.clone();
    assert_eq!(app.folder_state(&new_id), FolderState::Idle);
    assert!(app.take_pending_save());
    assert!(!app.take_pending_save());

    app.selected_tab = LogTab::Folder(id.clone());
    app.remove_folder(&id);
    assert_eq!(app.selected_tab, LogTab::All);
    assert_eq!(app.config.folders.len(), 2);
    assert!(app.config.folders.iter().all(|f| f.id != id));
    assert!(app.pending_save);

    let mut f = app.folder_settings(&new_id).unwrap();
    f.concurrency = 9;
    app.take_pending_save();
    app.update_folder(&new_id, f);
    assert_eq!(app.folder_settings(&new_id).unwrap().concurrency, 9);
    assert!(app.pending_save);

    app.toggle_edit(&new_id);
    assert_eq!(app.edit_folder.as_deref(), Some(new_id.as_str()));
    app.toggle_edit(&new_id);
    assert_eq!(app.edit_folder, None);
}

#[test]
fn window_and_settings_switches() {
    let (mut app, _) = app_with_folder();
    assert!(app.close_to_tray());
    assert!(app.minimized_to_tray);
    app.show_window();
    assert!(!app.minimized_to_tray);
    app.request_quit();
    assert!(!app.close_to_tray());

    let prev = app.settings_snapshot();
    assert!(!app.settings_edited(prev));
    assert!(!app.pending_save);
    app.config.start_on_boot = true;
    assert!(app.settings_edited(prev));
    assert!(app.pending_save);
    app.take_pending_save();
    let prev = app.settings_snapshot();
    app.config.restart_backoff_seconds = 60;
    assert!(!app.settings_edited(prev));
    assert!(app.pending_save);

    app.server_url_input = "http://h".to_string();
    app.apply_server_url();
    assert_eq!(app.config.server_url, "http://h");
    app.note_save_failed("disk full");
    app.note_autostart_failed("no reg");
    app.note_log_saved("/tmp/log.txt");
    app.note_log_save_failed("denied");
    let lines = app.all_log.iter_display();
    assert_eq!(
        lines[lines.len() - 4..].to_vec(),
        vec![
            "[warn] config 保存失敗: disk full".to_string(),
            "[warn] 自動起動設定失敗: no reg".to_string(),
            "[system] ログを保存しました: /tmp/log.txt".to_string(),
            "[warn] ログ保存失敗: denied".to_string(),
        ]
    );
}

#[test]
fn status_helpers() {
    assert!(matches!(CliStatus::from_check(Ok("1.0".to_string())), CliStatus::Found(v) if v == "1.0"));
    assert!(matches!(CliStatus::from_check(Err("e".to_string())), CliStatus::Missing(v) if v == "e"));
    assert!(matches!(LoginStatus::from_login(Ok(String::new())), LoginStatus::Succeeded(v) if v == "ログイン成功"));
    assert!(matches!(LoginStatus::from_login(Ok("hi".to_string())), LoginStatus::Succeeded(v) if v == "hi"));
    assert!(matches!(LoginStatus::from_login(Err("no".to_string())), LoginStatus::Failed(v) if v == "no"));
    let ok = CliStatus::Found("1".to_string());
    assert!(login_button_enabled(&ok, &LoginStatus::Idle, "http://x", "k"));
    assert!(!login_button_enabled(&ok, &LoginStatus::Running, "http://x", "k"));
    assert!(!login_button_enabled(&CliStatus::Unknown, &LoginStatus::Idle, "http://x", "k"));
    assert!(!login_button_enabled(&ok, &LoginStatus::Idle, " ", "k"));
    assert!(!login_button_enabled(&ok, &LoginStatus::Idle, "http://x", ""));
    assert_eq!(log_file_name("1700000000"), "immich-uploader-log-1700000000.txt");
    let ts = chrono_like_timestamp();
    assert!(!ts.is_empty() && ts.chars().all(|c| c.is_ascii_digit()));
    assert_eq!(label_from_file_name("/a/b", Some("b".to_string())), "b");
    assert_eq!(label_from_file_name("/", None), "/");
}

#[test]
fn watcher_end_frees_only_its_own_folder_entry() {
    let (mut app, id) = app_with_folder();
    let first = app.prepare_watcher(&id).unwrap();
    app.handle_log_event(LogEvent::Exited { folder_id: id.clone(), code: Some(1), was_canceled: false });
    assert!(app.is_running(&id));
    assert_eq!(app.folder_state(&id), FolderState::Error);
    assert!(app.watcher_ended(&id, first.generation));
    assert!(!app.is_running(&id));
    assert!(!app.watcher_ended(&id, first.generation));

    let second = app.prepare_watcher(&id).unwrap();
    assert!(app.stop_watcher(&id));
    let third = app.prepare_watcher(&id).unwrap();
    assert_ne!(second.generation, third.generation);
    assert!(!app.watcher_ended(&id, second.generation));
    assert!(app.is_running(&id));
}

#[test]
fn removing_a_folder_stops_its_watcher() {
    let (mut app, id) = app_with_folder();
    app.prepare_watcher(&id).unwrap();
    app.remove_folder(&id);
    assert!(!app.is_running(&id));
    assert!(app.running_ids().is_empty());
    assert!(app.folder_settings(&id).is_none());
}

#[test]
fn enabled_switch_commands() {
    assert_eq!(enabled_change(false, true), WatchToggle::Start);
    assert_eq!(enabled_change(true, false), WatchToggle::Stop);
    assert_eq!(enabled_change(true, true), WatchToggle::Keep);
    assert_eq!(enabled_change(false, false), WatchToggle::Keep);
}

#[test]
fn autostart_waits_for_a_found_cli() {
    let (app, _) = app_with_folder();
    assert!(app.folders_to_autostart_after_check(&CliStatus::Unknown).is_empty());
    assert!(app.folders_to_autostart_after_check(&CliStatus::Checking).is_empty());
    assert!(app.folders_to_autostart_after_check(&CliStatus::Missing("no".to_string())).is_empty());
    assert_eq!(app.folders_to_autostart_after_check(&CliStatus::Found("2.2".to_string())), vec!["f1".to_string()]);
}

#[test]
fn pause_all_stops_every_watcher_and_resume_all_lists_enabled_folders() {
    let (mut app, id) = app_with_folder();
    app.prepare_watcher(&id).unwrap();
    app.prepare_watcher("f2").unwrap();
    let mut stopped = app.pause_all();
    stopped.sort();
    assert_eq!(stopped, vec!["f1".to_string(), "f2".to_string()]);
    assert!(app.tray_pause_all_active);
    assert!(app.running_ids().is_empty());
    assert_eq!(app.folder_state("f1"), FolderState::Stopping);
    assert_eq!(app.folder_state("f2"), FolderState::Stopping);
    assert!(app.pause_all().is_empty());
    assert_eq!(app.resume_all(), vec!["f1".to_string()]);
    assert!(!app.tray_pause_all_active);
    assert!(app.running_ids().is_empty());
}

#[test]
fn folder_label_is_the_last_path_component() {
    let mut cfg = Config::default();
    let mut f = FolderConfig::new("C:/pics/VRChat/".to_string());
    f.id = "v".to_string();
    cfg.folders.push(f);
    let app = App::new(cfg, None);
    assert_eq!(app.folder_label("v"), "VRChat");
}


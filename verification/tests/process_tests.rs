use immich_auto_uploader::config::{AlbumMode, FolderConfig};
use immich_auto_uploader::process::{
    build_upload_args, sync_exited_event, sync_failed_event, sync_started_event, ChildOutcome, LogEvent, StreamForwarder, WatcherCommand,
    WatcherEvent, WatcherLoop, WatcherPhase,
};

fn folder(path: &str) -> FolderConfig {
    let mut f = FolderConfig::new(path.to_string());
    f.id = "f1".to_string();
    f
}

fn args(f: &FolderConfig, watch: bool) -> Vec<String> {
    build_upload_args(f, watch)
}

#[test]
fn default_folder_args() {
    let f = folder("C:\\Pics");
    assert_eq!(args(&f, true), vec!["upload", "--watch", "--recursive", "--concurrency", "4", "C:\\Pics"]);
    assert_eq!(args(&f, false), vec!["upload", "--recursive", "--concurrency", "4", "C:\\Pics"]);
}

#[test]
fn all_options_in_order() {
    let mut f = folder("/data/photos");
    f.recursive = false;
    f.include_hidden = true;
    f.concurrency = 12;
    f.album_mode = AlbumMode::Named;
    f.album_name = "Trip 2024".to_string();
    f.ignore_patterns = vec!["*.tmp".to_string(), "  ".to_string(), "Thumbs.db".to_string()];
    assert_eq!(
        args(&f, true),
        vec![
            "upload", "--watch", "--include-hidden", "--concurrency", "12", "--album-name", "Trip 2024",
            "--ignore", "*.tmp", "--ignore", "Thumbs.db", "/data/photos"
        ]
    );
}

#[test]
fn album_modes() {
    let mut f = folder("p");
    f.album_mode = AlbumMode::FromFolder;
    f.album_name = "ignored".to_string();
    assert_eq!(args(&f, false), vec!["upload", "--recursive", "--concurrency", "4", "--album", "p"]);
    f.album_mode = AlbumMode::Named;
    f.album_name = " \t".to_string();
    assert_eq!(args(&f, false), vec!["upload", "--recursive", "--concurrency", "4", "p"]);
    f.album_mode = AlbumMode::NoAlbum;
    f.album_name = "x".to_string();
    assert_eq!(args(&f, false), vec!["upload", "--recursive", "--concurrency", "4", "p"]);
}

fn messages(evs: &[LogEvent]) -> Vec<String> {
    evs.iter()
        .map(|e| match e {
            LogEvent::Line { line, partial, .. } => format!("line:{line}:{partial}"),
            LogEvent::Started { pid, .. } => format!("started:{pid}"),
            LogEvent::Exited { code, was_canceled, .. } => format!("exited:{code:?}:{was_canceled}"),
            LogEvent::Error { message, .. } => format!("error:{message}"),
        })
        .collect()
}

#[test]
fn watcher_restarts_then_gives_up() {
    let mut w = WatcherLoop::new("f1".to_string(), true, 2, 30);
    let (e, c) = w.step(WatcherEvent::Spawned(42));
    assert_eq!(messages(&e), vec!["started:42"]);
    assert_eq!(c, WatcherCommand::AwaitChild);
    let (e, c) = w.step(WatcherEvent::ChildFinished(ChildOutcome::Exited(Some(1))));
    assert_eq!(messages(&e), vec!["exited:Some(1):false", "error:30 秒後に再起動します (試行 1/2)"]);
    assert_eq!(c, WatcherCommand::Backoff(30));
    let (e, c) = w.step(WatcherEvent::BackoffElapsed);
    assert!(e.is_empty());
    assert_eq!(c, WatcherCommand::Launch);
    let (_, c) = w.step(WatcherEvent::Spawned(43));
    assert_eq!(c, WatcherCommand::AwaitChild);
    let (e, c) = w.step(WatcherEvent::ChildFinished(ChildOutcome::WaitFailed("boom".to_string())));
    assert_eq!(
        messages(&e),
        vec!["error:子プロセス wait 失敗: boom", "exited:None:false", "error:30 秒後に再起動します (試行 2/2)"]
    );
    assert_eq!(c, WatcherCommand::Backoff(30));
    assert_eq!(w.step(WatcherEvent::BackoffElapsed).1, WatcherCommand::Launch);
    assert_eq!(w.step(WatcherEvent::Spawned(44)).1, WatcherCommand::AwaitChild);
    let (e, c) = w.step(WatcherEvent::ChildFinished(ChildOutcome::Exited(Some(2))));
    assert_eq!(
        messages(&e),
        vec!["exited:Some(2):false", "error:最大再試行回数 2 に達しました。停止します"]
    );
    assert_eq!(c, WatcherCommand::Stop);
    assert_eq!(w.phase, WatcherPhase::Stopped);
    assert_eq!(w.attempts, 2);
    let (e, c) = w.step(WatcherEvent::Spawned(1));
    assert!(e.is_empty());
    assert_eq!(c, WatcherCommand::Stop);
}

#[test]
fn watcher_cancel_and_no_restart() {
    let mut w = WatcherLoop::new("f1".to_string(), true, 5, 10);
    w.step(WatcherEvent::Spawned(7));
    let (e, c) = w.step(WatcherEvent::ChildFinished(ChildOutcome::Canceled));
    assert_eq!(messages(&e), vec!["exited:None:true"]);
    assert_eq!(c, WatcherCommand::Stop);

    let mut w = WatcherLoop::new("f1".to_string(), false, 5, 10);
    w.step(WatcherEvent::Spawned(7));
    let (e, c) = w.step(WatcherEvent::ChildFinished(ChildOutcome::Exited(Some(0))));
    assert_eq!(messages(&e), vec!["exited:Some(0):false"]);
    assert_eq!(c, WatcherCommand::Stop);

    let mut w = WatcherLoop::new("f1".to_string(), true, 5, 10);
    w.step(WatcherEvent::Spawned(7));
    w.step(WatcherEvent::ChildFinished(ChildOutcome::Exited(None)));
    let (e, c) = w.step(WatcherEvent::CanceledDuringBackoff);
    assert!(e.is_empty());
    assert_eq!(c, WatcherCommand::Stop);
}

#[test]
fn watcher_launch_failures_stop() {
    let mut w = WatcherLoop::new("f1".to_string(), true, 5, 10);
    let (e, c) = w.step(WatcherEvent::CommandUnavailable("not found".to_string()));
    assert_eq!(messages(&e), vec!["error:immich コマンド解決失敗: not found"]);
    assert_eq!(c, WatcherCommand::Stop);
    let mut w = WatcherLoop::new("f1".to_string(), true, 5, 10);
    let (e, c) = w.step(WatcherEvent::SpawnFailed("denied".to_string()));
    assert_eq!(messages(&e), vec!["error:immich プロセス起動失敗: denied"]);
    assert_eq!(c, WatcherCommand::Stop);
}

#[test]
fn watcher_runs_once_more_than_max_attempts() {
    for max in 0..5u32 {
        let mut w = WatcherLoop::new("f".to_string(), true, max, 0);
        let mut runs = 0;
        let mut cmd = WatcherCommand::Launch;
        for _ in 0..80 {
            let ev = match cmd {
                WatcherCommand::Launch => {
                    runs += 1;
                    WatcherEvent::Spawned(1)
                }
                WatcherCommand::AwaitChild => WatcherEvent::ChildFinished(ChildOutcome::Exited(Some(1))),
                WatcherCommand::Backoff(_) => WatcherEvent::BackoffElapsed,
                WatcherCommand::Stop => break,
            };
            cmd = w.step(ev).1;
        }
        assert_eq!(runs, max + 1);
        assert_eq!(w.phase, WatcherPhase::Stopped);
    }
}

#[test]
fn forwarder_reports_lines_and_partial() {
    let mut f = StreamForwarder::new("f1".to_string());
    let e = f.on_chunk(b"a\nb\rc");
    assert_eq!(messages(&e), vec!["line:a:false", "line:c:true"]);
    let e = f.on_chunk(b"\x1b[32m");
    assert_eq!(messages(&e), vec!["line:c:true"]);
    let e = f.on_end();
    assert_eq!(messages(&e), vec!["line:c:false"]);
    let e = f.on_chunk(b"\n");
    assert_eq!(messages(&e), vec!["line:c:false"]);
    assert!(f.on_end().is_empty());
}

#[test]
fn forwarder_keeps_sequences_cut_between_chunks() {
    let mut f = StreamForwarder::new("f1".to_string());
    assert_eq!(messages(&f.on_chunk(b"ab\x1b[")), vec!["line:ab:true"]);
    assert_eq!(messages(&f.on_chunk(b"2Kxy\n")), vec!["line:xy:false"]);
    assert_eq!(messages(&f.on_chunk(b"caf\xc3")), vec!["line:caf:true"]);
    assert_eq!(messages(&f.on_chunk(b"\xa9\n")), vec!["line:caf\u{e9}:false"]);
}

#[test]
fn sync_failure_event() {
    let e = sync_failed_event("f9", "spawn error");
    assert_eq!(messages(&[e.clone()]), vec!["error:Sync Now 失敗: spawn error"]);
    assert_eq!(e.folder_id(), "f9");
}

#[test]
fn one_off_upload_events() {
    assert_eq!(messages(&[sync_started_event("f3", 12)]), vec!["started:12"]);
    assert_eq!(sync_started_event("f3", 12).folder_id(), "f3");
    let e = sync_exited_event("f3", Some(2));
    assert_eq!(messages(&[e.clone()]), vec!["exited:Some(2):false"]);
    assert_eq!(e.folder_id(), "f3");
}


//! What is run for a folder and what its runs report: the command line of an
//! upload, the log events, the lines forwarded from a child's output, and the
//! decisions of the loop that keeps a watcher running.
use vstd::prelude::*;
use vstd::string::*;
use crate::ansi::{apply_actions, vte_actions, vte_parser_after, LineProcessor};
use crate::config::{strings_view, AlbumMode, FolderConfig, FolderConfigView};
use crate::text::{decimal_spec, is_blank, push_decimal, push_str, trim_spec, decimal_string};

verus! {

broadcast use vstd::string::group_string_axioms;

/// Something a folder's process reported.
#[derive(Clone, Debug)]
pub enum LogEvent {
    /// A line of output; `partial` when it is the line still being written.
    Line { folder_id: String, line: String, partial: bool },
    /// A process was started.
    Started { folder_id: String, pid: u32 },
    /// A process ended, with its exit code where it had one.
    Exited { folder_id: String, code: Option<i32>, was_canceled: bool },
    /// Something went wrong.
    Error { folder_id: String, message: String },
}

impl LogEvent {
    /// The folder the event is about.
    pub fn folder_id(&self) -> (r: &String)
        ensures
            r@ == match self@ {
                LogEventView::Line { folder_id, .. } => folder_id,
                LogEventView::Started { folder_id, .. } => folder_id,
                LogEventView::Exited { folder_id, .. } => folder_id,
                LogEventView::Error { folder_id, .. } => folder_id,
            },
    {
        match self {
            LogEvent::Line { folder_id, .. } => folder_id,
            LogEvent::Started { folder_id, .. } => folder_id,
            LogEvent::Exited { folder_id, .. } => folder_id,
            LogEvent::Error { folder_id, .. } => folder_id,
        }
    }
}

/// A log event as mathematical values.
pub enum LogEventView {
    Line { folder_id: Seq<char>, line: Seq<char>, partial: bool },
    Started { folder_id: Seq<char>, pid: u32 },
    Exited { folder_id: Seq<char>, code: Option<i32>, was_canceled: bool },
    Error { folder_id: Seq<char>, message: Seq<char> },
}

impl View for LogEvent {
    type V = LogEventView;

    open spec fn view(&self) -> LogEventView {
        match self {
            LogEvent::Line { folder_id, line, partial } => LogEventView::Line {
                folder_id: folder_id@,
                line: line@,
                partial: *partial,
            },
            LogEvent::Started { folder_id, pid } => LogEventView::Started {
                folder_id: folder_id@,
                pid: *pid,
            },
            LogEvent::Exited { folder_id, code, was_canceled } => LogEventView::Exited {
                folder_id: folder_id@,
                code: *code,
                was_canceled: *was_canceled,
            },
            LogEvent::Error { folder_id, message } => LogEventView::Error {
                folder_id: folder_id@,
                message: message@,
            },
        }
    }
}

/// The views of the events of `v`.
pub open spec fn events_view(v: Seq<LogEvent>) -> Seq<LogEventView> {
    v.map_values(|e: LogEvent| e@)
}

/// The album options of a folder: `--album` for an album named after the
/// folder, `--album-name` and the name for a named album whose name is not
/// blank, nothing otherwise.
pub open spec fn album_args_spec(f: FolderConfigView) -> Seq<Seq<char>> {
    match f.album_mode {
        AlbumMode::NoAlbum => Seq::empty(),
        AlbumMode::FromFolder => seq!["--album"@],
        AlbumMode::Named => if trim_spec(f.album_name).len() > 0 {
            seq!["--album-name"@, f.album_name]
        } else {
            Seq::empty()
        },
    }
}

/// `--ignore` and the pattern, for each pattern that is not blank, in order.
pub open spec fn ignore_args_spec(patterns: Seq<Seq<char>>) -> Seq<Seq<char>>
    decreases patterns.len(),
{
    if patterns.len() == 0 {
        Seq::empty()
    } else {
        let rest = ignore_args_spec(patterns.drop_last());
        if trim_spec(patterns.last()).len() > 0 {
            rest + seq!["--ignore"@, patterns.last()]
        } else {
            rest
        }
    }
}

/// The arguments of `immich` that upload folder `f`: `upload`, `--watch` for a
/// watcher, `--recursive` and `--include-hidden` where set, the concurrency,
/// the album options, the ignore patterns, and last the folder's path.
pub open spec fn upload_args_spec(f: FolderConfigView, watch: bool) -> Seq<Seq<char>> {
    seq!["upload"@] + (if watch {
        seq!["--watch"@]
    } else {
        Seq::empty()
    }) + (if f.recursive {
        seq!["--recursive"@]
    } else {
        Seq::empty()
    }) + (if f.include_hidden {
        seq!["--include-hidden"@]
    } else {
        Seq::empty()
    }) + seq!["--concurrency"@, decimal_spec(f.concurrency as nat)] + album_args_spec(f)
        + ignore_args_spec(f.ignore_patterns) + seq![f.path]
}

/// The arguments of an upload of `f` after its switches: the concurrency,
/// the album options, the ignore patterns and the path.
pub open spec fn upload_tail_spec(f: FolderConfigView) -> Seq<Seq<char>> {
    seq!["--concurrency"@, decimal_spec(f.concurrency as nat)] + album_args_spec(f)
        + ignore_args_spec(f.ignore_patterns) + seq![f.path]
}

proof fn lemma_insert_between<A>(a: Seq<A>, b: Seq<A>, x: A)
    ensures
        (a + b).insert(a.len() as int, x) == a.push(x) + b,
{
    assert((a + b).insert(a.len() as int, x) =~= a.push(x) + b);
}

proof fn lemma_upload_args_parts(f: FolderConfigView, watch: bool)
    ensures
        upload_args_spec(f, watch) == seq!["upload"@] + (if watch {
            seq!["--watch"@]
        } else {
            Seq::empty()
        }) + (if f.recursive {
            seq!["--recursive"@]
        } else {
            Seq::empty()
        }) + (if f.include_hidden {
            seq!["--include-hidden"@]
        } else {
            Seq::empty()
        }) + upload_tail_spec(f),
{
    let h = seq!["upload"@] + (if watch {
        seq!["--watch"@]
    } else {
        Seq::empty()
    }) + (if f.recursive {
        seq!["--recursive"@]
    } else {
        Seq::empty()
    }) + (if f.include_hidden {
        seq!["--include-hidden"@]
    } else {
        Seq::empty()
    });
    let c = seq!["--concurrency"@, decimal_spec(f.concurrency as nat)];
    let al = album_args_spec(f);
    let ig = ignore_args_spec(f.ignore_patterns);
    let p = seq![f.path];
    assert(((((h + c) + al) + ig) + p) =~= h + (((c + al) + ig) + p));
}

/// Each switch of a folder adds exactly its own option and nothing else:
/// setting `--watch`, `--recursive` or `--include-hidden` inserts that one
/// argument at its place (after `upload`, then `--watch`, then
/// `--recursive`) into the arguments without it, whatever the other
/// settings are.
pub proof fn lemma_switches_add_their_options(f: FolderConfigView, watch: bool)
    ensures
        upload_args_spec(f, true) == upload_args_spec(f, false).insert(1, "--watch"@),
        upload_args_spec(FolderConfigView { recursive: true, ..f }, watch) == upload_args_spec(
            FolderConfigView { recursive: false, ..f },
            watch,
        ).insert(if watch { 2 } else { 1 }, "--recursive"@),
        upload_args_spec(FolderConfigView { include_hidden: true, ..f }, watch) == upload_args_spec(
            FolderConfigView { include_hidden: false, ..f },
            watch,
        ).insert((if watch { 2int } else { 1int }) + if f.recursive { 1int } else { 0int }, "--include-hidden"@),
{
    let e = Seq::<Seq<char>>::empty();
    let u = seq!["upload"@];
    let w = if watch { seq!["--watch"@] } else { e };
    let r = if f.recursive { seq!["--recursive"@] } else { e };
    let hd = if f.include_hidden { seq!["--include-hidden"@] } else { e };
    let t = upload_tail_spec(f);
    // --watch
    lemma_upload_args_parts(f, true);
    lemma_upload_args_parts(f, false);
    assert(u + e =~= u);
    let rest = r + hd + t;
    assert(upload_args_spec(f, true) =~= u.push("--watch"@) + rest);
    assert(upload_args_spec(f, false) =~= u + rest);
    lemma_insert_between(u, rest, "--watch"@);
    // --recursive
    let f_r = FolderConfigView { recursive: true, ..f };
    let f_nr = FolderConfigView { recursive: false, ..f };
    lemma_upload_args_parts(f_r, watch);
    lemma_upload_args_parts(f_nr, watch);
    assert(upload_tail_spec(f_r) == t);
    assert(upload_tail_spec(f_nr) == t);
    let uw = u + w;
    assert(uw.len() == if watch { 2int } else { 1int });
    assert(upload_args_spec(f_r, watch) =~= uw.push("--recursive"@) + (hd + t));
    assert(upload_args_spec(f_nr, watch) =~= uw + (hd + t));
    lemma_insert_between(uw, hd + t, "--recursive"@);
    // --include-hidden
    let f_h = FolderConfigView { include_hidden: true, ..f };
    let f_nh = FolderConfigView { include_hidden: false, ..f };
    lemma_upload_args_parts(f_h, watch);
    lemma_upload_args_parts(f_nh, watch);
    assert(upload_tail_spec(f_h) == t);
    assert(upload_tail_spec(f_nh) == t);
    let uwr = u + w + r;
    assert(uwr.len() == (if watch { 2int } else { 1int }) + if f.recursive { 1int } else { 0int });
    assert(upload_args_spec(f_h, watch) =~= uwr.push("--include-hidden"@) + t);
    assert(upload_args_spec(f_nh, watch) =~= uwr + t);
    lemma_insert_between(uwr, t, "--include-hidden"@);
}

/// The album options of an upload are exclusive: nothing, `--album` alone, or
/// `--album-name` followed by the album's name; the two flags never both
/// stand among the options.
pub proof fn lemma_album_options_exclusive(f: FolderConfigView)
    ensures
        album_args_spec(f) == Seq::<Seq<char>>::empty() || album_args_spec(f) == seq!["--album"@]
            || (album_args_spec(f) == seq!["--album-name"@, f.album_name] && f.album_mode
            == AlbumMode::Named),
        album_args_spec(f).len() > 0 ==> (album_args_spec(f)[0] == "--album"@ <==> f.album_mode
            == AlbumMode::FromFolder),
{
    reveal_strlit("--album");
    reveal_strlit("--album-name");
    if album_args_spec(f).len() > 0 && f.album_mode == AlbumMode::Named {
        assert(("--album-name"@).len() != ("--album"@).len());
    }
}

/// Each pattern that is not blank gives exactly one `--ignore` with the
/// pattern, and blank patterns give nothing: no patterns, no option.
pub proof fn lemma_ignore_args_count(patterns: Seq<Seq<char>>)
    ensures
        ignore_args_spec(patterns).len() == 2 * crate::labels::non_blank_spec(patterns).len(),
    decreases patterns.len(),
{
    if patterns.len() > 0 {
        lemma_ignore_args_count(patterns.drop_last());
        crate::text::lemma_blank_iff_trim_empty(patterns.last());
    }
}

/// A watcher's arguments are those of a one-off upload with `--watch` right
/// after `upload`, and the folder's path always comes last.
pub proof fn lemma_watch_adds_only_watch_flag(f: FolderConfigView)
    ensures
        upload_args_spec(f, true) == seq!["upload"@, "--watch"@] + upload_args_spec(f, false).drop_first(),
        upload_args_spec(f, true).last() == f.path,
        upload_args_spec(f, false).last() == f.path,
        upload_args_spec(f, false)[0] == "upload"@,
{
    assert(upload_args_spec(f, true) =~= seq!["upload"@, "--watch"@] + upload_args_spec(f, false).drop_first());
}

fn push_arg(args: &mut Vec<String>, arg: String)
    ensures
        strings_view(final(args)@) == strings_view(old(args)@).push(arg@),
{
    args.push(arg);
    assert(strings_view(args@) =~= strings_view(old(args)@).push(arg@));
}

/// The arguments for uploading `folder` with the Immich CLI; with `watch` the
/// CLI keeps running and uploads files as they appear.
pub fn build_upload_args(folder: &FolderConfig, watch: bool) -> (args: Vec<String>)
    ensures
        strings_view(args@) == upload_args_spec(folder@, watch),
{
    let mut args: Vec<String> = Vec::new();
    push_arg(&mut args, String::from_str("upload"));
    if watch {
        push_arg(&mut args, String::from_str("--watch"));
    }
    if folder.recursive {
        push_arg(&mut args, String::from_str("--recursive"));
    }
    if folder.include_hidden {
        push_arg(&mut args, String::from_str("--include-hidden"));
    }
    push_arg(&mut args, String::from_str("--concurrency"));
    push_arg(&mut args, decimal_string(folder.concurrency as u64));
    match folder.album_mode {
        AlbumMode::NoAlbum => {},
        AlbumMode::FromFolder => {
            push_arg(&mut args, String::from_str("--album"));
        },
        AlbumMode::Named => {
            if !is_blank(folder.album_name.as_str()) {
                push_arg(&mut args, String::from_str("--album-name"));
                push_arg(&mut args, folder.album_name.clone());
            }
        },
    }
    let ghost head = strings_view(args@);
    let mut i: usize = 0;
    while i < folder.ignore_patterns.len()
        invariant
            i <= folder.ignore_patterns@.len(),
            strings_view(args@) == head + ignore_args_spec(
                strings_view(folder.ignore_patterns@).take(i as int),
            ),
        decreases folder.ignore_patterns.len() - i,
    {
        let ghost pats = strings_view(folder.ignore_patterns@);
        assert(pats.take(i + 1).drop_last() =~= pats.take(i as int));
        assert(pats.take(i + 1).last() == folder.ignore_patterns@[i as int]@);
        let pat = &folder.ignore_patterns[i];
        if !is_blank(pat.as_str()) {
            push_arg(&mut args, String::from_str("--ignore"));
            push_arg(&mut args, pat.clone());
            assert(strings_view(args@) =~= head + ignore_args_spec(pats.take(i + 1)));
        }
        i = i + 1;
    }
    assert(strings_view(folder.ignore_patterns@).take(folder.ignore_patterns@.len() as int)
        =~= strings_view(folder.ignore_patterns@));
    push_arg(&mut args, folder.path.clone());
    assert(strings_view(args@) =~= upload_args_spec(folder@, watch));
    args
}


/// How a watched child process came to an end.
#[derive(Clone, Debug)]
pub enum ChildOutcome {
    /// It exited, with its exit code where it had one.
    Exited(Option<i32>),
    /// Waiting for it failed; the error's text.
    WaitFailed(String),
    /// The watcher was asked to stop, and the process was killed.
    Canceled,
}

/// What happened to a watcher since its last step.
#[derive(Clone, Debug)]
pub enum WatcherEvent {
    /// The `immich` command could not be resolved; the error's text.
    CommandUnavailable(String),
    /// The process could not be started; the error's text.
    SpawnFailed(String),
    /// The process was started with this id (0 where the system gave none).
    Spawned(u32),
    /// The process ended and its output has been forwarded.
    ChildFinished(ChildOutcome),
    /// The pause before a restart is over.
    BackoffElapsed,
    /// The watcher was asked to stop during the pause before a restart.
    CanceledDuringBackoff,
}

/// What the runner of a watcher is to do next.
#[derive(Clone, Copy, Debug, PartialEq, Eq, Structural)]
pub enum WatcherCommand {
    /// Start the upload process with the watcher's arguments.
    Launch,
    /// Wait for the process to end (or for a request to stop).
    AwaitChild,
    /// Wait this many seconds (or for a request to stop).
    Backoff(u64),
    /// Stop for good.
    Stop,
}

/// Where a watcher stands.
#[derive(Clone, Copy, Debug, PartialEq, Eq, Structural)]
pub enum WatcherPhase {
    Launching,
    Running,
    BackingOff,
    Stopped,
}

/// The decisions of one folder's watcher: it starts the upload process, and
/// when the process fails (ends for another reason than a request to stop),
/// starts it again after a pause, as long as restarts are on and fewer than
/// `max_attempts` restarts were made.
pub struct WatcherLoop {
    pub folder_id: String,
    pub auto_restart: bool,
    pub max_attempts: u32,
    pub backoff_secs: u64,
    pub attempts: u32,
    pub phase: WatcherPhase,
}

/// The message when the `immich` command cannot be resolved.
pub open spec fn command_failed_message(e: Seq<char>) -> Seq<char> {
    "immich コマンド解決失敗: "@ + e
}

/// The message when the process cannot be started.
pub open spec fn spawn_failed_message(e: Seq<char>) -> Seq<char> {
    "immich プロセス起動失敗: "@ + e
}

/// The message when waiting for the process fails.
pub open spec fn wait_failed_message(e: Seq<char>) -> Seq<char> {
    "子プロセス wait 失敗: "@ + e
}

/// The message when the restarts are used up.
pub open spec fn give_up_message(max: u32) -> Seq<char> {
    "最大再試行回数 "@ + decimal_spec(max as nat) + " に達しました。停止します"@
}

/// The message announcing restart number `attempt` of at most `max`.
pub open spec fn restart_message(backoff: u64, attempt: u32, max: u32) -> Seq<char> {
    decimal_spec(backoff as nat) + " 秒後に再起動します (試行 "@ + decimal_spec(attempt as nat)
        + "/"@ + decimal_spec(max as nat) + ")"@
}

/// The command that belongs to a phase.
pub open spec fn phase_command(phase: WatcherPhase, backoff: u64) -> WatcherCommand {
    match phase {
        WatcherPhase::Launching => WatcherCommand::Launch,
        WatcherPhase::Running => WatcherCommand::AwaitChild,
        WatcherPhase::BackingOff => WatcherCommand::Backoff(backoff),
        WatcherPhase::Stopped => WatcherCommand::Stop,
    }
}

/// One step of a watcher in phase `phase` that has made `attempts` restarts:
/// the new restart count, the new phase, the events to report and the
/// command. An event that does not fit the phase changes nothing.
pub open spec fn watcher_step_spec(
    folder_id: Seq<char>,
    auto_restart: bool,
    max: u32,
    backoff: u64,
    attempts: u32,
    phase: WatcherPhase,
    ev: WatcherEvent,
) -> (u32, WatcherPhase, Seq<LogEventView>, WatcherCommand) {
    let unchanged = (attempts, phase, Seq::<LogEventView>::empty(), phase_command(phase, backoff));
    let stop = |events: Seq<LogEventView>| (attempts, WatcherPhase::Stopped, events, WatcherCommand::Stop);
    match phase {
        WatcherPhase::Launching => match ev {
            WatcherEvent::CommandUnavailable(e) => stop(
                seq![LogEventView::Error { folder_id, message: command_failed_message(e@) }],
            ),
            WatcherEvent::SpawnFailed(e) => stop(
                seq![LogEventView::Error { folder_id, message: spawn_failed_message(e@) }],
            ),
            WatcherEvent::Spawned(pid) => (
                attempts,
                WatcherPhase::Running,
                seq![LogEventView::Started { folder_id, pid }],
                WatcherCommand::AwaitChild,
            ),
            _ => unchanged,
        },
        WatcherPhase::Running => match ev {
            WatcherEvent::ChildFinished(outcome) => {
                let (code, canceled, first) = match outcome {
                    ChildOutcome::Exited(c) => (c, false, Seq::<LogEventView>::empty()),
                    ChildOutcome::WaitFailed(e) => (
                        None,
                        false,
                        seq![LogEventView::Error { folder_id, message: wait_failed_message(e@) }],
                    ),
                    ChildOutcome::Canceled => (None, true, Seq::<LogEventView>::empty()),
                };
                let exited = first + seq![
                    LogEventView::Exited { folder_id, code, was_canceled: canceled },
                ];
                if canceled || !auto_restart {
                    stop(exited)
                } else if attempts >= max {
                    stop(exited.push(LogEventView::Error { folder_id, message: give_up_message(max) }))
                } else {
                    (
                        (attempts + 1) as u32,
                        WatcherPhase::BackingOff,
                        exited.push(
                            LogEventView::Error {
                                folder_id,
                                message: restart_message(backoff, (attempts + 1) as u32, max),
                            },
                        ),
                        WatcherCommand::Backoff(backoff),
                    )
                }
            },
            _ => unchanged,
        },
        WatcherPhase::BackingOff => match ev {
            WatcherEvent::BackoffElapsed => (
                attempts,
                WatcherPhase::Launching,
                Seq::empty(),
                WatcherCommand::Launch,
            ),
            WatcherEvent::CanceledDuringBackoff => stop(Seq::empty()),
            _ => unchanged,
        },
        WatcherPhase::Stopped => unchanged,
    }
}

/// The restart count, phase and number of launches after the first (moves
/// from the pause to a new launch) of a watcher that takes in the events
/// `evs` in order.
pub open spec fn watcher_run_spec(
    folder_id: Seq<char>,
    auto_restart: bool,
    max: u32,
    backoff: u64,
    attempts: u32,
    phase: WatcherPhase,
    evs: Seq<WatcherEvent>,
) -> (u32, WatcherPhase, nat)
    decreases evs.len(),
{
    if evs.len() == 0 {
        (attempts, phase, 0)
    } else {
        let prev = watcher_run_spec(folder_id, auto_restart, max, backoff, attempts, phase, evs.drop_last());
        let r = watcher_step_spec(folder_id, auto_restart, max, backoff, prev.0, prev.1, evs.last());
        (
            r.0,
            r.1,
            prev.2 + if prev.1 == WatcherPhase::BackingOff && r.1 == WatcherPhase::Launching {
                1nat
            } else {
                0nat
            },
        )
    }
}

proof fn lemma_watcher_run_invariant(
    folder_id: Seq<char>,
    auto_restart: bool,
    max: u32,
    backoff: u64,
    evs: Seq<WatcherEvent>,
)
    ensures
        ({
            let r = watcher_run_spec(folder_id, auto_restart, max, backoff, 0, WatcherPhase::Launching, evs);
            &&& r.2 <= r.0 <= max
            &&& r.1 == WatcherPhase::BackingOff ==> r.2 < r.0
        }),
    decreases evs.len(),
{
    if evs.len() > 0 {
        lemma_watcher_run_invariant(folder_id, auto_restart, max, backoff, evs.drop_last());
    }
}

/// A watcher restarts the upload process at most `max_attempts` times, so it
/// runs it at most `max_attempts + 1` times: whatever events it takes in after
/// it is made, its restarts number no more than the restarts it counted, and
/// those no more than `max_attempts`.
pub proof fn lemma_watcher_runs_bounded(
    folder_id: Seq<char>,
    auto_restart: bool,
    max_attempts: u32,
    backoff_secs: u64,
    evs: Seq<WatcherEvent>,
)
    ensures
        ({
            let r = watcher_run_spec(folder_id, auto_restart, max_attempts, backoff_secs, 0, WatcherPhase::Launching, evs);
            &&& r.2 <= r.0
            &&& r.0 <= max_attempts
        }),
{
    lemma_watcher_run_invariant(folder_id, auto_restart, max_attempts, backoff_secs, evs);
}

/// A failed run is restarted while restarts are left: with restarts on, a
/// process that ends without a request to stop, after fewer than
/// `max_attempts` restarts, leads to a pause and then a new launch; once
/// `max_attempts` restarts were made, the watcher gives up.
pub proof fn lemma_watcher_failed_run_restarts(
    folder_id: Seq<char>,
    max: u32,
    backoff: u64,
    attempts: u32,
    code: Option<i32>,
)
    ensures
        ({
            let r = watcher_step_spec(folder_id, true, max, backoff, attempts, WatcherPhase::Running,
                WatcherEvent::ChildFinished(ChildOutcome::Exited(code)));
            &&& attempts < max ==> r.0 == attempts + 1 && r.1 == WatcherPhase::BackingOff
                && r.3 == WatcherCommand::Backoff(backoff)
                && watcher_step_spec(folder_id, true, max, backoff, r.0, r.1,
                    WatcherEvent::BackoffElapsed).3 == WatcherCommand::Launch
            &&& attempts >= max ==> r.1 == WatcherPhase::Stopped && r.3 == WatcherCommand::Stop
        }),
{
}

/// Once stopped, a watcher stays stopped: it reports nothing more and only
/// says stop.
pub proof fn lemma_watcher_stopped_is_final(
    folder_id: Seq<char>,
    auto_restart: bool,
    max: u32,
    backoff: u64,
    attempts: u32,
    ev: WatcherEvent,
)
    ensures
        watcher_step_spec(folder_id, auto_restart, max, backoff, attempts, WatcherPhase::Stopped, ev)
            == (attempts, WatcherPhase::Stopped, Seq::<LogEventView>::empty(), WatcherCommand::Stop),
{
}

/// A watcher says stop exactly when it is stopped after the step, so the
/// loop that runs it ends exactly when the watcher has stopped for good.
pub proof fn lemma_watcher_stop_command_iff_stopped(
    folder_id: Seq<char>,
    auto_restart: bool,
    max: u32,
    backoff: u64,
    attempts: u32,
    phase: WatcherPhase,
    ev: WatcherEvent,
)
    ensures
        ({
            let r = watcher_step_spec(folder_id, auto_restart, max, backoff, attempts, phase, ev);
            r.3 == WatcherCommand::Stop <==> r.1 == WatcherPhase::Stopped
        }),
{
}

/// A request to stop is always obeyed: a run canceled while it runs, or a
/// cancel during the pause, stops the watcher whatever the restart settings.
pub proof fn lemma_watcher_cancel_stops(
    folder_id: Seq<char>,
    auto_restart: bool,
    max: u32,
    backoff: u64,
    attempts: u32,
)
    ensures
        watcher_step_spec(folder_id, auto_restart, max, backoff, attempts, WatcherPhase::Running,
            WatcherEvent::ChildFinished(ChildOutcome::Canceled)).1 == WatcherPhase::Stopped,
        watcher_step_spec(folder_id, auto_restart, max, backoff, attempts, WatcherPhase::Running,
            WatcherEvent::ChildFinished(ChildOutcome::Canceled)).3 == WatcherCommand::Stop,
        watcher_step_spec(folder_id, auto_restart, max, backoff, attempts, WatcherPhase::BackingOff,
            WatcherEvent::CanceledDuringBackoff).3 == WatcherCommand::Stop,
{
}

/// Without automatic restarts, the first end of the process stops the watcher.
pub proof fn lemma_watcher_no_restart_when_off(
    folder_id: Seq<char>,
    max: u32,
    backoff: u64,
    attempts: u32,
    outcome: ChildOutcome,
)
    ensures
        watcher_step_spec(folder_id, false, max, backoff, attempts, WatcherPhase::Running,
            WatcherEvent::ChildFinished(outcome)).3 == WatcherCommand::Stop,
{
}

impl WatcherLoop {
    /// The watcher's invariant: the restarts made are no more than allowed.
    pub open spec fn wf(&self) -> bool {
        self.attempts <= self.max_attempts
    }

    /// A watcher for folder `folder_id`, about to launch its first run.
    pub fn new(folder_id: String, auto_restart: bool, max_attempts: u32, backoff_secs: u64) -> (r:
        Self)
        ensures
            r.wf(),
            r.folder_id@ == folder_id@,
            r.auto_restart == auto_restart,
            r.max_attempts == max_attempts,
            r.backoff_secs == backoff_secs,
            r.attempts == 0,
            r.phase == WatcherPhase::Launching,
    {
        WatcherLoop {
            folder_id,
            auto_restart,
            max_attempts,
            backoff_secs,
            attempts: 0,
            phase: WatcherPhase::Launching,
        }
    }

    fn error_event(&self, prefix: &str, e: &str) -> (ev: LogEvent)
        ensures
            ev@ == (LogEventView::Error { folder_id: self.folder_id@, message: prefix@ + e@ }),
    {
        let mut message = String::from_str(prefix);
        push_str(&mut message, e);
        LogEvent::Error { folder_id: self.folder_id.clone(), message }
    }

    fn stop(&mut self) -> (cmd: WatcherCommand)
        ensures
            final(self).phase == WatcherPhase::Stopped,
            final(self).folder_id == old(self).folder_id,
            final(self).auto_restart == old(self).auto_restart,
            final(self).max_attempts == old(self).max_attempts,
            final(self).backoff_secs == old(self).backoff_secs,
            final(self).attempts == old(self).attempts,
            cmd == WatcherCommand::Stop,
    {
        self.phase = WatcherPhase::Stopped;
        WatcherCommand::Stop
    }

    /// Takes in what happened and says what to report and what to do next.
    pub fn step(&mut self, ev: WatcherEvent) -> (r: (Vec<LogEvent>, WatcherCommand))
        requires
            old(self).wf(),
        ensures
            final(self).wf(),
            final(self).folder_id@ == old(self).folder_id@,
            final(self).auto_restart == old(self).auto_restart,
            final(self).max_attempts == old(self).max_attempts,
            final(self).backoff_secs == old(self).backoff_secs,
            (final(self).attempts, final(self).phase, events_view(r.0@), r.1) == watcher_step_spec(
                old(self).folder_id@,
                old(self).auto_restart,
                old(self).max_attempts,
                old(self).backoff_secs,
                old(self).attempts,
                old(self).phase,
                ev,
            ),
    {
        let mut events: Vec<LogEvent> = Vec::new();
        let cmd = match self.phase {
            WatcherPhase::Launching => match ev {
                WatcherEvent::CommandUnavailable(e) => {
                    events.push(self.error_event("immich コマンド解決失敗: ", e.as_str()));
                    self.stop()
                },
                WatcherEvent::SpawnFailed(e) => {
                    events.push(self.error_event("immich プロセス起動失敗: ", e.as_str()));
                    self.stop()
                },
                WatcherEvent::Spawned(pid) => {
                    events.push(LogEvent::Started { folder_id: self.folder_id.clone(), pid });
                    self.phase = WatcherPhase::Running;
                    WatcherCommand::AwaitChild
                },
                _ => WatcherCommand::Launch,
            },
            WatcherPhase::Running => match ev {
                WatcherEvent::ChildFinished(outcome) => {
                    let (code, canceled) = match outcome {
                        ChildOutcome::Exited(c) => (c, false),
                        ChildOutcome::WaitFailed(e) => {
                            events.push(self.error_event("子プロセス wait 失敗: ", e.as_str()));
                            (None, false)
                        },
                        ChildOutcome::Canceled => (None, true),
                    };
                    events.push(
                        LogEvent::Exited {
                            folder_id: self.folder_id.clone(),
                            code,
                            was_canceled: canceled,
                        },
                    );
                    if canceled || !self.auto_restart {
                        self.stop()
                    } else if self.attempts >= self.max_attempts {
                        let mut message = String::from_str("最大再試行回数 ");
                        push_decimal(&mut message, self.max_attempts as u64);
                        push_str(&mut message, " に達しました。停止します");
                        events.push(LogEvent::Error { folder_id: self.folder_id.clone(), message });
                        self.stop()
                    } else {
                        self.attempts = self.attempts + 1;
                        let mut message = String::new();
                        push_decimal(&mut message, self.backoff_secs);
                        push_str(&mut message, " 秒後に再起動します (試行 ");
                        push_decimal(&mut message, self.attempts as u64);
                        push_str(&mut message, "/");
                        push_decimal(&mut message, self.max_attempts as u64);
                        push_str(&mut message, ")");
                        events.push(LogEvent::Error { folder_id: self.folder_id.clone(), message });
                        self.phase = WatcherPhase::BackingOff;
                        WatcherCommand::Backoff(self.backoff_secs)
                    }
                },
                _ => WatcherCommand::AwaitChild,
            },
            WatcherPhase::BackingOff => match ev {
                WatcherEvent::BackoffElapsed => {
                    self.phase = WatcherPhase::Launching;
                    WatcherCommand::Launch
                },
                WatcherEvent::CanceledDuringBackoff => self.stop(),
                _ => WatcherCommand::Backoff(self.backoff_secs),
            },
            WatcherPhase::Stopped => WatcherCommand::Stop,
        };
        proof {
            let spec = watcher_step_spec(
                old(self).folder_id@,
                old(self).auto_restart,
                old(self).max_attempts,
                old(self).backoff_secs,
                old(self).attempts,
                old(self).phase,
                ev,
            );
            assert(events_view(events@) =~= spec.2);
        }
        (events, cmd)
    }
}


/// The start of a one-off upload of folder `folder_id`, as process `pid`
/// (0 where the system gave no id).
pub fn sync_started_event(folder_id: &str, pid: u32) -> (ev: LogEvent)
    ensures
        ev@ == (LogEventView::Started { folder_id: folder_id@, pid }),
{
    LogEvent::Started { folder_id: String::from_str(folder_id), pid }
}

/// The end of a one-off upload of folder `folder_id`, with its exit code
/// where it had one; a one-off upload is never canceled.
pub fn sync_exited_event(folder_id: &str, code: Option<i32>) -> (ev: LogEvent)
    ensures
        ev@ == (LogEventView::Exited { folder_id: folder_id@, code, was_canceled: false }),
{
    LogEvent::Exited { folder_id: String::from_str(folder_id), code, was_canceled: false }
}

/// The error reported when a one-off upload of folder `folder_id` failed
/// with `e`.
pub fn sync_failed_event(folder_id: &str, e: &str) -> (ev: LogEvent)
    ensures
        ev@ == (LogEventView::Error { folder_id: folder_id@, message: "Sync Now 失敗: "@ + e@ }),
{
    let mut message = String::from_str("Sync Now 失敗: ");
    push_str(&mut message, e);
    LogEvent::Error { folder_id: String::from_str(folder_id), message }
}

/// Each line as a completed line of folder `folder_id`.
pub open spec fn line_events_spec(folder_id: Seq<char>, lines: Seq<Seq<char>>) -> Seq<
    LogEventView,
> {
    lines.map_values(|l: Seq<char>| LogEventView::Line { folder_id, line: l, partial: false })
}

/// The events for one chunk of output: each line it completes, then the line
/// still being written, marked partial, unless it is empty.
pub open spec fn chunk_events_spec(
    folder_id: Seq<char>,
    lines: Seq<Seq<char>>,
    current: Seq<char>,
) -> Seq<LogEventView> {
    line_events_spec(folder_id, lines) + if current.len() > 0 {
        seq![LogEventView::Line { folder_id, line: current, partial: true }]
    } else {
        Seq::empty()
    }
}

/// Turns one output stream of a folder's process into line events.
pub struct StreamForwarder {
    pub folder_id: String,
    pub processor: LineProcessor,
}

impl StreamForwarder {
    /// A forwarder for folder `folder_id` that has seen no output.
    pub fn new(folder_id: String) -> (r: Self)
        ensures
            r.folder_id@ == folder_id@,
            r.processor@ == Seq::<char>::empty(),
    {
        StreamForwarder { folder_id, processor: LineProcessor::new() }
    }

    /// The events for a chunk of output that was read.
    pub fn on_chunk(&mut self, bytes: &[u8]) -> (events: Vec<LogEvent>)
        ensures
            final(self).folder_id@ == old(self).folder_id@,
            final(self).processor.parser() == vte_parser_after(old(self).processor.parser(), bytes@),
            ({
                let r = apply_actions(
                    old(self).processor@,
                    Seq::empty(),
                    vte_actions(old(self).processor.parser(), bytes@),
                );
                &&& final(self).processor@ == r.0
                &&& events_view(events@) == chunk_events_spec(old(self).folder_id@, r.1, r.0)
            }),
    {
        let lines = self.processor.process(bytes);
        let mut events: Vec<LogEvent> = Vec::new();
        let mut i: usize = 0;
        while i < lines.len()
            invariant
                i <= lines@.len(),
                events_view(events@) == line_events_spec(
                    self.folder_id@,
                    strings_view(lines@).take(i as int),
                ),
            decreases lines.len() - i,
        {
            events.push(
                LogEvent::Line {
                    folder_id: self.folder_id.clone(),
                    line: lines[i].clone(),
                    partial: false,
                },
            );
            let ghost prefix = strings_view(lines@).take(i as int);
            assert(strings_view(lines@).take(i + 1) =~= prefix.push(lines@[i as int]@));
            assert(line_events_spec(self.folder_id@, prefix.push(lines@[i as int]@))
                =~= line_events_spec(self.folder_id@, prefix).push(
                LogEventView::Line { folder_id: self.folder_id@, line: lines@[i as int]@, partial: false },
            ));
            assert(events_view(events@) =~= line_events_spec(self.folder_id@, prefix).push(
                LogEventView::Line { folder_id: self.folder_id@, line: lines@[i as int]@, partial: false },
            ));
            i = i + 1;
        }
        assert(strings_view(lines@).take(lines@.len() as int) =~= strings_view(lines@));
        let cur = self.processor.current_line();
        if cur.unicode_len() > 0 {
            events.push(
                LogEvent::Line {
                    folder_id: self.folder_id.clone(),
                    line: String::from_str(cur),
                    partial: true,
                },
            );
        }
        assert(events_view(events@) =~= chunk_events_spec(
            self.folder_id@,
            strings_view(lines@),
            self.processor@,
        ));
        events
    }

    /// The events when the stream ends: the line still being written, as a
    /// completed line, unless it is empty.
    pub fn on_end(&self) -> (events: Vec<LogEvent>)
        ensures
            events_view(events@) == if self.processor@.len() > 0 {
                seq![
                    LogEventView::Line {
                        folder_id: self.folder_id@,
                        line: self.processor@,
                        partial: false,
                    },
                ]
            } else {
                Seq::<LogEventView>::empty()
            },
    {
        let mut events: Vec<LogEvent> = Vec::new();
        let cur = self.processor.current_line();
        if cur.unicode_len() > 0 {
            events.push(
                LogEvent::Line {
                    folder_id: self.folder_id.clone(),
                    line: String::from_str(cur),
                    partial: false,
                },
            );
        }
        assert(events_view(events@) =~= if self.processor@.len() > 0 {
            seq![
                LogEventView::Line {
                    folder_id: self.folder_id@,
                    line: self.processor@,
                    partial: false,
                },
            ]
        } else {
            Seq::<LogEventView>::empty()
        });
        events
    }
}

} // verus!

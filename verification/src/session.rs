//! The state that the window shows and the decisions behind it: per-folder
//! status and logs, the merged log, and how reported events change them.
use vstd::prelude::*;
use vstd::string::*;
use crate::config::{strings_view, folders_view, Config, FolderConfig, FolderConfigView};
use crate::idmap::IdMap;
use crate::logbuf::{display_spec, log_push_line_spec, log_push_system_spec, LogBuffer, LogBufferView};
use crate::process::{LogEvent, LogEventView};
use crate::text::{decimal_spec, signed_decimal_spec, push_decimal, push_signed_decimal, push_str, is_blank, is_blank_spec};

verus! {

broadcast use vstd::string::group_string_axioms;

/// What a folder's watcher is doing, as the window shows it.
#[derive(Clone, Copy, Debug, PartialEq, Eq, Structural)]
pub enum FolderState {
    Idle,
    Watching,
    Stopping,
    Error,
}

/// The text shown for a state.
pub open spec fn state_label_spec(s: FolderState) -> Seq<char> {
    match s {
        FolderState::Idle => "● Idle"@,
        FolderState::Watching => "● Watching"@,
        FolderState::Stopping => "● Stopping"@,
        FolderState::Error => "● Error"@,
    }
}

/// The red, green and blue of the colour a state is shown in.
pub open spec fn state_rgb_spec(s: FolderState) -> (u8, u8, u8) {
    match s {
        FolderState::Idle => (160, 160, 160),
        FolderState::Watching => (80, 200, 120),
        FolderState::Stopping => (255, 255, 0),
        FolderState::Error => (220, 80, 80),
    }
}

impl FolderState {
    /// The text shown for the state.
    pub fn label(&self) -> (r: &'static str)
        ensures
            r@ == state_label_spec(*self),
    {
        match self {
            FolderState::Idle => "● Idle",
            FolderState::Watching => "● Watching",
            FolderState::Stopping => "● Stopping",
            FolderState::Error => "● Error",
        }
    }

    /// The colour the state is shown in: grey when idle, green when watching,
    /// yellow when stopping, red on error.
    pub fn rgb(&self) -> (r: (u8, u8, u8))
        ensures
            r == state_rgb_spec(*self),
    {
        match self {
            FolderState::Idle => (160, 160, 160),
            FolderState::Watching => (80, 200, 120),
            FolderState::Stopping => (255, 255, 0),
            FolderState::Error => (220, 80, 80),
        }
    }
}

/// Which log the window shows.
#[derive(Clone, Debug, PartialEq, Eq)]
pub enum LogTab {
    /// The merged log of all folders.
    All,
    /// The log of the folder with this identifier.
    Folder(String),
}

/// What is known of the installed CLI.
#[derive(Clone, Debug)]
pub enum CliStatus {
    Unknown,
    Checking,
    /// Found; its version text.
    Found(String),
    /// Not usable; why.
    Missing(String),
}

impl CliStatus {
    /// The status after a check that returned `result`.
    pub fn from_check(result: Result<String, String>) -> (r: Self)
        ensures
            match result {
                Ok(v) => r matches CliStatus::Found(x) && x@ == v@,
                Err(e) => r matches CliStatus::Missing(x) && x@ == e@,
            },
    {
        match result {
            Ok(v) => CliStatus::Found(v),
            Err(e) => CliStatus::Missing(e),
        }
    }
}

/// Where the last login attempt stands.
#[derive(Clone, Debug)]
pub enum LoginStatus {
    Idle,
    Running,
    /// It succeeded; the message to show.
    Succeeded(String),
    /// It failed; why.
    Failed(String),
}

impl LoginStatus {
    /// The status after a login that returned `result`: an empty success
    /// message is replaced by "ログイン成功".
    pub fn from_login(result: Result<String, String>) -> (r: Self)
        ensures
            match result {
                Ok(m) => r matches LoginStatus::Succeeded(x) && x@ == (if m@.len() == 0 {
                    "ログイン成功"@
                } else {
                    m@
                }),
                Err(e) => r matches LoginStatus::Failed(x) && x@ == e@,
            },
    {
        match result {
            Ok(m) => {
                if m.as_str().unicode_len() == 0 {
                    LoginStatus::Succeeded(String::from_str("ログイン成功"))
                } else {
                    LoginStatus::Succeeded(m)
                }
            },
            Err(e) => LoginStatus::Failed(e),
        }
    }
}

/// Whether the login button can be pressed: the CLI was found, no login is
/// running, and neither the server URL nor the API key is blank.
pub fn login_button_enabled(cli: &CliStatus, login: &LoginStatus, url: &str, key: &str) -> (r:
    bool)
    ensures
        r == (cli is Found && !(login is Running) && !is_blank_spec(key@) && !is_blank_spec(url@)),
{
    let cli_ok = match cli {
        CliStatus::Found(_) => true,
        _ => false,
    };
    let running = match login {
        LoginStatus::Running => true,
        _ => false,
    };
    cli_ok && !running && !is_blank(key) && !is_blank(url)
}

/// `Debug` of an optional exit code: `Some(` the code `)`, or `None`.
pub open spec fn debug_code_spec(code: Option<i32>) -> Seq<char> {
    match code {
        Some(c) => "Some("@ + signed_decimal_spec(c as int) + ")"@,
        None => "None"@,
    }
}

/// `Display` of a boolean.
pub open spec fn bool_text_spec(b: bool) -> Seq<char> {
    if b {
        "true"@
    } else {
        "false"@
    }
}

/// A folder's message as the merged log shows it: behind the folder's label.
pub open spec fn tagged_spec(label: Seq<char>, msg: Seq<char>) -> Seq<char> {
    "["@ + label + "] "@ + msg
}

/// The message a folder's log gets for an event (a line is the line itself).
pub open spec fn event_message_spec(ev: crate::process::LogEventView) -> Seq<char> {
    match ev {
        crate::process::LogEventView::Line { line, .. } => line,
        crate::process::LogEventView::Started { pid, .. } => "[system] watcher started (pid="@
            + decimal_spec(pid as nat) + ")"@,
        crate::process::LogEventView::Exited { code, was_canceled, .. } => "[system] exit code="@
            + debug_code_spec(code) + " canceled="@ + bool_text_spec(was_canceled),
        crate::process::LogEventView::Error { message, .. } => "[error] "@ + message,
    }
}

/// The message a folder's log gets for an event.
pub fn event_message(ev: &crate::process::LogEvent) -> (m: String)
    ensures
        m@ == event_message_spec(ev@),
{
    match ev {
        crate::process::LogEvent::Line { line, .. } => line.clone(),
        crate::process::LogEvent::Started { pid, .. } => {
            let mut m = String::from_str("[system] watcher started (pid=");
            push_decimal(&mut m, *pid as u64);
            push_str(&mut m, ")");
            m
        },
        crate::process::LogEvent::Exited { code, was_canceled, .. } => {
            let mut m = String::from_str("[system] exit code=");
            match code {
                Some(c) => {
                    push_str(&mut m, "Some(");
                    push_signed_decimal(&mut m, *c as i64);
                    push_str(&mut m, ")");
                },
                None => {
                    push_str(&mut m, "None");
                },
            }
            push_str(&mut m, " canceled=");
            if *was_canceled {
                push_str(&mut m, "true");
            } else {
                push_str(&mut m, "false");
            }
            m
        },
        crate::process::LogEvent::Error { message, .. } => {
            let mut m = String::from_str("[error] ");
            push_str(&mut m, message.as_str());
            m
        },
    }
}

/// A folder's message behind its label, for the merged log.
pub fn tagged(label: &str, msg: &str) -> (m: String)
    ensures
        m@ == tagged_spec(label@, msg@),
{
    let mut m = String::from_str("[");
    push_str(&mut m, label);
    push_str(&mut m, "] ");
    push_str(&mut m, msg);
    m
}


/// A character that may follow the last component of a path on some
/// platform: a separator (`/`, or `\` on Windows) or a `.` of a current
/// directory component.
pub open spec fn is_path_tail_char(c: char) -> bool {
    c == '/' || c == '\\' || c == '.'
}

/// The path does not start with two separators: it is no network share,
/// device or verbatim path on Windows, where `/` may not separate.
pub open spec fn starts_plainly(path: Seq<char>) -> bool {
    !(path.len() >= 2 && (path[0] == '/' || path[0] == '\\') && (path[1] == '/' || path[1] == '\\'))
}

/// A character after which a component of a path may start on some
/// platform: a separator (`/`, or `\` on Windows) or the `:` that ends a
/// Windows drive prefix.
pub open spec fn is_component_start_mark(c: char) -> bool {
    c == '/' || c == '\\' || c == ':'
}

/// `n` can be the last component of `path`: a non-empty piece of it that
/// starts at the path's start or after a separator or drive prefix, is
/// followed only by separators and `.` components, and holds no `/` where
/// `/` separates on every platform.
pub open spec fn file_name_fits(path: Seq<char>, n: Seq<char>) -> bool {
    &&& n.len() > 0
    &&& exists|a: int|
        0 <= a && a + n.len() <= path.len() && #[trigger] path.subrange(a, a + n.len()) == n
            && (a == 0 || is_component_start_mark(path[a - 1]))
            && forall|k: int| a + n.len() <= k < path.len() ==> is_path_tail_char(#[trigger] path[k])
    &&& starts_plainly(path) ==> !n.contains('/')
}

/// `path` has a file name on every platform: it does not start with two
/// separators and ends in a character that is no separator, `.` or `:`.
pub open spec fn has_file_name(path: Seq<char>) -> bool {
    &&& starts_plainly(path)
    &&& path.len() > 0
    &&& !is_path_tail_char(path.last())
    &&& path.last() != ':'
}

/// `std::path::Path::file_name` of `path`, converted to a string: the final
/// component of the path, when it is a normal one. Which characters separate
/// components depends on the platform, so the result is not named; the
/// contract states what holds on every platform: a component starts at the
/// path's start or after a separator or drive prefix, and components are
/// normalized (repeated separators, trailing separators and `.` components
/// do not count), so the file name is such a piece followed only by those;
/// it holds no `/` outside Windows network, device and verbatim paths; and a
/// path that ends in an ordinary character has one.
#[verifier::external_body]
fn path_file_name(path: &str) -> (r: Option<String>)
    ensures
        r matches Some(n) ==> file_name_fits(path@, n@),
        has_file_name(path@) ==> r is Some,
{
    match std::path::Path::new(path).file_name() {
        Some(name) => Some(name.to_string_lossy().into_owned()),
        None => None,
    }
}

/// The label of a folder at `path` whose file name came out as `file_name`:
/// the file name, or the whole path where there is none.
pub fn label_from_file_name(path: &str, file_name: Option<String>) -> (r: String)
    ensures
        r@ == match file_name {
            Some(n) => n@,
            None => path@,
        },
{
    match file_name {
        Some(n) => n,
        None => String::from_str(path),
    }
}

/// `i` is the first folder of `fs` with identifier `id`.
pub open spec fn is_first_match(fs: Seq<FolderConfigView>, id: Seq<char>, i: int) -> bool {
    &&& 0 <= i < fs.len()
    &&& fs[i].id == id
    &&& forall|j: int| 0 <= j < i ==> (#[trigger] fs[j]).id != id
}

/// The position of the first folder of `fs` with identifier `id`, if any.
pub open spec fn find_spec(fs: Seq<FolderConfigView>, id: Seq<char>) -> Option<int>
    decreases fs.len(),
{
    if fs.len() == 0 {
        None
    } else if fs[0].id == id {
        Some(0)
    } else {
        match find_spec(fs.drop_first(), id) {
            Some(i) => Some(i + 1),
            None => None,
        }
    }
}

proof fn lemma_find_spec(fs: Seq<FolderConfigView>, id: Seq<char>, i: int)
    requires
        is_first_match(fs, id, i),
    ensures
        find_spec(fs, id) == Some(i),
    decreases fs.len(),
{
    if i > 0 {
        let t = fs.drop_first();
        assert(fs[0].id != id);
        assert forall|j: int| 0 <= j < i - 1 implies (#[trigger] t[j]).id != id by {
            assert(t[j] == fs[j + 1]);
        }
        assert(t[i - 1] == fs[i]);
        lemma_find_spec(t, id, i - 1);
    }
}

proof fn lemma_find_spec_none(fs: Seq<FolderConfigView>, id: Seq<char>)
    requires
        no_match(fs, id),
    ensures
        find_spec(fs, id) is None,
    decreases fs.len(),
{
    if fs.len() > 0 {
        let t = fs.drop_first();
        assert(fs[0].id != id);
        assert forall|j: int| 0 <= j < t.len() implies (#[trigger] t[j]).id != id by {
            assert(t[j] == fs[j + 1]);
        }
        lemma_find_spec_none(t, id);
    }
}

/// No folder of `fs` has identifier `id`.
pub open spec fn no_match(fs: Seq<FolderConfigView>, id: Seq<char>) -> bool {
    forall|j: int| 0 <= j < fs.len() ==> (#[trigger] fs[j]).id != id
}

/// The position of the first folder of `folders` with identifier `id`.
pub fn find_folder(folders: &Vec<FolderConfig>, id: &str) -> (r: Option<usize>)
    ensures
        match r {
            Some(i) => is_first_match(folders_view(folders@), id@, i as int),
            None => no_match(folders_view(folders@), id@),
        },
{
    let key = String::from_str(id);
    let mut i: usize = 0;
    while i < folders.len()
        invariant
            i <= folders@.len(),
            key@ == id@,
            forall|j: int| 0 <= j < i ==> (#[trigger] folders_view(folders@)[j]).id != id@,
        decreases folders.len() - i,
    {
        if folders[i].id == key {
            return Some(i);
        }
        i = i + 1;
    }
    None
}

/// Whether `label` can be the label of folder `id`: the identifier when no
/// folder has it; else the file name of the first such folder's path, or the
/// whole path where the path may have none.
pub open spec fn label_fits(fs: Seq<FolderConfigView>, id: Seq<char>, label: Seq<char>) -> bool {
    if no_match(fs, id) {
        label == id
    } else {
        exists|i: int|
            is_first_match(fs, id, i) && (file_name_fits(fs[i].path, label) || (!has_file_name(fs[i].path)
                && label == fs[i].path))
    }
}

/// The identifier of the folder an event is about.
pub open spec fn event_folder_id(ev: LogEventView) -> Seq<char> {
    match ev {
        LogEventView::Line { folder_id, .. } => folder_id,
        LogEventView::Started { folder_id, .. } => folder_id,
        LogEventView::Exited { folder_id, .. } => folder_id,
        LogEventView::Error { folder_id, .. } => folder_id,
    }
}

/// A folder's log after an event.
pub open spec fn folder_log_after(v: LogBufferView, ev: LogEventView) -> LogBufferView {
    match ev {
        LogEventView::Line { line, partial, .. } => log_push_line_spec(v, line, partial),
        _ => log_push_system_spec(v, event_message_spec(ev)),
    }
}

/// The merged log after an event of a folder labelled `label`: partial lines
/// are left out of it.
pub open spec fn all_log_after(v: LogBufferView, ev: LogEventView, label: Seq<char>) -> LogBufferView {
    match ev {
        LogEventView::Line { line, partial, .. } => if partial {
            v
        } else {
            log_push_line_spec(v, tagged_spec(label, line), false)
        },
        _ => log_push_system_spec(v, tagged_spec(label, event_message_spec(ev))),
    }
}

/// The state a folder gets from an event, if any: started means watching; an
/// end is idle when it was asked for or the exit code was zero, an error
/// otherwise; an error report means error.
pub open spec fn state_after(ev: LogEventView) -> Option<FolderState> {
    match ev {
        LogEventView::Line { .. } => None,
        LogEventView::Started { .. } => Some(FolderState::Watching),
        LogEventView::Exited { code, was_canceled, .. } => if was_canceled || code == Some(0i32) {
            Some(FolderState::Idle)
        } else {
            Some(FolderState::Error)
        },
        LogEventView::Error { .. } => Some(FolderState::Error),
    }
}

/// `post` has the settings of `pre`, the folders aside.
pub open spec fn settings_same_except_folders(pre: Config, post: Config) -> bool {
    &&& post.schema_version == pre.schema_version
    &&& post.server_url == pre.server_url
    &&& post.start_on_boot == pre.start_on_boot
    &&& post.start_minimized_to_tray == pre.start_minimized_to_tray
    &&& post.auto_start_watching_on_launch == pre.auto_start_watching_on_launch
    &&& post.auto_restart_on_failure == pre.auto_restart_on_failure
    &&& post.max_restart_attempts == pre.max_restart_attempts
    &&& post.restart_backoff_seconds == pre.restart_backoff_seconds
}

/// `post` has the input fields of `pre`.
pub open spec fn inputs_same(pre: App, post: App) -> bool {
    &&& post.api_key_input == pre.api_key_input
    &&& post.server_url_input == pre.server_url_input
}

/// `post` shows the same inputs, selections and window switches as `pre`.
pub open spec fn window_same(pre: App, post: App) -> bool {
    &&& inputs_same(pre, post)
    &&& post.selected_tab == pre.selected_tab
    &&& post.edit_folder == pre.edit_folder
    &&& post.tray_pause_all_active == pre.tray_pause_all_active
    &&& post.quit_requested == pre.quit_requested
    &&& post.minimized_to_tray == pre.minimized_to_tray
}

/// `post` has the running watchers of `pre`, and will number the next one as
/// `pre` would.
pub open spec fn watchers_same(pre: App, post: App) -> bool {
    &&& post.running() == pre.running()
    &&& post.next_generation == pre.next_generation
}

/// `post` has the folder states, the folder logs and the merged log of `pre`.
pub open spec fn logs_same(pre: App, post: App) -> bool {
    &&& post.states() == pre.states()
    &&& post.logs() == pre.logs()
    &&& post.all_log() == pre.all_log()
}

/// The views of the logs of a map.
pub open spec fn logs_view(m: Map<Seq<char>, LogBuffer>) -> Map<Seq<char>, LogBufferView> {
    m.map_values(|b: LogBuffer| b@)
}

/// What the window keeps apart from the running processes: the settings, the
/// input fields, each folder's state and log, the merged log, the view
/// switches, and the number of each folder's running watcher.
pub struct App {
    pub config: Config,
    pub api_key_input: String,
    pub server_url_input: String,
    pub folder_states: IdMap<FolderState>,
    pub folder_logs: IdMap<LogBuffer>,
    pub all_log: LogBuffer,
    pub selected_tab: LogTab,
    pub edit_folder: Option<String>,
    pub tray_pause_all_active: bool,
    pub pending_save: bool,
    pub quit_requested: bool,
    pub minimized_to_tray: bool,
    pub running: IdMap<u64>,
    pub next_generation: u64,
}

impl App {
    /// The folders whose watchers run, each with the number its watcher was
    /// started with.
    pub open spec fn running(&self) -> Map<Seq<char>, u64> {
        self.running@
    }

    /// Each folder's state.
    pub open spec fn states(&self) -> Map<Seq<char>, FolderState> {
        self.folder_states@
    }

    /// Each folder's log.
    pub open spec fn logs(&self) -> Map<Seq<char>, LogBufferView> {
        logs_view(self.folder_logs@)
    }

    /// The merged log.
    pub open spec fn all_log(&self) -> LogBufferView {
        self.all_log@
    }

    /// The window's state for the settings `config`: every folder idle with an
    /// empty log, the server URL field filled in, the merged log holding the
    /// load warning if there was one, the merged log selected, and no
    /// watcher running.
    pub fn new(config: Config, warning: Option<String>) -> (r: Self)
        ensures
            r.config@ == config@,
            r.server_url_input@ == config@.server_url,
            r.api_key_input@ == Seq::<char>::empty(),
            forall|k: Seq<char>| #[trigger] r.states().contains_key(k) <==> exists|i: int|
                0 <= i < config@.folders.len() && config@.folders[i].id == k,
            forall|k: Seq<char>| #[trigger] r.states().contains_key(k) ==> r.states()[k] == FolderState::Idle,
            r.logs().dom() == r.states().dom(),
            forall|k: Seq<char>| #[trigger] r.logs().contains_key(k) ==> r.logs()[k] == (LogBufferView {
                completed: Seq::empty(),
                partial: None,
            }),
            r.all_log() == match warning {
                Some(w) => LogBufferView {
                    completed: seq!["[warn] "@ + w@],
                    partial: None,
                },
                None => LogBufferView { completed: Seq::empty(), partial: None },
            },
            r.selected_tab == LogTab::All,
            r.edit_folder is None,
            !r.tray_pause_all_active,
            !r.pending_save,
            !r.quit_requested,
            !r.minimized_to_tray,
            r.running() == Map::<Seq<char>, u64>::empty(),
            r.next_generation == 0,
    {
        let mut folder_logs: IdMap<LogBuffer> = IdMap::new();
        let mut folder_states: IdMap<FolderState> = IdMap::new();
        let mut i: usize = 0;
        while i < config.folders.len()
            invariant
                i <= config.folders@.len(),
                forall|k: Seq<char>| #[trigger] folder_states@.contains_key(k) <==> exists|j: int|
                    0 <= j < i && config@.folders[j].id == k,
                forall|k: Seq<char>| #[trigger] folder_states@.contains_key(k) ==> folder_states@[k] == FolderState::Idle,
                folder_logs@.dom() == folder_states@.dom(),
                forall|k: Seq<char>| #[trigger] folder_logs@.contains_key(k) ==> folder_logs@[k]@ == (LogBufferView {
                    completed: Seq::empty(),
                    partial: None,
                }),
            decreases config.folders.len() - i,
        {
            let id = config.folders[i].id.clone();
            folder_logs.insert(id.clone(), LogBuffer::new());
            folder_states.insert(id, FolderState::Idle);
            proof {
                assert forall|k: Seq<char>| #[trigger] folder_states@.contains_key(k) <==> exists|j: int|
                    0 <= j < i + 1 && config@.folders[j].id == k by {
                    if k == config@.folders[i as int].id {
                        assert(0 <= i < i + 1);
                    }
                    if exists|j: int| 0 <= j < i + 1 && config@.folders[j].id == k {
                        let j = choose|j: int| 0 <= j < i + 1 && config@.folders[j].id == k;
                        if j < i {
                            assert(exists|j2: int| 0 <= j2 < i && config@.folders[j2].id == k);
                        }
                    }
                }
            }
            i = i + 1;
        }
        let server_url_input = config.server_url.clone();
        let mut all_log = LogBuffer::new();
        match warning {
            Some(w) => {
                let mut m = String::from_str("[warn] ");
                push_str(&mut m, w.as_str());
                all_log.push_system(m);
            },
            None => {},
        }
        let r = App {
            config,
            api_key_input: String::new(),
            server_url_input,
            folder_states,
            folder_logs,
            all_log,
            selected_tab: LogTab::All,
            edit_folder: None,
            tray_pause_all_active: false,
            pending_save: false,
            quit_requested: false,
            minimized_to_tray: false,
            running: IdMap::new(),
            next_generation: 0,
        };
        assert(r.logs().dom() =~= r.states().dom());
        r
    }

    /// The label of folder `id` in the merged log: the file name of its path
    /// (the whole path where it has none), or the identifier itself when no
    /// folder has it.
    pub fn folder_label(&self, id: &str) -> (r: String)
        ensures
            label_fits(folders_view(self.config.folders@), id@, r@),
    {
        match find_folder(&self.config.folders, id) {
            Some(i) => {
                let path = self.config.folders[i].path.as_str();
                let name = path_file_name(path);
                let r = label_from_file_name(path, name);
                assert(is_first_match(folders_view(self.config.folders@), id@, i as int));
                r
            },
            None => String::from_str(id),
        }
    }

    /// The identifiers of the enabled folders, in order.
    pub fn enabled_folder_ids(&self) -> (r: Vec<String>)
        ensures
            strings_view(r@) == enabled_ids_spec(folders_view(self.config.folders@)),
    {
        let mut r: Vec<String> = Vec::new();
        let mut i: usize = 0;
        while i < self.config.folders.len()
            invariant
                i <= self.config.folders@.len(),
                strings_view(r@) == enabled_ids_spec(folders_view(self.config.folders@).take(i as int)),
            decreases self.config.folders.len() - i,
        {
            let ghost fs = folders_view(self.config.folders@);
            assert(fs.take(i + 1).drop_last() =~= fs.take(i as int));
            if self.config.folders[i].enabled {
                r.push(self.config.folders[i].id.clone());
                assert(strings_view(r@) =~= enabled_ids_spec(fs.take(i + 1)));
            }
            i = i + 1;
        }
        assert(folders_view(self.config.folders@).take(self.config.folders@.len() as int)
            =~= folders_view(self.config.folders@));
        r
    }

    /// The folders whose watchers start at launch: the enabled ones when
    /// watching at launch is on, none otherwise.
    pub fn folders_to_autostart(&self) -> (r: Vec<String>)
        ensures
            strings_view(r@) == if self.config.auto_start_watching_on_launch {
                enabled_ids_spec(folders_view(self.config.folders@))
            } else {
                Seq::<Seq<char>>::empty()
            },
    {
        if !self.config.auto_start_watching_on_launch {
            let r: Vec<String> = Vec::new();
            assert(strings_view(r@) =~= Seq::<Seq<char>>::empty());
            return r;
        }
        self.enabled_folder_ids()
    }

    /// A copy of the settings of the first folder with identifier `id`.
    pub fn folder_settings(&self, id: &str) -> (r: Option<FolderConfig>)
        ensures
            match r {
                Some(f) => exists|i: int| is_first_match(folders_view(self.config.folders@), id@, i)
                    && f@ == folders_view(self.config.folders@)[i],
                None => no_match(folders_view(self.config.folders@), id@),
            },
    {
        match find_folder(&self.config.folders, id) {
            Some(i) => Some(self.config.folders[i].copy()),
            None => None,
        }
    }

    /// The folders whose watchers start once the CLI check is done: those of
    /// [`App::folders_to_autostart`] when the CLI was found, none when it is
    /// missing or not checked yet.
    pub fn folders_to_autostart_after_check(&self, cli: &CliStatus) -> (r: Vec<String>)
        ensures
            strings_view(r@) == if cli is Found && self.config.auto_start_watching_on_launch {
                enabled_ids_spec(folders_view(self.config.folders@))
            } else {
                Seq::<Seq<char>>::empty()
            },
    {
        match cli {
            CliStatus::Found(_) => self.folders_to_autostart(),
            _ => {
                let r: Vec<String> = Vec::new();
                assert(strings_view(r@) =~= Seq::<Seq<char>>::empty());
                r
            },
        }
    }

    /// Whether the watcher of folder `id` runs.
    pub fn is_running(&self, id: &str) -> (r: bool)
        ensures
            r == self.running().contains_key(id@),
    {
        self.running.contains(id)
    }

    /// The folders whose watchers run, each once.
    pub fn running_ids(&self) -> (r: Vec<String>)
        ensures
            forall|k: Seq<char>| #[trigger] self.running().contains_key(k) <==> exists|i: int|
                0 <= i < r@.len() && (#[trigger] r@[i])@ == k,
            forall|i: int, j: int| 0 <= i < j < r@.len() ==> (#[trigger] r@[i])@ != (#[trigger] r@[j])@,
    {
        self.running.keys()
    }

    /// Starts the watcher of folder `id`, unless it runs already or no folder
    /// has that identifier: the watcher gets the next number and is recorded
    /// as running, the folder is marked as watching, and what the watcher
    /// starts with is returned. At least one attempt is always allowed.
    pub fn prepare_watcher(&mut self, id: &str) -> (r: Option<WatcherLaunch>)
        ensures
            watcher_started(*old(self), *final(self), id@, r),
    {
        if self.running.contains(id) {
            return None;
        }
        match self.folder_settings(id) {
            Some(folder) => {
                let max_attempts = if self.config.max_restart_attempts == 0 {
                    1
                } else {
                    self.config.max_restart_attempts
                };
                let generation = self.next_generation;
                self.next_generation = if self.next_generation == u64::MAX {
                    0
                } else {
                    self.next_generation + 1
                };
                self.running.insert(String::from_str(id), generation);
                self.folder_states.insert(String::from_str(id), FolderState::Watching);
                Some(
                    WatcherLaunch {
                        folder,
                        generation,
                        auto_restart: self.config.auto_restart_on_failure,
                        max_attempts,
                        backoff_secs: self.config.restart_backoff_seconds,
                    },
                )
            },
            None => None,
        }
    }

    /// Pauses everything: stops every running watcher, marking its folder
    /// as stopping, and records that everything is paused. Returns the
    /// folders whose watchers were stopped, each once.
    pub fn pause_all(&mut self) -> (stopped: Vec<String>)
        ensures
            forall|k: Seq<char>| #[trigger] old(self).running().contains_key(k) <==> exists|i: int|
                0 <= i < stopped@.len() && (#[trigger] stopped@[i])@ == k,
            final(self).running() == Map::<Seq<char>, u64>::empty(),
            final(self).states() == paused_states(old(self).states(), old(self).running()),
            final(self).next_generation == old(self).next_generation,
            final(self).tray_pause_all_active,
            inputs_same(*old(self), *final(self)),
            final(self).selected_tab == old(self).selected_tab,
            final(self).edit_folder == old(self).edit_folder,
            final(self).quit_requested == old(self).quit_requested,
            final(self).minimized_to_tray == old(self).minimized_to_tray,
            final(self).pending_save == old(self).pending_save,
            final(self).config == old(self).config,
            final(self).logs() == old(self).logs(),
            final(self).all_log() == old(self).all_log(),
    {
        let ids = self.running.keys();
        let ghost pre = *self;
        let mut i: usize = 0;
        while i < ids.len()
            invariant
                i <= ids@.len(),
                forall|k: Seq<char>| #[trigger] pre.running().contains_key(k) <==> exists|j: int|
                    0 <= j < ids@.len() && (#[trigger] ids@[j])@ == k,
                forall|j: int, l: int| 0 <= j < l < ids@.len() ==> (#[trigger] ids@[j])@ != (#[trigger] ids@[l])@,
                forall|k: Seq<char>| #[trigger] self.running().contains_key(k) <==> (pre.running().contains_key(k)
                    && !seen_upto(ids@, i as int, k)),
                self.states() == paused_states_upto(pre.states(), pre.running(), ids@, i as int),
                self.next_generation == pre.next_generation,
                window_same(pre, *self),
                self.pending_save == pre.pending_save,
                self.config == pre.config,
                self.logs() == pre.logs(),
                self.all_log() == pre.all_log(),
            decreases ids.len() - i,
        {
            proof {
                assert(pre.running().contains_key(ids@[i as int]@));
                assert(!seen_upto(ids@, i as int, ids@[i as int]@));
            }
            self.stop_watcher(ids[i].as_str());
            proof {
                assert forall|k: Seq<char>| seen_upto(ids@, i + 1, k) == (seen_upto(ids@, i as int, k)
                    || k == ids@[i as int]@) by {
                    if seen_upto(ids@, i + 1, k) && k != ids@[i as int]@ {
                        let j = choose|j: int| 0 <= j < i + 1 && (#[trigger] ids@[j])@ == k;
                        assert(seen_upto(ids@, i as int, k));
                    }
                    if seen_upto(ids@, i as int, k) {
                        let j = choose|j: int| 0 <= j < i && (#[trigger] ids@[j])@ == k;
                        assert(seen_upto(ids@, i + 1, k));
                    }
                    if k == ids@[i as int]@ {
                        assert(seen_upto(ids@, i + 1, k));
                    }
                }
                assert(self.states() =~= paused_states_upto(pre.states(), pre.running(), ids@, i + 1));
            }
            i = i + 1;
        }
        proof {
            assert forall|k: Seq<char>| pre.running().contains_key(k) implies seen_upto(ids@, i as int, k) by {
                let j = choose|j: int| 0 <= j < ids@.len() && (#[trigger] ids@[j])@ == k;
                assert(seen_upto(ids@, i as int, k));
            }
            assert(self.running() =~= Map::<Seq<char>, u64>::empty());
            assert(paused_states_upto(pre.states(), pre.running(), ids@, i as int) =~= paused_states(
                pre.states(),
                pre.running(),
            ));
        }
        self.tray_pause_all_active = true;
        ids
    }

    /// Ends a pause of everything: records that nothing is paused and
    /// returns the enabled folders, in order, whose watchers are to start
    /// again.
    pub fn resume_all(&mut self) -> (ids: Vec<String>)
        ensures
            strings_view(ids@) == enabled_ids_spec(folders_view(old(self).config.folders@)),
            !final(self).tray_pause_all_active,
            inputs_same(*old(self), *final(self)),
            watchers_same(*old(self), *final(self)),
            final(self).selected_tab == old(self).selected_tab,
            final(self).edit_folder == old(self).edit_folder,
            final(self).quit_requested == old(self).quit_requested,
            final(self).minimized_to_tray == old(self).minimized_to_tray,
            final(self).pending_save == old(self).pending_save,
            final(self).config == old(self).config,
            logs_same(*old(self), *final(self)),
    {
        self.tray_pause_all_active = false;
        self.enabled_folder_ids()
    }

    /// Stops the watcher of folder `id`, if it runs: it is no longer recorded
    /// as running and the folder is marked as stopping. Says whether it ran.
    pub fn stop_watcher(&mut self, id: &str) -> (stopped: bool)
        ensures
            watcher_stopped(*old(self), *final(self), id@, stopped),
    {
        if !self.running.contains(id) {
            assert(self.running() =~= self.running().remove(id@));
            return false;
        }
        self.running.remove(id);
        self.folder_states.insert(String::from_str(id), FolderState::Stopping);
        true
    }

    /// The state shown for folder `id`: idle unless one was recorded.
    pub fn folder_state(&self, id: &str) -> (r: FolderState)
        ensures
            r == if self.states().contains_key(id@) {
                self.states()[id@]
            } else {
                FolderState::Idle
            },
    {
        match self.folder_states.get(id) {
            Some(s) => *s,
            None => FolderState::Idle,
        }
    }

    /// Adds a folder at `path` with fresh settings, an empty log and idle
    /// state, and marks the settings for saving.
    pub fn add_folder(&mut self, path: String)
        ensures
            settings_same_except_folders(old(self).config, final(self).config),
            window_same(*old(self), *final(self)),
            watchers_same(*old(self), *final(self)),
            final(self).config.folders@.len() == old(self).config.folders@.len() + 1,
            folders_view(final(self).config.folders@).drop_last() == folders_view(old(self).config.folders@),
            ({
                let f = folders_view(final(self).config.folders@).last();
                &&& crate::config::is_v4_uuid_text(f.id)
                &&& f == crate::config::new_folder_spec(f.id, path@)
                &&& final(self).states() == old(self).states().insert(f.id, FolderState::Idle)
                &&& final(self).logs() == old(self).logs().insert(f.id, LogBufferView { completed: Seq::empty(), partial: None })
            }),
            final(self).pending_save,
            final(self).all_log() == old(self).all_log(),
    {
        let folder = FolderConfig::new(path);
        let id = folder.id.clone();
        self.folder_logs.insert(id.clone(), LogBuffer::new());
        self.folder_states.insert(id, FolderState::Idle);
        self.config.folders.push(folder);
        self.pending_save = true;
        assert(folders_view(self.config.folders@).drop_last() =~= folders_view(old(self).config.folders@));
        assert(self.logs() =~= old(self).logs().insert(id@, LogBufferView { completed: Seq::empty(), partial: None }));
    }

    /// Removes folder `id` from the settings, with its state and log, after
    /// stopping its watcher if it runs; the merged log is shown if the
    /// folder's log was; the settings are marked for saving.
    pub fn remove_folder(&mut self, id: &str)
        ensures
            settings_same_except_folders(old(self).config, final(self).config),
            inputs_same(*old(self), *final(self)),
            final(self).running() == old(self).running().remove(id@),
            final(self).next_generation == old(self).next_generation,
            final(self).edit_folder == old(self).edit_folder,
            final(self).tray_pause_all_active == old(self).tray_pause_all_active,
            final(self).quit_requested == old(self).quit_requested,
            final(self).minimized_to_tray == old(self).minimized_to_tray,
            folders_view(final(self).config.folders@) == without_id_spec(folders_view(old(self).config.folders@), id@),
            final(self).states() == old(self).states().remove(id@),
            final(self).logs() == old(self).logs().remove(id@),
            final(self).selected_tab == (match old(self).selected_tab {
                LogTab::Folder(t) => if t@ == id@ { LogTab::All } else { old(self).selected_tab },
                LogTab::All => LogTab::All,
            }),
            final(self).pending_save,
            final(self).all_log() == old(self).all_log(),
    {
        self.stop_watcher(id);
        let mut kept: Vec<FolderConfig> = Vec::new();
        let mut old_folders: Vec<FolderConfig> = Vec::new();
        std::mem::swap(&mut old_folders, &mut self.config.folders);
        let key = String::from_str(id);
        let mut i: usize = 0;
        while i < old_folders.len()
            invariant
                i <= old_folders@.len(),
                key@ == id@,
                folders_view(kept@) == without_id_spec(folders_view(old_folders@).take(i as int), id@),
            decreases old_folders.len() - i,
        {
            let ghost fs = folders_view(old_folders@);
            assert(fs.take(i + 1).drop_last() =~= fs.take(i as int));
            if old_folders[i].id != key {
                kept.push(old_folders[i].copy());
                assert(folders_view(kept@) =~= without_id_spec(fs.take(i + 1), id@));
            }
            i = i + 1;
        }
        assert(folders_view(old_folders@).take(old_folders@.len() as int) =~= folders_view(old_folders@));
        self.config.folders = kept;
        self.folder_states.remove(id);
        self.folder_logs.remove(id);
        assert(self.logs() =~= old(self).logs().remove(id@));
        let reset = match &self.selected_tab {
            LogTab::Folder(t) => *t == key,
            LogTab::All => false,
        };
        if reset {
            self.selected_tab = LogTab::All;
        }
        self.pending_save = true;
    }

    /// Replaces the settings of the first folder with identifier `id` by
    /// `folder` (when no folder has that identifier, the folders stay as they
    /// are) and marks the settings for saving.
    pub fn update_folder(&mut self, id: &str, folder: FolderConfig)
        ensures
            settings_same_except_folders(old(self).config, final(self).config),
            window_same(*old(self), *final(self)),
            watchers_same(*old(self), *final(self)),
            final(self).all_log() == old(self).all_log(),
            match find_spec(folders_view(old(self).config.folders@), id@) {
                Some(i) => folders_view(final(self).config.folders@) == folders_view(old(self).config.folders@).update(i, folder@),
                None => final(self).config.folders@ == old(self).config.folders@,
            },
            final(self).pending_save,
            final(self).states() == old(self).states(),
            final(self).logs() == old(self).logs(),
    {
        match find_folder(&self.config.folders, id) {
            Some(i) => {
                proof {
                    lemma_find_spec(folders_view(self.config.folders@), id@, i as int);
                }
                let mut fs: Vec<FolderConfig> = Vec::new();
                std::mem::swap(&mut fs, &mut self.config.folders);
                fs.set(i, folder);
                self.config.folders = fs;
                assert(folders_view(self.config.folders@) =~= folders_view(old(self).config.folders@).update(i as int, folder@));
            },
            None => {
                proof {
                    lemma_find_spec_none(folders_view(self.config.folders@), id@);
                }
            },
        }
        self.pending_save = true;
    }

    /// Whether the settings are to be saved now; the mark is cleared.
    pub fn take_pending_save(&mut self) -> (r: bool)
        ensures
            window_same(*old(self), *final(self)),
            watchers_same(*old(self), *final(self)),
            logs_same(*old(self), *final(self)),
            r == old(self).pending_save,
            !final(self).pending_save,
            final(self).config == old(self).config,
            final(self).all_log() == old(self).all_log(),
    {
        let r = self.pending_save;
        self.pending_save = false;
        r
    }

    /// Adds the application message `msg` to the merged log.
    pub fn push_notice(&mut self, msg: String)
        ensures
            window_same(*old(self), *final(self)),
            watchers_same(*old(self), *final(self)),
            final(self).pending_save == old(self).pending_save,
            final(self).all_log() == log_push_system_spec(old(self).all_log(), msg@),
            final(self).config == old(self).config,
            final(self).logs() == old(self).logs(),
            final(self).states() == old(self).states(),
    {
        self.all_log.push_system(msg);
    }

    /// Notes in the merged log that saving the settings failed with `e`.
    pub fn note_save_failed(&mut self, e: &str)
        ensures
            window_same(*old(self), *final(self)),
            watchers_same(*old(self), *final(self)),
            final(self).pending_save == old(self).pending_save,
            final(self).states() == old(self).states(),
            final(self).logs() == old(self).logs(),
            final(self).all_log() == log_push_system_spec(old(self).all_log(), "[warn] config 保存失敗: "@ + e@),
            final(self).config == old(self).config,
    {
        let mut m = String::from_str("[warn] config 保存失敗: ");
        push_str(&mut m, e);
        self.push_notice(m);
    }

    /// Notes in the merged log that changing the start with the system
    /// failed with `e`.
    pub fn note_autostart_failed(&mut self, e: &str)
        ensures
            window_same(*old(self), *final(self)),
            watchers_same(*old(self), *final(self)),
            final(self).pending_save == old(self).pending_save,
            final(self).states() == old(self).states(),
            final(self).logs() == old(self).logs(),
            final(self).all_log() == log_push_system_spec(old(self).all_log(), "[warn] 自動起動設定失敗: "@ + e@),
            final(self).config == old(self).config,
    {
        let mut m = String::from_str("[warn] 自動起動設定失敗: ");
        push_str(&mut m, e);
        self.push_notice(m);
    }

    /// Notes in the merged log that saving a log to a file failed with `e`.
    pub fn note_log_save_failed(&mut self, e: &str)
        ensures
            window_same(*old(self), *final(self)),
            watchers_same(*old(self), *final(self)),
            final(self).pending_save == old(self).pending_save,
            final(self).states() == old(self).states(),
            final(self).logs() == old(self).logs(),
            final(self).all_log() == log_push_system_spec(old(self).all_log(), "[warn] ログ保存失敗: "@ + e@),
            final(self).config == old(self).config,
    {
        let mut m = String::from_str("[warn] ログ保存失敗: ");
        push_str(&mut m, e);
        self.push_notice(m);
    }

    /// Notes in the merged log that a log was saved to `path`.
    pub fn note_log_saved(&mut self, path: &str)
        ensures
            window_same(*old(self), *final(self)),
            watchers_same(*old(self), *final(self)),
            final(self).pending_save == old(self).pending_save,
            final(self).states() == old(self).states(),
            final(self).logs() == old(self).logs(),
            final(self).all_log() == log_push_system_spec(old(self).all_log(), "[system] ログを保存しました: "@ + path@),
            final(self).config == old(self).config,
    {
        let mut m = String::from_str("[system] ログを保存しました: ");
        push_str(&mut m, path);
        self.push_notice(m);
    }

    /// The lines of the log that is shown: the merged log, or the selected
    /// folder's log (nothing when that folder has none).
    pub fn selected_log_lines(&self) -> (r: Vec<String>)
        ensures
            strings_view(r@) == match self.selected_tab {
                LogTab::All => display_spec(self.all_log()),
                LogTab::Folder(id) => if self.logs().contains_key(id@) {
                    display_spec(self.logs()[id@])
                } else {
                    Seq::<Seq<char>>::empty()
                },
            },
    {
        match &self.selected_tab {
            LogTab::All => self.all_log.iter_display(),
            LogTab::Folder(id) => match self.folder_logs.get(id.as_str()) {
                Some(b) => b.iter_display(),
                None => {
                    let r: Vec<String> = Vec::new();
                    assert(strings_view(r@) =~= Seq::<Seq<char>>::empty());
                    r
                },
            },
        }
    }

    /// Empties the log that is shown.
    pub fn clear_selected_log(&mut self)
        ensures
            window_same(*old(self), *final(self)),
            watchers_same(*old(self), *final(self)),
            final(self).pending_save == old(self).pending_save,
            final(self).states() == old(self).states(),
            match old(self).selected_tab {
                LogTab::All => final(self).all_log() == (LogBufferView { completed: Seq::empty(), partial: None })
                    && final(self).logs() == old(self).logs(),
                LogTab::Folder(id) => final(self).all_log() == old(self).all_log()
                    && final(self).logs() == if old(self).logs().contains_key(id@) {
                        old(self).logs().insert(id@, LogBufferView { completed: Seq::empty(), partial: None })
                    } else {
                        old(self).logs()
                    },
            },
            final(self).selected_tab == old(self).selected_tab,
            final(self).config == old(self).config,
    {
        match &self.selected_tab {
            LogTab::All => {
                self.all_log.clear();
            },
            LogTab::Folder(id) => {
                let id = id.clone();
                match self.folder_logs.take(id.as_str()) {
                    Some(mut b) => {
                        b.clear();
                        self.folder_logs.insert(id, b);
                        assert(self.logs() =~= old(self).logs().insert(id@, LogBufferView { completed: Seq::empty(), partial: None }));
                    },
                    None => {
                        assert(self.logs() =~= old(self).logs());
                    },
                }
            },
        }
    }

    /// The user asked to close the window: unless the application is quitting,
    /// the window is to be hidden in the tray instead, and `true` is returned.
    pub fn close_to_tray(&mut self) -> (hide: bool)
        ensures
            inputs_same(*old(self), *final(self)),
            watchers_same(*old(self), *final(self)),
            final(self).selected_tab == old(self).selected_tab,
            final(self).edit_folder == old(self).edit_folder,
            final(self).tray_pause_all_active == old(self).tray_pause_all_active,
            final(self).config == old(self).config,
            logs_same(*old(self), *final(self)),
            final(self).pending_save == old(self).pending_save,
            hide == !old(self).quit_requested,
            final(self).minimized_to_tray == (old(self).minimized_to_tray || hide),
            final(self).quit_requested == old(self).quit_requested,
    {
        if !self.quit_requested {
            self.minimized_to_tray = true;
            true
        } else {
            false
        }
    }

    /// The window is shown again.
    pub fn show_window(&mut self)
        ensures
            inputs_same(*old(self), *final(self)),
            watchers_same(*old(self), *final(self)),
            final(self).selected_tab == old(self).selected_tab,
            final(self).edit_folder == old(self).edit_folder,
            final(self).tray_pause_all_active == old(self).tray_pause_all_active,
            final(self).config == old(self).config,
            logs_same(*old(self), *final(self)),
            final(self).pending_save == old(self).pending_save,
            !final(self).minimized_to_tray,
            final(self).quit_requested == old(self).quit_requested,
    {
        self.minimized_to_tray = false;
    }

    /// The user chose to quit.
    pub fn request_quit(&mut self)
        ensures
            inputs_same(*old(self), *final(self)),
            watchers_same(*old(self), *final(self)),
            final(self).selected_tab == old(self).selected_tab,
            final(self).edit_folder == old(self).edit_folder,
            final(self).tray_pause_all_active == old(self).tray_pause_all_active,
            final(self).config == old(self).config,
            logs_same(*old(self), *final(self)),
            final(self).pending_save == old(self).pending_save,
            final(self).quit_requested,
            final(self).minimized_to_tray == old(self).minimized_to_tray,
    {
        self.quit_requested = true;
    }

    /// The server URL field was edited: the settings take its text and are
    /// marked for saving.
    pub fn apply_server_url(&mut self)
        ensures
            folders_view(final(self).config.folders@) == folders_view(old(self).config.folders@),
            final(self).config.schema_version == old(self).config.schema_version,
            final(self).config.start_on_boot == old(self).config.start_on_boot,
            final(self).config.start_minimized_to_tray == old(self).config.start_minimized_to_tray,
            final(self).config.auto_start_watching_on_launch == old(self).config.auto_start_watching_on_launch,
            final(self).config.auto_restart_on_failure == old(self).config.auto_restart_on_failure,
            final(self).config.max_restart_attempts == old(self).config.max_restart_attempts,
            final(self).config.restart_backoff_seconds == old(self).config.restart_backoff_seconds,
            window_same(*old(self), *final(self)),
            watchers_same(*old(self), *final(self)),
            logs_same(*old(self), *final(self)),
            final(self).config.server_url@ == old(self).server_url_input@,
            final(self).server_url_input == old(self).server_url_input,
            final(self).pending_save,
    {
        self.config.server_url = self.server_url_input.clone();
        self.pending_save = true;
    }

    /// The switches of the settings section as they are now.
    pub fn settings_snapshot(&self) -> (r: SettingsSnapshot)
        ensures
            r == (SettingsSnapshot {
                start_on_boot: self.config.start_on_boot,
                start_minimized_to_tray: self.config.start_minimized_to_tray,
                auto_start_watching_on_launch: self.config.auto_start_watching_on_launch,
                auto_restart_on_failure: self.config.auto_restart_on_failure,
                max_restart_attempts: self.config.max_restart_attempts,
                restart_backoff_seconds: self.config.restart_backoff_seconds,
            }),
    {
        SettingsSnapshot {
            start_on_boot: self.config.start_on_boot,
            start_minimized_to_tray: self.config.start_minimized_to_tray,
            auto_start_watching_on_launch: self.config.auto_start_watching_on_launch,
            auto_restart_on_failure: self.config.auto_restart_on_failure,
            max_restart_attempts: self.config.max_restart_attempts,
            restart_backoff_seconds: self.config.restart_backoff_seconds,
        }
    }

    /// The settings section changed from `prev` to the current switches: any
    /// change marks the settings for saving; the result tells whether the
    /// start with the system is to be updated.
    pub fn settings_edited(&mut self, prev: SettingsSnapshot) -> (boot_changed: bool)
        ensures
            window_same(*old(self), *final(self)),
            watchers_same(*old(self), *final(self)),
            logs_same(*old(self), *final(self)),
            ({
                let now = SettingsSnapshot {
                    start_on_boot: old(self).config.start_on_boot,
                    start_minimized_to_tray: old(self).config.start_minimized_to_tray,
                    auto_start_watching_on_launch: old(self).config.auto_start_watching_on_launch,
                    auto_restart_on_failure: old(self).config.auto_restart_on_failure,
                    max_restart_attempts: old(self).config.max_restart_attempts,
                    restart_backoff_seconds: old(self).config.restart_backoff_seconds,
                };
                &&& final(self).pending_save == (old(self).pending_save || prev != now)
                &&& boot_changed == (prev.start_on_boot != now.start_on_boot)
            }),
            final(self).config == old(self).config,
    {
        let now = self.settings_snapshot();
        if prev != now {
            self.pending_save = true;
        }
        prev.start_on_boot != now.start_on_boot
    }

    /// Opens the editor of folder `id`, or closes it when it is open.
    pub fn toggle_edit(&mut self, id: &str)
        ensures
            inputs_same(*old(self), *final(self)),
            watchers_same(*old(self), *final(self)),
            final(self).selected_tab == old(self).selected_tab,
            final(self).tray_pause_all_active == old(self).tray_pause_all_active,
            final(self).quit_requested == old(self).quit_requested,
            final(self).minimized_to_tray == old(self).minimized_to_tray,
            final(self).config == old(self).config,
            logs_same(*old(self), *final(self)),
            final(self).pending_save == old(self).pending_save,
            match old(self).edit_folder {
                Some(e) => if e@ == id@ {
                    final(self).edit_folder is None
                } else {
                    final(self).edit_folder matches Some(n) && n@ == id@
                },
                None => final(self).edit_folder matches Some(n) && n@ == id@,
            },
    {
        let key = String::from_str(id);
        let editing = match &self.edit_folder {
            Some(e) => *e == key,
            None => false,
        };
        self.edit_folder = if editing {
            None
        } else {
            Some(key)
        };
    }

    /// Records event `ev` under its folder's label (see [`App::folder_label`]
    /// and [`App::apply_log_event`]).
    pub fn handle_log_event(&mut self, ev: LogEvent)
        ensures
            exists|label: Seq<char>|
                label_fits(folders_view(old(self).config.folders@), event_folder_id(ev@), label)
                    && event_applied(*old(self), *final(self), ev@, label),
    {
        let label = self.folder_label(ev.folder_id().as_str());
        self.apply_log_event(ev, label.as_str());
    }

    /// Records event `ev` of the folder labelled `label`: the folder's log
    /// (if it has one) and the merged log get its message, and the folder's
    /// state follows it. The running watchers stay as they are: an end of a
    /// process is not the end of its watcher, which may restart it.
    pub fn apply_log_event(&mut self, ev: LogEvent, label: &str)
        ensures
            event_applied(*old(self), *final(self), ev@, label@),
    {
        let fid = ev.folder_id().clone();
        let msg = event_message(&ev);
        match self.folder_logs.take(fid.as_str()) {
            Some(mut buf) => {
                match &ev {
                    LogEvent::Line { line, partial, .. } => {
                        buf.push_line(line.clone(), *partial);
                    },
                    _ => {
                        buf.push_system(msg.clone());
                    },
                }
                self.folder_logs.insert(fid.clone(), buf);
                assert(self.logs() =~= old(self).logs().insert(
                    fid@,
                    folder_log_after(old(self).logs()[fid@], ev@),
                ));
            },
            None => {
                assert(self.logs() =~= old(self).logs());
            },
        }
        match &ev {
            LogEvent::Line { line, partial, .. } => {
                if !*partial {
                    self.all_log.push_line(tagged(label, line.as_str()), false);
                }
            },
            _ => {
                self.all_log.push_system(tagged(label, msg.as_str()));
            },
        }
        match &ev {
            LogEvent::Line { .. } => {},
            LogEvent::Started { .. } => {
                self.folder_states.insert(fid, FolderState::Watching);
            },
            LogEvent::Exited { code, was_canceled, .. } => {
                let state = if *was_canceled {
                    FolderState::Idle
                } else {
                    match code {
                        Some(c) => if *c == 0 {
                            FolderState::Idle
                        } else {
                            FolderState::Error
                        },
                        None => FolderState::Error,
                    }
                };
                self.folder_states.insert(fid, state);
            },
            LogEvent::Error { .. } => {
                self.folder_states.insert(fid, FolderState::Error);
            },
        }
    }

    /// Takes in that watcher number `generation` of folder `id` has stopped
    /// for good. When it is the folder's running watcher, it is no longer
    /// recorded as running, and the answer is `true`; a watcher that was
    /// stopped or replaced before changes nothing.
    pub fn watcher_ended(&mut self, id: &str, generation: u64) -> (freed: bool)
        ensures
            freed == (old(self).running().contains_key(id@) && old(self).running()[id@] == generation),
            final(self).running() == if freed {
                old(self).running().remove(id@)
            } else {
                old(self).running()
            },
            final(self).next_generation == old(self).next_generation,
            window_same(*old(self), *final(self)),
            logs_same(*old(self), *final(self)),
            final(self).pending_save == old(self).pending_save,
            final(self).config == old(self).config,
    {
        let current = match self.running.get(id) {
            Some(g) => *g == generation,
            None => false,
        };
        if current {
            self.running.remove(id);
        }
        current
    }
}

/// The identifiers of the enabled folders of `fs`, in order.
pub open spec fn enabled_ids_spec(fs: Seq<FolderConfigView>) -> Seq<Seq<char>>
    decreases fs.len(),
{
    if fs.len() == 0 {
        Seq::empty()
    } else {
        let r = enabled_ids_spec(fs.drop_last());
        if fs.last().enabled {
            r.push(fs.last().id)
        } else {
            r
        }
    }
}

/// `x` is the identifier of an enabled folder of `fs`.
pub open spec fn is_enabled_folder_id(fs: Seq<FolderConfigView>, x: Seq<char>) -> bool {
    exists|i: int| 0 <= i < fs.len() && fs[i].enabled && fs[i].id == x
}

/// The folders whose watchers start at launch or on resume are exactly the
/// enabled ones, in order: the identifiers are those of the enabled folders
/// taken in turn, every enabled folder's identifier is among them, and each
/// of them belongs to an enabled folder.
pub proof fn lemma_enabled_ids_are_the_enabled_folders(fs: Seq<FolderConfigView>)
    ensures
        enabled_ids_spec(fs) == fs.filter(|f: FolderConfigView| f.enabled).map_values(
            |f: FolderConfigView| f.id,
        ),
        forall|i: int| 0 <= i < fs.len() && #[trigger] fs[i].enabled ==> enabled_ids_spec(fs).contains(fs[i].id),
        forall|j: int| 0 <= j < enabled_ids_spec(fs).len() ==> is_enabled_folder_id(fs, #[trigger] enabled_ids_spec(fs)[j]),
    decreases fs.len(),
{
    reveal(Seq::filter);
    if fs.len() > 0 {
        let d = fs.drop_last();
        lemma_enabled_ids_are_the_enabled_folders(d);
        let r = enabled_ids_spec(d);
        let p = |f: FolderConfigView| f.enabled;
        let m = |f: FolderConfigView| f.id;
        assert(fs.filter(p) == if fs.last().enabled { d.filter(p).push(fs.last()) } else { d.filter(p) });
        if fs.last().enabled {
            assert(d.filter(p).push(fs.last()).map_values(m) =~= d.filter(p).map_values(m).push(fs.last().id));
        }
        assert forall|i: int| 0 <= i < fs.len() && #[trigger] fs[i].enabled implies enabled_ids_spec(fs).contains(
            fs[i].id,
        ) by {
            if i < fs.len() - 1 {
                assert(fs[i] == d[i]);
                assert(d[i].enabled);
                let k = choose|k: int| 0 <= k < r.len() && r[k] == d[i].id;
                assert(enabled_ids_spec(fs)[k] == fs[i].id);
            } else {
                assert(enabled_ids_spec(fs)[enabled_ids_spec(fs).len() - 1] == fs[i].id);
            }
        }
        assert forall|j: int| 0 <= j < enabled_ids_spec(fs).len() implies is_enabled_folder_id(
            fs,
            #[trigger] enabled_ids_spec(fs)[j],
        ) by {
            if j < r.len() {
                assert(enabled_ids_spec(fs)[j] == r[j]);
                assert(is_enabled_folder_id(d, r[j]));
                let i = choose|i: int| 0 <= i < d.len() && d[i].enabled && d[i].id == r[j];
                assert(fs[i] == d[i]);
            } else {
                assert(fs[fs.len() - 1].enabled);
            }
        }
    } else {
        assert(fs.filter(|f: FolderConfigView| f.enabled).map_values(|f: FolderConfigView| f.id)
            =~= Seq::<Seq<char>>::empty());
        assert(enabled_ids_spec(fs).len() == 0);
    }
}

/// The folders of `fs` other than those with identifier `id`, in order.
pub open spec fn without_id_spec(fs: Seq<FolderConfigView>, id: Seq<char>) -> Seq<FolderConfigView>
    decreases fs.len(),
{
    if fs.len() == 0 {
        Seq::empty()
    } else {
        let r = without_id_spec(fs.drop_last(), id);
        if fs.last().id == id {
            r
        } else {
            r.push(fs.last())
        }
    }
}

/// What a watcher is started with: the folder's settings, the watcher's
/// number and the restart settings.
pub struct WatcherLaunch {
    pub folder: FolderConfig,
    pub generation: u64,
    pub auto_restart: bool,
    pub max_attempts: u32,
    pub backoff_secs: u64,
}

/// The switches of the settings section, to tell whether they changed.
#[derive(Clone, Copy, Debug, PartialEq, Eq, Structural)]
pub struct SettingsSnapshot {
    pub start_on_boot: bool,
    pub start_minimized_to_tray: bool,
    pub auto_start_watching_on_launch: bool,
    pub auto_restart_on_failure: bool,
    pub max_restart_attempts: u32,
    pub restart_backoff_seconds: u64,
}

/// The name offered for a saved log, from a time stamp.
pub open spec fn log_file_name_spec(stamp: Seq<char>) -> Seq<char> {
    "immich-uploader-log-"@ + stamp + ".txt"@
}

/// The name offered for a saved log: `immich-uploader-log-` and the stamp,
/// as a text file.
pub fn log_file_name(stamp: &str) -> (r: String)
    ensures
        r@ == log_file_name_spec(stamp@),
{
    let mut r = String::from_str("immich-uploader-log-");
    push_str(&mut r, stamp);
    push_str(&mut r, ".txt");
    r
}

/// The seconds since the Unix epoch by the system clock, or 0 when the clock
/// is set before the epoch. The value depends on the time, so nothing is
/// stated of it.
#[verifier::external_body]
fn unix_time_secs() -> (r: u64) {
    match std::time::SystemTime::now().duration_since(std::time::UNIX_EPOCH) {
        Ok(d) => d.as_secs(),
        Err(_) => 0,
    }
}

/// A time stamp for file names: the decimal seconds since the Unix epoch.
pub fn chrono_like_timestamp() -> (r: String)
    ensures
        exists|secs: u64| r@ == decimal_spec(secs as nat),
{
    let secs = unix_time_secs();
    let r = crate::text::decimal_string(secs);
    r
}

/// `post` is `pre` after event `ev` of the folder labelled `label` was
/// recorded.
pub open spec fn event_applied(pre: App, post: App, ev: LogEventView, label: Seq<char>) -> bool {
    let fid = event_folder_id(ev);
    &&& post.logs() == if pre.logs().contains_key(fid) {
        pre.logs().insert(fid, folder_log_after(pre.logs()[fid], ev))
    } else {
        pre.logs()
    }
    &&& post.all_log() == all_log_after(pre.all_log(), ev, label)
    &&& post.states() == match state_after(ev) {
        Some(st) => pre.states().insert(fid, st),
        None => pre.states(),
    }
    &&& watchers_same(pre, post)
    &&& post.config == pre.config
    &&& post.api_key_input == pre.api_key_input
    &&& post.server_url_input == pre.server_url_input
    &&& post.selected_tab == pre.selected_tab
    &&& post.edit_folder == pre.edit_folder
    &&& post.tray_pause_all_active == pre.tray_pause_all_active
    &&& post.pending_save == pre.pending_save
    &&& post.quit_requested == pre.quit_requested
    &&& post.minimized_to_tray == pre.minimized_to_tray
}

/// The next watcher number after `g`.
pub open spec fn next_generation_spec(g: u64) -> u64 {
    if g == u64::MAX {
        0
    } else {
        (g + 1) as u64
    }
}

/// `post` is `pre` after a start of folder `id`'s watcher was asked for, and
/// `r` is what the watcher starts with if it was started: it is started when
/// it does not run and a folder has that identifier, with that folder's
/// settings, the next watcher number and the restart settings (at least one
/// attempt); the folder is then recorded as running with that number and
/// marked as watching. Otherwise nothing changes.
pub open spec fn watcher_started(pre: App, post: App, id: Seq<char>, r: Option<WatcherLaunch>) -> bool {
    let fs = folders_view(pre.config.folders@);
    &&& window_same(pre, post)
    &&& post.pending_save == pre.pending_save
    &&& post.config == pre.config
    &&& post.logs() == pre.logs()
    &&& post.all_log() == pre.all_log()
    &&& match r {
        Some(w) => {
            &&& !pre.running().contains_key(id)
            &&& exists|i: int| is_first_match(fs, id, i) && w.folder@ == fs[i]
            &&& w.generation == pre.next_generation
            &&& w.auto_restart == pre.config.auto_restart_on_failure
            &&& w.max_attempts == (if pre.config.max_restart_attempts == 0 { 1 } else { pre.config.max_restart_attempts })
            &&& w.backoff_secs == pre.config.restart_backoff_seconds
            &&& post.running() == pre.running().insert(id, w.generation)
            &&& post.next_generation == next_generation_spec(pre.next_generation)
            &&& post.states() == pre.states().insert(id, FolderState::Watching)
        },
        None => {
            &&& (pre.running().contains_key(id) || no_match(fs, id))
            &&& watchers_same(pre, post)
            &&& post.states() == pre.states()
        },
    }
}

/// `post` is `pre` after a stop of folder `id`'s watcher was asked for, and
/// `stopped` says whether it ran: if it did, it is no longer recorded as
/// running and the folder is marked as stopping; otherwise nothing changes.
pub open spec fn watcher_stopped(pre: App, post: App, id: Seq<char>, stopped: bool) -> bool {
    &&& stopped == pre.running().contains_key(id)
    &&& window_same(pre, post)
    &&& post.pending_save == pre.pending_save
    &&& post.config == pre.config
    &&& post.logs() == pre.logs()
    &&& post.all_log() == pre.all_log()
    &&& post.running() == pre.running().remove(id)
    &&& post.next_generation == pre.next_generation
    &&& post.states() == if stopped {
        pre.states().insert(id, FolderState::Stopping)
    } else {
        pre.states()
    }
}

/// A folder's watcher starts once: right after a start that started it, a
/// second start of the same folder starts nothing and changes nothing.
pub proof fn lemma_second_start_does_nothing(
    a0: App,
    a1: App,
    a2: App,
    id: Seq<char>,
    r1: Option<WatcherLaunch>,
    r2: Option<WatcherLaunch>,
)
    requires
        watcher_started(a0, a1, id, r1),
        watcher_started(a1, a2, id, r2),
        r1 is Some,
    ensures
        r2 is None,
        window_same(a1, a2),
        watchers_same(a1, a2),
        a2.config == a1.config,
        a2.states() == a1.states(),
        a2.logs() == a1.logs(),
        a2.all_log() == a1.all_log(),
{
}

/// A stopped watcher can be started again: after a stop of folder `id`'s
/// watcher, a start of it starts a watcher whenever a folder has that
/// identifier.
pub proof fn lemma_start_after_stop(
    a0: App,
    a1: App,
    a2: App,
    id: Seq<char>,
    stopped: bool,
    r: Option<WatcherLaunch>,
)
    requires
        watcher_stopped(a0, a1, id, stopped),
        watcher_started(a1, a2, id, r),
        !no_match(folders_view(a0.config.folders@), id),
    ensures
        r is Some,
        a2.running().contains_key(id),
{
}

/// What a change of a folder's enabled switch asks of its watcher.
#[derive(Clone, Copy, Debug, PartialEq, Eq, Structural)]
pub enum WatchToggle {
    /// The folder was enabled: start its watcher.
    Start,
    /// The folder was disabled: stop its watcher.
    Stop,
    /// The switch did not change.
    Keep,
}

/// What the enabled switch going from `was` to `now` asks of the folder's
/// watcher.
pub fn enabled_change(was: bool, now: bool) -> (r: WatchToggle)
    ensures
        r == if was == now {
            WatchToggle::Keep
        } else if now {
            WatchToggle::Start
        } else {
            WatchToggle::Stop
        },
{
    if was == now {
        WatchToggle::Keep
    } else if now {
        WatchToggle::Start
    } else {
        WatchToggle::Stop
    }
}

/// Whether one of the first `i` identifiers of `ids` is `k`.
pub open spec fn seen_upto(ids: Seq<String>, i: int, k: Seq<char>) -> bool {
    exists|j: int| 0 <= j < i && (#[trigger] ids[j])@ == k
}

/// The folder states after the watchers of `running` were stopped: each of
/// those folders is stopping, the others keep their state.
pub open spec fn paused_states(states: Map<Seq<char>, FolderState>, running: Map<Seq<char>, u64>) -> Map<
    Seq<char>,
    FolderState,
> {
    Map::new(
        |k: Seq<char>| states.contains_key(k) || running.contains_key(k),
        |k: Seq<char>| if running.contains_key(k) {
            FolderState::Stopping
        } else {
            states[k]
        },
    )
}

/// The folder states after the watchers of the first `i` folders of `ids`
/// that are in `running` were stopped.
pub open spec fn paused_states_upto(
    states: Map<Seq<char>, FolderState>,
    running: Map<Seq<char>, u64>,
    ids: Seq<String>,
    i: int,
) -> Map<Seq<char>, FolderState> {
    Map::new(
        |k: Seq<char>| states.contains_key(k) || (running.contains_key(k) && seen_upto(ids, i, k)),
        |k: Seq<char>| if running.contains_key(k) && seen_upto(ids, i, k) {
            FolderState::Stopping
        } else {
            states[k]
        },
    )
}

} // verus!

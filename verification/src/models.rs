//! The session model: sources, statuses, observations, events, sessions and
//! the view model that the island shows.
use crate::text::{
    chars_of, contains, decimal, lowercase_of, owned, push_chars, push_decimal, push_signed_decimal,
    push_str, signed_decimal, str_eq, strip_prefixes, trim_start_matches_chars,
};
use crate::time::{
    chrono_millis_in_range, elapsed_secs, elapsed_secs_between, unix_ms_to_utc_at, utc_instant, utc_now_millis,
};
use vstd::prelude::*;
use vstd::string::*;

verus! {

broadcast use vstd::string::group_string_axioms;

#[derive(Clone, Copy, Debug, PartialEq, Eq, Structural)]
pub enum SessionSource {
    Cli,
    Desktop,
}

#[derive(Clone, Debug, PartialEq, Eq)]
pub enum TerminalApp {
    Terminal,
    ITerm,
    Unsupported(String),
}

#[derive(Clone, Copy, Debug, PartialEq, Eq, Structural)]
pub enum SessionStatus {
    Discovering,
    Running,
    Idle,
    WaitingInput,
    Completed,
    Failed,
}

#[derive(Clone, Copy, Debug, PartialEq, Eq, Structural)]
pub enum PromptSource {
    Thread,
    Terminal,
}

#[derive(Clone, Copy, Debug, PartialEq, Eq, Structural)]
pub enum SessionIngestionMode {
    Hooks,
    Fallback,
}

#[derive(Clone, Debug, PartialEq, Eq)]
pub struct PromptAction {
    pub id: String,
    pub label: String,
    pub reply: String,
}

#[derive(Clone, Debug, PartialEq, Eq)]
pub enum SubmitTarget {
    ThreadId(String),
    DesktopCommandApproval { conversation_id: String, request_id: String },
}

// ---------------------------------------------------------------------------
// Views
// ---------------------------------------------------------------------------

pub enum TerminalAppView {
    Terminal,
    ITerm,
    Unsupported(Seq<char>),
}

pub struct PromptActionView {
    pub id: Seq<char>,
    pub label: Seq<char>,
    pub reply: Seq<char>,
}

pub enum SubmitTargetView {
    ThreadId(Seq<char>),
    DesktopCommandApproval { conversation_id: Seq<char>, request_id: Seq<char> },
}

impl View for TerminalApp {
    type V = TerminalAppView;

    open spec fn view(&self) -> TerminalAppView {
        match self {
            TerminalApp::Terminal => TerminalAppView::Terminal,
            TerminalApp::ITerm => TerminalAppView::ITerm,
            TerminalApp::Unsupported(name) => TerminalAppView::Unsupported(name@),
        }
    }
}

impl DeepView for TerminalApp {
    type V = TerminalAppView;

    open spec fn deep_view(&self) -> TerminalAppView {
        self@
    }
}

impl View for PromptAction {
    type V = PromptActionView;

    open spec fn view(&self) -> PromptActionView {
        PromptActionView { id: self.id@, label: self.label@, reply: self.reply@ }
    }
}

impl DeepView for PromptAction {
    type V = PromptActionView;

    open spec fn deep_view(&self) -> PromptActionView {
        self@
    }
}

impl View for SubmitTarget {
    type V = SubmitTargetView;

    open spec fn view(&self) -> SubmitTargetView {
        match self {
            SubmitTarget::ThreadId(id) => SubmitTargetView::ThreadId(id@),
            SubmitTarget::DesktopCommandApproval { conversation_id, request_id } => {
                SubmitTargetView::DesktopCommandApproval {
                    conversation_id: conversation_id@,
                    request_id: request_id@,
                }
            },
        }
    }
}

impl DeepView for SubmitTarget {
    type V = SubmitTargetView;

    open spec fn deep_view(&self) -> SubmitTargetView {
        self@
    }
}

// ---------------------------------------------------------------------------
// Copies whose result is known
// ---------------------------------------------------------------------------

impl TerminalApp {
    pub fn duplicate(&self) -> (r: Self)
        ensures
            r@ == self@,
    {
        match self {
            TerminalApp::Terminal => TerminalApp::Terminal,
            TerminalApp::ITerm => TerminalApp::ITerm,
            TerminalApp::Unsupported(name) => TerminalApp::Unsupported(name.clone()),
        }
    }
}

impl PromptAction {
    pub fn duplicate(&self) -> (r: Self)
        ensures
            r@ == self@,
    {
        PromptAction { id: self.id.clone(), label: self.label.clone(), reply: self.reply.clone() }
    }
}

impl SubmitTarget {
    pub fn duplicate(&self) -> (r: Self)
        ensures
            r@ == self@,
    {
        match self {
            SubmitTarget::ThreadId(id) => SubmitTarget::ThreadId(id.clone()),
            SubmitTarget::DesktopCommandApproval { conversation_id, request_id } => {
                SubmitTarget::DesktopCommandApproval {
                    conversation_id: conversation_id.clone(),
                    request_id: request_id.clone(),
                }
            },
        }
    }
}

pub fn dup_opt_string(o: &Option<String>) -> (r: Option<String>)
    ensures
        r.deep_view() == o.deep_view(),
{
    match o {
        Some(s) => Some(s.clone()),
        None => None,
    }
}

pub fn dup_opt_terminal(o: &Option<TerminalApp>) -> (r: Option<TerminalApp>)
    ensures
        r.deep_view() == o.deep_view(),
{
    match o {
        Some(t) => Some(t.duplicate()),
        None => None,
    }
}

pub fn dup_opt_target(o: &Option<SubmitTarget>) -> (r: Option<SubmitTarget>)
    ensures
        r.deep_view() == o.deep_view(),
{
    match o {
        Some(t) => Some(t.duplicate()),
        None => None,
    }
}

pub fn dup_actions(v: &Vec<PromptAction>) -> (r: Vec<PromptAction>)
    ensures
        r.deep_view() == v.deep_view(),
{
    let mut r: Vec<PromptAction> = Vec::new();
    let mut i: usize = 0;
    while i < v.len()
        invariant
            i <= v.len(),
            r.deep_view() == v.deep_view().take(i as int),
        decreases v.len() - i,
    {
        let ghost before = r.deep_view();
        let item = v[i].duplicate();
        r.push(item);
        assert(r.deep_view() =~= before.push(v.deep_view()[i as int]));
        assert(v.deep_view().take(i + 1) =~= v.deep_view().take(i as int).push(
            v.deep_view()[i as int],
        ));
        i += 1;
    }
    assert(v.deep_view().take(v.len() as int) == v.deep_view());
    r
}

pub fn dup_strings(v: &Vec<String>) -> (r: Vec<String>)
    ensures
        r.deep_view() == v.deep_view(),
{
    let mut r: Vec<String> = Vec::new();
    let mut i: usize = 0;
    while i < v.len()
        invariant
            i <= v.len(),
            r.deep_view() == v.deep_view().take(i as int),
        decreases v.len() - i,
    {
        let ghost before = r.deep_view();
        let item = v[i].clone();
        r.push(item);
        assert(r.deep_view() =~= before.push(v.deep_view()[i as int]));
        assert(v.deep_view().take(i + 1) =~= v.deep_view().take(i as int).push(
            v.deep_view()[i as int],
        ));
        i += 1;
    }
    assert(v.deep_view().take(v.len() as int) == v.deep_view());
    r
}

/// Whether two lists of actions are the same, action by action.
pub fn actions_eq(a: &Vec<PromptAction>, b: &Vec<PromptAction>) -> (r: bool)
    ensures
        r == (a.deep_view() == b.deep_view()),
{
    if a.len() != b.len() {
        assert(a.deep_view().len() != b.deep_view().len());
        return false;
    }
    let mut i: usize = 0;
    while i < a.len()
        invariant
            i <= a.len() == b.len(),
            forall|j: int| 0 <= j < i ==> a.deep_view()[j] == b.deep_view()[j],
        decreases a.len() - i,
    {
        let ai = &a[i];
        let bi = &b[i];
        if !(string_eq(&ai.id, &bi.id) && string_eq(&ai.label, &bi.label) && string_eq(
            &ai.reply,
            &bi.reply,
        )) {
            assert(a.deep_view()[i as int] != b.deep_view()[i as int]);
            return false;
        }
        i += 1;
    }
    assert(a.deep_view() == b.deep_view());
    true
}

pub fn string_eq(a: &String, b: &String) -> (r: bool)
    ensures
        r == (a@ == b@),
{
    str_eq(a.as_str(), b.as_str())
}

pub fn opt_string_eq(a: &Option<String>, b: &Option<String>) -> (r: bool)
    ensures
        r == (a.deep_view() == b.deep_view()),
{
    match (a, b) {
        (Some(x), Some(y)) => string_eq(x, y),
        (None, None) => true,
        _ => false,
    }
}

pub fn target_eq(a: &Option<SubmitTarget>, b: &Option<SubmitTarget>) -> (r: bool)
    ensures
        r == (a.deep_view() == b.deep_view()),
{
    match (a, b) {
        (Some(SubmitTarget::ThreadId(x)), Some(SubmitTarget::ThreadId(y))) => string_eq(x, y),
        (
            Some(SubmitTarget::DesktopCommandApproval { conversation_id: c1, request_id: r1 }),
            Some(SubmitTarget::DesktopCommandApproval { conversation_id: c2, request_id: r2 }),
        ) => string_eq(c1, c2) && string_eq(r1, r2),
        (None, None) => true,
        _ => false,
    }
}

// ---------------------------------------------------------------------------
// Statuses
// ---------------------------------------------------------------------------

pub open spec fn status_priority(s: SessionStatus) -> u8 {
    match s {
        SessionStatus::WaitingInput => 4,
        SessionStatus::Running => 3,
        SessionStatus::Idle => 2,
        SessionStatus::Discovering => 2,
        SessionStatus::Failed => 1,
        SessionStatus::Completed => 0,
    }
}

pub open spec fn status_name(s: SessionStatus) -> Seq<char> {
    match s {
        SessionStatus::Discovering => "discovering"@,
        SessionStatus::Running => "running"@,
        SessionStatus::Idle => "idle"@,
        SessionStatus::WaitingInput => "waiting_input"@,
        SessionStatus::Completed => "completed"@,
        SessionStatus::Failed => "failed"@,
    }
}

/// The entry a status change leaves in a session's history when nothing
/// more telling is known.
pub open spec fn history_label(s: SessionStatus) -> Seq<char> {
    match s {
        SessionStatus::Discovering => "Discovering"@,
        SessionStatus::Running => "Running"@,
        SessionStatus::Idle => "Idle"@,
        SessionStatus::WaitingInput => "Waiting input"@,
        SessionStatus::Completed => "Completed"@,
        SessionStatus::Failed => "Failed"@,
    }
}

impl SessionStatus {
    /// How urgently a session in this status wants to be seen (higher first).
    pub fn sort_priority(&self) -> (r: u8)
        ensures
            r == status_priority(*self),
    {
        match self {
            SessionStatus::WaitingInput => 4,
            SessionStatus::Running => 3,
            SessionStatus::Idle => 2,
            SessionStatus::Discovering => 2,
            SessionStatus::Failed => 1,
            SessionStatus::Completed => 0,
        }
    }

    /// The snake_case name of the status.
    pub fn as_str(&self) -> (r: &'static str)
        ensures
            r@ == status_name(*self),
    {
        match self {
            SessionStatus::Discovering => "discovering",
            SessionStatus::Running => "running",
            SessionStatus::Idle => "idle",
            SessionStatus::WaitingInput => "waiting_input",
            SessionStatus::Completed => "completed",
            SessionStatus::Failed => "failed",
        }
    }
}

impl SessionIngestionMode {
    pub fn as_str(&self) -> (r: &'static str)
        ensures
            r@ == (match *self {
                SessionIngestionMode::Hooks => "hooks"@,
                SessionIngestionMode::Fallback => "fallback"@,
            }),
    {
        match self {
            SessionIngestionMode::Hooks => "hooks",
            SessionIngestionMode::Fallback => "fallback",
        }
    }
}

/// The history entry for a status.
pub fn status_label_for_history(status: &SessionStatus) -> (r: &'static str)
    ensures
        r@ == history_label(*status),
{
    match status {
        SessionStatus::Discovering => "Discovering",
        SessionStatus::Running => "Running",
        SessionStatus::Idle => "Idle",
        SessionStatus::WaitingInput => "Waiting input",
        SessionStatus::Completed => "Completed",
        SessionStatus::Failed => "Failed",
    }
}


// ---------------------------------------------------------------------------
// Observations, events, sessions
// ---------------------------------------------------------------------------

/// What one poll of the local processes saw of one Codex process.
#[derive(Debug, Clone)]
pub struct DiscoveryObservation {
    pub pid: i32,
    pub parent_pid: Option<i32>,
    pub tty: Option<String>,
    pub cwd: Option<String>,
    pub terminal_app: Option<TerminalApp>,
    pub title: String,
    pub project_name: Option<String>,
    pub source: SessionSource,
    pub activity_label: Option<String>,
    pub interaction_hint: Option<String>,
    pub prompt_actions: Vec<PromptAction>,
    pub prompt_source: Option<PromptSource>,
    pub submit_target: Option<SubmitTarget>,
    pub seen_at_unix_ms: i64,
}

pub struct ObservationView {
    pub pid: i32,
    pub parent_pid: Option<i32>,
    pub tty: Option<Seq<char>>,
    pub cwd: Option<Seq<char>>,
    pub terminal_app: Option<TerminalAppView>,
    pub title: Seq<char>,
    pub project_name: Option<Seq<char>>,
    pub source: SessionSource,
    pub activity_label: Option<Seq<char>>,
    pub interaction_hint: Option<Seq<char>>,
    pub prompt_actions: Seq<PromptActionView>,
    pub prompt_source: Option<PromptSource>,
    pub submit_target: Option<SubmitTargetView>,
    pub seen_at_unix_ms: i64,
}

impl View for DiscoveryObservation {
    type V = ObservationView;

    open spec fn view(&self) -> ObservationView {
        ObservationView {
            pid: self.pid,
            parent_pid: self.parent_pid,
            tty: self.tty.deep_view(),
            cwd: self.cwd.deep_view(),
            terminal_app: self.terminal_app.deep_view(),
            title: self.title@,
            project_name: self.project_name.deep_view(),
            source: self.source,
            activity_label: self.activity_label.deep_view(),
            interaction_hint: self.interaction_hint.deep_view(),
            prompt_actions: self.prompt_actions.deep_view(),
            prompt_source: self.prompt_source,
            submit_target: self.submit_target.deep_view(),
            seen_at_unix_ms: self.seen_at_unix_ms,
        }
    }
}

impl DeepView for DiscoveryObservation {
    type V = ObservationView;

    open spec fn deep_view(&self) -> ObservationView {
        self@
    }
}

/// The key of the session a process belongs to: CLI processes sharing a
/// terminal are one session.
pub open spec fn observation_key(source: SessionSource, tty: Option<Seq<char>>, pid: i32) -> Seq<
    char,
> {
    match source {
        SessionSource::Cli => match tty {
            Some(t) => "cli:"@ + t,
            None => "cli:"@ + signed_decimal(pid as int),
        },
        SessionSource::Desktop => "desktop:"@ + signed_decimal(pid as int),
    }
}

impl DiscoveryObservation {
    /// `cli:<tty>` for a CLI process on a terminal, `cli:<pid>` for one
    /// without, `desktop:<pid>` for the desktop app.
    pub fn session_id(&self) -> (r: String)
        ensures
            r@ == observation_key(self.source, self.tty.deep_view(), self.pid),
    {
        match self.source {
            SessionSource::Cli => match &self.tty {
                Some(tty) => {
                    let mut s = owned("cli:");
                    push_str(&mut s, tty.as_str());
                    s
                },
                None => {
                    let mut s = owned("cli:");
                    push_signed_decimal(&mut s, self.pid as i64);
                    s
                },
            },
            SessionSource::Desktop => {
                let mut s = owned("desktop:");
                push_signed_decimal(&mut s, self.pid as i64);
                s
            },
        }
    }
}

/// What a Codex hook reported about a session.
#[derive(Debug, Clone)]
pub struct SessionEvent {
    pub session_id: String,
    pub thread_id: Option<String>,
    pub source: SessionSource,
    pub pid: Option<i32>,
    pub cwd: Option<String>,
    pub tty: Option<String>,
    pub terminal_app: Option<TerminalApp>,
    pub title: Option<String>,
    pub project_name: Option<String>,
    pub activity_label: Option<String>,
    pub prompt_text: Option<String>,
    pub user_prompt: Option<String>,
    pub prompt_actions: Vec<PromptAction>,
    pub prompt_source: Option<PromptSource>,
    pub submit_target: Option<SubmitTarget>,
    pub status: SessionStatus,
    pub transcript_path: Option<String>,
    pub happened_at_unix_ms: i64,
}

pub struct SessionEventView {
    pub session_id: Seq<char>,
    pub thread_id: Option<Seq<char>>,
    pub source: SessionSource,
    pub pid: Option<i32>,
    pub cwd: Option<Seq<char>>,
    pub tty: Option<Seq<char>>,
    pub terminal_app: Option<TerminalAppView>,
    pub title: Option<Seq<char>>,
    pub project_name: Option<Seq<char>>,
    pub activity_label: Option<Seq<char>>,
    pub prompt_text: Option<Seq<char>>,
    pub user_prompt: Option<Seq<char>>,
    pub prompt_actions: Seq<PromptActionView>,
    pub prompt_source: Option<PromptSource>,
    pub submit_target: Option<SubmitTargetView>,
    pub status: SessionStatus,
    pub transcript_path: Option<Seq<char>>,
    pub happened_at_unix_ms: i64,
}

impl View for SessionEvent {
    type V = SessionEventView;

    open spec fn view(&self) -> SessionEventView {
        SessionEventView {
            session_id: self.session_id@,
            thread_id: self.thread_id.deep_view(),
            source: self.source,
            pid: self.pid,
            cwd: self.cwd.deep_view(),
            tty: self.tty.deep_view(),
            terminal_app: self.terminal_app.deep_view(),
            title: self.title.deep_view(),
            project_name: self.project_name.deep_view(),
            activity_label: self.activity_label.deep_view(),
            prompt_text: self.prompt_text.deep_view(),
            user_prompt: self.user_prompt.deep_view(),
            prompt_actions: self.prompt_actions.deep_view(),
            prompt_source: self.prompt_source,
            submit_target: self.submit_target.deep_view(),
            status: self.status,
            transcript_path: self.transcript_path.deep_view(),
            happened_at_unix_ms: self.happened_at_unix_ms,
        }
    }
}

impl DeepView for SessionEvent {
    type V = SessionEventView;

    open spec fn deep_view(&self) -> SessionEventView {
        self@
    }
}

/// The key of the session an event belongs to: the key its process would
/// have as an observation where the event names the terminal or the process,
/// else `thread:<session id>`.
pub open spec fn event_key(e: SessionEventView) -> Seq<char> {
    match (e.source, e.tty, e.pid) {
        (SessionSource::Cli, Some(t), _) => "cli:"@ + t,
        (SessionSource::Cli, None, Some(p)) => "cli:"@ + signed_decimal(p as int),
        (SessionSource::Desktop, _, Some(p)) => "desktop:"@ + signed_decimal(p as int),
        _ => "thread:"@ + e.session_id,
    }
}

impl SessionEvent {
    pub fn session_key(&self) -> (r: String)
        ensures
            r@ == event_key(self@),
    {
        match (self.source, &self.tty, self.pid) {
            (SessionSource::Cli, Some(t), _) => {
                let mut s = owned("cli:");
                push_str(&mut s, t.as_str());
                s
            },
            (SessionSource::Cli, None, Some(p)) => {
                let mut s = owned("cli:");
                push_signed_decimal(&mut s, p as i64);
                s
            },
            (SessionSource::Desktop, _, Some(p)) => {
                let mut s = owned("desktop:");
                push_signed_decimal(&mut s, p as i64);
                s
            },
            _ => {
                let mut s = owned("thread:");
                push_str(&mut s, self.session_id.as_str());
                s
            },
        }
    }
}

/// One Codex session as the island tracks it. Instants are milliseconds
/// since the UNIX epoch.
#[derive(Debug, Clone)]
pub struct CodexSession {
    pub session_id: String,
    pub source: SessionSource,
    pub pid: i32,
    pub parent_pid: Option<i32>,
    pub tty: Option<String>,
    pub cwd: Option<String>,
    pub terminal_app: Option<TerminalApp>,
    pub title: String,
    pub project_name: Option<String>,
    pub status: SessionStatus,
    pub ingestion_mode: SessionIngestionMode,
    pub needs_attention: bool,
    pub last_activity_at: i64,
    pub activity_label: Option<String>,
    pub last_snapshot: Option<String>,
    pub latest_user_prompt: Option<String>,
    pub prompt_actions: Vec<PromptAction>,
    pub prompt_source: Option<PromptSource>,
    pub submit_target: Option<SubmitTarget>,
    pub notification_sent_at: Option<i64>,
    pub last_event_at: Option<i64>,
    pub last_observation_at: Option<i64>,
    pub transcript_path: Option<String>,
    pub status_history: Vec<String>,
    pub conversation_history: Vec<String>,
}

pub struct CodexSessionView {
    pub session_id: Seq<char>,
    pub source: SessionSource,
    pub pid: i32,
    pub parent_pid: Option<i32>,
    pub tty: Option<Seq<char>>,
    pub cwd: Option<Seq<char>>,
    pub terminal_app: Option<TerminalAppView>,
    pub title: Seq<char>,
    pub project_name: Option<Seq<char>>,
    pub status: SessionStatus,
    pub ingestion_mode: SessionIngestionMode,
    pub needs_attention: bool,
    pub last_activity_at: i64,
    pub activity_label: Option<Seq<char>>,
    pub last_snapshot: Option<Seq<char>>,
    pub latest_user_prompt: Option<Seq<char>>,
    pub prompt_actions: Seq<PromptActionView>,
    pub prompt_source: Option<PromptSource>,
    pub submit_target: Option<SubmitTargetView>,
    pub notification_sent_at: Option<i64>,
    pub last_event_at: Option<i64>,
    pub last_observation_at: Option<i64>,
    pub transcript_path: Option<Seq<char>>,
    pub status_history: Seq<Seq<char>>,
    pub conversation_history: Seq<Seq<char>>,
}

impl View for CodexSession {
    type V = CodexSessionView;

    open spec fn view(&self) -> CodexSessionView {
        CodexSessionView {
            session_id: self.session_id@,
            source: self.source,
            pid: self.pid,
            parent_pid: self.parent_pid,
            tty: self.tty.deep_view(),
            cwd: self.cwd.deep_view(),
            terminal_app: self.terminal_app.deep_view(),
            title: self.title@,
            project_name: self.project_name.deep_view(),
            status: self.status,
            ingestion_mode: self.ingestion_mode,
            needs_attention: self.needs_attention,
            last_activity_at: self.last_activity_at,
            activity_label: self.activity_label.deep_view(),
            last_snapshot: self.last_snapshot.deep_view(),
            latest_user_prompt: self.latest_user_prompt.deep_view(),
            prompt_actions: self.prompt_actions.deep_view(),
            prompt_source: self.prompt_source,
            submit_target: self.submit_target.deep_view(),
            notification_sent_at: self.notification_sent_at,
            last_event_at: self.last_event_at,
            last_observation_at: self.last_observation_at,
            transcript_path: self.transcript_path.deep_view(),
            status_history: self.status_history.deep_view(),
            conversation_history: self.conversation_history.deep_view(),
        }
    }
}

impl DeepView for CodexSession {
    type V = CodexSessionView;

    open spec fn deep_view(&self) -> CodexSessionView {
        self@
    }
}

/// The status an observation implies: waiting when it shows a prompt, idle
/// when its activity mentions idleness, else running.
pub open spec fn observed_status(o: ObservationView) -> SessionStatus {
    if o.interaction_hint is Some {
        SessionStatus::WaitingInput
    } else if o.activity_label matches Some(l) && contains(lowercase_of(l), "idle"@) {
        SessionStatus::Idle
    } else {
        SessionStatus::Running
    }
}

/// The history entry an observation leaves: its activity, else its prompt,
/// else the status label.
pub open spec fn observation_history_entry(o: ObservationView, status: SessionStatus) -> Seq<
    char,
> {
    match o.activity_label {
        Some(l) => l,
        None => match o.interaction_hint {
            Some(h) => h,
            None => history_label(status),
        },
    }
}

/// A new session made from its first observation, at `now` (used only when
/// the observation's instant cannot be represented).
pub open spec fn session_from_observation(
    o: ObservationView,
    status: SessionStatus,
    now: i64,
) -> CodexSessionView {
    let at = utc_instant(o.seen_at_unix_ms, now);
    CodexSessionView {
        session_id: observation_key(o.source, o.tty, o.pid),
        source: o.source,
        pid: o.pid,
        parent_pid: o.parent_pid,
        tty: o.tty,
        cwd: o.cwd,
        terminal_app: o.terminal_app,
        title: o.title,
        project_name: o.project_name,
        status: status,
        ingestion_mode: SessionIngestionMode::Fallback,
        needs_attention: status == SessionStatus::WaitingInput,
        last_activity_at: at,
        activity_label: o.activity_label,
        last_snapshot: o.interaction_hint,
        latest_user_prompt: None,
        prompt_actions: o.prompt_actions,
        prompt_source: o.prompt_source,
        submit_target: o.submit_target,
        notification_sent_at: None,
        last_event_at: None,
        last_observation_at: Some(at),
        transcript_path: None,
        status_history: seq![observation_history_entry(o, status)],
        conversation_history: Seq::empty(),
    }
}

/// The history entry an observation leaves.
pub fn observation_entry(observation: &DiscoveryObservation, status: &SessionStatus) -> (r: String)
    ensures
        r@ == observation_history_entry(observation@, *status),
{
    match &observation.activity_label {
        Some(l) => l.clone(),
        None => match &observation.interaction_hint {
            Some(h) => h.clone(),
            None => owned(status_label_for_history(status)),
        },
    }
}

impl CodexSession {
    /// A new session from its first observation; `now_ms` stands in for an
    /// observation instant that cannot be represented.
    pub fn from_observation_at(observation: DiscoveryObservation, status: SessionStatus, now_ms: i64) -> (r: Self)
        ensures
            r@ == session_from_observation(observation@, status, now_ms),
    {
        let session_id = observation.session_id();
        let needs_attention = status == SessionStatus::WaitingInput;
        let at = unix_ms_to_utc_at(observation.seen_at_unix_ms, now_ms);
        let entry = observation_entry(&observation, &status);
        let mut status_history: Vec<String> = Vec::new();
        status_history.push(entry);
        let r = CodexSession {
            session_id,
            source: observation.source,
            pid: observation.pid,
            parent_pid: observation.parent_pid,
            tty: observation.tty,
            cwd: observation.cwd,
            terminal_app: observation.terminal_app,
            title: observation.title,
            project_name: observation.project_name,
            status,
            ingestion_mode: SessionIngestionMode::Fallback,
            needs_attention,
            last_activity_at: at,
            activity_label: observation.activity_label,
            last_snapshot: observation.interaction_hint,
            latest_user_prompt: None,
            prompt_actions: observation.prompt_actions,
            prompt_source: observation.prompt_source,
            submit_target: observation.submit_target,
            notification_sent_at: None,
            last_event_at: None,
            last_observation_at: Some(at),
            transcript_path: None,
            status_history,
            conversation_history: Vec::new(),
        };
        assert(r@.status_history =~= seq![observation_history_entry(observation@, status)]);
        assert(r@.conversation_history =~= Seq::<Seq<char>>::empty());
        r
    }

    /// A new session from its first observation, at the current time where
    /// the observation's instant cannot be represented.
    pub fn from_observation(observation: DiscoveryObservation, status: SessionStatus) -> (r: Self)
        ensures
            exists|now: i64| chrono_millis_in_range(now) && r@ == session_from_observation(observation@, status, now),
    {
        let now = utc_now_millis();
        Self::from_observation_at(observation, status, now)
    }
}


// ---------------------------------------------------------------------------
// What the island shows
// ---------------------------------------------------------------------------

#[derive(Debug, Clone)]
pub struct SessionViewModel {
    pub session_id: String,
    pub title: String,
    pub project_name: String,
    pub status: SessionStatus,
    pub needs_attention: bool,
    pub can_reply: bool,
    pub subtitle: String,
    pub prompt_text: Option<String>,
    pub action_options: Vec<PromptAction>,
    pub prompt_source: Option<PromptSource>,
    pub terminal_label: String,
    pub relative_last_activity: String,
    pub last_activity_unix_ms: i64,
}

pub struct SessionViewModelView {
    pub session_id: Seq<char>,
    pub title: Seq<char>,
    pub project_name: Seq<char>,
    pub status: SessionStatus,
    pub needs_attention: bool,
    pub can_reply: bool,
    pub subtitle: Seq<char>,
    pub prompt_text: Option<Seq<char>>,
    pub action_options: Seq<PromptActionView>,
    pub prompt_source: Option<PromptSource>,
    pub terminal_label: Seq<char>,
    pub relative_last_activity: Seq<char>,
    pub last_activity_unix_ms: i64,
}

impl View for SessionViewModel {
    type V = SessionViewModelView;

    open spec fn view(&self) -> SessionViewModelView {
        SessionViewModelView {
            session_id: self.session_id@,
            title: self.title@,
            project_name: self.project_name@,
            status: self.status,
            needs_attention: self.needs_attention,
            can_reply: self.can_reply,
            subtitle: self.subtitle@,
            prompt_text: self.prompt_text.deep_view(),
            action_options: self.action_options.deep_view(),
            prompt_source: self.prompt_source,
            terminal_label: self.terminal_label@,
            relative_last_activity: self.relative_last_activity@,
            last_activity_unix_ms: self.last_activity_unix_ms,
        }
    }
}

impl DeepView for SessionViewModel {
    type V = SessionViewModelView;

    open spec fn deep_view(&self) -> SessionViewModelView {
        self@
    }
}

pub open spec fn status_subtitle(s: SessionStatus) -> Seq<char> {
    match s {
        SessionStatus::WaitingInput => "Waiting for your input"@,
        SessionStatus::Running => "Working"@,
        SessionStatus::Idle => "Idle"@,
        SessionStatus::Discovering => "Connecting"@,
        SessionStatus::Completed => "Completed"@,
        SessionStatus::Failed => "Failed"@,
    }
}

pub open spec fn subtitle_of(s: CodexSessionView) -> Seq<char> {
    match s.activity_label {
        Some(l) => l,
        None => match s.last_snapshot {
            Some(x) => x,
            None => status_subtitle(s.status),
        },
    }
}

pub open spec fn project_label_of(s: CodexSessionView) -> Seq<char> {
    match s.project_name {
        Some(p) => p,
        None => match s.source {
            SessionSource::Cli => "Unknown project"@,
            SessionSource::Desktop => "Codex app"@,
        },
    }
}

pub open spec fn terminal_label_of(s: CodexSessionView) -> Seq<char> {
    match s.terminal_app {
        Some(TerminalAppView::Terminal) => "Terminal"@,
        Some(TerminalAppView::ITerm) => "iTerm2"@,
        Some(TerminalAppView::Unsupported(name)) => name,
        None => match s.source {
            SessionSource::Desktop => "Codex app"@,
            SessionSource::Cli => match s.tty {
                Some(t) => "TTY "@ + strip_prefixes(t, "/dev/"@),
                None => "Terminal session"@,
            },
        },
    }
}

/// "just now" under five seconds, "Ns ago" under a minute, else "Nm ago".
pub open spec fn relative_label(secs: int) -> Seq<char> {
    if secs < 5 {
        "just now"@
    } else if secs < 60 {
        decimal(secs as nat) + "s ago"@
    } else {
        decimal((secs / 60) as nat) + "m ago"@
    }
}

/// A session can be answered from the island when it waits for input and
/// knows where a reply goes.
pub open spec fn can_reply_to(s: CodexSessionView) -> bool {
    s.status == SessionStatus::WaitingInput && s.submit_target is Some
}

pub open spec fn view_model_of(s: CodexSessionView, now: i64) -> SessionViewModelView {
    SessionViewModelView {
        session_id: s.session_id,
        title: s.title,
        project_name: project_label_of(s),
        status: s.status,
        needs_attention: s.needs_attention,
        can_reply: can_reply_to(s),
        subtitle: subtitle_of(s),
        prompt_text: s.last_snapshot,
        action_options: s.prompt_actions,
        prompt_source: s.prompt_source,
        terminal_label: terminal_label_of(s),
        relative_last_activity: relative_label(elapsed_secs(s.last_activity_at, now)),
        last_activity_unix_ms: s.last_activity_at,
    }
}

/// How long ago `instant` was, seen at `now` (both in milliseconds).
pub fn relative_time_label(instant: i64, now: i64) -> (r: String)
    ensures
        r@ == relative_label(elapsed_secs(instant, now)),
{
    let secs = elapsed_secs_between(instant, now);
    if secs < 5 {
        owned("just now")
    } else if secs < 60 {
        let mut s = String::new();
        push_decimal(&mut s, secs);
        push_str(&mut s, "s ago");
        s
    } else {
        let mut s = String::new();
        push_decimal(&mut s, secs / 60);
        push_str(&mut s, "m ago");
        s
    }
}

fn status_subtitle_str(status: SessionStatus) -> (r: &'static str)
    ensures
        r@ == status_subtitle(status),
{
    match status {
        SessionStatus::WaitingInput => "Waiting for your input",
        SessionStatus::Running => "Working",
        SessionStatus::Idle => "Idle",
        SessionStatus::Discovering => "Connecting",
        SessionStatus::Completed => "Completed",
        SessionStatus::Failed => "Failed",
    }
}

fn terminal_label(session: &CodexSession) -> (r: String)
    ensures
        r@ == terminal_label_of(session@),
{
    match &session.terminal_app {
        Some(TerminalApp::Terminal) => owned("Terminal"),
        Some(TerminalApp::ITerm) => owned("iTerm2"),
        Some(TerminalApp::Unsupported(name)) => name.clone(),
        None => match session.source {
            SessionSource::Desktop => owned("Codex app"),
            SessionSource::Cli => match &session.tty {
                Some(tty) => {
                    let t = chars_of(tty.as_str());
                    let p = chars_of("/dev/");
                    let stripped = trim_start_matches_chars(&t, &p);
                    let mut s = owned("TTY ");
                    push_chars(&mut s, &stripped);
                    s
                },
                None => owned("Terminal session"),
            },
        },
    }
}

impl SessionViewModel {
    /// What the island shows of `session`, with its age measured at `now`.
    pub fn from_session_at(session: &CodexSession, now: i64) -> (r: Self)
        ensures
            r@ == view_model_of(session@, now),
    {
        let subtitle = match &session.activity_label {
            Some(l) => l.clone(),
            None => match &session.last_snapshot {
                Some(x) => x.clone(),
                None => owned(status_subtitle_str(session.status)),
            },
        };
        let project_name = match &session.project_name {
            Some(p) => p.clone(),
            None => match session.source {
                SessionSource::Cli => owned("Unknown project"),
                SessionSource::Desktop => owned("Codex app"),
            },
        };
        SessionViewModel {
            session_id: session.session_id.clone(),
            title: session.title.clone(),
            project_name,
            status: session.status,
            needs_attention: session.needs_attention,
            can_reply: session.status == SessionStatus::WaitingInput && session.submit_target.is_some(),
            subtitle,
            prompt_text: dup_opt_string(&session.last_snapshot),
            action_options: dup_actions(&session.prompt_actions),
            prompt_source: session.prompt_source,
            terminal_label: terminal_label(session),
            relative_last_activity: relative_time_label(session.last_activity_at, now),
            last_activity_unix_ms: session.last_activity_at,
        }
    }

    /// What the island shows of `session` now.
    pub fn from_session(session: &CodexSession) -> (r: Self)
        ensures
            exists|now: i64| chrono_millis_in_range(now) && r@ == view_model_of(session@, now),
    {
        let now = utc_now_millis();
        Self::from_session_at(session, now)
    }
}

#[derive(Debug, Clone)]
pub struct SessionSummary {
    pub total: usize,
    pub running: usize,
    pub waiting: usize,
    pub completed: usize,
}

#[derive(Debug, Clone)]
pub struct SessionsPayload {
    pub sessions: Vec<SessionViewModel>,
    pub summary: SessionSummary,
}

impl SessionsPayload {
    /// A payload with no sessions and all counts zero.
    pub fn empty() -> (r: Self)
        ensures
            r.sessions@.len() == 0,
            r.summary.total == 0,
            r.summary.running == 0,
            r.summary.waiting == 0,
            r.summary.completed == 0,
    {
        SessionsPayload {
            sessions: Vec::new(),
            summary: SessionSummary { total: 0, running: 0, waiting: 0, completed: 0 },
        }
    }
}


pub fn opt_terminal_eq(a: &Option<TerminalApp>, b: &Option<TerminalApp>) -> (r: bool)
    ensures
        r == (a.deep_view() == b.deep_view()),
{
    match (a, b) {
        (Some(TerminalApp::Terminal), Some(TerminalApp::Terminal)) => true,
        (Some(TerminalApp::ITerm), Some(TerminalApp::ITerm)) => true,
        (Some(TerminalApp::Unsupported(x)), Some(TerminalApp::Unsupported(y))) => string_eq(x, y),
        (None, None) => true,
        _ => false,
    }
}

pub fn strings_eq(a: &Vec<String>, b: &Vec<String>) -> (r: bool)
    ensures
        r == (a.deep_view() == b.deep_view()),
{
    if a.len() != b.len() {
        assert(a.deep_view().len() != b.deep_view().len());
        return false;
    }
    let mut i: usize = 0;
    while i < a.len()
        invariant
            i <= a.len() == b.len(),
            forall|j: int| 0 <= j < i ==> a.deep_view()[j] == b.deep_view()[j],
        decreases a.len() - i,
    {
        if !string_eq(&a[i], &b[i]) {
            assert(a.deep_view()[i as int] != b.deep_view()[i as int]);
            return false;
        }
        i += 1;
    }
    assert(a.deep_view() == b.deep_view());
    true
}

fn opt_source_eq(a: Option<PromptSource>, b: Option<PromptSource>) -> (r: bool)
    ensures
        r == (a == b),
{
    match (a, b) {
        (Some(x), Some(y)) => x == y,
        (None, None) => true,
        _ => false,
    }
}

fn opt_i64_eq(a: Option<i64>, b: Option<i64>) -> (r: bool)
    ensures
        r == (a == b),
{
    match (a, b) {
        (Some(x), Some(y)) => x == y,
        (None, None) => true,
        _ => false,
    }
}

fn opt_i32_eq(a: Option<i32>, b: Option<i32>) -> (r: bool)
    ensures
        r == (a == b),
{
    match (a, b) {
        (Some(x), Some(y)) => x == y,
        (None, None) => true,
        _ => false,
    }
}

impl CodexSession {
    /// A copy of the session.
    pub fn duplicate(&self) -> (r: Self)
        ensures
            r@ == self@,
    {
        CodexSession {
            session_id: self.session_id.clone(),
            source: self.source,
            pid: self.pid,
            parent_pid: self.parent_pid,
            tty: dup_opt_string(&self.tty),
            cwd: dup_opt_string(&self.cwd),
            terminal_app: dup_opt_terminal(&self.terminal_app),
            title: self.title.clone(),
            project_name: dup_opt_string(&self.project_name),
            status: self.status,
            ingestion_mode: self.ingestion_mode,
            needs_attention: self.needs_attention,
            last_activity_at: self.last_activity_at,
            activity_label: dup_opt_string(&self.activity_label),
            last_snapshot: dup_opt_string(&self.last_snapshot),
            latest_user_prompt: dup_opt_string(&self.latest_user_prompt),
            prompt_actions: dup_actions(&self.prompt_actions),
            prompt_source: self.prompt_source,
            submit_target: dup_opt_target(&self.submit_target),
            notification_sent_at: self.notification_sent_at,
            last_event_at: self.last_event_at,
            last_observation_at: self.last_observation_at,
            transcript_path: dup_opt_string(&self.transcript_path),
            status_history: dup_strings(&self.status_history),
            conversation_history: dup_strings(&self.conversation_history),
        }
    }

    /// Whether two sessions hold the same values.
    pub fn same_as(&self, other: &CodexSession) -> (r: bool)
        ensures
            r == (self@ == other@),
    {
        string_eq(&self.session_id, &other.session_id) && self.source == other.source && self.pid
            == other.pid && opt_i32_eq(self.parent_pid, other.parent_pid) && opt_string_eq(
            &self.tty,
            &other.tty,
        ) && opt_string_eq(&self.cwd, &other.cwd) && opt_terminal_eq(
            &self.terminal_app,
            &other.terminal_app,
        ) && string_eq(&self.title, &other.title) && opt_string_eq(
            &self.project_name,
            &other.project_name,
        ) && self.status == other.status && self.ingestion_mode == other.ingestion_mode
            && self.needs_attention == other.needs_attention && self.last_activity_at
            == other.last_activity_at && opt_string_eq(&self.activity_label, &other.activity_label)
            && opt_string_eq(&self.last_snapshot, &other.last_snapshot) && opt_string_eq(
            &self.latest_user_prompt,
            &other.latest_user_prompt,
        ) && actions_eq(&self.prompt_actions, &other.prompt_actions) && opt_source_eq(
            self.prompt_source,
            other.prompt_source,
        ) && target_eq(&self.submit_target, &other.submit_target) && opt_i64_eq(
            self.notification_sent_at,
            other.notification_sent_at,
        ) && opt_i64_eq(self.last_event_at, other.last_event_at) && opt_i64_eq(
            self.last_observation_at,
            other.last_observation_at,
        ) && opt_string_eq(&self.transcript_path, &other.transcript_path) && strings_eq(
            &self.status_history,
            &other.status_history,
        ) && strings_eq(&self.conversation_history, &other.conversation_history)
    }
}

// ---------------------------------------------------------------------------
// Sample sessions
// ---------------------------------------------------------------------------

/// A lower-case hexadecimal digit.
pub open spec fn lower_hex_char(c: char) -> bool {
    ('0' <= c && c <= '9') || ('a' <= c && c <= 'f')
}

/// A version-4 UUID as uuid writes it: 36 characters, hyphens at 8, 13, 18
/// and 23, lower-case hexadecimal digits elsewhere, the version digit `4` at
/// 14 and one of `8 9 a b` (the RFC variant) at 19.
pub open spec fn uuid_v4_text(s: Seq<char>) -> bool {
    &&& s.len() == 36
    &&& forall|i: int|
        0 <= i < 36 ==> if i == 8 || i == 13 || i == 18 || i == 23 {
            #[trigger] s[i] == '-'
        } else {
            lower_hex_char(s[i])
        }
    &&& s[14] == '4'
    &&& (s[19] == '8' || s[19] == '9' || s[19] == 'a' || s[19] == 'b')
}

/// `uuid::Uuid::new_v4().to_string()`: a fresh random id. `new_v4` sets the
/// version and variant bits, and `Display` writes the lower-case hyphenated
/// form; which id it is, is not claimed.
#[verifier::external_body]
pub(crate) fn new_uuid() -> (r: String)
    ensures
        uuid_v4_text(r@),
{
    uuid::Uuid::new_v4().to_string()
}

/// The sample CLI session that waits for an approval.
pub open spec fn sample_waiting(id: Seq<char>, now: i64) -> CodexSessionView {
    CodexSessionView {
        session_id: id,
        source: SessionSource::Cli,
        pid: 4312,
        parent_pid: Some(4310),
        tty: Some("/dev/ttys008"@),
        cwd: Some("/Users/cong/Desktop/AI相关/codex-island"@),
        terminal_app: Some(TerminalAppView::ITerm),
        title: "Refactor session store"@,
        project_name: Some("codex-island"@),
        status: SessionStatus::WaitingInput,
        ingestion_mode: SessionIngestionMode::Fallback,
        needs_attention: true,
        last_activity_at: now,
        activity_label: Some("Continue with workspace-write approval?"@),
        last_snapshot: Some("Continue with workspace-write approval?"@),
        latest_user_prompt: None,
        prompt_actions: Seq::empty(),
        prompt_source: Some(PromptSource::Thread),
        submit_target: None,
        notification_sent_at: None,
        last_event_at: None,
        last_observation_at: None,
        transcript_path: None,
        status_history: Seq::empty(),
        conversation_history: Seq::empty(),
    }
}

/// The sample CLI session that has been running for 24 seconds.
pub open spec fn sample_running(id: Seq<char>, now: i64) -> CodexSessionView {
    CodexSessionView {
        session_id: id,
        source: SessionSource::Cli,
        pid: 4470,
        parent_pid: Some(4465),
        tty: Some("/dev/ttys010"@),
        cwd: Some("/Users/cong/Desktop/AI相关/launch-site"@),
        terminal_app: Some(TerminalAppView::Terminal),
        title: "Render landing page"@,
        project_name: Some("launch-site"@),
        status: SessionStatus::Running,
        ingestion_mode: SessionIngestionMode::Fallback,
        needs_attention: false,
        last_activity_at: (now - 24_000) as i64,
        activity_label: Some("Updating island interactions"@),
        last_snapshot: Some("Updating Tauri frontend"@),
        latest_user_prompt: None,
        prompt_actions: Seq::empty(),
        prompt_source: None,
        submit_target: None,
        notification_sent_at: None,
        last_event_at: None,
        last_observation_at: None,
        transcript_path: None,
        status_history: Seq::empty(),
        conversation_history: Seq::empty(),
    }
}

fn sample_session(
    id: String,
    pid: i32,
    parent_pid: i32,
    tty: &str,
    cwd: &str,
    terminal_app: TerminalApp,
    title: &str,
    project_name: &str,
    status: SessionStatus,
    last_activity_at: i64,
    activity_label: &str,
    last_snapshot: &str,
    prompt_source: Option<PromptSource>,
) -> (r: CodexSession)
    ensures
        r@ == (CodexSessionView {
            session_id: id@,
            source: SessionSource::Cli,
            pid,
            parent_pid: Some(parent_pid),
            tty: Some(tty@),
            cwd: Some(cwd@),
            terminal_app: Some(terminal_app@),
            title: title@,
            project_name: Some(project_name@),
            status,
            ingestion_mode: SessionIngestionMode::Fallback,
            needs_attention: status == SessionStatus::WaitingInput,
            last_activity_at,
            activity_label: Some(activity_label@),
            last_snapshot: Some(last_snapshot@),
            latest_user_prompt: None,
            prompt_actions: Seq::empty(),
            prompt_source,
            submit_target: None,
            notification_sent_at: None,
            last_event_at: None,
            last_observation_at: None,
            transcript_path: None,
            status_history: Seq::empty(),
            conversation_history: Seq::empty(),
        }),
{
    let actions: Vec<PromptAction> = Vec::new();
    let history: Vec<String> = Vec::new();
    let conversation: Vec<String> = Vec::new();
    assert(actions.deep_view() =~= Seq::<PromptActionView>::empty());
    assert(history.deep_view() =~= Seq::<Seq<char>>::empty());
    assert(conversation.deep_view() =~= Seq::<Seq<char>>::empty());
    CodexSession {
        session_id: id,
        source: SessionSource::Cli,
        pid,
        parent_pid: Some(parent_pid),
        tty: Some(owned(tty)),
        cwd: Some(owned(cwd)),
        terminal_app: Some(terminal_app),
        title: owned(title),
        project_name: Some(owned(project_name)),
        status,
        ingestion_mode: SessionIngestionMode::Fallback,
        needs_attention: status == SessionStatus::WaitingInput,
        last_activity_at,
        activity_label: Some(owned(activity_label)),
        last_snapshot: Some(owned(last_snapshot)),
        latest_user_prompt: None,
        prompt_actions: actions,
        prompt_source,
        submit_target: None,
        notification_sent_at: None,
        last_event_at: None,
        last_observation_at: None,
        transcript_path: None,
        status_history: history,
        conversation_history: conversation,
    }
}

/// The island's two sample sessions, as shown at `now` (milliseconds).
pub fn new_mock_sessions_at(first_id: String, second_id: String, now: i64) -> (r: Vec<SessionViewModel>)
    requires
        now >= i64::MIN + 24_000,
    ensures
        r.deep_view() == seq![
            view_model_of(sample_waiting(first_id@, now), now),
            view_model_of(sample_running(second_id@, now), now),
        ],
{
    let waiting = sample_session(
        first_id,
        4312,
        4310,
        "/dev/ttys008",
        "/Users/cong/Desktop/AI相关/codex-island",
        TerminalApp::ITerm,
        "Refactor session store",
        "codex-island",
        SessionStatus::WaitingInput,
        now,
        "Continue with workspace-write approval?",
        "Continue with workspace-write approval?",
        Some(PromptSource::Thread),
    );
    let running = sample_session(
        second_id,
        4470,
        4465,
        "/dev/ttys010",
        "/Users/cong/Desktop/AI相关/launch-site",
        TerminalApp::Terminal,
        "Render landing page",
        "launch-site",
        SessionStatus::Running,
        now - 24_000,
        "Updating island interactions",
        "Updating Tauri frontend",
        None,
    );
    let mut r: Vec<SessionViewModel> = Vec::new();
    r.push(SessionViewModel::from_session_at(&waiting, now));
    r.push(SessionViewModel::from_session_at(&running, now));
    assert(r.deep_view() =~= seq![
        view_model_of(sample_waiting(waiting.session_id@, now), now),
        view_model_of(sample_running(running.session_id@, now), now),
    ]);
    r
}

/// The island's two sample sessions with fresh ids, as shown now.
pub fn new_mock_sessions() -> (r: Vec<SessionViewModel>)
    ensures
        exists|a: Seq<char>, b: Seq<char>, now: i64|
            chrono_millis_in_range(now) && uuid_v4_text(a) && uuid_v4_text(b) && r.deep_view() == seq![
                view_model_of(sample_waiting(a, now), now),
                view_model_of(sample_running(b, now), now),
            ],
{
    let now = utc_now_millis();
    let a = new_uuid();
    let b = new_uuid();
    new_mock_sessions_at(a, b, now)
}

/// What the island shows under a session's title: its status line when it has
/// one; else its last prompt or screen text; else a word for its status
/// ("Waiting for your input", "Working", "Idle", "Connecting", "Completed",
/// "Failed").
pub proof fn lemma_subtitle_prefers_activity(s: CodexSessionView, now: i64)
    ensures
        s.activity_label matches Some(l) ==> view_model_of(s, now).subtitle == l,
        s.activity_label is None ==> (s.last_snapshot matches Some(x) ==> view_model_of(s, now).subtitle == x),
        s.activity_label is None && s.last_snapshot is None ==> view_model_of(s, now).subtitle == (match s.status {
            SessionStatus::WaitingInput => "Waiting for your input"@,
            SessionStatus::Running => "Working"@,
            SessionStatus::Idle => "Idle"@,
            SessionStatus::Discovering => "Connecting"@,
            SessionStatus::Completed => "Completed"@,
            SessionStatus::Failed => "Failed"@,
        }),
{
}

} // verus!

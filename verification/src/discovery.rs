//! Recognising Codex sessions: which processes are Codex, which terminal hosts
//! them, what their screens and rollout logs say is pending, and the
//! observation that each live session yields. Everything here decides on text
//! and numbers that the caller gathered (process tables, terminal contents,
//! log lines, database rows).
use crate::json::{json_array_len, json_array_len_at, json_has, json_str, json_text_at, json_value_at};
use crate::time::{chrono_millis_in_range, system_now_millis, utc_date_at, utc_today};
use crate::models::{
    dup_opt_string, actions_eq, DiscoveryObservation,
    ObservationView, PromptAction, PromptActionView, PromptSource, SessionSource, SubmitTarget,
    SubmitTargetView, TerminalApp, TerminalAppView,
};
use crate::text::{
    push_char,
    all_digits, chars_of, clean_lines, clean_lines_of, contains, ends_with, ends_with_char,
    file_name, find_char, find_char_in, has_text, is_digit, join, join_chars, lines_chars, lines_of,
    lower_chars, lowercase_of, owned, parse_i32, parse_i32_chars, parse_i64, parse_i64_chars,
    push_chars, push_decimal, push_signed_decimal, push_str, second_piece, second_piece_chars,
    signed_decimal, slice_chars, split_chars, split_on, starts_with, str_contains, str_ends_with,
    str_eq, str_starts_with, string_of, trim, trim_chars, utf8_len, utf8_len_at_most, views, words,
    words_of, decimal, keep_parts, ascii_lowercase, ascii_text, occurs_at,
};
use vstd::prelude::*;
use vstd::string::*;

verus! {

broadcast use vstd::string::group_string_axioms;

// ---------------------------------------------------------------------------
// Types
// ---------------------------------------------------------------------------

/// The two kinds of Codex process.
#[derive(Debug, Clone, Copy, PartialEq, Eq, Structural)]
pub enum ProcessKind {
    Cli,
    Desktop,
}

/// Something Codex waits on: the prompt, the answers offered, where it was
/// read, and where a reply goes.
#[derive(Debug, Clone, PartialEq, Eq)]
pub struct PendingInput {
    pub prompt: String,
    pub actions: Vec<PromptAction>,
    pub source: PromptSource,
    pub submit_target: Option<SubmitTarget>,
}

pub struct PendingInputView {
    pub prompt: Seq<char>,
    pub actions: Seq<PromptActionView>,
    pub source: PromptSource,
    pub submit_target: Option<SubmitTargetView>,
}

impl View for PendingInput {
    type V = PendingInputView;

    open spec fn view(&self) -> PendingInputView {
        PendingInputView {
            prompt: self.prompt@,
            actions: self.actions.deep_view(),
            source: self.source,
            submit_target: self.submit_target.deep_view(),
        }
    }
}

impl DeepView for PendingInput {
    type V = PendingInputView;

    open spec fn deep_view(&self) -> PendingInputView {
        self@
    }
}

/// One row of the process table.
#[derive(Debug, Clone)]
pub struct ProcessRow {
    pub pid: i32,
    pub parent_pid: Option<i32>,
    pub tty: Option<String>,
    pub executable: String,
    pub command: String,
}

pub struct ProcessRowView {
    pub pid: i32,
    pub parent_pid: Option<i32>,
    pub tty: Option<Seq<char>>,
    pub executable: Seq<char>,
    pub command: Seq<char>,
}

impl View for ProcessRow {
    type V = ProcessRowView;

    open spec fn view(&self) -> ProcessRowView {
        ProcessRowView {
            pid: self.pid,
            parent_pid: self.parent_pid,
            tty: self.tty.deep_view(),
            executable: self.executable@,
            command: self.command@,
        }
    }
}

impl DeepView for ProcessRow {
    type V = ProcessRowView;

    open spec fn deep_view(&self) -> ProcessRowView {
        self@
    }
}

/// One row of Codex's thread table.
#[derive(Debug, Clone)]
pub struct ThreadRow {
    pub thread_id: String,
    pub rollout_path: String,
    pub cwd: String,
    pub title: String,
    pub created_at: i64,
    pub updated_at: i64,
}

pub struct ThreadRowView {
    pub thread_id: Seq<char>,
    pub rollout_path: Seq<char>,
    pub cwd: Seq<char>,
    pub title: Seq<char>,
    pub created_at: i64,
    pub updated_at: i64,
}

impl View for ThreadRow {
    type V = ThreadRowView;

    open spec fn view(&self) -> ThreadRowView {
        ThreadRowView {
            thread_id: self.thread_id@,
            rollout_path: self.rollout_path@,
            cwd: self.cwd@,
            title: self.title@,
            created_at: self.created_at,
            updated_at: self.updated_at,
        }
    }
}

impl DeepView for ThreadRow {
    type V = ThreadRowView;

    open spec fn deep_view(&self) -> ThreadRowView {
        self@
    }
}

// ---------------------------------------------------------------------------
// Searching from the end
// ---------------------------------------------------------------------------

/// The greatest `i < n` with `p(i)`.
pub open spec fn last_index(n: int, p: spec_fn(int) -> bool) -> Option<int>
    decreases n,
{
    if n <= 0 {
        None
    } else if p(n - 1) {
        Some(n - 1)
    } else {
        last_index(n - 1, p)
    }
}

pub proof fn lemma_last_index_bounds(n: int, p: spec_fn(int) -> bool)
    ensures
        match last_index(n, p) {
            Some(k) => 0 <= k < n && p(k) && forall|j: int| k < j < n ==> !#[trigger] p(j),
            None => forall|j: int| 0 <= j < n ==> !#[trigger] p(j),
        },
    decreases n,
{
    if n > 0 && !p(n - 1) {
        lemma_last_index_bounds(n - 1, p);
    }
}

// ---------------------------------------------------------------------------
// Processes and hosts
// ---------------------------------------------------------------------------

/// Which kind of Codex process a process table row is, if any
/// (`executable` and `command` lower-cased).
pub open spec fn process_kind(executable: Seq<char>, command: Seq<char>) -> Option<ProcessKind> {
    if contains(command, "/codex.app/contents/macos/codex"@) && !contains(command, "helper"@)
        && !contains(command, "crashpad"@) {
        Some(ProcessKind::Desktop)
    } else if executable == "codex"@ || starts_with(command, "codex "@) || contains(
        command,
        "/bin/codex "@,
    ) || ends_with(command, "/bin/codex"@) || contains(command, "/codex --"@) || contains(
        command,
        "@openai/codex"@,
    ) || contains(command, "/node_modules/.bin/codex"@) || contains(command, "/codex/dist/"@) {
        Some(ProcessKind::Cli)
    } else {
        None
    }
}

/// Which kind of Codex process a row with this executable and command is.
pub fn classify_process(executable: &str, command: &str) -> (r: Option<ProcessKind>)
    ensures
        r == process_kind(executable@, command@),
{
    if str_contains(command, "/codex.app/contents/macos/codex") && !str_contains(command, "helper")
        && !str_contains(command, "crashpad") {
        return Some(ProcessKind::Desktop);
    }
    let cli_name = str_eq(executable, "codex");
    let cli_command = str_starts_with(command, "codex ") || str_contains(command, "/bin/codex ")
        || str_ends_with(command, "/bin/codex") || str_contains(command, "/codex --")
        || str_contains(command, "@openai/codex") || str_contains(
        command,
        "/node_modules/.bin/codex",
    ) || str_contains(command, "/codex/dist/");
    if cli_name || cli_command {
        Some(ProcessKind::Cli)
    } else {
        None
    }
}

/// The terminal hosts other than Terminal and iTerm that run a Codex CLI.
pub open spec fn terminal_alias(name: Seq<char>) -> bool {
    ||| contains(name, "warp"@)
    ||| contains(name, "ghostty"@)
    ||| contains(name, "wezterm"@)
    ||| contains(name, "alacritty"@)
    ||| contains(name, "kitty"@)
    ||| contains(name, "tabby"@)
    ||| contains(name, "hyper"@)
    ||| contains(name, "rio"@)
}

/// Whether a (lower-cased) process name is one of the other terminal hosts.
pub fn is_supported_terminal_alias(name: &str) -> (b: bool)
    ensures
        b == terminal_alias(name@),
{
    str_contains(name, "warp") || str_contains(name, "ghostty") || str_contains(name, "wezterm")
        || str_contains(name, "alacritty") || str_contains(name, "kitty") || str_contains(
        name,
        "tabby",
    ) || str_contains(name, "hyper") || str_contains(name, "rio")
}

pub open spec fn vs_code_name(name: Seq<char>) -> bool {
    name == "code"@ || contains(name, "code helper"@) || contains(name, "visual studio code"@)
        || contains(name, "vscodium"@)
}

/// The editor whose integrated terminal a (lower-cased) process name belongs to.
pub open spec fn editor_label(name: Seq<char>) -> Option<Seq<char>> {
    if vs_code_name(name) {
        Some("VS Code"@)
    } else if contains(name, "cursor"@) {
        Some("Cursor"@)
    } else {
        None
    }
}

/// The editor whose integrated terminal a (lower-cased) process name belongs to.
pub fn editor_terminal_label(name: &str) -> (r: Option<&'static str>)
    ensures
        match r {
            Some(l) => editor_label(name@) == Some(l@),
            None => editor_label(name@) is None,
        },
{
    if str_eq(name, "code") || str_contains(name, "code helper") || str_contains(
        name,
        "visual studio code",
    ) || str_contains(name, "vscodium") {
        return Some("VS Code");
    }
    if str_contains(name, "cursor") {
        return Some("Cursor");
    }
    None
}

/// The terminal that a parent process with this (lower-cased) executable and
/// command is, if it is one that hosts Codex.
pub open spec fn host_app(executable: Seq<char>, command: Seq<char>) -> Option<TerminalAppView> {
    if contains(executable, "iterm"@) || contains(command, "/iterm.app/"@) || contains(
        command,
        "itermserver"@,
    ) {
        Some(TerminalAppView::ITerm)
    } else if contains(executable, "terminal"@) || contains(command, "/terminal.app/"@) {
        Some(TerminalAppView::Terminal)
    } else if executable == "code"@ || contains(executable, "code helper"@) || contains(
        command,
        "/visual studio code.app/"@,
    ) {
        Some(TerminalAppView::Unsupported("VS Code"@))
    } else if contains(executable, "cursor"@) || contains(command, "/cursor.app/"@) {
        Some(TerminalAppView::Unsupported("Cursor"@))
    } else {
        None
    }
}

fn host_app_of(executable: &str, command: &str) -> (r: Option<TerminalApp>)
    ensures
        r.deep_view() == host_app(executable@, command@),
{
    if str_contains(executable, "iterm") || str_contains(command, "/iterm.app/") || str_contains(
        command,
        "itermserver",
    ) {
        return Some(TerminalApp::ITerm);
    }
    if str_contains(executable, "terminal") || str_contains(command, "/terminal.app/") {
        return Some(TerminalApp::Terminal);
    }
    if str_eq(executable, "code") || str_contains(executable, "code helper") || str_contains(
        command,
        "/visual studio code.app/",
    ) {
        return Some(TerminalApp::Unsupported(owned("VS Code")));
    }
    if str_contains(executable, "cursor") || str_contains(command, "/cursor.app/") {
        return Some(TerminalApp::Unsupported(owned("Cursor")));
    }
    None
}

pub open spec fn has_pid(rows: Seq<ProcessRowView>, pid: i32) -> spec_fn(int) -> bool {
    |i: int| rows[i].pid == pid
}

/// The row the process table holds for `pid` (the last one, as a map built
/// from the rows in order keeps it).
pub open spec fn row_for_pid(rows: Seq<ProcessRowView>, pid: i32) -> Option<ProcessRowView> {
    match last_index(rows.len() as int, has_pid(rows, pid)) {
        Some(k) => Some(rows[k]),
        None => None,
    }
}

/// Walking up from `current` through at most `fuel` parents: the first
/// ancestor that is a terminal host.
pub open spec fn host_walk(rows: Seq<ProcessRowView>, current: Option<i32>, fuel: nat) -> Option<
    TerminalAppView,
>
    decreases fuel,
{
    if fuel == 0 {
        None
    } else {
        match current {
            None => None,
            Some(pid) => match row_for_pid(rows, pid) {
                None => None,
                Some(parent) => match host_app(parent.executable, parent.command) {
                    Some(app) => Some(app),
                    None => host_walk(rows, parent.parent_pid, (fuel - 1) as nat),
                },
            },
        }
    }
}

/// The terminal host that `process` runs under.
pub open spec fn host_of(process: ProcessRowView, rows: Seq<ProcessRowView>) -> Option<
    TerminalAppView,
> {
    host_walk(rows, process.parent_pid, (rows.len() + 1) as nat)
}

fn find_row(rows: &Vec<ProcessRow>, pid: i32) -> (r: Option<usize>)
    ensures
        match r {
            Some(k) => k < rows.len() && row_for_pid(rows.deep_view(), pid) == Some(
                rows.deep_view()[k as int],
            ),
            None => row_for_pid(rows.deep_view(), pid) is None,
        },
{
    let ghost rv = rows.deep_view();
    let mut i: usize = rows.len();
    while i > 0
        invariant
            i <= rows.len(),
            rv == rows.deep_view(),
            last_index(rows.len() as int, has_pid(rv, pid)) == last_index(
                i as int,
                has_pid(rv, pid),
            ),
        decreases i,
    {
        assert(rv[i - 1] == rows[i - 1]@);
        if rows[i - 1].pid == pid {
            assert(has_pid(rv, pid)(i - 1));
            return Some(i - 1);
        }
        assert(!has_pid(rv, pid)(i - 1));
        i -= 1;
    }
    None
}

/// The terminal host of `process`: the first ancestor in `rows` that is
/// iTerm, Terminal, VS Code or Cursor. The walk takes at most one step more
/// than there are rows, which a chain of distinct parents never needs.
pub fn terminal_app_for_process(process: &ProcessRow, rows: &Vec<ProcessRow>) -> (r: Option<
    TerminalApp,
>)
    ensures
        r.deep_view() == host_of(process@, rows.deep_view()),
{
    let mut current = process.parent_pid;
    let mut fuel: u128 = rows.len() as u128 + 1;
    let ghost rv = rows.deep_view();
    loop
        invariant
            rv == rows.deep_view(),
            host_of(process@, rv) == host_walk(rv, current, fuel as nat),
        decreases fuel,
    {
        if fuel == 0 {
            return None;
        }
        let pid = match current {
            None => {
                return None;
            },
            Some(pid) => pid,
        };
        let k = match find_row(rows, pid) {
            None => {
                return None;
            },
            Some(k) => k,
        };
        let parent = &rows[k];
        let found = host_app_of(parent.executable.as_str(), parent.command.as_str());
        if found.is_some() {
            return found;
        }
        current = parent.parent_pid;
        fuel = fuel - 1;
    }
}

/// The terminal that a process with this name and command line is, as the
/// process tree shows it (the name as it is, the command lower-cased).
pub open spec fn named_host(name: Seq<char>, command: Seq<char>) -> Option<TerminalAppView> {
    let lower = lowercase_of(name);
    if contains(name, "Terminal"@) || contains(command, "/terminal.app/"@) {
        Some(TerminalAppView::Terminal)
    } else if contains(name, "iTerm"@) || contains(lower, "itermserver"@) || contains(
        command,
        "/iterm.app/"@,
    ) || contains(command, "itermserver"@) {
        Some(TerminalAppView::ITerm)
    } else if editor_label(lower) is Some {
        Some(TerminalAppView::Unsupported(editor_label(lower).unwrap()))
    } else if terminal_alias(lower) {
        Some(TerminalAppView::Unsupported(name))
    } else {
        None
    }
}

/// The terminal that an ancestor process with this name and (lower-cased)
/// command line is, if it is one.
pub fn terminal_app_for_named_process(name: &str, command: &str) -> (r: Option<TerminalApp>)
    ensures
        r.deep_view() == named_host(name@, command@),
{
    let lower = lowercase_str(name);
    if str_contains(name, "Terminal") || str_contains(command, "/terminal.app/") {
        return Some(TerminalApp::Terminal);
    }
    if str_contains(name, "iTerm") || str_contains(lower.as_str(), "itermserver") || str_contains(
        command,
        "/iterm.app/",
    ) || str_contains(command, "itermserver") {
        return Some(TerminalApp::ITerm);
    }
    if let Some(label) = editor_terminal_label(lower.as_str()) {
        return Some(TerminalApp::Unsupported(owned(label)));
    }
    if is_supported_terminal_alias(lower.as_str()) {
        return Some(TerminalApp::Unsupported(owned(name)));
    }
    None
}

fn lowercase_str(s: &str) -> (r: String)
    ensures
        r@ == lowercase_of(s@),
{
    let v = chars_of(s);
    let l = lower_chars(&v);
    string_of(&l)
}

// ---------------------------------------------------------------------------
// Status words
// ---------------------------------------------------------------------------

/// Whether lower-cased text names something Codex does while active.
pub open spec fn active_status_text(lower: Seq<char>) -> bool {
    ||| contains(lower, "thinking"@)
    ||| contains(lower, "working"@)
    ||| contains(lower, "planning"@)
    ||| contains(lower, "running"@)
    ||| contains(lower, "calling tool"@)
    ||| contains(lower, "applying"@)
    ||| contains(lower, "updating"@)
    ||| contains(lower, "reading"@)
    ||| contains(lower, "writing"@)
    ||| contains(lower, "editing"@)
    ||| contains(lower, "searching"@)
    ||| contains(lower, "executing"@)
    ||| contains(lower, "compacting"@)
    ||| contains(lower, "approval required"@)
    ||| contains(lower, "idle"@)
}

pub open spec fn looks_active(label: Seq<char>) -> bool {
    active_status_text(lowercase_of(label))
}

fn active_status_chars(lower: &Vec<char>) -> (b: bool)
    ensures
        b == active_status_text(lower@),
{
    has_text(lower, "thinking") || has_text(lower, "working") || has_text(lower, "planning")
        || has_text(lower, "running") || has_text(lower, "calling tool") || has_text(
        lower,
        "applying",
    ) || has_text(lower, "updating") || has_text(lower, "reading") || has_text(lower, "writing")
        || has_text(lower, "editing") || has_text(lower, "searching") || has_text(
        lower,
        "executing",
    ) || has_text(lower, "compacting") || has_text(lower, "approval required") || has_text(
        lower,
        "idle",
    )
}

/// Whether a status line reads as Codex at work (or idle and waiting), rather
/// than a banner or a tip.
pub fn looks_like_active_codex_status(label: &str) -> (b: bool)
    ensures
        b == looks_active(label@),
{
    let v = chars_of(label);
    let lower = lower_chars(&v);
    active_status_chars(&lower)
}

// ---------------------------------------------------------------------------
// Answers offered
// ---------------------------------------------------------------------------

/// The three answers Codex offers when a command asks for escalated rights.
pub open spec fn escalation_views() -> Seq<PromptActionView> {
    seq![
        PromptActionView { id: "1"@, label: "是"@, reply: "1"@ },
        PromptActionView { id: "2"@, label: "是，并对以后类似命令开放"@, reply: "2"@ },
        PromptActionView { id: "3"@, label: "否"@, reply: "3"@ },
    ]
}

/// The answers to an escalation request.
pub fn escalation_actions() -> (r: Vec<PromptAction>)
    ensures
        r.deep_view() == escalation_views(),
{
    let mut r: Vec<PromptAction> = Vec::new();
    r.push(PromptAction { id: owned("1"), label: owned("是"), reply: owned("1") });
    r.push(PromptAction { id: owned("2"), label: owned("是，并对以后类似命令开放"), reply: owned("2") });
    r.push(PromptAction { id: owned("3"), label: owned("否"), reply: owned("3") });
    assert(r.deep_view() =~= escalation_views());
    r
}

/// The answer a line such as `2. Skip` offers: the digits before the first
/// `.` are its id and reply, the trimmed rest its label.
pub open spec fn numbered_action(line: Seq<char>) -> Option<PromptActionView> {
    match find_char(line, '.') {
        Some(i) => {
            let id = trim(line.take(i));
            let label = trim(line.skip(i + 1));
            if id.len() > 0 && all_digits(id) && label.len() > 0 {
                Some(PromptActionView { id, label, reply: id })
            } else {
                None
            }
        },
        None => None,
    }
}

/// The answers that the numbered lines among `lines` offer, in order.
pub open spec fn numbered(lines: Seq<Seq<char>>) -> Seq<PromptActionView>
    decreases lines.len(),
{
    if lines.len() == 0 {
        Seq::empty()
    } else {
        let rest = numbered(lines.drop_last());
        match numbered_action(lines.last()) {
            Some(a) => rest.push(a),
            None => rest,
        }
    }
}

fn digits_only(v: &Vec<char>) -> (b: bool)
    ensures
        b == all_digits(v@),
{
    let mut i: usize = 0;
    while i < v.len()
        invariant
            i <= v.len(),
            forall|j: int| 0 <= j < i ==> is_digit(#[trigger] v@[j]),
        decreases v.len() - i,
    {
        if !('0' <= v[i] && v[i] <= '9') {
            assert(!is_digit(v@[i as int]));
            return false;
        }
        i += 1;
    }
    true
}

fn numbered_action_of(line: &Vec<char>) -> (r: Option<PromptAction>)
    ensures
        r.deep_view() == numbered_action(line@),
{
    let i = match find_char_in(line, '.') {
        Some(i) => i,
        None => {
            return None;
        },
    };
    let head = slice_chars(line, 0, i);
    let tail = slice_chars(line, i + 1, line.len());
    assert(head@ == line@.take(i as int));
    assert(tail@ == line@.skip(i + 1));
    let id = trim_chars(&head);
    let label = trim_chars(&tail);
    if id.len() > 0 && digits_only(&id) && label.len() > 0 {
        Some(PromptAction { id: string_of(&id), label: string_of(&label), reply: string_of(&id) })
    } else {
        None
    }
}

/// The answers offered by the numbered lines among `lines[lo..hi]`.
pub fn numbered_actions(lines: &Vec<Vec<char>>, lo: usize, hi: usize) -> (r: Vec<PromptAction>)
    requires
        lo <= hi <= lines.len(),
    ensures
        r.deep_view() == numbered(views(lines@).subrange(lo as int, hi as int)),
{
    let mut r: Vec<PromptAction> = Vec::new();
    let mut i = lo;
    assert(views(lines@).subrange(lo as int, lo as int) =~= Seq::<Seq<char>>::empty());
    while i < hi
        invariant
            lo <= i <= hi <= lines.len(),
            r.deep_view() == numbered(views(lines@).subrange(lo as int, i as int)),
        decreases hi - i,
    {
        let ghost before = r.deep_view();
        let ghost sub = views(lines@).subrange(lo as int, i + 1);
        assert(sub.drop_last() =~= views(lines@).subrange(lo as int, i as int));
        assert(sub.last() == lines@[i as int]@);
        match numbered_action_of(&lines[i]) {
            Some(a) => {
                r.push(a);
                assert(r.deep_view() =~= before.push(a@));
            },
            None => {},
        }
        i += 1;
    }
    r
}

// ---------------------------------------------------------------------------
// Reading a terminal screen
// ---------------------------------------------------------------------------

/// The last `n` entries of `ls` (all of them when there are fewer).
pub open spec fn last_n(ls: Seq<Seq<char>>, n: nat) -> Seq<Seq<char>> {
    ls.subrange(if ls.len() > n { ls.len() - n } else { 0 }, ls.len() as int)
}

fn last_lines(lines: &Vec<Vec<char>>, n: usize) -> (r: Vec<Vec<char>>)
    ensures
        views(r@) == last_n(views(lines@), n as nat),
{
    let start = if lines.len() > n {
        lines.len() - n
    } else {
        0
    };
    let mut r: Vec<Vec<char>> = Vec::new();
    let mut i = start;
    while i < lines.len()
        invariant
            start <= i <= lines.len(),
            start == (if lines.len() > n { lines.len() - n } else { 0 }),
            views(r@) == views(lines@).subrange(start as int, i as int),
        decreases lines.len() - i,
    {
        let ghost before = r@;
        let item = slice_chars(&lines[i], 0, lines[i].len());
        assert(lines@[i as int]@.subrange(0, lines@[i as int]@.len() as int) =~= lines@[i as int]@);
        assert(item@ == views(lines@)[i as int]);
        r.push(item);
        assert(views(r@) =~= views(before).push(item@));
        assert(views(lines@).subrange(start as int, i + 1) =~= views(lines@).subrange(
            start as int,
            i as int,
        ).push(views(lines@)[i as int]));
        i += 1;
    }
    r
}

/// A line ending in a shell prompt character.
pub open spec fn shell_prompt_line(l: Seq<char>) -> bool {
    l.len() > 0 && (l.last() == '$' || l.last() == '%' || l.last() == '#')
}

fn is_shell_prompt(l: &Vec<char>) -> (b: bool)
    ensures
        b == shell_prompt_line(l@),
{
    ends_with_char(l, '$') || ends_with_char(l, '%') || ends_with_char(l, '#')
}

/// A trimmed line that can be a status line: not empty, at most 160 bytes of
/// UTF-8, and not a shell prompt.
pub open spec fn activity_line(t: Seq<char>) -> bool {
    t.len() > 0 && utf8_len(t) <= 160 && !shell_prompt_line(t)
}

pub open spec fn activity_at(lines: Seq<Seq<char>>) -> spec_fn(int) -> bool {
    |i: int| activity_line(trim(lines[i]))
}

/// The last line of `s` that, trimmed, can be a status line.
pub open spec fn activity_label_of(s: Seq<char>) -> Option<Seq<char>> {
    let ls = lines_of(s);
    match last_index(ls.len() as int, activity_at(ls)) {
        Some(k) => Some(trim(ls[k])),
        None => None,
    }
}

/// The last line of a terminal screen that reads as a status line, trimmed.
pub fn infer_activity_label(snapshot: &str) -> (r: Option<String>)
    ensures
        opt_text(r) == activity_label_of(snapshot@),
{
    let v = chars_of(snapshot);
    let lines = lines_chars(&v);
    let ghost lv = views(lines@);
    let mut i = lines.len();
    while i > 0
        invariant
            i <= lines.len(),
            lv == views(lines@),
            lv == lines_of(snapshot@),
            last_index(lv.len() as int, activity_at(lv)) == last_index(i as int, activity_at(lv)),
        decreases i,
    {
        let t = trim_chars(&lines[i - 1]);
        assert(lv[i - 1] == lines@[i - 1]@);
        if t.len() > 0 && utf8_len_at_most(&t, 160) && !is_shell_prompt(&t) {
            assert(activity_at(lv)(i - 1));
            return Some(string_of(&t));
        }
        assert(!activity_at(lv)(i - 1));
        i -= 1;
    }
    None
}

pub open spec fn opt_text(o: Option<String>) -> Option<Seq<char>> {
    match o {
        Some(s) => Some(s@),
        None => None,
    }
}

/// Lower-cased text that asks the user to confirm something.
pub open spec fn hint_text(lower: Seq<char>) -> bool {
    ||| contains(lower, "press enter"@)
    ||| contains(lower, "continue?"@)
    ||| contains(lower, "approve"@)
    ||| contains(lower, "confirm"@)
    ||| contains(lower, "allow"@)
    ||| contains(lower, "y/n"@)
}

pub open spec fn hint_at(lines: Seq<Seq<char>>) -> spec_fn(int) -> bool {
    |i: int| hint_text(lowercase_of(lines[i]))
}

/// What a terminal screen asks of the user: among its last eight non-empty
/// trimmed lines, the last that asks to confirm, provided that only shell
/// prompts follow it.
pub open spec fn interaction_hint_of(s: Seq<char>) -> Option<Seq<char>> {
    let recent = last_n(clean_lines(s), 8);
    match last_index(recent.len() as int, hint_at(recent)) {
        Some(k) => if forall|j: int| k < j < recent.len() ==> shell_prompt_line(#[trigger] recent[j]) {
            Some(recent[k])
        } else {
            None
        },
        None => None,
    }
}

fn has_hint(lower: &Vec<char>) -> (b: bool)
    ensures
        b == hint_text(lower@),
{
    has_text(lower, "press enter") || has_text(lower, "continue?") || has_text(lower, "approve")
        || has_text(lower, "confirm") || has_text(lower, "allow") || has_text(lower, "y/n")
}

fn last_hint(recent: &Vec<Vec<char>>) -> (r: Option<usize>)
    ensures
        match r {
            Some(k) => last_index(views(recent@).len() as int, hint_at(views(recent@))) == Some(k as int) && k < recent.len(),
            None => last_index(views(recent@).len() as int, hint_at(views(recent@))) is None,
        },
{
    let ghost rv = views(recent@);
    let mut i = recent.len();
    while i > 0
        invariant
            i <= recent.len(),
            rv == views(recent@),
            last_index(rv.len() as int, hint_at(rv)) == last_index(i as int, hint_at(rv)),
        decreases i,
    {
        assert(rv[i - 1] == recent@[i - 1]@);
        let lower = lower_chars(&recent[i - 1]);
        if has_hint(&lower) {
            assert(hint_at(rv)(i - 1));
            return Some(i - 1);
        }
        assert(!hint_at(rv)(i - 1));
        i -= 1;
    }
    None
}

/// The confirmation a terminal screen ends with, if it ends with one.
pub fn infer_interaction_hint(snapshot: &str) -> (r: Option<String>)
    ensures
        opt_text(r) == interaction_hint_of(snapshot@),
{
    let v = chars_of(snapshot);
    let all = clean_lines_of(&v);
    let recent = last_lines(&all, 8);
    let ghost rv = views(recent@);
    let k = match last_hint(&recent) {
        Some(k) => k,
        None => {
            return None;
        },
    };
    let mut j = k + 1;
    while j < recent.len()
        invariant
            k < recent.len(),
            k + 1 <= j <= recent.len(),
            rv == views(recent@),
            rv == last_n(clean_lines(snapshot@), 8),
            last_index(rv.len() as int, hint_at(rv)) == Some(k as int),
            forall|m: int| k < m < j ==> shell_prompt_line(#[trigger] rv[m]),
        decreases recent.len() - j,
    {
        assert(rv[j as int] == recent@[j as int]@);
        if !is_shell_prompt(&recent[j]) {
            assert(!shell_prompt_line(rv[j as int]));
            return None;
        }
        j += 1;
    }
    Some(string_of(&recent[k]))
}

/// A (trimmed) line that asks the user something.
pub open spec fn question_line(l: Seq<char>) -> bool {
    ||| l.len() > 0 && (l.last() == '?' || l.last() == '？')
    ||| contains(l, "Do you want to"@)
    ||| contains(l, "现在要"@)
    ||| contains(l, "要继续"@)
}

pub open spec fn question_at(lines: Seq<Seq<char>>) -> spec_fn(int) -> bool {
    |i: int| question_line(lines[i])
}

/// The last question among `lines`, with the numbered answers after it.
pub open spec fn question_in(lines: Seq<Seq<char>>) -> Option<PendingInputView> {
    match last_index(lines.len() as int, question_at(lines)) {
        Some(k) => Some(
            PendingInputView {
                prompt: lines[k],
                actions: numbered(lines.subrange(k + 1, lines.len() as int)),
                source: PromptSource::Thread,
                submit_target: None,
            },
        ),
        None => None,
    }
}

/// The last question of `text` (among its non-empty trimmed lines), with the
/// numbered answers that follow it.
pub open spec fn attention_question(text: Seq<char>) -> Option<PendingInputView> {
    question_in(clean_lines(text))
}

pub open spec fn opt_pending(o: Option<PendingInput>) -> Option<PendingInputView> {
    match o {
        Some(p) => Some(p@),
        None => None,
    }
}

fn last_question(lines: &Vec<Vec<char>>) -> (r: Option<usize>)
    ensures
        match r {
            Some(k) => last_index(views(lines@).len() as int, question_at(views(lines@))) == Some(k as int) && k < lines.len(),
            None => last_index(views(lines@).len() as int, question_at(views(lines@))) is None,
        },
{
    let ghost lv = views(lines@);
    let mut i = lines.len();
    while i > 0
        invariant
            i <= lines.len(),
            lv == views(lines@),
            last_index(lv.len() as int, question_at(lv)) == last_index(i as int, question_at(lv)),
        decreases i,
    {
        let l = &lines[i - 1];
        assert(lv[i - 1] == l@);
        let asks = (l.len() > 0 && (l[l.len() - 1] == '?' || l[l.len() - 1] == '？')) || has_text(
            l,
            "Do you want to",
        ) || has_text(l, "现在要") || has_text(l, "要继续");
        if asks {
            assert(question_at(lv)(i - 1));
            return Some(i - 1);
        }
        assert(!question_at(lv)(i - 1));
        i -= 1;
    }
    None
}

fn question_among(lines: &Vec<Vec<char>>) -> (r: Option<PendingInput>)
    ensures
        opt_pending(r) == question_in(views(lines@)),
{
    let k = match last_question(lines) {
        Some(k) => k,
        None => {
            return None;
        },
    };
    let actions = numbered_actions(lines, k + 1, lines.len());
    Some(
        PendingInput {
            prompt: string_of(&lines[k]),
            actions,
            source: PromptSource::Thread,
            submit_target: None,
        },
    )
}

/// The last question in a message, with the numbered answers offered after it.
pub fn extract_attention_question(text: &str) -> (r: Option<PendingInput>)
    ensures
        opt_pending(r) == attention_question(text@),
{
    let v = chars_of(text);
    let lines = clean_lines_of(&v);
    question_among(&lines)
}

pub open spec fn lower_has_at(lines: Seq<Seq<char>>, pat: Seq<char>) -> spec_fn(int) -> bool {
    |i: int| contains(lowercase_of(lines[i]), pat)
}

/// What a terminal screen waits on. Among its last twenty non-empty trimmed
/// lines: the last "press enter to continue" with the numbered answers above
/// it, if there are any; else the confirmation it ends with; else the last
/// question among those lines; each without answers.
pub open spec fn terminal_prompt_of(s: Seq<char>) -> Option<PendingInputView> {
    let recent = last_n(clean_lines(s), 20);
    let enter = last_index(recent.len() as int, lower_has_at(recent, "press enter to continue"@));
    if enter is Some && numbered(recent.take(enter.unwrap())).len() > 0 {
        Some(
            PendingInputView {
                prompt: recent[enter.unwrap()],
                actions: numbered(recent.take(enter.unwrap())),
                source: PromptSource::Terminal,
                submit_target: None,
            },
        )
    } else {
        match interaction_hint_of(s) {
            Some(p) => Some(
                PendingInputView {
                    prompt: p,
                    actions: Seq::empty(),
                    source: PromptSource::Terminal,
                    submit_target: None,
                },
            ),
            None => match attention_question(join(recent, "\n"@)) {
                Some(q) => Some(
                    PendingInputView {
                        prompt: q.prompt,
                        actions: Seq::empty(),
                        source: PromptSource::Terminal,
                        submit_target: None,
                    },
                ),
                None => None,
            },
        }
    }
}

fn last_lower_containing(lines: &Vec<Vec<char>>, pat: &str) -> (r: Option<usize>)
    ensures
        match r {
            Some(k) => last_index(views(lines@).len() as int, lower_has_at(views(lines@), pat@)) == Some(k as int) && k < lines.len(),
            None => last_index(views(lines@).len() as int, lower_has_at(views(lines@), pat@)) is None,
        },
{
    let ghost lv = views(lines@);
    let mut i = lines.len();
    while i > 0
        invariant
            i <= lines.len(),
            lv == views(lines@),
            last_index(lv.len() as int, lower_has_at(lv, pat@)) == last_index(
                i as int,
                lower_has_at(lv, pat@),
            ),
        decreases i,
    {
        assert(lv[i - 1] == lines@[i - 1]@);
        let lower = lower_chars(&lines[i - 1]);
        if has_text(&lower, pat) {
            assert(lower_has_at(lv, pat@)(i - 1));
            return Some(i - 1);
        }
        assert(!lower_has_at(lv, pat@)(i - 1));
        i -= 1;
    }
    None
}

/// What a terminal screen waits on, if anything.
pub fn infer_terminal_prompt(snapshot: &str) -> (r: Option<PendingInput>)
    ensures
        opt_pending(r) == terminal_prompt_of(snapshot@),
{
    let v = chars_of(snapshot);
    let all = clean_lines_of(&v);
    let recent = last_lines(&all, 20);
    let ghost rv = views(recent@);
    let enter = last_lower_containing(&recent, "press enter to continue");
    let ghost enter_spec = last_index(
        rv.len() as int,
        lower_has_at(rv, "press enter to continue"@),
    );
    if let Some(e) = enter {
        let actions = numbered_actions(&recent, 0, e);
        assert(rv.subrange(0, e as int) =~= rv.take(e as int));
        assert(actions.deep_view().len() == actions.len());
        if actions.len() > 0 {
            return Some(
                PendingInput {
                    prompt: string_of(&recent[e]),
                    actions,
                    source: PromptSource::Terminal,
                    submit_target: None,
                },
            );
        }
        assert(numbered(rv.take(e as int)).len() == 0);
    }
    assert(!(enter_spec is Some && numbered(rv.take(enter_spec.unwrap())).len() > 0));
    assert(rv == last_n(clean_lines(snapshot@), 20));
    let none: Vec<PromptAction> = Vec::new();
    assert(none.deep_view() =~= Seq::<PromptActionView>::empty());
    match infer_interaction_hint(snapshot) {
        Some(prompt) => {
            return Some(
                PendingInput {
                    prompt,
                    actions: none,
                    source: PromptSource::Terminal,
                    submit_target: None,
                },
            );
        },
        None => {},
    }
    let newline = chars_of("\n");
    let joined = join_chars(&recent, &newline);
    let joined_text = string_of(&joined);
    match extract_attention_question(joined_text.as_str()) {
        Some(q) => Some(
            PendingInput {
                prompt: q.prompt,
                actions: none,
                source: PromptSource::Terminal,
                submit_target: None,
            },
        ),
        None => None,
    }
}

// ---------------------------------------------------------------------------
// Desktop attention
// ---------------------------------------------------------------------------

/// An escalation request read from a thread: its answers are the escalation
/// answers.
pub open spec fn escalation_pending(p: PendingInputView) -> bool {
    p.source == PromptSource::Thread && p.actions == escalation_views()
}

pub fn is_escalation_pending(pending: &PendingInput) -> (b: bool)
    ensures
        b == escalation_pending(pending@),
{
    let answers = escalation_actions();
    pending.source == PromptSource::Thread && actions_eq(&pending.actions, &answers)
}

pub open spec fn approval_target(conversation_id: Seq<char>, request_id: Seq<char>) -> SubmitTargetView {
    SubmitTargetView::DesktopCommandApproval { conversation_id, request_id }
}

/// What the desktop app waits on: the rollout's pending input, aimed at the
/// live approval request when it is an escalation and one is open; else, with
/// only an open request, a generic approval prompt aimed at it.
pub open spec fn resolved_attention(
    conversation_id: Seq<char>,
    rollout: Option<PendingInputView>,
    request_id: Option<Seq<char>>,
) -> Option<PendingInputView> {
    match rollout {
        Some(p) => if escalation_pending(p) && request_id is Some {
            Some(
                PendingInputView {
                    prompt: p.prompt,
                    actions: p.actions,
                    source: p.source,
                    submit_target: Some(approval_target(conversation_id, request_id.unwrap())),
                },
            )
        } else {
            Some(p)
        },
        None => match request_id {
            Some(r) => Some(
                PendingInputView {
                    prompt: "Approval required"@,
                    actions: escalation_views(),
                    source: PromptSource::Thread,
                    submit_target: Some(approval_target(conversation_id, r)),
                },
            ),
            None => None,
        },
    }
}

/// Combines what the rollout shows with the approval request the desktop log
/// shows open.
pub fn resolve_desktop_attention(
    conversation_id: &str,
    rollout_attention: Option<PendingInput>,
    approval_request_id: Option<String>,
) -> (r: Option<PendingInput>)
    ensures
        opt_pending(r) == resolved_attention(
            conversation_id@,
            opt_pending(rollout_attention),
            opt_text(approval_request_id),
        ),
{
    match rollout_attention {
        Some(mut pending) => {
            if is_escalation_pending(&pending) {
                if let Some(request_id) = approval_request_id {
                    pending.submit_target = Some(
                        SubmitTarget::DesktopCommandApproval {
                            conversation_id: owned(conversation_id),
                            request_id,
                        },
                    );
                }
            }
            Some(pending)
        },
        None => match approval_request_id {
            Some(request_id) => Some(
                PendingInput {
                    prompt: owned("Approval required"),
                    actions: escalation_actions(),
                    source: PromptSource::Thread,
                    submit_target: Some(
                        SubmitTarget::DesktopCommandApproval {
                            conversation_id: owned(conversation_id),
                            request_id,
                        },
                    ),
                },
            ),
            None => None,
        },
    }
}

/// What the island shows of the desktop app.
#[derive(Debug, Clone)]
pub struct DesktopState {
    pub title: String,
    pub project_name: Option<String>,
    pub activity_label: Option<String>,
    pub interaction_hint: Option<String>,
    pub prompt_actions: Vec<PromptAction>,
    pub prompt_source: Option<PromptSource>,
    pub submit_target: Option<SubmitTarget>,
}

pub struct DesktopStateView {
    pub title: Seq<char>,
    pub project_name: Option<Seq<char>>,
    pub activity_label: Option<Seq<char>>,
    pub interaction_hint: Option<Seq<char>>,
    pub prompt_actions: Seq<PromptActionView>,
    pub prompt_source: Option<PromptSource>,
    pub submit_target: Option<SubmitTargetView>,
}

impl View for DesktopState {
    type V = DesktopStateView;

    open spec fn view(&self) -> DesktopStateView {
        DesktopStateView {
            title: self.title@,
            project_name: self.project_name.deep_view(),
            activity_label: self.activity_label.deep_view(),
            interaction_hint: self.interaction_hint.deep_view(),
            prompt_actions: self.prompt_actions.deep_view(),
            prompt_source: self.prompt_source,
            submit_target: self.submit_target.deep_view(),
        }
    }
}

/// `n / 1000` rounded toward zero, as Rust divides.
pub open spec fn millis_to_secs(n: int) -> int {
    if n >= 0 {
        n / 1000
    } else {
        -((-n) / 1000)
    }
}

/// Whether `value` (seconds) lies at most `max_age_secs` before `now_ms`
/// (milliseconds), counting the current second whole.
pub open spec fn recent_secs(value: i64, max_age_secs: i64, now_ms: i64) -> bool {
    value >= millis_to_secs(now_ms as int) - max_age_secs
}

/// Whether `value` (seconds since the epoch) is at most `max_age_secs` old at
/// the instant `now_ms`.
pub fn is_recent_unix_secs_at(value: i64, max_age_secs: i64, now_ms: i64) -> (b: bool)
    ensures
        b == recent_secs(value, max_age_secs, now_ms),
{
    let n = now_ms as i128;
    let m: u128 = if n >= 0 {
        n as u128
    } else {
        (0 - n) as u128
    };
    let q = (m / 1000) as i128;
    let secs: i128 = if n >= 0 {
        q
    } else {
        0 - q
    };
    value as i128 >= secs - max_age_secs as i128
}

/// The current time in milliseconds since the epoch (0 before the epoch).
pub fn now_unix_ms() -> i64 {
    system_now_millis()
}

/// Whether `value` (seconds since the epoch) is at most `max_age_secs` old now.
pub fn is_recent_unix_secs(value: i64, max_age_secs: i64) -> (b: bool)
    ensures
        exists|now: i64| b == recent_secs(value, max_age_secs, now),
{
    let now = system_now_millis();
    is_recent_unix_secs_at(value, max_age_secs, now)
}

pub open spec fn opt_prompt(p: Option<PendingInputView>) -> Option<Seq<char>> {
    match p {
        Some(p) => Some(p.prompt),
        None => None,
    }
}

/// What the island shows of the desktop app, given its latest thread, what the
/// rollout shows pending, the approval request the log shows open, and the
/// current instant.
pub open spec fn desktop_state_view(
    thread: ThreadRowView,
    rollout: Option<PendingInputView>,
    request_id: Option<Seq<char>>,
    now_ms: i64,
) -> DesktopStateView {
    let attention = resolved_attention(thread.thread_id, rollout, request_id);
    DesktopStateView {
        title: thread.title,
        project_name: file_name(thread.cwd),
        activity_label: Some(
            if attention is Some {
                "Approval required"@
            } else if recent_secs(thread.updated_at, 30, now_ms) {
                "Working"@
            } else {
                "Idle"@
            },
        ),
        interaction_hint: opt_prompt(attention),
        prompt_actions: match attention {
            Some(p) => p.actions,
            None => Seq::empty(),
        },
        prompt_source: match attention {
            Some(p) => Some(p.source),
            None => None,
        },
        submit_target: match attention {
            Some(p) => match p.submit_target {
                Some(t) => Some(t),
                None => Some(SubmitTargetView::ThreadId(thread.thread_id)),
            },
            None => Some(SubmitTargetView::ThreadId(thread.thread_id)),
        },
    }
}

/// The desktop app's state at the instant `now_ms`.
pub fn desktop_state_for_thread_at(
    thread: ThreadRow,
    rollout_attention: Option<PendingInput>,
    approval_request_id: Option<String>,
    now_ms: i64,
) -> (r: Option<DesktopState>)
    ensures
        r is Some,
        r.unwrap()@ == desktop_state_view(
            thread@,
            opt_pending(rollout_attention),
            opt_text(approval_request_id),
            now_ms,
        ),
{
    let is_recent = is_recent_unix_secs_at(thread.updated_at, 30, now_ms);
    let attention = resolve_desktop_attention(
        thread.thread_id.as_str(),
        rollout_attention,
        approval_request_id,
    );
    let activity = if attention.is_some() {
        owned("Approval required")
    } else if is_recent {
        owned("Working")
    } else {
        owned("Idle")
    };
    let project_name = cwd_basename(thread.cwd.as_str());
    let fallback = SubmitTarget::ThreadId(thread.thread_id.clone());
    let (interaction_hint, prompt_actions, prompt_source, submit_target) = match attention {
        Some(p) => {
            let target = match p.submit_target {
                Some(t) => Some(t),
                None => Some(fallback),
            };
            (Some(p.prompt), p.actions, Some(p.source), target)
        },
        None => {
            let none: Vec<PromptAction> = Vec::new();
            assert(none.deep_view() =~= Seq::<PromptActionView>::empty());
            (None, none, None, Some(fallback))
        },
    };
    Some(
        DesktopState {
            title: thread.title,
            project_name,
            activity_label: Some(activity),
            interaction_hint,
            prompt_actions,
            prompt_source,
            submit_target,
        },
    )
}

/// The desktop app's state now.
pub fn desktop_state_for_thread(
    thread: ThreadRow,
    rollout_attention: Option<PendingInput>,
    approval_request_id: Option<String>,
) -> (r: Option<DesktopState>)
    ensures
        r is Some,
        exists|now: i64|
            r.unwrap()@ == desktop_state_view(
                thread@,
                opt_pending(rollout_attention),
                opt_text(approval_request_id),
                now,
            ),
{
    let now = system_now_millis();
    desktop_state_for_thread_at(thread, rollout_attention, approval_request_id, now)
}

/// The last component of a working directory, as `Path::file_name` gives it.
pub fn cwd_basename(cwd: &str) -> (r: Option<String>)
    ensures
        opt_text(r) == file_name(cwd@),
{
    let v = chars_of(cwd);
    match file_name_chars(&v) {
        Some(name) => Some(string_of(&name)),
        None => None,
    }
}

/// The last component of the path `v` (`Path::file_name`).
pub fn file_name_chars(v: &Vec<char>) -> (r: Option<Vec<char>>)
    ensures
        match r {
            Some(x) => file_name(v@) == Some(x@),
            None => file_name(v@) is None,
        },
{
    let parts = split_chars(&v, '/');
    let ghost pv = views(parts@);
    assert(pv.take(pv.len() as int) =~= pv);
    let mut i = parts.len();
    while i > 0
        invariant
            i <= parts.len(),
            pv == views(parts@),
            pv == split_on(v@, '/'),
            keep_parts(pv) == keep_parts(pv.take(i as int)),
        decreases i,
    {
        let p = &parts[i - 1];
        assert(pv.take(i as int).drop_last() =~= pv.take(i - 1));
        assert(pv.take(i as int).last() == p@);
        let dot = p.len() == 1 && p[0] == '.';
        assert(dot == (p@ == seq!['.'])) by {
            if p@ == seq!['.'] {
                assert(p@.len() == 1 && p@[0] == '.');
            }
            if dot {
                assert(p@ =~= seq!['.']);
            }
        }
        if p.len() > 0 && !dot {
            let dots = p.len() == 2 && p[0] == '.' && p[1] == '.';
            assert(dots == (p@ == seq!['.', '.'])) by {
                if p@ == seq!['.', '.'] {
                    assert(p@.len() == 2 && p@[0] == '.' && p@[1] == '.');
                }
                if dots {
                    assert(p@ =~= seq!['.', '.']);
                }
            }
            if dots {
                return None;
            }
            assert(p@.subrange(0, p@.len() as int) =~= p@);
            return Some(slice_chars(p, 0, p.len()));
        }
        i -= 1;
    }
    assert(pv.take(0) =~= Seq::<Seq<char>>::empty());
    None
}

// ---------------------------------------------------------------------------
// Codex's thread database and logs
// ---------------------------------------------------------------------------

/// The query for the desktop app's most recently updated thread.
pub fn desktop_thread_query() -> (r: &'static str)
    ensures
        r@ == "SELECT id, rollout_path, cwd, title, created_at, updated_at FROM threads WHERE archived = 0 AND source = 'vscode' ORDER BY updated_at DESC LIMIT 1;"@,
{
    "SELECT id, rollout_path, cwd, title, created_at, updated_at FROM threads WHERE archived = 0 AND source = 'vscode' ORDER BY updated_at DESC LIMIT 1;"
}

/// `s` with each `'` doubled, as SQL quotes it inside a string literal.
pub open spec fn sql_quoted(s: Seq<char>) -> Seq<char>
    decreases s.len(),
{
    if s.len() == 0 {
        Seq::empty()
    } else if s.last() == '\'' {
        sql_quoted(s.drop_last()) + seq!['\'', '\'']
    } else {
        sql_quoted(s.drop_last()).push(s.last())
    }
}

pub open spec fn cli_thread_query(cwd: Seq<char>) -> Seq<char> {
    "SELECT id, rollout_path, cwd, title, created_at, updated_at FROM threads WHERE archived = 0 AND cwd = '"@
        + sql_quoted(cwd)
        + "' AND source = 'cli' ORDER BY updated_at DESC LIMIT 12;"@
}

/// The query for the twelve most recently updated CLI threads that ran in `cwd`.
pub fn cli_thread_query_for_cwd(cwd: &str) -> (r: String)
    ensures
        r@ == cli_thread_query(cwd@),
{
    let mut out = owned(
        "SELECT id, rollout_path, cwd, title, created_at, updated_at FROM threads WHERE archived = 0 AND cwd = '",
    );
    let ghost head = out@;
    let v = chars_of(cwd);
    let mut i: usize = 0;
    assert(v@.take(0) =~= Seq::<char>::empty());
    while i < v.len()
        invariant
            i <= v.len(),
            v@ == cwd@,
            out@ == head + sql_quoted(v@.take(i as int)),
        decreases v.len() - i,
    {
        assert(v@.take(i + 1).drop_last() =~= v@.take(i as int));
        assert(v@.take(i + 1).last() == v@[i as int]);
        if v[i] == '\'' {
            push_char(&mut out, '\'');
            push_char(&mut out, '\'');
            assert(out@ =~= head + sql_quoted(v@.take(i + 1)));
        } else {
            push_char(&mut out, v[i]);
            assert(out@ =~= head + sql_quoted(v@.take(i + 1)));
        }
        i += 1;
    }
    assert(v@.take(v.len() as int) =~= v@);
    push_str(&mut out, "' AND source = 'cli' ORDER BY updated_at DESC LIMIT 12;");
    out
}

/// Whether a log file path is one of the desktop app's logs for process `pid`.
pub open spec fn desktop_log_for_pid(path: Seq<char>, pid: i32) -> bool {
    contains(path, "codex-desktop-"@) && ends_with(path, ".log"@) && contains(
        path,
        "-"@ + signed_decimal(pid as int) + "-"@,
    )
}

pub fn is_desktop_log_for_pid(path: &str, pid: i32) -> (b: bool)
    ensures
        b == desktop_log_for_pid(path@, pid),
{
    let mut marker = owned("-");
    push_signed_decimal(&mut marker, pid as i64);
    push_str(&mut marker, "-");
    str_contains(path, "codex-desktop-") && str_ends_with(path, ".log") && str_contains(
        path,
        marker.as_str(),
    )
}

/// The approval request that a desktop log line shows opening for a command
/// in `conversation_id`: the trimmed text after `requestId=`.
pub open spec fn pending_request_in(line: Seq<char>, conversation_id: Seq<char>) -> Option<
    Seq<char>,
> {
    if !contains(line, "[desktop-notifications] show approval"@) || !contains(
        line,
        "conversationId="@ + conversation_id,
    ) || !contains(line, "kind=commandExecution"@) {
        None
    } else {
        match second_piece(line, "requestId="@) {
            Some(p) => Some(trim(p)),
            None => None,
        }
    }
}

pub fn desktop_log_pending_approval_request_id(line: &str, conversation_id: &str) -> (r: Option<
    String,
>)
    ensures
        opt_text(r) == pending_request_in(line@, conversation_id@),
{
    let mut marker = owned("conversationId=");
    push_str(&mut marker, conversation_id);
    if !str_contains(line, "[desktop-notifications] show approval") || !str_contains(
        line,
        marker.as_str(),
    ) || !str_contains(line, "kind=commandExecution") {
        return None;
    }
    let v = chars_of(line);
    let pat = chars_of("requestId=");
    proof {
        reveal_strlit("requestId=");
    }
    match second_piece_chars(&v, &pat) {
        Some(piece) => {
            let t = trim_chars(&piece);
            Some(string_of(&t))
        },
        None => None,
    }
}

/// The approval request that a desktop log line shows answered: the first
/// word after `id=`.
pub open spec fn resolved_request_in(line: Seq<char>) -> Option<Seq<char>> {
    if !contains(line, "Sending server response"@) || !contains(
        line,
        "method=item/commandExecution/requestApproval"@,
    ) {
        None
    } else {
        match second_piece(line, "id="@) {
            Some(p) => if words(p).len() > 0 {
                Some(words(p)[0])
            } else {
                None
            },
            None => None,
        }
    }
}

pub fn desktop_log_resolved_approval_request_id(line: &str) -> (r: Option<String>)
    ensures
        opt_text(r) == resolved_request_in(line@),
{
    if !str_contains(line, "Sending server response") || !str_contains(
        line,
        "method=item/commandExecution/requestApproval",
    ) {
        return None;
    }
    let v = chars_of(line);
    let pat = chars_of("id=");
    proof {
        reveal_strlit("id=");
    }
    match second_piece_chars(&v, &pat) {
        Some(piece) => {
            let ws = words_of(&piece);
            if ws.len() > 0 {
                assert(views(ws@)[0] == ws@[0]@);
                Some(string_of(&ws[0]))
            } else {
                None
            }
        },
        None => None,
    }
}

/// The requests that `f` finds in the lines, in order.
pub open spec fn requests_opened(lines: Seq<Seq<char>>, conversation_id: Seq<char>) -> Seq<Seq<char>>
    decreases lines.len(),
{
    if lines.len() == 0 {
        Seq::empty()
    } else {
        let rest = requests_opened(lines.drop_last(), conversation_id);
        match pending_request_in(lines.last(), conversation_id) {
            Some(r) => rest.push(r),
            None => rest,
        }
    }
}

pub open spec fn requests_answered(lines: Seq<Seq<char>>) -> Seq<Seq<char>>
    decreases lines.len(),
{
    if lines.len() == 0 {
        Seq::empty()
    } else {
        let rest = requests_answered(lines.drop_last());
        match resolved_request_in(lines.last()) {
            Some(r) => rest.push(r),
            None => rest,
        }
    }
}

pub open spec fn unanswered_at(opened: Seq<Seq<char>>, answered: Seq<Seq<char>>) -> spec_fn(int) -> bool {
    |i: int| !answered.contains(opened[i])
}

/// The command approval that the desktop logs (their lines in order) show
/// opened for `conversation_id` and not yet answered: the latest such.
pub open spec fn open_request(lines: Seq<Seq<char>>, conversation_id: Seq<char>) -> Option<Seq<char>> {
    let opened = requests_opened(lines, conversation_id);
    let answered = requests_answered(lines);
    match last_index(opened.len() as int, unanswered_at(opened, answered)) {
        Some(k) => Some(opened[k]),
        None => None,
    }
}

fn contains_string(v: &Vec<String>, s: &String) -> (b: bool)
    ensures
        b == v.deep_view().contains(s@),
{
    let mut i: usize = 0;
    while i < v.len()
        invariant
            i <= v.len(),
            forall|j: int| 0 <= j < i ==> v.deep_view()[j] != s@,
        decreases v.len() - i,
    {
        if crate::models::string_eq(&v[i], s) {
            assert(v.deep_view()[i as int] == s@);
            return true;
        }
        i += 1;
    }
    false
}

#[verifier::rlimit(40)]
fn requests_opened_in(lines: &Vec<String>, conversation_id: &str) -> (r: Vec<String>)
    ensures
        r.deep_view() == requests_opened(lines.deep_view(), conversation_id@),
{
    let ghost lv = lines.deep_view();
    let mut opened: Vec<String> = Vec::new();
    let mut i: usize = 0;
    assert(lv.take(0) =~= Seq::<Seq<char>>::empty());
    while i < lines.len()
        invariant
            i <= lines.len(),
            lv == lines.deep_view(),
            opened.deep_view() == requests_opened(lv.take(i as int), conversation_id@),
        decreases lines.len() - i,
    {
        assert(lv.take(i + 1).drop_last() =~= lv.take(i as int));
        assert(lv.take(i + 1).last() == lines@[i as int]@);
        let ghost o = opened.deep_view();
        match desktop_log_pending_approval_request_id(lines[i].as_str(), conversation_id) {
            Some(id) => {
                opened.push(id);
                assert(opened.deep_view() =~= o.push(opened@[opened.len() - 1]@));
            },
            None => {},
        }
        i += 1;
    }
    assert(lv.take(lines.len() as int) =~= lv);
    opened
}

#[verifier::rlimit(40)]
fn requests_answered_in(lines: &Vec<String>) -> (r: Vec<String>)
    ensures
        r.deep_view() == requests_answered(lines.deep_view()),
{
    let ghost lv = lines.deep_view();
    let mut answered: Vec<String> = Vec::new();
    let mut i: usize = 0;
    assert(lv.take(0) =~= Seq::<Seq<char>>::empty());
    while i < lines.len()
        invariant
            i <= lines.len(),
            lv == lines.deep_view(),
            answered.deep_view() == requests_answered(lv.take(i as int)),
        decreases lines.len() - i,
    {
        assert(lv.take(i + 1).drop_last() =~= lv.take(i as int));
        assert(lv.take(i + 1).last() == lines@[i as int]@);
        let ghost a = answered.deep_view();
        match desktop_log_resolved_approval_request_id(lines[i].as_str()) {
            Some(id) => {
                answered.push(id);
                assert(answered.deep_view() =~= a.push(answered@[answered.len() - 1]@));
            },
            None => {},
        }
        i += 1;
    }
    assert(lv.take(lines.len() as int) =~= lv);
    answered
}

/// The latest command approval that the desktop log lines show opened for
/// `conversation_id` and not answered.
pub fn desktop_pending_command_approval_request_id(lines: &Vec<String>, conversation_id: &str) -> (r:
    Option<String>)
    ensures
        opt_text(r) == open_request(lines.deep_view(), conversation_id@),
{
    let ghost lv = lines.deep_view();
    let opened = requests_opened_in(lines, conversation_id);
    let answered = requests_answered_in(lines);
    let ghost ov = opened.deep_view();
    let ghost av = answered.deep_view();
    let mut k = opened.len();
    while k > 0
        invariant
            k <= opened.len(),
            ov == opened.deep_view(),
            av == answered.deep_view(),
            lv == lines.deep_view(),
            ov == requests_opened(lv, conversation_id@),
            av == requests_answered(lv),
            last_index(ov.len() as int, unanswered_at(ov, av)) == last_index(
                k as int,
                unanswered_at(ov, av),
            ),
        decreases k,
    {
        assert(ov[k - 1] == opened@[k - 1]@);
        if !contains_string(&answered, &opened[k - 1]) {
            assert(unanswered_at(ov, av)(k - 1));
            return Some(owned(opened[k - 1].as_str()));
        }
        assert(!unanswered_at(ov, av)(k - 1));
        k -= 1;
    }
    None
}

/// Whether a rollout file modified at `modified_ms` is fresh enough to read
/// at `now_ms`: at most 300 whole seconds old, or modified after `now_ms`;
/// never when its modification time is unknown.
pub open spec fn rollout_recent(modified_ms: Option<i64>, now_ms: i64) -> bool {
    match modified_ms {
        None => false,
        Some(m) => m > now_ms || (now_ms - m) / 1000 <= 300,
    }
}

pub fn rollout_file_is_recent(modified_ms: Option<i64>, now_ms: i64) -> (b: bool)
    ensures
        b == rollout_recent(modified_ms, now_ms),
{
    match modified_ms {
        None => false,
        Some(m) => {
            if m > now_ms {
                true
            } else {
                let age = (now_ms as i128 - m as i128) as u128;
                age / 1000 <= 300
            }
        },
    }
}

/// How far a thread's creation lies from a process's start, in seconds.
pub open spec fn start_gap(row: ThreadRowView, start: i64) -> int {
    let d = row.created_at - start;
    if d >= 0 {
        d
    } else {
        -d
    }
}

/// The thread of `rows` created closest to the process start; the first of
/// those equally close.
pub open spec fn closest_thread(rows: Seq<ThreadRowView>, start: i64, k: int) -> bool {
    &&& 0 <= k < rows.len()
    &&& forall|j: int| 0 <= j < k ==> start_gap(#[trigger] rows[j], start) > start_gap(rows[k], start)
    &&& forall|j: int| 0 <= j < rows.len() ==> start_gap(#[trigger] rows[j], start) >= start_gap(rows[k], start)
}

/// The CLI thread that a process started at `process_start_unix_secs` most
/// likely runs: the one created closest to that instant.
pub fn select_cli_thread_for_process(rows: Vec<ThreadRow>, process_start_unix_secs: i64) -> (r:
    Option<ThreadRow>)
    ensures
        match r {
            None => rows.len() == 0,
            Some(t) => exists|k: int|
                closest_thread(rows.deep_view(), process_start_unix_secs, k) && t@ == rows.deep_view()[k],
        },
{
    if rows.len() == 0 {
        return None;
    }
    let ghost rv = rows.deep_view();
    let mut best: usize = 0;
    let mut best_gap: i128 = {
        let d = rows[0].created_at as i128 - process_start_unix_secs as i128;
        if d >= 0 {
            d
        } else {
            0 - d
        }
    };
    assert(rv[0] == rows@[0]@);
    let mut i: usize = 1;
    while i < rows.len()
        invariant
            1 <= i <= rows.len(),
            best < i,
            rv == rows.deep_view(),
            best_gap == start_gap(rv[best as int], process_start_unix_secs),
            forall|j: int| 0 <= j < best ==> start_gap(#[trigger] rv[j], process_start_unix_secs) > best_gap,
            forall|j: int| 0 <= j < i ==> start_gap(#[trigger] rv[j], process_start_unix_secs) >= best_gap,
        decreases rows.len() - i,
    {
        let d = rows[i].created_at as i128 - process_start_unix_secs as i128;
        let gap = if d >= 0 {
            d
        } else {
            0 - d
        };
        assert(rv[i as int] == rows@[i as int]@);
        if gap < best_gap {
            best = i;
            best_gap = gap;
        }
        i += 1;
    }
    let mut rows = rows;
    let chosen = rows.remove(best);
    assert(closest_thread(rv, process_start_unix_secs, best as int));
    Some(chosen)
}

// ---------------------------------------------------------------------------
// CLI sessions
// ---------------------------------------------------------------------------

pub open spec fn opt_str(o: Option<&str>) -> Option<Seq<char>> {
    match o {
        Some(s) => Some(s@),
        None => None,
    }
}

/// What the island shows of a CLI session: its status line, the prompt it
/// waits on with the answers offered and where the prompt was read.
pub open spec fn sources_state(
    snapshot: Option<Seq<char>>,
    thread_hint: Option<PendingInputView>,
    thread_exists: bool,
    thread_is_recent: bool,
) -> (Option<Seq<char>>, Option<Seq<char>>, Seq<PromptActionView>, Option<PromptSource>) {
    let snapshot_activity = match snapshot {
        Some(s) => match activity_label_of(s) {
            Some(l) => if looks_active(l) {
                Some(l)
            } else {
                None
            },
            None => None,
        },
        None => None,
    };
    let effective = match snapshot {
        Some(s) => match terminal_prompt_of(s) {
            Some(p) => Some(p),
            None => if thread_is_recent {
                thread_hint
            } else {
                None
            },
        },
        None => thread_hint,
    };
    let hint = opt_prompt(effective);
    let chosen = match snapshot_activity {
        Some(l) => l,
        None => if hint is Some {
            "Approval required"@
        } else if thread_is_recent {
            "Working"@
        } else {
            "Idle"@
        },
    };
    (
        if looks_active(chosen) {
            Some(chosen)
        } else {
            None
        },
        hint,
        match effective {
            Some(p) => p.actions,
            None => Seq::empty(),
        },
        match effective {
            Some(p) => Some(p.source),
            None => None,
        },
    )
}

/// A CLI session's status line, prompt, answers and prompt source, from its
/// terminal screen (when it could be read) and what its thread shows pending.
/// The thread's prompt counts when there is no screen, or when the screen
/// shows none and the thread was updated recently.
pub fn cli_state_from_sources(
    snapshot: Option<&str>,
    thread_hint: Option<PendingInput>,
    thread_exists: bool,
    thread_is_recent: bool,
) -> (r: (Option<String>, Option<String>, Vec<PromptAction>, Option<PromptSource>))
    ensures
        ({
            let st = sources_state(
                opt_str(snapshot),
                opt_pending(thread_hint),
                thread_exists,
                thread_is_recent,
            );
            &&& opt_text(r.0) == st.0
            &&& opt_text(r.1) == st.1
            &&& r.2.deep_view() == st.2
            &&& r.3 == st.3
        }),
{
    let snapshot_activity: Option<String> = match snapshot {
        Some(s) => match infer_activity_label(s) {
            Some(l) => if looks_like_active_codex_status(l.as_str()) {
                Some(l)
            } else {
                None
            },
            None => None,
        },
        None => None,
    };
    let effective: Option<PendingInput> = match snapshot {
        Some(s) => match infer_terminal_prompt(s) {
            Some(p) => Some(p),
            None => if thread_is_recent {
                thread_hint
            } else {
                None
            },
        },
        None => thread_hint,
    };
    let (hint, actions, source) = match effective {
        Some(p) => (Some(p.prompt), p.actions, Some(p.source)),
        None => {
            let none: Vec<PromptAction> = Vec::new();
            assert(none.deep_view() =~= Seq::<PromptActionView>::empty());
            (None, none, None)
        },
    };
    let chosen: String = match snapshot_activity {
        Some(l) => l,
        None => if hint.is_some() {
            owned("Approval required")
        } else if thread_is_recent {
            owned("Working")
        } else {
            owned("Idle")
        },
    };
    let activity = if looks_like_active_codex_status(chosen.as_str()) {
        Some(chosen)
    } else {
        None
    };
    (activity, hint, actions, source)
}

/// What the island shows of a CLI session.
pub struct CliState {
    pub activity_label: Option<String>,
    pub interaction_hint: Option<String>,
    pub prompt_actions: Vec<PromptAction>,
    pub prompt_source: Option<PromptSource>,
    pub submit_target: Option<SubmitTarget>,
}

pub struct CliStateView {
    pub activity_label: Option<Seq<char>>,
    pub interaction_hint: Option<Seq<char>>,
    pub prompt_actions: Seq<PromptActionView>,
    pub prompt_source: Option<PromptSource>,
    pub submit_target: Option<SubmitTargetView>,
}

impl View for CliState {
    type V = CliStateView;

    open spec fn view(&self) -> CliStateView {
        CliStateView {
            activity_label: opt_text(self.activity_label),
            interaction_hint: opt_text(self.interaction_hint),
            prompt_actions: self.prompt_actions.deep_view(),
            prompt_source: self.prompt_source,
            submit_target: self.submit_target.deep_view(),
        }
    }
}

/// A CLI session's state at `now_ms`, given its screen, its thread (if one was
/// matched) and what that thread shows pending; none when it shows neither a
/// status nor a prompt.
pub open spec fn cli_state_view(
    snapshot: Option<Seq<char>>,
    thread: Option<ThreadRowView>,
    thread_hint: Option<PendingInputView>,
    now_ms: i64,
) -> Option<CliStateView> {
    let recent = match thread {
        Some(t) => recent_secs(t.updated_at, 30, now_ms),
        None => false,
    };
    let st = sources_state(snapshot, thread_hint, thread is Some, recent);
    if st.0 is None && st.1 is None {
        None
    } else {
        Some(
            CliStateView {
                activity_label: st.0,
                interaction_hint: st.1,
                prompt_actions: st.2,
                prompt_source: st.3,
                submit_target: match thread {
                    Some(t) => Some(SubmitTargetView::ThreadId(t.thread_id)),
                    None => None,
                },
            },
        )
    }
}

pub open spec fn opt_cli(o: Option<CliState>) -> Option<CliStateView> {
    match o {
        Some(c) => Some(c@),
        None => None,
    }
}

/// A CLI session's state at the instant `now_ms`.
pub fn cli_state_from_thread(
    snapshot: Option<&str>,
    thread: Option<ThreadRow>,
    thread_hint: Option<PendingInput>,
    now_ms: i64,
) -> (r: Option<CliState>)
    ensures
        opt_cli(r) == cli_state_view(
            opt_str(snapshot),
            match thread {
                Some(t) => Some(t@),
                None => None,
            },
            opt_pending(thread_hint),
            now_ms,
        ),
{
    let recent = match &thread {
        Some(t) => is_recent_unix_secs_at(t.updated_at, 30, now_ms),
        None => false,
    };
    let (activity_label, interaction_hint, prompt_actions, prompt_source) = cli_state_from_sources(
        snapshot,
        thread_hint,
        thread.is_some(),
        recent,
    );
    if activity_label.is_none() && interaction_hint.is_none() {
        return None;
    }
    let submit_target = match thread {
        Some(t) => Some(SubmitTarget::ThreadId(t.thread_id)),
        None => None,
    };
    Some(CliState { activity_label, interaction_hint, prompt_actions, prompt_source, submit_target })
}

// ---------------------------------------------------------------------------
// Titles and rows
// ---------------------------------------------------------------------------

pub open spec fn opt_desktop(o: Option<DesktopState>) -> Option<DesktopStateView> {
    match o {
        Some(d) => Some(d@),
        None => None,
    }
}

/// At most the first `n` entries of `s`.
pub open spec fn first_n(s: Seq<Seq<char>>, n: nat) -> Seq<Seq<char>> {
    s.subrange(0, if s.len() < n { s.len() as int } else { n as int })
}

/// The title of a session: the desktop thread's title (for the desktop app),
/// else the project's name, else the first six words of the command line, or
/// the process name when the command line is blank.
pub open spec fn title_of(
    name: Seq<char>,
    desktop: Option<DesktopStateView>,
    project: Option<Seq<char>>,
    command: Seq<char>,
    kind: ProcessKind,
) -> Seq<char> {
    if kind == ProcessKind::Desktop {
        match desktop {
            Some(d) => d.title,
            None => "Codex desktop"@,
        }
    } else {
        match project {
            Some(p) => p,
            None => if trim(command).len() == 0 {
                name
            } else {
                join(first_n(words(trim(command)), 6), " "@)
            },
        }
    }
}

pub fn process_title(
    name: &str,
    desktop_state: Option<&DesktopState>,
    project_name: Option<&str>,
    command: &str,
    kind: ProcessKind,
) -> (r: String)
    ensures
        r@ == title_of(
            name@,
            match desktop_state {
                Some(d) => Some(d@),
                None => None,
            },
            opt_str(project_name),
            command@,
            kind,
        ),
{
    if kind == ProcessKind::Desktop {
        return match desktop_state {
            Some(d) => owned(d.title.as_str()),
            None => owned("Codex desktop"),
        };
    }
    if let Some(p) = project_name {
        return owned(p);
    }
    let v = chars_of(command);
    let cleaned = trim_chars(&v);
    if cleaned.len() == 0 {
        return owned(name);
    }
    let ws = words_of(&cleaned);
    let n = if ws.len() < 6 {
        ws.len()
    } else {
        6
    };
    let mut firsts: Vec<Vec<char>> = Vec::new();
    let mut i: usize = 0;
    while i < n
        invariant
            i <= n <= ws.len(),
            views(firsts@) == views(ws@).subrange(0, i as int),
        decreases n - i,
    {
        let ghost before = firsts@;
        let w = slice_chars(&ws[i], 0, ws[i].len());
        assert(ws@[i as int]@.subrange(0, ws@[i as int]@.len() as int) =~= ws@[i as int]@);
        firsts.push(w);
        assert(views(firsts@) =~= views(before).push(w@));
        assert(views(ws@).subrange(0, i + 1) =~= views(ws@).subrange(0, i as int).push(
            views(ws@)[i as int],
        ));
        i += 1;
    }
    let sep = chars_of(" ");
    let joined = join_chars(&firsts, &sep);
    string_of(&joined)
}

/// A process table row as `ps -axo pid=,ppid=,tty=,command=` prints it: pid,
/// parent pid, terminal (`??` for none) and command line; the executable is
/// the file name of the command's first word. Both are lower-cased.
pub open spec fn process_row_of(line: Seq<char>) -> Option<ProcessRowView> {
    let ws = words(line);
    if ws.len() < 3 || parse_i32(ws[0]) is None {
        None
    } else {
        let command = join(ws.subrange(3, ws.len() as int), " "@);
        let first = words(command);
        let executable = if first.len() == 0 {
            Seq::empty()
        } else {
            match file_name(first[0]) {
                Some(n) => lowercase_of(n),
                None => lowercase_of(first[0]),
            }
        };
        Some(
            ProcessRowView {
                pid: parse_i32(ws[0]).unwrap(),
                parent_pid: parse_i32(ws[1]),
                tty: if ws[2] == "??"@ {
                    None
                } else {
                    Some("/dev/"@ + ws[2])
                },
                executable,
                command: lowercase_of(command),
            },
        )
    }
}

pub open spec fn opt_row(o: Option<ProcessRow>) -> Option<ProcessRowView> {
    match o {
        Some(r) => Some(r@),
        None => None,
    }
}

/// One line of the process table.
pub fn parse_process_row(line: &str) -> (r: Option<ProcessRow>)
    ensures
        opt_row(r) == process_row_of(line@),
{
    let v = chars_of(line);
    let ws = words_of(&v);
    if ws.len() < 3 {
        return None;
    }
    assert(views(ws@)[0] == ws@[0]@);
    assert(views(ws@)[1] == ws@[1]@);
    assert(views(ws@)[2] == ws@[2]@);
    let pid = match parse_i32_chars(&ws[0]) {
        Some(p) => p,
        None => {
            return None;
        },
    };
    let parent_pid = parse_i32_chars(&ws[1]);
    let unknown = chars_of("??");
    let tty = if crate::text::chars_eq(&ws[2], &unknown) {
        None
    } else {
        let mut t = owned("/dev/");
        push_chars(&mut t, &ws[2]);
        Some(t)
    };
    let mut rest: Vec<Vec<char>> = Vec::new();
    let mut i: usize = 3;
    while i < ws.len()
        invariant
            3 <= i <= ws.len(),
            views(rest@) == views(ws@).subrange(3, i as int),
        decreases ws.len() - i,
    {
        let ghost before = rest@;
        let w = slice_chars(&ws[i], 0, ws[i].len());
        assert(ws@[i as int]@.subrange(0, ws@[i as int]@.len() as int) =~= ws@[i as int]@);
        rest.push(w);
        assert(views(rest@) =~= views(before).push(w@));
        assert(views(ws@).subrange(3, i + 1) =~= views(ws@).subrange(3, i as int).push(
            views(ws@)[i as int],
        ));
        i += 1;
    }
    let sep = chars_of(" ");
    let command = join_chars(&rest, &sep);
    let first = words_of(&command);
    let executable = if first.len() == 0 {
        Vec::new()
    } else {
        assert(views(first@)[0] == first@[0]@);
        match file_name_chars(&first[0]) {
            Some(n) => lower_chars(&n),
            None => lower_chars(&first[0]),
        }
    };
    let lowered = lower_chars(&command);
    Some(
        ProcessRow {
            pid,
            parent_pid,
            tty,
            executable: string_of(&executable),
            command: string_of(&lowered),
        },
    )
}

/// A row of the thread table as `sqlite3 -tabs` prints it: id, rollout path,
/// working directory, title, creation and update time, separated by tabs.
pub open spec fn thread_row_of(row: Seq<char>) -> Option<ThreadRowView> {
    let ps = split_on(row, '\t');
    if ps.len() < 6 || parse_i64(ps[4]) is None || parse_i64(ps[5]) is None {
        None
    } else {
        Some(
            ThreadRowView {
                thread_id: ps[0],
                rollout_path: ps[1],
                cwd: ps[2],
                title: ps[3],
                created_at: parse_i64(ps[4]).unwrap(),
                updated_at: parse_i64(ps[5]).unwrap(),
            },
        )
    }
}

pub open spec fn opt_thread(o: Option<ThreadRow>) -> Option<ThreadRowView> {
    match o {
        Some(t) => Some(t@),
        None => None,
    }
}

fn thread_row_chars(v: &Vec<char>) -> (r: Option<ThreadRow>)
    ensures
        opt_thread(r) == thread_row_of(v@),
{
    let ps = split_chars(v, '\t');
    if ps.len() < 6 {
        return None;
    }
    assert(views(ps@)[4] == ps@[4]@);
    assert(views(ps@)[5] == ps@[5]@);
    let created_at = match parse_i64_chars(&ps[4]) {
        Some(x) => x,
        None => {
            return None;
        },
    };
    let updated_at = match parse_i64_chars(&ps[5]) {
        Some(x) => x,
        None => {
            return None;
        },
    };
    assert(views(ps@)[0] == ps@[0]@);
    assert(views(ps@)[1] == ps@[1]@);
    assert(views(ps@)[2] == ps@[2]@);
    assert(views(ps@)[3] == ps@[3]@);
    Some(
        ThreadRow {
            thread_id: string_of(&ps[0]),
            rollout_path: string_of(&ps[1]),
            cwd: string_of(&ps[2]),
            title: string_of(&ps[3]),
            created_at,
            updated_at,
        },
    )
}

/// One row of the thread table.
pub fn parse_thread_row(row: &str) -> (r: Option<ThreadRow>)
    ensures
        opt_thread(r) == thread_row_of(row@),
{
    let v = chars_of(row);
    thread_row_chars(&v)
}

/// The rows that the lines of the query's output hold, skipping lines that
/// are not rows.
pub open spec fn thread_rows_of(lines: Seq<Seq<char>>) -> Seq<ThreadRowView>
    decreases lines.len(),
{
    if lines.len() == 0 {
        Seq::empty()
    } else {
        let rest = thread_rows_of(lines.drop_last());
        match thread_row_of(lines.last()) {
            Some(t) => rest.push(t),
            None => rest,
        }
    }
}

/// The thread rows in the output of the CLI thread query.
pub fn thread_rows_from_output(output: &str) -> (r: Vec<ThreadRow>)
    ensures
        r.deep_view() == thread_rows_of(lines_of(output@)),
{
    let v = chars_of(output);
    let lines = lines_chars(&v);
    let ghost lv = views(lines@);
    let mut rows: Vec<ThreadRow> = Vec::new();
    let mut i: usize = 0;
    assert(lv.take(0) =~= Seq::<Seq<char>>::empty());
    while i < lines.len()
        invariant
            i <= lines.len(),
            lv == views(lines@),
            rows.deep_view() == thread_rows_of(lv.take(i as int)),
        decreases lines.len() - i,
    {
        assert(lv.take(i + 1).drop_last() =~= lv.take(i as int));
        assert(lv.take(i + 1).last() == lines@[i as int]@);
        let ghost before = rows.deep_view();
        match thread_row_chars(&lines[i]) {
            Some(t) => {
                rows.push(t);
                assert(rows.deep_view() =~= before.push(rows@[rows.len() - 1]@));
            },
            None => {},
        }
        i += 1;
    }
    assert(lv.take(lines.len() as int) =~= lv);
    rows
}

/// The single row in the output of the desktop thread query.
pub fn current_thread_row_from_output(output: &str) -> (r: Option<ThreadRow>)
    ensures
        opt_thread(r) == thread_row_of(trim(output@)),
{
    let v = chars_of(output);
    let t = trim_chars(&v);
    thread_row_chars(&t)
}

// ---------------------------------------------------------------------------
// What commands print
// ---------------------------------------------------------------------------

/// The least `i` in `[from, n)` with `p(i)`.
pub open spec fn first_index_from(from: int, n: int, p: spec_fn(int) -> bool) -> Option<int>
    decreases n - from,
{
    if from >= n {
        None
    } else if p(from) {
        Some(from)
    } else {
        first_index_from(from + 1, n, p)
    }
}

pub open spec fn name_line_at(lines: Seq<Seq<char>>) -> spec_fn(int) -> bool {
    |i: int| lines[i].len() > 0 && lines[i][0] == 'n'
}

/// The working directory in `lsof -Fn` output: the first line that starts
/// with `n`, without that `n`.
pub open spec fn lsof_cwd(output: Seq<char>) -> Option<Seq<char>> {
    let ls = lines_of(output);
    match first_index_from(0, ls.len() as int, name_line_at(ls)) {
        Some(k) => Some(ls[k].drop_first()),
        None => None,
    }
}

pub fn cwd_from_lsof_output(output: &str) -> (r: Option<String>)
    ensures
        opt_text(r) == lsof_cwd(output@),
{
    let v = chars_of(output);
    let lines = lines_chars(&v);
    let ghost lv = views(lines@);
    let mut i: usize = 0;
    while i < lines.len()
        invariant
            i <= lines.len(),
            lv == views(lines@),
            lv == lines_of(output@),
            first_index_from(0, lv.len() as int, name_line_at(lv)) == first_index_from(
                i as int,
                lv.len() as int,
                name_line_at(lv),
            ),
        decreases lines.len() - i,
    {
        let l = &lines[i];
        assert(lv[i as int] == l@);
        if l.len() > 0 && l[0] == 'n' {
            assert(name_line_at(lv)(i as int));
            let rest = slice_chars(l, 1, l.len());
            assert(rest@ =~= l@.drop_first());
            return Some(string_of(&rest));
        }
        assert(!name_line_at(lv)(i as int));
        i += 1;
    }
    None
}

/// The terminal device in `ps -o tty=` output: none when blank or `??`.
pub open spec fn ps_tty(output: Seq<char>) -> Option<Seq<char>> {
    let t = trim(output);
    if t.len() == 0 || t == "??"@ {
        None
    } else {
        Some("/dev/"@ + t)
    }
}

pub fn tty_from_ps_output(output: &str) -> (r: Option<String>)
    ensures
        opt_text(r) == ps_tty(output@),
{
    let v = chars_of(output);
    let t = trim_chars(&v);
    let unknown = chars_of("??");
    if t.len() == 0 || crate::text::chars_eq(&t, &unknown) {
        return None;
    }
    let mut out = owned("/dev/");
    push_chars(&mut out, &t);
    Some(out)
}

/// What a script printed, trimmed; none when that is blank.
pub open spec fn script_answer(output: Seq<char>) -> Option<Seq<char>> {
    if trim(output).len() == 0 {
        None
    } else {
        Some(trim(output))
    }
}

pub fn osascript_answer(output: &str) -> (r: Option<String>)
    ensures
        opt_text(r) == script_answer(output@),
{
    let v = chars_of(output);
    let t = trim_chars(&v);
    if t.len() == 0 {
        None
    } else {
        Some(string_of(&t))
    }
}

// ---------------------------------------------------------------------------
// AppleScript for terminal contents
// ---------------------------------------------------------------------------

/// A terminal device named both ways: without and with `/dev/`.
pub open spec fn short_tty(tty: Seq<char>) -> Seq<char> {
    strip_prefixes_of(tty)
}

pub open spec fn strip_prefixes_of(tty: Seq<char>) -> Seq<char> {
    crate::text::strip_prefixes(tty, "/dev/"@)
}

pub open spec fn terminal_contents_script(short: Seq<char>, full: Seq<char>) -> Seq<char> {
    "\ntell application \"Terminal\"\n  repeat with w in windows\n    repeat with t in tabs of w\n      try\n        if tty of t is \""@
        + short + "\" or tty of t is \""@ + full
        + "\" then\n          return contents of t\n        end if\n      end try\n    end repeat\n  end repeat\nend tell\n"@
}

pub open spec fn iterm_contents_script(short: Seq<char>, full: Seq<char>) -> Seq<char> {
    "\ntell application \"iTerm2\"\n  repeat with w in windows\n    repeat with t in tabs of w\n      repeat with s in sessions of t\n        try\n          if tty of s is \""@
        + short + "\" or tty of s is \""@ + full
        + "\" then\n            return contents of s\n          end if\n        end try\n      end repeat\n    end repeat\n  end repeat\nend tell\n"@
}

pub open spec fn iterm_probe_script(short: Seq<char>, full: Seq<char>) -> Seq<char> {
    "\ntell application \"iTerm2\"\n  repeat with w in windows\n    repeat with t in tabs of w\n      repeat with s in sessions of t\n        try\n          if tty of s is \""@
        + short + "\" or tty of s is \""@ + full
        + "\" then\n            return \"iterm\"\n          end if\n        end try\n      end repeat\n    end repeat\n  end repeat\nend tell\n"@
}

pub open spec fn terminal_probe_script(short: Seq<char>, full: Seq<char>) -> Seq<char> {
    "\ntell application \"Terminal\"\n  repeat with w in windows\n    repeat with t in tabs of w\n      try\n        if tty of t is \""@
        + short + "\" or tty of t is \""@ + full
        + "\" then\n          return \"terminal\"\n        end if\n      end try\n    end repeat\n  end repeat\nend tell\n"@
}

fn tty_names(tty: &str) -> (r: (String, String))
    ensures
        r.0@ == short_tty(tty@),
        r.1@ == "/dev/"@ + short_tty(tty@),
{
    let v = chars_of(tty);
    let p = chars_of("/dev/");
    let short = crate::text::trim_start_matches_chars(&v, &p);
    let mut full = owned("/dev/");
    push_chars(&mut full, &short);
    (string_of(&short), full)
}

fn fill_script(head: &str, short: &String, middle: &str, full: &String, tail: &str) -> (r: String)
    ensures
        r@ == head@ + short@ + middle@ + full@ + tail@,
{
    let mut out = owned(head);
    push_str(&mut out, short.as_str());
    push_str(&mut out, middle);
    push_str(&mut out, full.as_str());
    push_str(&mut out, tail);
    out
}

pub open spec fn snapshot_script(tty: Seq<char>, app: Option<TerminalAppView>) -> Option<Seq<char>> {
    let short = short_tty(tty);
    let full = "/dev/"@ + short;
    match app {
        Some(TerminalAppView::Terminal) => Some(terminal_contents_script(short, full)),
        Some(TerminalAppView::ITerm) => Some(iterm_contents_script(short, full)),
        _ => None,
    }
}

/// The AppleScript that reads the contents of the Terminal tab or iTerm
/// session on `tty`; none for other hosts.
pub fn terminal_snapshot_script(tty: &str, terminal_app: Option<&TerminalApp>) -> (r: Option<String>)
    ensures
        opt_text(r) == snapshot_script(
            tty@,
            match terminal_app {
                Some(a) => Some(a@),
                None => None,
            },
        ),
{
    let (short, full) = tty_names(tty);
    match terminal_app {
        Some(TerminalApp::Terminal) => Some(
            fill_script(
                "\ntell application \"Terminal\"\n  repeat with w in windows\n    repeat with t in tabs of w\n      try\n        if tty of t is \"",
                &short,
                "\" or tty of t is \"",
                &full,
                "\" then\n          return contents of t\n        end if\n      end try\n    end repeat\n  end repeat\nend tell\n",
            ),
        ),
        Some(TerminalApp::ITerm) => Some(
            fill_script(
                "\ntell application \"iTerm2\"\n  repeat with w in windows\n    repeat with t in tabs of w\n      repeat with s in sessions of t\n        try\n          if tty of s is \"",
                &short,
                "\" or tty of s is \"",
                &full,
                "\" then\n            return contents of s\n          end if\n        end try\n      end repeat\n    end repeat\n  end repeat\nend tell\n",
            ),
        ),
        _ => None,
    }
}

/// The two AppleScripts that ask iTerm and Terminal whether they show `tty`;
/// each prints its host's name when it does.
pub fn terminal_probe_scripts(tty: &str) -> (r: (String, String))
    ensures
        r.0@ == iterm_probe_script(short_tty(tty@), "/dev/"@ + short_tty(tty@)),
        r.1@ == terminal_probe_script(short_tty(tty@), "/dev/"@ + short_tty(tty@)),
{
    let (short, full) = tty_names(tty);
    let iterm = fill_script(
        "\ntell application \"iTerm2\"\n  repeat with w in windows\n    repeat with t in tabs of w\n      repeat with s in sessions of t\n        try\n          if tty of s is \"",
        &short,
        "\" or tty of s is \"",
        &full,
        "\" then\n            return \"iterm\"\n          end if\n        end try\n      end repeat\n    end repeat\n  end repeat\nend tell\n",
    );
    let terminal = fill_script(
        "\ntell application \"Terminal\"\n  repeat with w in windows\n    repeat with t in tabs of w\n      try\n        if tty of t is \"",
        &short,
        "\" or tty of t is \"",
        &full,
        "\" then\n          return \"terminal\"\n        end if\n      end try\n    end repeat\n  end repeat\nend tell\n",
    );
    (iterm, terminal)
}

/// The host that answered the probes: iTerm when its probe printed `iterm`,
/// else Terminal when its probe printed `terminal`.
pub open spec fn probed_host(iterm_answer: Option<Seq<char>>, terminal_answer: Option<Seq<char>>) -> Option<
    TerminalAppView,
> {
    if iterm_answer == Some("iterm"@) {
        Some(TerminalAppView::ITerm)
    } else if terminal_answer == Some("terminal"@) {
        Some(TerminalAppView::Terminal)
    } else {
        None
    }
}

pub fn terminal_app_from_probes(iterm_answer: Option<&str>, terminal_answer: Option<&str>) -> (r:
    Option<TerminalApp>)
    ensures
        r.deep_view() == probed_host(opt_str(iterm_answer), opt_str(terminal_answer)),
{
    if let Some(a) = iterm_answer {
        if str_eq(a, "iterm") {
            return Some(TerminalApp::ITerm);
        }
    }
    if let Some(a) = terminal_answer {
        if str_eq(a, "terminal") {
            return Some(TerminalApp::Terminal);
        }
    }
    None
}

// ---------------------------------------------------------------------------
// The desktop app's log directory
// ---------------------------------------------------------------------------

/// `year` as `{:04}` prints it.
pub open spec fn year_text(year: i32) -> Seq<char> {
    if year >= 0 {
        crate::text::padded_decimal(year as nat, 4)
    } else {
        seq!['-'] + crate::text::padded_decimal((-year) as nat, 3)
    }
}

pub open spec fn log_directory(home: Seq<char>, year: i32, month: u32, day: u32) -> Seq<char> {
    home + "/Library/Logs/com.openai.codex/"@ + year_text(year) + "/"@
        + crate::text::padded_decimal(month as nat, 2) + "/"@ + crate::text::padded_decimal(
        day as nat,
        2,
    )
}

/// The directory where the desktop app logs on the given day.
pub fn codex_log_directory(home: &str, year: i32, month: u32, day: u32) -> (r: String)
    ensures
        r@ == log_directory(home@, year, month, day),
{
    let mut out = owned(home);
    push_str(&mut out, "/Library/Logs/com.openai.codex/");
    if year >= 0 {
        crate::text::push_padded_decimal(&mut out, year as u64, 4);
    } else {
        let ghost before = out@;
        push_char(&mut out, '-');
        crate::text::push_padded_decimal(&mut out, (0 - year as i64) as u64, 3);
    }
    push_str(&mut out, "/");
    crate::text::push_padded_decimal(&mut out, month as u64, 2);
    push_str(&mut out, "/");
    crate::text::push_padded_decimal(&mut out, day as u64, 2);
    out
}

/// The directory where the desktop app logs today (UTC).
pub fn codex_log_directory_for_today(home: &str) -> (r: String)
    ensures
        exists|year: i32, month: u32, day: u32|
            1 <= month <= 12 && 1 <= day <= 31 && r@ == log_directory(home@, year, month, day),
        exists|now: i64|
            chrono_millis_in_range(now) && r@ == log_directory(
                home@,
                #[trigger] utc_date_at(now).0,
                utc_date_at(now).1,
                utc_date_at(now).2,
            ),
{
    let (year, month, day) = utc_today();
    codex_log_directory(home, year, month, day)
}

// ---------------------------------------------------------------------------
// Rollout logs
// ---------------------------------------------------------------------------

/// How many of a rollout's last lines are read for pending input.
pub const ROLLOUT_WINDOW: usize = 240;

/// Where the window of lines read from a rollout of `total` lines begins.
pub fn rollout_window_start(total: usize) -> (r: usize)
    ensures
        r == (if total > ROLLOUT_WINDOW { total - ROLLOUT_WINDOW } else { 0 }),
{
    if total > ROLLOUT_WINDOW {
        total - ROLLOUT_WINDOW
    } else {
        0
    }
}

pub open spec fn str_views(lines: Seq<&str>) -> Seq<Seq<char>> {
    lines.map_values(|l: &str| l@)
}

/// The escalation request that a rollout line records: the call's id and the
/// prompt (its justification, or a generic one).
pub open spec fn escalation_in(line: Seq<char>) -> Option<(Seq<char>, PendingInputView)> {
    if json_text_at(line, "/payload/type"@) == Some("function_call"@) {
        match (json_text_at(line, "/payload/call_id"@), json_text_at(line, "/payload/arguments"@)) {
            (Some(id), Some(args)) => if json_text_at(args, "/sandbox_permissions"@) == Some(
                "require_escalated"@,
            ) {
                Some(
                    (
                        id,
                        PendingInputView {
                            prompt: match json_text_at(args, "/justification"@) {
                                Some(j) => j,
                                None => "Approval required"@,
                            },
                            actions: escalation_views(),
                            source: PromptSource::Thread,
                            submit_target: None,
                        },
                    ),
                )
            } else {
                None
            },
            _ => None,
        }
    } else {
        None
    }
}

/// The call whose output a rollout line records.
pub open spec fn answered_call_in(line: Seq<char>) -> Option<Seq<char>> {
    if json_text_at(line, "/payload/type"@) == Some("function_call_output"@) {
        json_text_at(line, "/payload/call_id"@)
    } else {
        None
    }
}

pub open spec fn escalations(lines: Seq<Seq<char>>) -> Seq<(Seq<char>, PendingInputView)>
    decreases lines.len(),
{
    if lines.len() == 0 {
        Seq::empty()
    } else {
        let rest = escalations(lines.drop_last());
        match escalation_in(lines.last()) {
            Some(e) => rest.push(e),
            None => rest,
        }
    }
}

pub open spec fn answered_calls(lines: Seq<Seq<char>>) -> Seq<Seq<char>>
    decreases lines.len(),
{
    if lines.len() == 0 {
        Seq::empty()
    } else {
        let rest = answered_calls(lines.drop_last());
        match answered_call_in(lines.last()) {
            Some(c) => rest.push(c),
            None => rest,
        }
    }
}

pub open spec fn unanswered_escalation_at(
    es: Seq<(Seq<char>, PendingInputView)>,
    answered: Seq<Seq<char>>,
) -> spec_fn(int) -> bool {
    |i: int| !answered.contains(es[i].0)
}

/// The latest escalation request among the lines whose call has no output
/// anywhere among them.
pub open spec fn pending_escalation(lines: Seq<Seq<char>>) -> Option<PendingInputView> {
    let es = escalations(lines);
    let answered = answered_calls(lines);
    match last_index(es.len() as int, unanswered_escalation_at(es, answered)) {
        Some(k) => Some(es[k].1),
        None => None,
    }
}

fn text_is(t: &Option<String>, lit: &str) -> (b: bool)
    ensures
        b == (t.deep_view() == Some(lit@)),
{
    match t {
        Some(s) => str_eq(s.as_str(), lit),
        None => false,
    }
}

pub open spec fn opt_escalation(o: Option<(String, PendingInput)>) -> Option<(Seq<char>, PendingInputView)> {
    match o {
        Some(e) => Some((e.0@, e.1@)),
        None => None,
    }
}

fn escalation_of(line: &str) -> (r: Option<(String, PendingInput)>)
    ensures
        opt_escalation(r) == escalation_in(line@),
{
    let kind = json_str(line, "/payload/type");
    if !text_is(&kind, "function_call") {
        return None;
    }
    let id = match json_str(line, "/payload/call_id") {
        Some(id) => id,
        None => {
            return None;
        },
    };
    let args = match json_str(line, "/payload/arguments") {
        Some(a) => a,
        None => {
            return None;
        },
    };
    let permissions = json_str(args.as_str(), "/sandbox_permissions");
    if !text_is(&permissions, "require_escalated") {
        return None;
    }
    let prompt = match json_str(args.as_str(), "/justification") {
        Some(j) => j,
        None => owned("Approval required"),
    };
    Some(
        (
            id,
            PendingInput {
                prompt,
                actions: escalation_actions(),
                source: PromptSource::Thread,
                submit_target: None,
            },
        ),
    )
}

fn answered_call_of(line: &str) -> (r: Option<String>)
    ensures
        opt_text(r) == answered_call_in(line@),
{
    let kind = json_str(line, "/payload/type");
    if !text_is(&kind, "function_call_output") {
        return None;
    }
    json_str(line, "/payload/call_id")
}

fn answered_calls_of(lines: &[&str]) -> (r: Vec<String>)
    ensures
        r.deep_view() == answered_calls(str_views(lines@)),
{
    let ghost lv = str_views(lines@);
    let mut out: Vec<String> = Vec::new();
    let mut i: usize = 0;
    assert(lv.take(0) =~= Seq::<Seq<char>>::empty());
    while i < lines.len()
        invariant
            i <= lines.len(),
            lv == str_views(lines@),
            out.deep_view() == answered_calls(lv.take(i as int)),
        decreases lines.len() - i,
    {
        assert(lv.take(i + 1).drop_last() =~= lv.take(i as int));
        assert(lv.take(i + 1).last() == lines@[i as int]@);
        let ghost before = out.deep_view();
        match answered_call_of(lines[i]) {
            Some(c) => {
                out.push(c);
                assert(out.deep_view() =~= before.push(out@[out.len() - 1]@));
            },
            None => {},
        }
        i += 1;
    }
    assert(lv.take(lines.len() as int) =~= lv);
    out
}

fn escalations_of(lines: &[&str]) -> (r: Vec<(String, PendingInput)>)
    ensures
        r.deep_view() == escalations(str_views(lines@)),
{
    let ghost lv = str_views(lines@);
    let mut out: Vec<(String, PendingInput)> = Vec::new();
    let mut i: usize = 0;
    assert(lv.take(0) =~= Seq::<Seq<char>>::empty());
    while i < lines.len()
        invariant
            i <= lines.len(),
            lv == str_views(lines@),
            out.deep_view() == escalations(lv.take(i as int)),
        decreases lines.len() - i,
    {
        assert(lv.take(i + 1).drop_last() =~= lv.take(i as int));
        assert(lv.take(i + 1).last() == lines@[i as int]@);
        let ghost before = out.deep_view();
        match escalation_of(lines[i]) {
            Some(e) => {
                out.push(e);
                assert(out.deep_view() =~= before.push(out@[out.len() - 1].deep_view()));
            },
            None => {},
        }
        i += 1;
    }
    assert(lv.take(lines.len() as int) =~= lv);
    out
}

/// The latest escalation request in the rollout lines that is still
/// unanswered.
pub fn pending_escalation_prompt(lines: &[&str]) -> (r: Option<PendingInput>)
    ensures
        opt_pending(r) == pending_escalation(str_views(lines@)),
{
    let answered = answered_calls_of(lines);
    let mut es = escalations_of(lines);
    let ghost ev = es.deep_view();
    let ghost av = answered.deep_view();
    let mut k = es.len();
    while k > 0
        invariant
            k <= es.len(),
            ev == es.deep_view(),
            av == answered.deep_view(),
            ev == escalations(str_views(lines@)),
            av == answered_calls(str_views(lines@)),
            last_index(ev.len() as int, unanswered_escalation_at(ev, av)) == last_index(
                k as int,
                unanswered_escalation_at(ev, av),
            ),
        decreases k,
    {
        assert(ev[k - 1].0 == es@[k - 1].0@);
        if !contains_string(&answered, &es[k - 1].0) {
            assert(unanswered_escalation_at(ev, av)(k - 1));
            let (_, pending) = es.remove(k - 1);
            return Some(pending);
        }
        assert(!unanswered_escalation_at(ev, av)(k - 1));
        k -= 1;
    }
    None
}

/// `"/payload/content/{i}/text"`: where the text of a message's `i`-th part
/// stands.
pub open spec fn content_pointer(i: nat) -> Seq<char> {
    "/payload/content/"@ + decimal(i) + "/text"@
}

pub open spec fn content_texts(line: Seq<char>, n: nat) -> Seq<Seq<char>>
    decreases n,
{
    if n == 0 {
        Seq::empty()
    } else {
        let rest = content_texts(line, (n - 1) as nat);
        match json_text_at(line, content_pointer((n - 1) as nat)) {
            Some(t) => rest.push(t),
            None => rest,
        }
    }
}

/// The text of a rollout message line: the text of each of its parts that has
/// one, joined by newlines.
pub open spec fn message_text(line: Seq<char>) -> Seq<char> {
    let n: nat = match json_array_len_at(line, "/payload/content"@) {
        Some(n) => n as nat,
        None => 0,
    };
    join(content_texts(line, n), "\n"@)
}

fn message_text_of(line: &str) -> (r: String)
    ensures
        r@ == message_text(line@),
{
    let n: usize = match json_array_len(line, "/payload/content") {
        Some(n) => n,
        None => 0,
    };
    let mut texts: Vec<Vec<char>> = Vec::new();
    let mut i: usize = 0;
    while i < n
        invariant
            i <= n,
            n as nat == (match json_array_len_at(line@, "/payload/content"@) {
                Some(n) => n as nat,
                None => 0,
            }),
            views(texts@) == content_texts(line@, i as nat),
        decreases n - i,
    {
        let mut pointer = owned("/payload/content/");
        push_decimal(&mut pointer, i as u64);
        push_str(&mut pointer, "/text");
        assert(pointer@ == content_pointer(i as nat));
        let ghost before = texts@;
        match json_str(line, pointer.as_str()) {
            Some(t) => {
                let tv = chars_of(t.as_str());
                texts.push(tv);
                assert(views(texts@) =~= views(before).push(tv@));
            },
            None => {},
        }
        i += 1;
    }
    let sep = chars_of("\n");
    let joined = join_chars(&texts, &sep);
    string_of(&joined)
}

/// One step of reading a rollout for questions: the time of the latest user
/// message, and the latest question the assistant asked with its time.
pub open spec fn question_step(
    st: (Seq<char>, Option<(Seq<char>, PendingInputView)>),
    line: Seq<char>,
) -> (Seq<char>, Option<(Seq<char>, PendingInputView)>) {
    match json_text_at(line, "/timestamp"@) {
        None => st,
        Some(ts) => if !json_value_at(line, "/payload"@) {
            st
        } else if json_text_at(line, "/type"@) == Some("event_msg"@) && json_text_at(
            line,
            "/payload/type"@,
        ) == Some("user_message"@) {
            (ts, st.1)
        } else if json_text_at(line, "/type"@) == Some("response_item"@) && json_text_at(
            line,
            "/payload/type"@,
        ) == Some("message"@) && json_text_at(line, "/payload/role"@) == Some("assistant"@) {
            match attention_question(message_text(line)) {
                Some(q) => (st.0, Some((ts, q))),
                None => st,
            }
        } else {
            st
        },
    }
}

pub open spec fn question_scan(lines: Seq<Seq<char>>) -> (Seq<char>, Option<(Seq<char>, PendingInputView)>)
    decreases lines.len(),
{
    if lines.len() == 0 {
        (Seq::empty(), None)
    } else {
        question_step(question_scan(lines.drop_last()), lines.last())
    }
}

/// The assistant's latest question, unless a user message came at or after it
/// (timestamps compared as text).
pub open spec fn pending_question(lines: Seq<Seq<char>>) -> Option<PendingInputView> {
    let st = question_scan(lines);
    match st.1 {
        Some(q) => if st.0.len() == 0 || crate::session_store::lex_lt(st.0, q.0) {
            Some(q.1)
        } else {
            None
        },
        None => None,
    }
}

fn question_step_of(line: &str, latest_user: String, latest: Option<(String, PendingInput)>) -> (r: (
    String,
    Option<(String, PendingInput)>,
))
    ensures
        (r.0@, opt_escalation(r.1)) == question_step((latest_user@, opt_escalation(latest)), line@),
{
    let ts = match json_str(line, "/timestamp") {
        Some(ts) => ts,
        None => {
            return (latest_user, latest);
        },
    };
    if !json_has(line, "/payload") {
        return (latest_user, latest);
    }
    let kind = json_str(line, "/type");
    let payload_kind = json_str(line, "/payload/type");
    if text_is(&kind, "event_msg") && text_is(&payload_kind, "user_message") {
        return (ts, latest);
    }
    let role = json_str(line, "/payload/role");
    if text_is(&kind, "response_item") && text_is(&payload_kind, "message") && text_is(
        &role,
        "assistant",
    ) {
        let text = message_text_of(line);
        match extract_attention_question(text.as_str()) {
            Some(q) => (latest_user, Some((ts, q))),
            None => (latest_user, latest),
        }
    } else {
        (latest_user, latest)
    }
}

/// The question the assistant asked last in the rollout lines, if the user
/// has not answered it yet.
pub fn pending_assistant_question(lines: &[&str]) -> (r: Option<PendingInput>)
    ensures
        opt_pending(r) == pending_question(str_views(lines@)),
{
    let ghost lv = str_views(lines@);
    let mut latest_user: String = String::new();
    let mut latest: Option<(String, PendingInput)> = None;
    let mut i: usize = 0;
    assert(lv.take(0) =~= Seq::<Seq<char>>::empty());
    while i < lines.len()
        invariant
            i <= lines.len(),
            lv == str_views(lines@),
            question_scan(lv.take(i as int)) == (latest_user@, opt_escalation(latest)),
        decreases lines.len() - i,
    {
        assert(lv.take(i + 1).drop_last() =~= lv.take(i as int));
        assert(lv.take(i + 1).last() == lines@[i as int]@);
        let (u, l) = question_step_of(lines[i], latest_user, latest);
        latest_user = u;
        latest = l;
        i += 1;
    }
    assert(lv.take(lines.len() as int) =~= lv);
    match latest {
        Some((at, q)) => {
            let user_v = chars_of(latest_user.as_str());
            let at_v = chars_of(at.as_str());
            if latest_user.as_str().unicode_len() == 0 || crate::session_store::title_before(
                &user_v,
                &at_v,
            ) {
                Some(q)
            } else {
                None
            }
        },
        None => None,
    }
}

/// What the rollout lines show pending: an unanswered escalation request,
/// else an unanswered question.
pub open spec fn rollout_attention(lines: Seq<Seq<char>>) -> Option<PendingInputView> {
    match pending_escalation(lines) {
        Some(p) => Some(p),
        None => pending_question(lines),
    }
}

pub fn unresolved_attention(lines: &[&str]) -> (r: Option<PendingInput>)
    ensures
        opt_pending(r) == rollout_attention(str_views(lines@)),
{
    match pending_escalation_prompt(lines) {
        Some(p) => Some(p),
        None => pending_assistant_question(lines),
    }
}

// ---------------------------------------------------------------------------
// Observations
// ---------------------------------------------------------------------------

/// The observation that a Codex process yields, given what was gathered about
/// it: its working directory and terminal host (CLI only), the desktop app's
/// state (desktop only) or the CLI session's state (CLI only). A CLI process
/// without a terminal or without a state, and a desktop process without a
/// state, yield none.
pub open spec fn observation_view(
    process: ProcessRowView,
    kind: ProcessKind,
    cwd: Option<Seq<char>>,
    terminal_app: Option<TerminalAppView>,
    desktop: Option<DesktopStateView>,
    cli: Option<CliStateView>,
    seen_at_unix_ms: i64,
) -> Option<ObservationView> {
    let is_cli = kind == ProcessKind::Cli;
    let tty = if is_cli {
        process.tty
    } else {
        None
    };
    let cwd = if is_cli {
        cwd
    } else {
        None
    };
    let project = match cwd {
        Some(c) => file_name(c),
        None => None,
    };
    let ds = if is_cli {
        None
    } else {
        desktop
    };
    let cs = if is_cli {
        cli
    } else {
        None
    };
    if (is_cli && tty is None) || (!is_cli && ds is None) || (is_cli && cs is None) {
        None
    } else {
        Some(
            ObservationView {
                pid: process.pid,
                parent_pid: process.parent_pid,
                tty,
                cwd,
                terminal_app: if is_cli {
                    terminal_app
                } else {
                    None
                },
                title: title_of(process.executable, ds, project, process.command, kind),
                project_name: match ds {
                    Some(d) => match d.project_name {
                        Some(p) => Some(p),
                        None => project,
                    },
                    None => project,
                },
                source: if is_cli {
                    SessionSource::Cli
                } else {
                    SessionSource::Desktop
                },
                activity_label: if is_cli {
                    cs.unwrap().activity_label
                } else {
                    match ds.unwrap().activity_label {
                        Some(a) => Some(a),
                        None => Some("Desktop app active"@),
                    }
                },
                interaction_hint: if is_cli {
                    cs.unwrap().interaction_hint
                } else {
                    ds.unwrap().interaction_hint
                },
                prompt_actions: if is_cli {
                    cs.unwrap().prompt_actions
                } else {
                    ds.unwrap().prompt_actions
                },
                prompt_source: if is_cli {
                    cs.unwrap().prompt_source
                } else {
                    ds.unwrap().prompt_source
                },
                submit_target: if is_cli {
                    cs.unwrap().submit_target
                } else {
                    ds.unwrap().submit_target
                },
                seen_at_unix_ms,
            },
        )
    }
}

pub open spec fn opt_observation(o: Option<DiscoveryObservation>) -> Option<ObservationView> {
    match o {
        Some(x) => Some(x@),
        None => None,
    }
}

/// The observation of one Codex process, from what was gathered about it.
pub fn observation_from_process(
    process: &ProcessRow,
    kind: ProcessKind,
    cwd: Option<String>,
    terminal_app: Option<TerminalApp>,
    desktop_state: Option<DesktopState>,
    cli_state: Option<CliState>,
    seen_at_unix_ms: i64,
) -> (r: Option<DiscoveryObservation>)
    ensures
        opt_observation(r) == observation_view(
            process@,
            kind,
            opt_text(cwd),
            terminal_app.deep_view(),
            opt_desktop(desktop_state),
            opt_cli(cli_state),
            seen_at_unix_ms,
        ),
{
    let is_cli = kind == ProcessKind::Cli;
    let tty = if is_cli {
        dup_opt_string(&process.tty)
    } else {
        None
    };
    let cwd = if is_cli {
        cwd
    } else {
        None
    };
    let terminal_app = if is_cli {
        terminal_app
    } else {
        None
    };
    let project = match &cwd {
        Some(c) => cwd_basename(c.as_str()),
        None => None,
    };
    let ds = if is_cli {
        None
    } else {
        desktop_state
    };
    let cs = if is_cli {
        cli_state
    } else {
        None
    };
    if is_cli && tty.is_none() {
        return None;
    }
    if !is_cli && ds.is_none() {
        return None;
    }
    if is_cli && cs.is_none() {
        return None;
    }
    let title = process_title(
        process.executable.as_str(),
        match &ds {
            Some(d) => Some(d),
            None => None,
        },
        match &project {
            Some(p) => Some(p.as_str()),
            None => None,
        },
        process.command.as_str(),
        kind,
    );
    let source = if is_cli {
        SessionSource::Cli
    } else {
        SessionSource::Desktop
    };
    if is_cli {
        let c = cs.unwrap();
        Some(
            DiscoveryObservation {
                pid: process.pid,
                parent_pid: process.parent_pid,
                tty,
                cwd,
                terminal_app,
                title,
                project_name: project,
                source,
                activity_label: c.activity_label,
                interaction_hint: c.interaction_hint,
                prompt_actions: c.prompt_actions,
                prompt_source: c.prompt_source,
                submit_target: c.submit_target,
                seen_at_unix_ms,
            },
        )
    } else {
        let d = ds.unwrap();
        let project_name = match d.project_name {
            Some(p) => Some(p),
            None => project,
        };
        let activity_label = match d.activity_label {
            Some(a) => Some(a),
            None => Some(owned("Desktop app active")),
        };
        Some(
            DiscoveryObservation {
                pid: process.pid,
                parent_pid: process.parent_pid,
                tty,
                cwd,
                terminal_app,
                title,
                project_name,
                source,
                activity_label,
                interaction_hint: d.interaction_hint,
                prompt_actions: d.prompt_actions,
                prompt_source: d.prompt_source,
                submit_target: d.submit_target,
                seen_at_unix_ms,
            },
        )
    }
}

// ---------------------------------------------------------------------------
// Laws
// ---------------------------------------------------------------------------

/// What the rollout shows pending survives the desktop app's view of it: the
/// same prompt, answers and source; only where a reply goes may change.
pub proof fn lemma_rollout_attention_kept(
    conversation_id: Seq<char>,
    pending: PendingInputView,
    request_id: Option<Seq<char>>,
)
    ensures
        resolved_attention(conversation_id, Some(pending), request_id) is Some,
        resolved_attention(conversation_id, Some(pending), request_id)->Some_0.prompt == pending.prompt,
        resolved_attention(conversation_id, Some(pending), request_id)->Some_0.actions == pending.actions,
        resolved_attention(conversation_id, Some(pending), request_id)->Some_0.source == pending.source,
{
}

/// The desktop app can always be answered from the island: its state always
/// names where a reply goes, and always carries a status line.
pub proof fn lemma_desktop_state_answerable(
    thread: ThreadRowView,
    rollout: Option<PendingInputView>,
    request_id: Option<Seq<char>>,
    now_ms: i64,
)
    ensures
        desktop_state_view(thread, rollout, request_id, now_ms).submit_target is Some,
        desktop_state_view(thread, rollout, request_id, now_ms).activity_label is Some,
{
}

pub proof fn lemma_escalations_shape(lines: Seq<Seq<char>>)
    ensures
        forall|i: int|
            0 <= i < escalations(lines).len() ==> {
                let p = (#[trigger] escalations(lines)[i]).1;
                &&& p.actions == escalation_views()
                &&& p.source == PromptSource::Thread
                &&& p.submit_target is None
            },
    decreases lines.len(),
{
    if lines.len() > 0 {
        lemma_escalations_shape(lines.drop_last());
    }
}

/// A pending escalation request read from a rollout always offers the three
/// escalation answers, comes from the thread, and names no target yet.
pub proof fn lemma_pending_escalation_offers_escalation_answers(lines: Seq<Seq<char>>)
    ensures
        pending_escalation(lines) is Some ==> {
            let p = pending_escalation(lines)->Some_0;
            &&& p.actions == escalation_views()
            &&& p.source == PromptSource::Thread
            &&& p.submit_target is None
        },
{
    let es = escalations(lines);
    let answered = answered_calls(lines);
    lemma_last_index_bounds(es.len() as int, unanswered_escalation_at(es, answered));
    lemma_escalations_shape(lines);
    if pending_escalation(lines) is Some {
        let k = last_index(es.len() as int, unanswered_escalation_at(es, answered))->Some_0;
        assert(es[k] == escalations(lines)[k]);
    }
}

pub proof fn lemma_numbered_shape(lines: Seq<Seq<char>>)
    ensures
        forall|i: int|
            0 <= i < numbered(lines).len() ==> {
                let a = #[trigger] numbered(lines)[i];
                &&& a.reply == a.id
                &&& a.id.len() > 0
                &&& all_digits(a.id)
                &&& a.label.len() > 0
            },
    decreases lines.len(),
{
    if lines.len() > 0 {
        lemma_numbered_shape(lines.drop_last());
        let rest = numbered(lines.drop_last());
        match numbered_action(lines.last()) {
            Some(a) => {
                assert(numbered(lines) == rest.push(a));
                assert forall|i: int| 0 <= i < numbered(lines).len() implies {
                    let b = #[trigger] numbered(lines)[i];
                    &&& b.reply == b.id
                    &&& b.id.len() > 0
                    &&& all_digits(b.id)
                    &&& b.label.len() > 0
                } by {
                    if i < rest.len() {
                        assert(numbered(lines)[i] == rest[i]);
                    }
                }
            },
            None => {},
        }
    }
}

/// Each answer read from numbered lines is replied to with its own number,
/// a non-empty run of digits, and has a non-empty label.
pub proof fn lemma_numbered_answers_reply_with_their_number(lines: Seq<Seq<char>>, i: int)
    requires
        0 <= i < numbered(lines).len(),
    ensures
        numbered(lines)[i].reply == numbered(lines)[i].id,
        numbered(lines)[i].id.len() > 0,
        all_digits(numbered(lines)[i].id),
        numbered(lines)[i].label.len() > 0,
{
    lemma_numbered_shape(lines);
}

/// A confirmation read from a terminal screen is one of its last eight
/// non-blank lines, asks the user to confirm, and is followed by nothing but
/// shell prompts.
pub proof fn lemma_interaction_hint_is_last_confirmation(s: Seq<char>)
    ensures
        interaction_hint_of(s) is Some ==> {
            let recent = last_n(clean_lines(s), 8);
            exists|k: int|
                0 <= k < recent.len() && recent[k] == interaction_hint_of(s)->Some_0 && hint_text(
                    lowercase_of(#[trigger] recent[k]),
                ) && forall|j: int| k < j < recent.len() ==> shell_prompt_line(#[trigger] recent[j])
        },
{
    let recent = last_n(clean_lines(s), 8);
    lemma_last_index_bounds(recent.len() as int, hint_at(recent));
    if interaction_hint_of(s) is Some {
        let k = last_index(recent.len() as int, hint_at(recent))->Some_0;
        assert(hint_at(recent)(k));
        assert(recent[k] == interaction_hint_of(s)->Some_0);
    }
}

/// The three status lines the island falls back on read as Codex at work.
pub proof fn lemma_fallback_labels_active()
    ensures
        looks_active("Approval required"@),
        looks_active("Working"@),
        looks_active("Idle"@),
{
    reveal_strlit("Approval required");
    reveal_strlit("approval required");
    reveal_strlit("Working");
    reveal_strlit("working");
    reveal_strlit("Idle");
    reveal_strlit("idle");
    let a = "Approval required"@;
    let w = "Working"@;
    let d = "Idle"@;
    assert(ascii_text(a));
    assert(ascii_text(w));
    assert(ascii_text(d));
    assert(ascii_lowercase(a) =~= "approval required"@);
    assert(ascii_lowercase(w) =~= "working"@);
    assert(ascii_lowercase(d) =~= "idle"@);
    assert(lowercase_of(a).subrange(0, 17) =~= "approval required"@);
    assert(occurs_at(lowercase_of(a), "approval required"@, 0));
    assert(lowercase_of(w).subrange(0, 7) =~= "working"@);
    assert(occurs_at(lowercase_of(w), "working"@, 0));
    assert(lowercase_of(d).subrange(0, 4) =~= "idle"@);
    assert(occurs_at(lowercase_of(d), "idle"@, 0));
}

/// A CLI session always has a status line, and it reads as Codex at work. A
/// prompt comes with its source and only a prompt comes with answers; with no
/// screen the thread's prompt is the prompt, and a screen that shows none,
/// from a thread not updated recently, gives none.
pub proof fn lemma_cli_state_is_labelled(
    snapshot: Option<Seq<char>>,
    thread_hint: Option<PendingInputView>,
    thread_exists: bool,
    thread_is_recent: bool,
)
    ensures
        ({
            let st = sources_state(snapshot, thread_hint, thread_exists, thread_is_recent);
            &&& st.0 is Some
            &&& looks_active(st.0->Some_0)
            &&& (st.1 is Some <==> st.3 is Some)
            &&& (st.1 is None ==> st.2 == Seq::<PromptActionView>::empty())
            &&& (snapshot is None ==> st.1 == opt_prompt(thread_hint))
            &&& (snapshot matches Some(s) && !thread_is_recent && terminal_prompt_of(s) is None ==> st.1 is None)
        }),
{
    lemma_fallback_labels_active();
}

/// Every observation of a Codex process carries a status line: a CLI
/// session's state (as read from its screen and thread) always has one, and a
/// desktop app's observation falls back on one.
pub proof fn lemma_observations_have_activity(
    process: ProcessRowView,
    kind: ProcessKind,
    cwd: Option<Seq<char>>,
    terminal_app: Option<TerminalAppView>,
    desktop: Option<DesktopStateView>,
    snapshot: Option<Seq<char>>,
    thread: Option<ThreadRowView>,
    thread_hint: Option<PendingInputView>,
    now_ms: i64,
    seen_at_unix_ms: i64,
)
    ensures
        cli_state_view(snapshot, thread, thread_hint, now_ms) is Some,
        observation_view(
            process,
            kind,
            cwd,
            terminal_app,
            desktop,
            cli_state_view(snapshot, thread, thread_hint, now_ms),
            seen_at_unix_ms,
        ) matches Some(o) ==> o.activity_label is Some,
{
    let recent = match thread {
        Some(t) => recent_secs(t.updated_at, 30, now_ms),
        None => false,
    };
    lemma_cli_state_is_labelled(snapshot, thread_hint, thread is Some, recent);
}

/// The shape of every observation a poll makes of a Codex process (its CLI
/// state read from its screen and thread, its desktop state from the latest
/// thread): a CLI session has a terminal and a status line; the desktop app
/// has no terminal, working directory or terminal app, and always has a status
/// line and a target for replies.
pub proof fn lemma_polled_observation_shape(
    process: ProcessRowView,
    kind: ProcessKind,
    cwd: Option<Seq<char>>,
    terminal_app: Option<TerminalAppView>,
    desktop_thread: ThreadRowView,
    rollout: Option<PendingInputView>,
    request_id: Option<Seq<char>>,
    snapshot: Option<Seq<char>>,
    thread: Option<ThreadRowView>,
    thread_hint: Option<PendingInputView>,
    now_ms: i64,
    seen_at_unix_ms: i64,
)
    ensures
        ({
            let desktop = Some(desktop_state_view(desktop_thread, rollout, request_id, now_ms));
            let cli = cli_state_view(snapshot, thread, thread_hint, now_ms);
            observation_view(process, kind, cwd, terminal_app, desktop, cli, seen_at_unix_ms) matches Some(o) ==> {
                &&& o.pid == process.pid
                &&& o.activity_label is Some
                &&& (o.source == SessionSource::Cli <==> kind == ProcessKind::Cli)
                &&& (o.source == SessionSource::Cli ==> o.tty is Some)
                &&& (o.source == SessionSource::Desktop ==> o.tty is None && o.cwd is None
                    && o.terminal_app is None && o.submit_target is Some)
            }
        }),
{
    lemma_observations_have_activity(
        process,
        kind,
        cwd,
        terminal_app,
        Some(desktop_state_view(desktop_thread, rollout, request_id, now_ms)),
        snapshot,
        thread,
        thread_hint,
        now_ms,
        seen_at_unix_ms,
    );
    lemma_desktop_state_answerable(desktop_thread, rollout, request_id, now_ms);
}

} // verus!

//! Bringing a session's window to the front and answering its prompt: the
//! AppleScript that does it, the JSON-RPC requests that Codex's app server
//! takes, the desktop app's IPC frames, and the decisions on their replies.
use crate::json::{
    json_error_at, json_has, json_i64, json_int_at, json_parse_error, json_payload,
    json_payload_text, json_quote, json_quoted, json_str, json_text_at, json_value_at,
};
use crate::models::{
    CodexSession, CodexSessionView, SessionSource, SubmitTarget, SubmitTargetView, TerminalApp,
    TerminalAppView,
};
use crate::text::{
    chars_of, owned, push_char, push_signed_decimal, push_str, signed_decimal,
    str_eq, string_of, strip_prefixes, trim, trim_chars, trim_start_matches_chars, contains,
    occurs_at, starts_with,
};
use vstd::prelude::*;
use vstd::string::*;

verus! {

broadcast use vstd::string::group_string_axioms;

// ---------------------------------------------------------------------------
// Errors
// ---------------------------------------------------------------------------

/// Why a reply could not be submitted.
#[derive(Debug, Clone, PartialEq, Eq)]
pub enum SubmitError {
    UnsupportedSessionTarget { session_id: String },
    SubmitTransportUnavailable,
    SubmitTransportFailed { detail: String },
}

pub enum SubmitErrorView {
    UnsupportedSessionTarget { session_id: Seq<char> },
    SubmitTransportUnavailable,
    SubmitTransportFailed { detail: Seq<char> },
}

impl View for SubmitError {
    type V = SubmitErrorView;

    open spec fn view(&self) -> SubmitErrorView {
        match self {
            SubmitError::UnsupportedSessionTarget { session_id } => {
                SubmitErrorView::UnsupportedSessionTarget { session_id: session_id@ }
            },
            SubmitError::SubmitTransportUnavailable => SubmitErrorView::SubmitTransportUnavailable,
            SubmitError::SubmitTransportFailed { detail } => SubmitErrorView::SubmitTransportFailed {
                detail: detail@,
            },
        }
    }
}

/// The text that describes an error.
pub open spec fn error_message(e: SubmitErrorView) -> Seq<char> {
    match e {
        SubmitErrorView::UnsupportedSessionTarget { session_id } => "unsupported_session_target: session "@
            + session_id + " has no submit target"@,
        SubmitErrorView::SubmitTransportUnavailable => "submit_transport_unavailable: no local submit transport found"@,
        SubmitErrorView::SubmitTransportFailed { detail } => "submit_transport_failed: "@ + detail,
    }
}

pub open spec fn failed(detail: Seq<char>) -> SubmitErrorView {
    SubmitErrorView::SubmitTransportFailed { detail }
}

impl SubmitError {
    pub fn unsupported_session_target(session_id: &str) -> (r: Self)
        ensures
            r@ == (SubmitErrorView::UnsupportedSessionTarget { session_id: session_id@ }),
    {
        SubmitError::UnsupportedSessionTarget { session_id: owned(session_id) }
    }

    pub fn transport_unavailable() -> (r: Self)
        ensures
            r@ == SubmitErrorView::SubmitTransportUnavailable,
    {
        SubmitError::SubmitTransportUnavailable
    }

    pub fn transport_failed(detail: &str) -> (r: Self)
        ensures
            r@ == failed(detail@),
    {
        SubmitError::SubmitTransportFailed { detail: owned(detail) }
    }

    /// What the error says, as the island shows it.
    pub fn message(&self) -> (r: String)
        ensures
            r@ == error_message(self@),
    {
        match self {
            SubmitError::UnsupportedSessionTarget { session_id } => {
                let mut out = owned("unsupported_session_target: session ");
                push_str(&mut out, session_id.as_str());
                push_str(&mut out, " has no submit target");
                out
            },
            SubmitError::SubmitTransportUnavailable => owned(
                "submit_transport_unavailable: no local submit transport found",
            ),
            SubmitError::SubmitTransportFailed { detail } => {
                let mut out = owned("submit_transport_failed: ");
                push_str(&mut out, detail.as_str());
                out
            },
        }
    }
}

fn failure(head: &str, detail: &str) -> (r: SubmitError)
    ensures
        r@ == failed(head@ + detail@),
{
    let mut d = owned(head);
    push_str(&mut d, detail);
    SubmitError::SubmitTransportFailed { detail: d }
}

// ---------------------------------------------------------------------------
// Submitting replies
// ---------------------------------------------------------------------------

/// A submit outcome with its error taken by its view.
pub open spec fn result_view(r: Result<(), SubmitError>) -> Result<(), SubmitErrorView> {
    match r {
        Ok(()) => Ok(()),
        Err(e) => Err(e@),
    }
}

/// A channel that delivers a reply to a session's target.
pub trait SubmitTransport {
    /// Whether `outcome` is what this channel can answer when asked to deliver
    /// `text` to `target`. A channel that does not say admits every outcome.
    open spec fn delivers(&self, target: SubmitTargetView, text: Seq<char>, outcome: Result<(), SubmitErrorView>) -> bool {
        true
    }

    fn submit(&self, target: &SubmitTarget, text: &str) -> (r: Result<(), SubmitError>)
        ensures
            self.delivers(target@, text@, result_view(r)),
    ;
}

/// Delivers `text` through `transport` to the session's submit target; a
/// session without one is refused before the transport is asked.
pub fn submit_session_reply_with_transport<T: SubmitTransport>(
    session: &CodexSession,
    text: &str,
    transport: &T,
) -> (r: Result<(), SubmitError>)
    ensures
        session.submit_target is None ==> (r matches Err(e) && e@ == (
        SubmitErrorView::UnsupportedSessionTarget { session_id: session.session_id@ })),
        session.submit_target matches Some(t) ==> transport.delivers(t@, text@, result_view(r)),
{
    match &session.submit_target {
        None => Err(SubmitError::unsupported_session_target(session.session_id.as_str())),
        Some(target) => transport.submit(target, text),
    }
}

/// Where Codex's app server is installed.
pub fn codex_app_server_path() -> (r: &'static str)
    ensures
        r@ == "/Applications/Codex.app/Contents/Resources/codex"@,
{
    "/Applications/Codex.app/Contents/Resources/codex"
}

/// How to start Codex's app server on standard input and output.
#[derive(Debug, Clone, PartialEq, Eq)]
pub struct LocalSubmitProbe {
    pub command: Vec<String>,
}

pub open spec fn app_server_command() -> Seq<Seq<char>> {
    seq![
        "/Applications/Codex.app/Contents/Resources/codex"@,
        "app-server"@,
        "--listen"@,
        "stdio://"@,
    ]
}

impl LocalSubmitProbe {
    /// The app server's command line, when its executable exists.
    pub fn detect(executable_exists: bool) -> (r: Option<Self>)
        ensures
            executable_exists == r is Some,
            r is Some ==> r.unwrap().command.deep_view() == app_server_command(),
    {
        if !executable_exists {
            return None;
        }
        let mut command: Vec<String> = Vec::new();
        command.push(owned(codex_app_server_path()));
        command.push(owned("app-server"));
        command.push(owned("--listen"));
        command.push(owned("stdio://"));
        assert(command.deep_view() =~= app_server_command());
        Some(LocalSubmitProbe { command })
    }
}

/// Submits replies to Codex on this machine: thread replies through the app
/// server, command approvals through the desktop app's IPC socket.
#[derive(Debug, Clone, PartialEq, Eq)]
pub struct LocalCodexSubmitTransport {
    probe: Option<LocalSubmitProbe>,
}

/// What submitting a reply takes.
#[derive(Debug)]
pub enum SubmitPlan {
    /// Send this decision on the approval request over the desktop IPC socket.
    DesktopApproval { conversation_id: String, request_id: String, decision: String },
    /// Start `program` with `args` and write `requests`, one per line.
    AppServer { program: String, args: Vec<String>, requests: Vec<String> },
}

/// The decision that a reply to a command approval stands for.
pub open spec fn approval_decision(reply: Seq<char>) -> Option<Seq<char>> {
    let t = trim(reply);
    if t == "1"@ {
        Some("accept"@)
    } else if t == "2"@ {
        Some("acceptForSession"@)
    } else if t == "3"@ {
        Some("decline"@)
    } else {
        None
    }
}

pub fn map_desktop_approval_reply(reply: &str) -> (r: Option<&'static str>)
    ensures
        match r {
            Some(d) => approval_decision(reply@) == Some(d@),
            None => approval_decision(reply@) is None,
        },
{
    let v = chars_of(reply);
    let t = string_of(&trim_chars(&v));
    if str_eq(t.as_str(), "1") {
        Some("accept")
    } else if str_eq(t.as_str(), "2") {
        Some("acceptForSession")
    } else if str_eq(t.as_str(), "3") {
        Some("decline")
    } else {
        None
    }
}

/// The JSON-RPC requests, one per line, that reply `text` to thread
/// `thread_id` through the app server: initialize, initialized, read the
/// thread, resume it, start a turn with the text.
pub open spec fn submit_requests(thread_id: Seq<char>, text: Seq<char>) -> Seq<Seq<char>> {
    let id = json_quoted(thread_id);
    seq![
        "{\"id\":0,\"method\":\"initialize\",\"params\":{\"capabilities\":{\"experimentalApi\":false},\"clientInfo\":{\"name\":\"codex-island\",\"version\":\"0.1.0\"}}}"@,
        "{\"method\":\"initialized\"}"@,
        "{\"id\":1,\"method\":\"thread/read\",\"params\":{\"includeTurns\":false,\"threadId\":"@
            + id + "}}"@,
        "{\"id\":2,\"method\":\"thread/resume\",\"params\":{\"threadId\":"@ + id + "}}"@,
        "{\"id\":3,\"method\":\"turn/start\",\"params\":{\"input\":[{\"text\":"@ + json_quoted(text)
            + ",\"text_elements\":[],\"type\":\"text\"}],\"threadId\":"@ + id + "}}"@,
    ]
}

fn concat3(a: &str, b: &str, c: &str) -> (r: String)
    ensures
        r@ == a@ + b@ + c@,
{
    let mut out = owned(a);
    push_str(&mut out, b);
    push_str(&mut out, c);
    out
}

fn concat5(a: &str, b: &str, c: &str, d: &str, e: &str) -> (r: String)
    ensures
        r@ == a@ + b@ + c@ + d@ + e@,
{
    let mut out = owned(a);
    push_str(&mut out, b);
    push_str(&mut out, c);
    push_str(&mut out, d);
    push_str(&mut out, e);
    out
}

pub fn build_submit_requests(thread_id: &str, text: &str) -> (r: Vec<String>)
    ensures
        r.deep_view() == submit_requests(thread_id@, text@),
{
    let id = json_quote(thread_id);
    let quoted_text = json_quote(text);
    let mut r: Vec<String> = Vec::new();
    r.push(
        owned(
            "{\"id\":0,\"method\":\"initialize\",\"params\":{\"capabilities\":{\"experimentalApi\":false},\"clientInfo\":{\"name\":\"codex-island\",\"version\":\"0.1.0\"}}}",
        ),
    );
    r.push(owned("{\"method\":\"initialized\"}"));
    r.push(
        concat3(
            "{\"id\":1,\"method\":\"thread/read\",\"params\":{\"includeTurns\":false,\"threadId\":",
            id.as_str(),
            "}}",
        ),
    );
    r.push(concat3("{\"id\":2,\"method\":\"thread/resume\",\"params\":{\"threadId\":", id.as_str(), "}}"));
    r.push(
        concat5(
            "{\"id\":3,\"method\":\"turn/start\",\"params\":{\"input\":[{\"text\":",
            quoted_text.as_str(),
            ",\"text_elements\":[],\"type\":\"text\"}],\"threadId\":",
            id.as_str(),
            "}}",
        ),
    );
    assert(r.deep_view() =~= submit_requests(thread_id@, text@));
    r
}

pub open spec fn opt_probe_command(p: Option<LocalSubmitProbe>) -> Option<Seq<Seq<char>>> {
    match p {
        Some(p) => Some(p.command.deep_view()),
        None => None,
    }
}

impl LocalCodexSubmitTransport {
    pub closed spec fn probe_command(&self) -> Option<Seq<Seq<char>>> {
        opt_probe_command(self.probe)
    }

    /// The transport as the app server's presence allows.
    pub fn detect(executable_exists: bool) -> (r: Self)
        ensures
            executable_exists == r.probe_command() is Some,
            executable_exists ==> r.probe_command() == Some(app_server_command()),
    {
        Self::from_probe_result(LocalSubmitProbe::detect(executable_exists))
    }

    pub fn from_probe_result(probe: Option<LocalSubmitProbe>) -> (r: Self)
        ensures
            r.probe_command() == opt_probe_command(probe),
    {
        LocalCodexSubmitTransport { probe }
    }

    /// What submitting `text` to `target` takes. An approval is answered
    /// over IPC when the reply is `1`, `2` or `3`; a thread reply needs the app
    /// server's command line.
    pub fn plan_submit(&self, target: &SubmitTarget, text: &str) -> (r: Result<SubmitPlan, SubmitError>)
        ensures
            match target@ {
                SubmitTargetView::DesktopCommandApproval { conversation_id, request_id } => match approval_decision(text@) {
                    Some(d) => r matches Ok(SubmitPlan::DesktopApproval { conversation_id: c, request_id: q, decision: x })
                        && c@ == conversation_id && q@ == request_id && x@ == d,
                    None => r matches Err(e) && e@ == failed("unsupported desktop approval reply: "@ + text@),
                },
                SubmitTargetView::ThreadId(thread_id) => match self.probe_command() {
                    Some(cmd) => if cmd.len() > 0 {
                        r matches Ok(SubmitPlan::AppServer { program, args, requests })
                            && program@ == cmd[0] && args.deep_view() == cmd.drop_first()
                            && requests.deep_view() == submit_requests(thread_id, text@)
                    } else {
                        r matches Err(e) && e@ == SubmitErrorView::SubmitTransportUnavailable
                    },
                    None => r matches Err(e) && e@ == SubmitErrorView::SubmitTransportUnavailable,
                },
            },
    {
        match target {
            SubmitTarget::DesktopCommandApproval { conversation_id, request_id } => {
                match map_desktop_approval_reply(text) {
                    Some(decision) => Ok(
                        SubmitPlan::DesktopApproval {
                            conversation_id: owned(conversation_id.as_str()),
                            request_id: owned(request_id.as_str()),
                            decision: owned(decision),
                        },
                    ),
                    None => Err(failure("unsupported desktop approval reply: ", text)),
                }
            },
            SubmitTarget::ThreadId(thread_id) => {
                let probe = match &self.probe {
                    Some(p) => p,
                    None => {
                        return Err(SubmitError::transport_unavailable());
                    },
                };
                if probe.command.len() == 0 {
                    return Err(SubmitError::transport_unavailable());
                }
                let ghost cmd = probe.command.deep_view();
                let program = owned(probe.command[0].as_str());
                let mut args: Vec<String> = Vec::new();
                let mut i: usize = 1;
                while i < probe.command.len()
                    invariant
                        1 <= i <= probe.command.len(),
                        cmd == probe.command.deep_view(),
                        args.deep_view() == cmd.subrange(1, i as int),
                    decreases probe.command.len() - i,
                {
                    let ghost before = args.deep_view();
                    args.push(owned(probe.command[i].as_str()));
                    assert(args.deep_view() =~= before.push(cmd[i as int]));
                    assert(cmd.subrange(1, i + 1) =~= cmd.subrange(1, i as int).push(cmd[i as int]));
                    i += 1;
                }
                assert(cmd.subrange(1, cmd.len() as int) =~= cmd.drop_first());
                let requests = build_submit_requests(thread_id.as_str(), text);
                Ok(SubmitPlan::AppServer { program, args, requests })
            },
        }
    }
}

// ---------------------------------------------------------------------------
// The app server's replies
// ---------------------------------------------------------------------------

/// The id of a JSON-RPC response.
pub open spec fn response_id(response: Seq<char>) -> Option<i64> {
    json_int_at(response, "/id"@)
}

pub open spec fn id_is(responses: Seq<Seq<char>>, id: i64) -> spec_fn(int) -> bool {
    |i: int| response_id(responses[i]) == Some(id)
}

/// The first response with `id`.
pub open spec fn response_for(responses: Seq<Seq<char>>, id: i64) -> Option<int> {
    crate::discovery::first_index_from(0, responses.len() as int, id_is(responses, id))
}

/// Why the response to request `id` (for `method`) is not a success: missing,
/// an error (with its code and message), or no result.
pub open spec fn rpc_failure(responses: Seq<Seq<char>>, id: i64, method: Seq<char>) -> Option<Seq<char>> {
    match response_for(responses, id) {
        None => Some("missing JSON-RPC response for "@ + method),
        Some(k) => {
            let r = responses[k];
            if json_value_at(r, "/error"@) {
                let code: i64 = match json_int_at(r, "/error/code"@) {
                    Some(c) => c,
                    None => 0,
                };
                let message = match json_text_at(r, "/error/message"@) {
                    Some(m) => m,
                    None => "unknown JSON-RPC error"@,
                };
                Some(method + " failed with code "@ + signed_decimal(code as int) + ": "@ + message)
            } else if !json_value_at(r, "/result"@) {
                Some(method + " returned no result"@)
            } else {
                None
            }
        },
    }
}

fn find_response(responses: &Vec<String>, id: i64) -> (r: Option<usize>)
    ensures
        match r {
            Some(k) => k < responses.len() && response_for(responses.deep_view(), id) == Some(k as int),
            None => response_for(responses.deep_view(), id) is None,
        },
{
    let ghost rv = responses.deep_view();
    let mut i: usize = 0;
    while i < responses.len()
        invariant
            i <= responses.len(),
            rv == responses.deep_view(),
            response_for(rv, id) == crate::discovery::first_index_from(
                i as int,
                rv.len() as int,
                id_is(rv, id),
            ),
        decreases responses.len() - i,
    {
        assert(rv[i as int] == responses@[i as int]@);
        if json_i64(responses[i].as_str(), "/id") == Some(id) {
            assert(id_is(rv, id)(i as int));
            return Some(i);
        }
        assert(!id_is(rv, id)(i as int));
        i += 1;
    }
    None
}

/// Whether the response to request `id` is a success; the failure otherwise.
pub fn ensure_json_rpc_success(responses: &Vec<String>, id: i64, method: &str) -> (r: Result<
    (),
    SubmitError,
>)
    ensures
        match rpc_failure(responses.deep_view(), id, method@) {
            None => r is Ok,
            Some(d) => r matches Err(e) && e@ == failed(d),
        },
{
    let k = match find_response(responses, id) {
        Some(k) => k,
        None => {
            return Err(failure("missing JSON-RPC response for ", method));
        },
    };
    let response = responses[k].as_str();
    assert(responses.deep_view()[k as int] == response@);
    if json_has(response, "/error") {
        let code: i64 = match json_i64(response, "/error/code") {
            Some(c) => c,
            None => 0,
        };
        let message = match json_str(response, "/error/message") {
            Some(m) => m,
            None => owned("unknown JSON-RPC error"),
        };
        let mut d = owned(method);
        push_str(&mut d, " failed with code ");
        push_signed_decimal(&mut d, code);
        push_str(&mut d, ": ");
        push_str(&mut d, message.as_str());
        return Err(SubmitError::SubmitTransportFailed { detail: d });
    }
    if !json_has(response, "/result") {
        return Err(failure(method, " returned no result"));
    }
    Ok(())
}

/// Whether the app server's responses show the reply went through: each of
/// the four requests succeeded, and thread/read answered for the thread that
/// was asked for.
pub open spec fn submit_outcome(responses: Seq<Seq<char>>, target: SubmitTargetView) -> Option<Seq<char>> {
    if rpc_failure(responses, 0, "initialize"@) is Some {
        rpc_failure(responses, 0, "initialize"@)
    } else if rpc_failure(responses, 1, "thread/read"@) is Some {
        rpc_failure(responses, 1, "thread/read"@)
    } else if rpc_failure(responses, 2, "thread/resume"@) is Some {
        rpc_failure(responses, 2, "thread/resume"@)
    } else if rpc_failure(responses, 3, "turn/start"@) is Some {
        rpc_failure(responses, 3, "turn/start"@)
    } else {
        match response_for(responses, 1) {
            Some(k) => match (target, json_text_at(responses[k], "/result/threadId"@)) {
                (SubmitTargetView::ThreadId(asked), Some(answered)) => if answered != asked {
                    Some("thread/read returned unexpected thread id "@ + answered)
                } else {
                    None
                },
                _ => None,
            },
            None => None,
        }
    }
}

pub fn check_submit_responses(responses: &Vec<String>, target: &SubmitTarget) -> (r: Result<
    (),
    SubmitError,
>)
    ensures
        match submit_outcome(responses.deep_view(), target@) {
            None => r is Ok,
            Some(d) => r matches Err(e) && e@ == failed(d),
        },
{
    ensure_json_rpc_success(responses, 0, "initialize")?;
    ensure_json_rpc_success(responses, 1, "thread/read")?;
    ensure_json_rpc_success(responses, 2, "thread/resume")?;
    ensure_json_rpc_success(responses, 3, "turn/start")?;
    if let Some(k) = find_response(responses, 1) {
        assert(responses.deep_view()[k as int] == responses@[k as int]@);
        let answered = json_str(responses[k].as_str(), "/result/threadId");
        if let (SubmitTarget::ThreadId(asked), Some(answered)) = (target, answered) {
            if !str_eq(answered.as_str(), asked.as_str()) {
                return Err(failure("thread/read returned unexpected thread id ", answered.as_str()));
            }
        }
    }
    Ok(())
}

/// The app server's responses read so far, and which of the four requests
/// have been answered.
pub struct RpcResponses {
    pub responses: Vec<String>,
    seen: [bool; 4],
}

/// Where reading the app server's output stands after a line.
#[derive(Debug)]
pub enum RpcProgress {
    /// Keep reading.
    Waiting,
    /// All four answered, or an error came back: stop and check.
    Complete,
    /// The line is not JSON.
    Failed(SubmitError),
}

pub open spec fn seen_after(seen: Seq<bool>, id: Option<i64>) -> Seq<bool> {
    match id {
        Some(i) => if 0 <= i < 4 {
            seen.update(i as int, true)
        } else {
            seen
        },
        None => seen,
    }
}

impl RpcResponses {
    pub closed spec fn lines(&self) -> Seq<Seq<char>> {
        self.responses.deep_view()
    }

    pub closed spec fn answered(&self) -> Seq<bool> {
        self.seen@
    }

    pub fn new() -> (r: Self)
        ensures
            r.lines() == Seq::<Seq<char>>::empty(),
            r.answered() == seq![false, false, false, false],
    {
        let r = RpcResponses { responses: Vec::new(), seen: [false, false, false, false] };
        assert(r.responses.deep_view() =~= Seq::<Seq<char>>::empty());
        assert(r.seen@ =~= seq![false, false, false, false]);
        r
    }

    /// Takes one line of the app server's output: blank lines are skipped,
    /// a line that is not JSON fails, any other is kept, and reading is
    /// complete once it carries an error or all four requests are answered.
    pub fn accept_line(&mut self, line: &str) -> (r: RpcProgress)
        ensures
            ({
                let t = trim(line@);
                if t.len() == 0 {
                    r is Waiting && final(self).lines() == old(self).lines() && final(self).answered()
                        == old(self).answered()
                } else {
                    match json_error_at(t) {
                        Some(e) => r matches RpcProgress::Failed(x) && x@ == failed(
                            "invalid JSON-RPC response from app-server: "@ + e,
                        ),
                        None => {
                            let seen = seen_after(old(self).answered(), json_int_at(t, "/id"@));
                            &&& final(self).lines() == old(self).lines().push(t)
                            &&& final(self).answered() == seen
                            &&& (r is Complete <==> (json_value_at(t, "/error"@) || (seen[0] && seen[1]
                                && seen[2] && seen[3])))
                            &&& (r is Waiting <==> !(json_value_at(t, "/error"@) || (seen[0] && seen[1]
                                && seen[2] && seen[3])))
                        },
                    }
                }
            }),
    {
        let v = chars_of(line);
        let t = string_of(&trim_chars(&v));
        if t.as_str().unicode_len() == 0 {
            return RpcProgress::Waiting;
        }
        if let Some(e) = json_parse_error(t.as_str()) {
            return RpcProgress::Failed(failure("invalid JSON-RPC response from app-server: ", e.as_str()));
        }
        match json_i64(t.as_str(), "/id") {
            Some(i) => {
                if 0 <= i && i < 4 {
                    let k = i as usize;
                    self.seen[k] = true;
                }
            },
            None => {},
        }
        let has_error = json_has(t.as_str(), "/error");
        self.responses.push(t);
        assert(self.responses.deep_view() =~= old(self).responses.deep_view().push(
            self.responses@[self.responses.len() - 1]@,
        ));
        if has_error || (self.seen[0] && self.seen[1] && self.seen[2] && self.seen[3]) {
            RpcProgress::Complete
        } else {
            RpcProgress::Waiting
        }
    }

    /// The failure when the app server's output ends before reading completes.
    pub fn exhausted() -> (r: SubmitError)
        ensures
            r@ == failed(
                "app-server exited before returning initialize/thread-read/thread-resume/turn-start responses"@,
            ),
    {
        SubmitError::transport_failed(
            "app-server exited before returning initialize/thread-read/thread-resume/turn-start responses",
        )
    }
}

/// The failure when the app server did not answer in time or stopped
/// answering: `what`, with what it wrote to standard error when that is not
/// blank.
pub open spec fn silence_detail(what: Seq<char>, stderr: Seq<char>) -> Seq<char> {
    if trim(stderr).len() == 0 {
        what
    } else {
        what + "; stderr: "@ + trim(stderr)
    }
}

pub fn app_server_silence(timed_out: bool, stderr: &str) -> (r: SubmitError)
    ensures
        r@ == failed(
            silence_detail(
                if timed_out {
                    "timed out waiting for app-server responses"@
                } else {
                    "app-server response channel closed unexpectedly"@
                },
                stderr@,
            ),
        ),
{
    let what = if timed_out {
        "timed out waiting for app-server responses"
    } else {
        "app-server response channel closed unexpectedly"
    };
    let v = chars_of(stderr);
    let t = string_of(&trim_chars(&v));
    if t.as_str().unicode_len() == 0 {
        SubmitError::transport_failed(what)
    } else {
        let mut d = owned(what);
        push_str(&mut d, "; stderr: ");
        push_str(&mut d, t.as_str());
        SubmitError::SubmitTransportFailed { detail: d }
    }
}

// ---------------------------------------------------------------------------
// The desktop app's IPC
// ---------------------------------------------------------------------------

/// The IPC request that introduces this client.
pub open spec fn ipc_initialize_message(request_id: Seq<char>) -> Seq<char> {
    "{\"method\":\"initialize\",\"params\":{\"clientType\":\"codex-island\"},\"requestId\":"@
        + json_quoted(request_id) + ",\"sourceClientId\":\"\",\"type\":\"request\",\"version\":0}"@
}

pub fn ipc_initialize_request(request_id: &str) -> (r: String)
    ensures
        r@ == ipc_initialize_message(request_id@),
{
    let q = json_quote(request_id);
    concat3(
        "{\"method\":\"initialize\",\"params\":{\"clientType\":\"codex-island\"},\"requestId\":",
        q.as_str(),
        ",\"sourceClientId\":\"\",\"type\":\"request\",\"version\":0}",
    )
}

/// The IPC request that decides a command approval.
pub open spec fn ipc_approval_message(
    request_id: Seq<char>,
    client_id: Seq<char>,
    conversation_id: Seq<char>,
    approval_request_id: Seq<char>,
    decision: Seq<char>,
) -> Seq<char> {
    "{\"method\":\"thread-follower-command-approval-decision\",\"params\":{\"conversationId\":"@
        + json_quoted(conversation_id) + ",\"decision\":"@ + json_quoted(decision)
        + ",\"requestId\":"@ + json_quoted(approval_request_id) + "},\"requestId\":"@
        + json_quoted(request_id) + ",\"sourceClientId\":"@ + json_quoted(client_id)
        + ",\"type\":\"request\",\"version\":1}"@
}

pub fn ipc_approval_request(
    request_id: &str,
    client_id: &str,
    conversation_id: &str,
    approval_request_id: &str,
    decision: &str,
) -> (r: String)
    ensures
        r@ == ipc_approval_message(
            request_id@,
            client_id@,
            conversation_id@,
            approval_request_id@,
            decision@,
        ),
{
    let mut out = owned(
        "{\"method\":\"thread-follower-command-approval-decision\",\"params\":{\"conversationId\":",
    );
    push_str(&mut out, json_quote(conversation_id).as_str());
    push_str(&mut out, ",\"decision\":");
    push_str(&mut out, json_quote(decision).as_str());
    push_str(&mut out, ",\"requestId\":");
    push_str(&mut out, json_quote(approval_request_id).as_str());
    push_str(&mut out, "},\"requestId\":");
    push_str(&mut out, json_quote(request_id).as_str());
    push_str(&mut out, ",\"sourceClientId\":");
    push_str(&mut out, json_quote(client_id).as_str());
    push_str(&mut out, ",\"type\":\"request\",\"version\":1}");
    out
}

/// The four bytes, least significant first, of `n` cut to 32 bits.
pub open spec fn le_u32_bytes(n: nat) -> Seq<u8> {
    let m = n % 0x1_0000_0000;
    seq![
        (m % 256) as u8,
        ((m / 256) % 256) as u8,
        ((m / 65536) % 256) as u8,
        ((m / 16777216) % 256) as u8,
    ]
}

/// An IPC frame: the payload's length as a little-endian `u32`, then the
/// payload.
pub fn frame_ipc_payload(payload: &Vec<u8>) -> (r: Vec<u8>)
    ensures
        r@ == le_u32_bytes(payload.len() as nat) + payload@,
{
    let m: u64 = (payload.len() as u64) % 0x1_0000_0000;
    let mut frame: Vec<u8> = Vec::new();
    frame.push((m % 256) as u8);
    frame.push(((m / 256) % 256) as u8);
    frame.push(((m / 65536) % 256) as u8);
    frame.push(((m / 16777216) % 256) as u8);
    let ghost head = frame@;
    assert(head =~= le_u32_bytes(payload.len() as nat));
    let mut i: usize = 0;
    while i < payload.len()
        invariant
            i <= payload.len(),
            frame@ == head + payload@.take(i as int),
        decreases payload.len() - i,
    {
        frame.push(payload[i]);
        assert(payload@.take(i + 1) =~= payload@.take(i as int).push(payload@[i as int]));
        assert(frame@ =~= head + payload@.take(i + 1));
        i += 1;
    }
    assert(payload@.take(payload.len() as int) =~= payload@);
    frame
}

/// The payload length that an IPC frame header announces.
pub open spec fn header_len(h: Seq<u8>) -> nat {
    (h[0] + 256 * h[1] + 65536 * h[2] + 16777216 * h[3]) as nat
}

pub fn ipc_frame_len(header: [u8; 4]) -> (r: usize)
    ensures
        r as nat == header_len(header@),
{
    let n: u64 = header[0] as u64 + 256 * (header[1] as u64) + 65536 * (header[2] as u64) + 16777216
        * (header[3] as u64);
    assert(n < 0x1_0000_0000);
    n as usize
}

/// A frame's header announces its payload's length, and the payload follows
/// it unchanged, for payloads shorter than 4 GiB.
pub proof fn lemma_frame_header_round_trip(payload: Seq<u8>)
    requires
        payload.len() < 0x1_0000_0000,
    ensures
        (le_u32_bytes(payload.len()) + payload).len() == 4 + payload.len(),
        header_len((le_u32_bytes(payload.len()) + payload).take(4)) == payload.len(),
        (le_u32_bytes(payload.len()) + payload).skip(4) == payload,
{
    let n = payload.len();
    let h = (le_u32_bytes(n) + payload).take(4);
    assert(h =~= le_u32_bytes(n));
    assert((le_u32_bytes(n) + payload).skip(4) =~= payload);
    assert(n % 0x1_0000_0000 == n);
    assert(h[0] + 256 * h[1] + 65536 * h[2] + 16777216 * h[3] == n) by (nonlinear_arith)
        requires
            n < 0x1_0000_0000,
            h[0] == (n % 256) as u8,
            h[1] == ((n / 256) % 256) as u8,
            h[2] == ((n / 65536) % 256) as u8,
            h[3] == ((n / 16777216) % 256) as u8,
    ;
}

/// The text of an IPC frame's payload, or why it is not a JSON message.
pub fn read_ipc_payload(payload: &Vec<u8>) -> (r: Result<String, SubmitError>)
    ensures
        match json_payload_text(payload@) {
            Ok(t) => r matches Ok(x) && x@ == t,
            Err(e) => r matches Err(x) && x@ == failed("invalid ipc message json: "@ + e),
        },
{
    match json_payload(payload) {
        Ok(text) => Ok(text),
        Err(e) => Err(failure("invalid ipc message json: ", e.as_str())),
    }
}

/// What an IPC message means for the request awaiting a response.
#[derive(Debug)]
pub enum IpcStep {
    /// Not the response awaited: read on.
    Skip,
    /// The response, successful, with what it carries.
    Done(String),
    /// The response, a failure.
    Failed(SubmitError),
}

pub open spec fn is_response_to(message: Seq<char>, request_id: Seq<char>) -> bool {
    json_text_at(message, "/type"@) == Some("response"@) && json_text_at(message, "/requestId"@)
        == Some(request_id)
}

fn text_is(t: &Option<String>, lit: &str) -> (b: bool)
    ensures
        b == (t.deep_view() == Some(lit@)),
{
    match t {
        Some(s) => str_eq(s.as_str(), lit),
        None => false,
    }
}

fn responds_to(message: &str, request_id: &str) -> (b: bool)
    ensures
        b == is_response_to(message@, request_id@),
{
    let kind = json_str(message, "/type");
    if !text_is(&kind, "response") {
        return false;
    }
    let id = json_str(message, "/requestId");
    match id {
        Some(i) => str_eq(i.as_str(), request_id),
        None => false,
    }
}

/// What a message means while waiting for the answer to `initialize`: the
/// client id it assigns, or why initializing failed.
pub open spec fn initialize_step(message: Seq<char>, request_id: Seq<char>) -> Option<Result<Seq<char>, Seq<char>>> {
    if !is_response_to(message, request_id) {
        None
    } else if json_text_at(message, "/resultType"@) != Some("success"@) {
        Some(
            Err(
                "desktop ipc initialize failed: "@ + match json_text_at(message, "/error"@) {
                    Some(e) => e,
                    None => "initialize failed"@,
                },
            ),
        )
    } else {
        match json_text_at(message, "/result/clientId"@) {
            Some(c) => Some(Ok(c)),
            None => Some(Err("desktop ipc initialize returned no clientId"@)),
        }
    }
}

pub open spec fn step_view(s: IpcStep) -> Option<Result<Seq<char>, Seq<char>>> {
    match s {
        IpcStep::Skip => None,
        IpcStep::Done(x) => Some(Ok(x@)),
        IpcStep::Failed(e) => match e@ {
            SubmitErrorView::SubmitTransportFailed { detail } => Some(Err(detail)),
            _ => Some(Err(Seq::empty())),
        },
    }
}

pub fn ipc_initialize_step(message: &str, request_id: &str) -> (r: IpcStep)
    ensures
        step_view(r) == initialize_step(message@, request_id@),
        r matches IpcStep::Failed(e) ==> e@ is SubmitTransportFailed,
{
    if !responds_to(message, request_id) {
        return IpcStep::Skip;
    }
    let result_type = json_str(message, "/resultType");
    if !text_is(&result_type, "success") {
        let error = match json_str(message, "/error") {
            Some(e) => e,
            None => owned("initialize failed"),
        };
        return IpcStep::Failed(failure("desktop ipc initialize failed: ", error.as_str()));
    }
    match json_str(message, "/result/clientId") {
        Some(c) => IpcStep::Done(c),
        None => IpcStep::Failed(SubmitError::transport_failed("desktop ipc initialize returned no clientId")),
    }
}

/// What a message means while waiting for the answer to an approval decision.
pub open spec fn approval_step(message: Seq<char>, request_id: Seq<char>) -> Option<Result<Seq<char>, Seq<char>>> {
    if !is_response_to(message, request_id) {
        None
    } else if json_text_at(message, "/resultType"@) == Some("success"@) {
        Some(Ok(Seq::empty()))
    } else {
        Some(
            Err(
                "desktop approval ipc failed: "@ + match json_text_at(message, "/error"@) {
                    Some(e) => e,
                    None => "unknown ipc error"@,
                },
            ),
        )
    }
}

pub fn ipc_approval_step(message: &str, request_id: &str) -> (r: IpcStep)
    ensures
        step_view(r) == approval_step(message@, request_id@),
        r matches IpcStep::Failed(e) ==> e@ is SubmitTransportFailed,
{
    if !responds_to(message, request_id) {
        return IpcStep::Skip;
    }
    let result_type = json_str(message, "/resultType");
    if text_is(&result_type, "success") {
        return IpcStep::Done(String::new());
    }
    let error = match json_str(message, "/error") {
        Some(e) => e,
        None => owned("unknown ipc error"),
    };
    IpcStep::Failed(failure("desktop approval ipc failed: ", error.as_str()))
}

/// The extension of a file name, as `Path::extension` gives it: what follows
/// the last `.`, when something precedes that `.`.
pub open spec fn extension_of(name: Seq<char>) -> Option<Seq<char>> {
    match crate::discovery::last_index(name.len() as int, dot_at(name)) {
        Some(k) => if k > 0 {
            Some(name.skip(k + 1))
        } else {
            None
        },
        None => None,
    }
}

pub open spec fn dot_at(name: Seq<char>) -> spec_fn(int) -> bool {
    |i: int| name[i] == '.'
}

fn is_socket_name(name: &Vec<char>) -> (b: bool)
    ensures
        b == (extension_of(name@) == Some("sock"@)),
{
    let mut i = name.len();
    while i > 0
        invariant
            i <= name.len(),
            crate::discovery::last_index(name@.len() as int, dot_at(name@))
                == crate::discovery::last_index(i as int, dot_at(name@)),
        decreases i,
    {
        if name[i - 1] == '.' {
            assert(dot_at(name@)(i - 1));
            if i - 1 == 0 {
                return false;
            }
            let rest = crate::text::slice_chars(name, i, name.len());
            assert(rest@ =~= name@.skip(i as int));
            let sock = chars_of("sock");
            return crate::text::chars_eq(&rest, &sock);
        }
        assert(!dot_at(name@)(i - 1));
        i -= 1;
    }
    false
}

/// Among the file names in the IPC directory, the socket to use: the
/// greatest (in character order) whose extension is `sock`.
pub open spec fn is_latest_socket(names: Seq<Seq<char>>, k: int) -> bool {
    &&& 0 <= k < names.len()
    &&& extension_of(names[k]) == Some("sock"@)
    &&& forall|j: int| 0 <= j < names.len() && extension_of(#[trigger] names[j]) == Some("sock"@) ==> !crate::session_store::lex_lt(names[k], names[j])
}

pub fn latest_ipc_socket_name(names: &Vec<String>) -> (r: Option<String>)
    ensures
        match r {
            Some(n) => exists|k: int| is_latest_socket(names.deep_view(), k) && n@ == names.deep_view()[k],
            None => forall|j: int| 0 <= j < names.len() ==> extension_of(#[trigger] names.deep_view()[j]) != Some("sock"@),
        },
{
    let ghost nv = names.deep_view();
    let mut best: Option<usize> = None;
    let mut i: usize = 0;
    while i < names.len()
        invariant
            i <= names.len(),
            nv == names.deep_view(),
            match best {
                Some(b) => b < i && extension_of(nv[b as int]) == Some("sock"@) && forall|j: int| 0 <= j < i && extension_of(#[trigger] nv[j]) == Some("sock"@) ==> !crate::session_store::lex_lt(nv[b as int], nv[j]),
                None => forall|j: int| 0 <= j < i ==> extension_of(#[trigger] nv[j]) != Some("sock"@),
            },
        decreases names.len() - i,
    {
        let name = chars_of(names[i].as_str());
        assert(nv[i as int] == name@);
        if is_socket_name(&name) {
            match best {
                None => {
                    proof {
                        crate::session_store::lemma_lex_lt_irreflexive(nv[i as int]);
                    }
                    best = Some(i);
                },
                Some(b) => {
                    let current = chars_of(names[b].as_str());
                    assert(nv[b as int] == current@);
                    if crate::session_store::title_before(&current, &name) {
                        proof {
                            assert forall|j: int| 0 <= j < i + 1 && extension_of(#[trigger] nv[j]) == Some("sock"@) implies !crate::session_store::lex_lt(nv[i as int], nv[j]) by {
                                if j < i {
                                    if crate::session_store::lex_lt(nv[i as int], nv[j]) {
                                        crate::session_store::lemma_lex_lt_transitive(nv[b as int], nv[i as int], nv[j]);
                                    }
                                } else {
                                    crate::session_store::lemma_lex_lt_irreflexive(nv[j]);
                                }
                            }
                        }
                        best = Some(i);
                    }
                },
            }
        }
        i += 1;
    }
    match best {
        Some(b) => {
            assert(is_latest_socket(nv, b as int));
            Some(owned(names[b].as_str()))
        },
        None => None,
    }
}

/// A fresh id for an IPC request: a random version-4 UUID.
pub fn fresh_ipc_request_id() -> (r: String)
    ensures
        crate::models::uuid_v4_text(r@),
{
    crate::models::new_uuid()
}

// ---------------------------------------------------------------------------
// AppleScript
// ---------------------------------------------------------------------------

/// `s` with each `\r\n` and each remaining `\r` turned into `\n`.
pub open spec fn normalized_newlines(s: Seq<char>) -> Seq<char>
    decreases s.len(),
{
    if s.len() == 0 {
        Seq::empty()
    } else if s[0] == '\r' && s.len() >= 2 && s[1] == '\n' {
        seq!['\n'] + normalized_newlines(s.skip(2))
    } else if s[0] == '\r' {
        seq!['\n'] + normalized_newlines(s.skip(1))
    } else {
        seq![s[0]] + normalized_newlines(s.skip(1))
    }
}

/// What one character becomes inside an AppleScript string literal: a line
/// break ends the literal, joins `return` and opens a new one; `\` and `"`
/// are escaped.
pub open spec fn applescript_char(c: char) -> Seq<char> {
    if c == '\n' {
        "\" & return & \""@
    } else if c == '\\' {
        "\\\\"@
    } else if c == '"' {
        "\\\""@
    } else {
        seq![c]
    }
}

pub open spec fn applescript_body(s: Seq<char>) -> Seq<char>
    decreases s.len(),
{
    if s.len() == 0 {
        Seq::empty()
    } else {
        applescript_body(s.drop_last()) + applescript_char(s.last())
    }
}

/// `value` as an AppleScript string expression.
pub open spec fn applescript_literal(value: Seq<char>) -> Seq<char> {
    "\""@ + applescript_body(normalized_newlines(value)) + "\""@
}

fn normalize_newlines(v: &Vec<char>) -> (r: Vec<char>)
    ensures
        r@ == normalized_newlines(v@),
{
    let mut out: Vec<char> = Vec::new();
    let mut i: usize = 0;
    assert(v@.skip(0) =~= v@);
    while i < v.len()
        invariant
            i <= v.len(),
            normalized_newlines(v@) == out@ + normalized_newlines(v@.skip(i as int)),
        decreases v.len() - i,
    {
        let ghost rest = v@.skip(i as int);
        assert(rest[0] == v@[i as int]);
        if v[i] == '\r' && i + 1 < v.len() && v[i + 1] == '\n' {
            assert(rest[1] == v@[i + 1]);
            assert(rest.skip(2) =~= v@.skip(i + 2));
            out.push('\n');
            assert(normalized_newlines(v@) == out@ + normalized_newlines(v@.skip(i + 2)));
            i += 2;
        } else {
            assert(rest.skip(1) =~= v@.skip(i + 1));
            if v[i] == '\r' {
                out.push('\n');
            } else {
                out.push(v[i]);
            }
            assert(normalized_newlines(v@) == out@ + normalized_newlines(v@.skip(i + 1)));
            i += 1;
        }
    }
    assert(v@.skip(i as int) =~= Seq::<char>::empty());
    assert(out@ + Seq::<char>::empty() =~= out@);
    out
}

/// `value` as an AppleScript string expression: quoted, with `\` and `"`
/// escaped and each line break (`\n`, `\r\n` or `\r`) turned into
/// `" & return & "`.
pub fn applescript_string(value: &str) -> (r: String)
    ensures
        r@ == applescript_literal(value@),
{
    let v = chars_of(value);
    let n = normalize_newlines(&v);
    let mut out = owned("\"");
    let ghost head = out@;
    let mut i: usize = 0;
    assert(n@.take(0) =~= Seq::<char>::empty());
    while i < n.len()
        invariant
            i <= n.len(),
            out@ == head + applescript_body(n@.take(i as int)),
        decreases n.len() - i,
    {
        let c = n[i];
        assert(n@.take(i + 1).drop_last() =~= n@.take(i as int));
        assert(n@.take(i + 1).last() == c);
        if c == '\n' {
            push_str(&mut out, "\" & return & \"");
        } else if c == '\\' {
            push_str(&mut out, "\\\\");
        } else if c == '"' {
            push_str(&mut out, "\\\"");
        } else {
            push_char(&mut out, c);
            assert(seq![c] == applescript_char(c));
        }
        assert(out@ =~= head + applescript_body(n@.take(i + 1)));
        i += 1;
    }
    assert(n@.take(n.len() as int) =~= n@);
    push_str(&mut out, "\"");
    out
}

/// The name AppleScript knows an application by.
pub open spec fn applescript_name(value: Seq<char>) -> Seq<char> {
    if value == "VS Code"@ {
        "Visual Studio Code"@
    } else {
        value
    }
}

pub fn applescript_app_name(value: &str) -> (r: &str)
    ensures
        r@ == applescript_name(value@),
{
    if str_eq(value, "VS Code") {
        "Visual Studio Code"
    } else {
        value
    }
}

pub open spec fn terminal_focus(tty: Seq<char>) -> Seq<char> {
    "\ntell application \"Terminal\"\n  reopen\n  activate\n  repeat with w in windows\n    repeat with t in tabs of w\n      try\n        if tty of t is \""@
        + tty
        + "\" then\n          set miniaturized of w to false\n          set selected of t to true\n          set frontmost of w to true\n          return\n        end if\n      end try\n    end repeat\n  end repeat\n  error \"TTY_NOT_FOUND\"\nend tell\n"@
}

/// The AppleScript that brings Terminal's tab on `tty` to the front,
/// restoring its window if minimized.
pub fn terminal_focus_script(tty: &str) -> (r: String)
    ensures
        r@ == terminal_focus(tty@),
{
    concat3(
        "\ntell application \"Terminal\"\n  reopen\n  activate\n  repeat with w in windows\n    repeat with t in tabs of w\n      try\n        if tty of t is \"",
        tty,
        "\" then\n          set miniaturized of w to false\n          set selected of t to true\n          set frontmost of w to true\n          return\n        end if\n      end try\n    end repeat\n  end repeat\n  error \"TTY_NOT_FOUND\"\nend tell\n",
    )
}

pub open spec fn iterm_focus(tty: Seq<char>) -> Seq<char> {
    "\ntell application \"iTerm2\"\n  reopen\n  activate\n  repeat with w in windows\n    repeat with t in tabs of w\n      repeat with s in sessions of t\n        try\n          if tty of s is \""@
        + tty
        + "\" then\n            set miniaturized of w to false\n            select t\n            tell w\n              set current tab to t\n              set current session of current tab to s\n              set frontmost to true\n            end tell\n            return\n          end if\n        end try\n      end repeat\n    end repeat\n  end repeat\n  error \"TTY_NOT_FOUND\"\nend tell\n"@
}

/// The AppleScript that brings iTerm's session on `tty` to the front,
/// restoring its window if minimized.
pub fn iterm_focus_script(tty: &str) -> (r: String)
    ensures
        r@ == iterm_focus(tty@),
{
    concat3(
        "\ntell application \"iTerm2\"\n  reopen\n  activate\n  repeat with w in windows\n    repeat with t in tabs of w\n      repeat with s in sessions of t\n        try\n          if tty of s is \"",
        tty,
        "\" then\n            set miniaturized of w to false\n            select t\n            tell w\n              set current tab to t\n              set current session of current tab to s\n              set frontmost to true\n            end tell\n            return\n          end if\n        end try\n      end repeat\n    end repeat\n  end repeat\n  error \"TTY_NOT_FOUND\"\nend tell\n",
    )
}

pub open spec fn named_application_focus(app: Seq<char>) -> Seq<char> {
    "\ntell application \""@ + app
        + "\"\n  reopen\n  activate\n  try\n    repeat with w in windows\n      try\n        set miniaturized of w to false\n      end try\n    end repeat\n  end try\nend tell\n"@
}

/// The AppleScript that activates `app_name` and restores its minimized
/// windows.
pub fn named_application_focus_script(app_name: &str) -> (r: String)
    ensures
        r@ == named_application_focus(app_name@),
{
    concat3(
        "\ntell application \"",
        app_name,
        "\"\n  reopen\n  activate\n  try\n    repeat with w in windows\n      try\n        set miniaturized of w to false\n      end try\n    end repeat\n  end try\nend tell\n",
    )
}

// ---------------------------------------------------------------------------
// Focusing and replying
// ---------------------------------------------------------------------------

/// How to bring a session to the front.
#[derive(Debug)]
pub enum FocusPlan {
    /// Activate the desktop app.
    Desktop,
    /// Run this AppleScript; on failure fall back to the terminal application,
    /// then to the project directory.
    Script(String),
    /// Activate this application (by its AppleScript name).
    Application(String),
    /// Open the project directory in the terminal.
    ProjectDirectory,
}

pub enum FocusPlanView {
    Desktop,
    Script(Seq<char>),
    Application(Seq<char>),
    ProjectDirectory,
}

impl View for FocusPlan {
    type V = FocusPlanView;

    open spec fn view(&self) -> FocusPlanView {
        match self {
            FocusPlan::Desktop => FocusPlanView::Desktop,
            FocusPlan::Script(s) => FocusPlanView::Script(s@),
            FocusPlan::Application(a) => FocusPlanView::Application(a@),
            FocusPlan::ProjectDirectory => FocusPlanView::ProjectDirectory,
        }
    }
}

pub open spec fn session_tty(s: CodexSessionView) -> Option<Seq<char>> {
    match s.tty {
        Some(t) => Some(strip_prefixes(t, "/dev/"@)),
        None => None,
    }
}

/// How a session is brought to the front: the desktop app as itself; a
/// Terminal tab or iTerm session by its terminal; without a terminal, the
/// host application; otherwise the project directory.
pub open spec fn focus_plan_of(s: CodexSessionView) -> FocusPlanView {
    if s.source == SessionSource::Desktop {
        FocusPlanView::Desktop
    } else {
        match (s.terminal_app, session_tty(s)) {
            (Some(TerminalAppView::Terminal), Some(t)) => FocusPlanView::Script(terminal_focus(t)),
            (Some(TerminalAppView::ITerm), Some(t)) => FocusPlanView::Script(iterm_focus(t)),
            (Some(TerminalAppView::Terminal), None) => FocusPlanView::Application("Terminal"@),
            (Some(TerminalAppView::ITerm), None) => FocusPlanView::Application("iTerm2"@),
            (Some(TerminalAppView::Unsupported(name)), _) => FocusPlanView::Application(name),
            _ => FocusPlanView::ProjectDirectory,
        }
    }
}

fn session_tty_of(session: &CodexSession) -> (r: Option<String>)
    ensures
        opt_string(r) == session_tty(session@),
{
    match &session.tty {
        Some(t) => {
            let v = chars_of(t.as_str());
            let p = chars_of("/dev/");
            let short = trim_start_matches_chars(&v, &p);
            Some(string_of(&short))
        },
        None => None,
    }
}

pub open spec fn opt_string(o: Option<String>) -> Option<Seq<char>> {
    match o {
        Some(s) => Some(s@),
        None => None,
    }
}

pub fn focus_plan(session: &CodexSession) -> (r: FocusPlan)
    ensures
        r@ == focus_plan_of(session@),
{
    if session.source == SessionSource::Desktop {
        return FocusPlan::Desktop;
    }
    let tty = session_tty_of(session);
    match (&session.terminal_app, &tty) {
        (Some(TerminalApp::Terminal), Some(t)) => FocusPlan::Script(terminal_focus_script(t.as_str())),
        (Some(TerminalApp::ITerm), Some(t)) => FocusPlan::Script(iterm_focus_script(t.as_str())),
        (Some(TerminalApp::Terminal), None) => FocusPlan::Application(owned("Terminal")),
        (Some(TerminalApp::ITerm), None) => FocusPlan::Application(owned("iTerm2")),
        (Some(TerminalApp::Unsupported(name)), _) => FocusPlan::Application(owned(name.as_str())),
        _ => FocusPlan::ProjectDirectory,
    }
}

/// The application that hosts a CLI session, by the name the island knows it.
pub open spec fn terminal_application(s: CodexSessionView) -> Result<Seq<char>, Seq<char>> {
    match s.terminal_app {
        Some(TerminalAppView::ITerm) => Ok("iTerm2"@),
        Some(TerminalAppView::Terminal) => Ok("Terminal"@),
        Some(TerminalAppView::Unsupported(name)) => Ok(name),
        None => Err("Session host does not map to a known terminal application"@),
    }
}

pub fn terminal_application_name(session: &CodexSession) -> (r: Result<String, String>)
    ensures
        match r {
            Ok(n) => terminal_application(session@) == Ok::<Seq<char>, Seq<char>>(n@),
            Err(e) => terminal_application(session@) == Err::<Seq<char>, Seq<char>>(e@),
        },
{
    match &session.terminal_app {
        Some(TerminalApp::ITerm) => Ok(owned("iTerm2")),
        Some(TerminalApp::Terminal) => Ok(owned("Terminal")),
        Some(TerminalApp::Unsupported(name)) => Ok(owned(name.as_str())),
        None => Err(owned("Session host does not map to a known terminal application")),
    }
}

/// How a session's project directory is opened: its directory, the
/// application `open -a` gets, and the one activated afterwards.
pub open spec fn project_directory_plan(s: CodexSessionView) -> Result<(Seq<char>, Seq<char>, Seq<char>), Seq<char>> {
    match s.cwd {
        None => Err("Session has no project directory"@),
        Some(cwd) => match s.terminal_app {
            Some(TerminalAppView::ITerm) => Ok((cwd, "iTerm"@, "iTerm2"@)),
            _ => Ok((cwd, "Terminal"@, "Terminal"@)),
        },
    }
}

pub fn project_directory_open(session: &CodexSession) -> (r: Result<(String, String, String), String>)
    ensures
        match r {
            Ok(x) => project_directory_plan(session@) == Ok::<(Seq<char>, Seq<char>, Seq<char>), Seq<char>>((x.0@, x.1@, x.2@)),
            Err(e) => project_directory_plan(session@) == Err::<(Seq<char>, Seq<char>, Seq<char>), Seq<char>>(e@),
        },
{
    match &session.cwd {
        None => Err(owned("Session has no project directory")),
        Some(cwd) => match &session.terminal_app {
            Some(TerminalApp::ITerm) => Ok((owned(cwd.as_str()), owned("iTerm"), owned("iTerm2"))),
            _ => Ok((owned(cwd.as_str()), owned("Terminal"), owned("Terminal"))),
        },
    }
}

/// The error reported when a focus script failed and so did the fallback:
/// the script's trimmed error output, if any, before the fallback's error.
pub open spec fn focus_failure(script_error: Seq<char>, fallback_error: Seq<char>) -> Seq<char> {
    if trim(script_error).len() == 0 {
        fallback_error
    } else {
        trim(script_error) + "; fallback failed: "@ + fallback_error
    }
}

pub fn focus_failure_message(script_error: &str, fallback_error: &str) -> (r: String)
    ensures
        r@ == focus_failure(script_error@, fallback_error@),
{
    let v = chars_of(script_error);
    let t = string_of(&trim_chars(&v));
    if t.as_str().unicode_len() == 0 {
        owned(fallback_error)
    } else {
        concat3(t.as_str(), "; fallback failed: ", fallback_error)
    }
}

pub open spec fn terminal_reply(tty: Seq<char>, escaped: Seq<char>) -> Seq<char> {
    "\ntell application \"Terminal\"\n  activate\n  repeat with w in windows\n    repeat with t in tabs of w\n      try\n        if tty of t is \""@
        + tty + "\" then\n          do script \""@ + escaped
        + "\" in t\n          return\n        end if\n      end try\n    end repeat\n  end repeat\nend tell\n"@
}

pub open spec fn iterm_reply(tty: Seq<char>, escaped: Seq<char>) -> Seq<char> {
    "\ntell application \"iTerm2\"\n  activate\n  repeat with w in windows\n    repeat with t in tabs of w\n      repeat with s in sessions of t\n        try\n          if tty of s is \""@
        + tty + "\" then\n            write text \""@ + escaped
        + "\" to s\n            return\n          end if\n        end try\n      end repeat\n    end repeat\n  end repeat\nend tell\n"@
}

pub open spec fn keystroke_reply(app: Seq<char>, escaped: Seq<char>) -> Seq<char> {
    "\ntell application \""@ + app
        + "\"\n  activate\nend tell\ndelay 0.1\ntell application \"System Events\"\n  keystroke \""@
        + escaped + "\"\n  key code 36\nend tell\n"@
}

/// The AppleScript that types `reply` into the session's terminal: written to
/// the Terminal tab or iTerm session on its tty, or typed as keystrokes into
/// another host application; other sessions cannot be answered inline.
pub open spec fn reply_script_of(s: CodexSessionView, reply: Seq<char>) -> Result<Seq<char>, Seq<char>> {
    let escaped = applescript_literal(reply);
    match (s.terminal_app, session_tty(s)) {
        (Some(TerminalAppView::Terminal), Some(t)) => Ok(terminal_reply(t, escaped)),
        (Some(TerminalAppView::ITerm), Some(t)) => Ok(iterm_reply(t, escaped)),
        (Some(TerminalAppView::Unsupported(name)), _) => Ok(keystroke_reply(applescript_name(name), escaped)),
        _ => Err("Session host does not support inline reply"@),
    }
}

pub fn reply_script(session: &CodexSession, reply: &str) -> (r: Result<String, String>)
    ensures
        match r {
            Ok(x) => reply_script_of(session@, reply@) == Ok::<Seq<char>, Seq<char>>(x@),
            Err(e) => reply_script_of(session@, reply@) == Err::<Seq<char>, Seq<char>>(e@),
        },
{
    let tty = session_tty_of(session);
    let escaped = applescript_string(reply);
    match (&session.terminal_app, &tty) {
        (Some(TerminalApp::Terminal), Some(t)) => {
            let mut out = concat5(
                "\ntell application \"Terminal\"\n  activate\n  repeat with w in windows\n    repeat with t in tabs of w\n      try\n        if tty of t is \"",
                t.as_str(),
                "\" then\n          do script \"",
                escaped.as_str(),
                "\" in t\n          return\n        end if\n      end try\n    end repeat\n  end repeat\nend tell\n",
            );
            Ok(out)
        },
        (Some(TerminalApp::ITerm), Some(t)) => Ok(
            concat5(
                "\ntell application \"iTerm2\"\n  activate\n  repeat with w in windows\n    repeat with t in tabs of w\n      repeat with s in sessions of t\n        try\n          if tty of s is \"",
                t.as_str(),
                "\" then\n            write text \"",
                escaped.as_str(),
                "\" to s\n            return\n          end if\n        end try\n      end repeat\n    end repeat\n  end repeat\nend tell\n",
            ),
        ),
        (Some(TerminalApp::Unsupported(name)), _) => Ok(
            concat5(
                "\ntell application \"",
                applescript_app_name(name.as_str()),
                "\"\n  activate\nend tell\ndelay 0.1\ntell application \"System Events\"\n  keystroke \"",
                escaped.as_str(),
                "\"\n  key code 36\nend tell\n",
            ),
        ),
        _ => Err(owned("Session host does not support inline reply")),
    }
}

/// Whether `s` holds a line break.
pub open spec fn has_line_break(s: Seq<char>) -> bool {
    exists|i: int| 0 <= i < s.len() && (s[i] == '\n' || s[i] == '\r')
}

pub proof fn lemma_normalized_has_no_cr(s: Seq<char>)
    ensures
        forall|i: int| 0 <= i < normalized_newlines(s).len() ==> #[trigger] normalized_newlines(s)[i] != '\r',
    decreases s.len(),
{
    if s.len() > 0 {
        let n = normalized_newlines(s);
        if s[0] == '\r' && s.len() >= 2 && s[1] == '\n' {
            let rest = normalized_newlines(s.skip(2));
            lemma_normalized_has_no_cr(s.skip(2));
            assert(n == seq!['\n'] + rest);
            assert forall|i: int| 0 <= i < n.len() implies #[trigger] n[i] != '\r' by {
                if i > 0 {
                    assert(n[i] == rest[i - 1]);
                }
            }
        } else {
            let rest = normalized_newlines(s.skip(1));
            lemma_normalized_has_no_cr(s.skip(1));
            let head = if s[0] == '\r' {
                seq!['\n']
            } else {
                seq![s[0]]
            };
            assert(n == head + rest);
            assert forall|i: int| 0 <= i < n.len() implies #[trigger] n[i] != '\r' by {
                if i > 0 {
                    assert(n[i] == rest[i - 1]);
                }
            }
        }
    }
}

pub proof fn lemma_body_single_line(t: Seq<char>)
    requires
        forall|i: int| 0 <= i < t.len() ==> #[trigger] t[i] != '\r',
    ensures
        !has_line_break(applescript_body(t)),
    decreases t.len(),
{
    if t.len() > 0 {
        let init = t.drop_last();
        assert forall|i: int| 0 <= i < init.len() implies #[trigger] init[i] != '\r' by {
            assert(init[i] == t[i]);
        }
        lemma_body_single_line(init);
        let c = t.last();
        assert(c == t[t.len() - 1]);
        reveal_strlit("\" & return & \"");
        reveal_strlit("\\\\");
        reveal_strlit("\\\"");
        let piece = applescript_char(c);
        assert(!has_line_break(piece));
        let whole = applescript_body(init) + piece;
        assert(whole == applescript_body(t));
        assert forall|i: int| 0 <= i < whole.len() implies !(whole[i] == '\n' || whole[i] == '\r') by {
            if i < applescript_body(init).len() {
                assert(whole[i] == applescript_body(init)[i]);
            } else {
                assert(whole[i] == piece[i - applescript_body(init).len()]);
            }
        }
    }
}

/// The AppleScript string expression for any text is a single line: every
/// line break of the text becomes `" & return & "`.
pub proof fn lemma_applescript_literal_single_line(value: Seq<char>)
    ensures
        !has_line_break(applescript_literal(value)),
{
    let n = normalized_newlines(value);
    lemma_normalized_has_no_cr(value);
    lemma_body_single_line(n);
    reveal_strlit("\"");
    let whole = "\""@ + applescript_body(n) + "\""@;
    assert(whole == applescript_literal(value));
    assert forall|i: int| 0 <= i < whole.len() implies !(whole[i] == '\n' || whole[i] == '\r') by {
        if i == 0 {
        } else if i < 1 + applescript_body(n).len() {
            assert(whole[i] == applescript_body(n)[i - 1]);
        } else {
        }
    }
}

/// Focusing a desktop session, or a session in an editor's or another
/// unsupported terminal, never falls back to its project directory: the
/// desktop app or that application is brought forward instead.
pub proof fn lemma_focus_skips_project_directory(s: CodexSessionView)
    requires
        s.source == SessionSource::Desktop || s.terminal_app matches Some(TerminalAppView::Unsupported(_)),
    ensures
        focus_plan_of(s) != FocusPlanView::ProjectDirectory,
        s.source == SessionSource::Desktop ==> focus_plan_of(s) == FocusPlanView::Desktop,
        s.source != SessionSource::Desktop ==> (s.terminal_app matches Some(TerminalAppView::Unsupported(name))
            && focus_plan_of(s) == FocusPlanView::Application(name)),
{
}

/// The script that focuses a CLI session hosted in iTerm, on a terminal, is
/// addressed to iTerm2 and looks for the session whose tty is the session's
/// terminal without its `/dev/` prefix; for one hosted in Terminal it is
/// addressed to Terminal and looks for the tab on that terminal.
pub proof fn lemma_focus_script_addresses_host(s: CodexSessionView)
    requires
        s.source == SessionSource::Cli,
        s.tty is Some,
    ensures
        s.terminal_app == Some(TerminalAppView::ITerm) ==> (focus_plan_of(s) matches FocusPlanView::Script(script)
            && starts_with(script, "\ntell application \"iTerm2\"\n"@) && contains(
            script,
            "if tty of s is \""@ + strip_prefixes(s.tty->Some_0, "/dev/"@) + "\" then"@,
        )),
        s.terminal_app == Some(TerminalAppView::Terminal) ==> (focus_plan_of(s) matches FocusPlanView::Script(
            script,
        ) && starts_with(script, "\ntell application \"Terminal\"\n"@) && contains(
            script,
            "if tty of t is \""@ + strip_prefixes(s.tty->Some_0, "/dev/"@) + "\" then"@,
        )),
{
    let t = strip_prefixes(s.tty->Some_0, "/dev/"@);
    reveal_strlit("\ntell application \"iTerm2\"\n  reopen\n  activate\n  repeat with w in windows\n    repeat with t in tabs of w\n      repeat with s in sessions of t\n        try\n          if tty of s is \"");
    reveal_strlit("\ntell application \"iTerm2\"\n");
    reveal_strlit("\ntell application \"Terminal\"\n  reopen\n  activate\n  repeat with w in windows\n    repeat with t in tabs of w\n      try\n        if tty of t is \"");
    reveal_strlit("\ntell application \"Terminal\"\n");
    reveal_strlit("if tty of s is \"");
    reveal_strlit("if tty of t is \"");
    reveal_strlit("\" then");
    reveal_strlit("\" then\n            set miniaturized of w to false\n            select t\n            tell w\n              set current tab to t\n              set current session of current tab to s\n              set frontmost to true\n            end tell\n            return\n          end if\n        end try\n      end repeat\n    end repeat\n  end repeat\n  error \"TTY_NOT_FOUND\"\nend tell\n");
    reveal_strlit("\" then\n          set miniaturized of w to false\n          set selected of t to true\n          set frontmost of w to true\n          return\n        end if\n      end try\n    end repeat\n  end repeat\n  error \"TTY_NOT_FOUND\"\nend tell\n");
    if s.terminal_app == Some(TerminalAppView::ITerm) {
        let head = "\ntell application \"iTerm2\"\n  reopen\n  activate\n  repeat with w in windows\n    repeat with t in tabs of w\n      repeat with s in sessions of t\n        try\n          if tty of s is \""@;
        let tail = "\" then\n            set miniaturized of w to false\n            select t\n            tell w\n              set current tab to t\n              set current session of current tab to s\n              set frontmost to true\n            end tell\n            return\n          end if\n        end try\n      end repeat\n    end repeat\n  end repeat\n  error \"TTY_NOT_FOUND\"\nend tell\n"@;
        let script = head + t + tail;
        assert(focus_plan_of(s) == FocusPlanView::Script(script));
        let app = "\ntell application \"iTerm2\"\n"@;
        assert(script.subrange(0, app.len() as int) =~= app);
        let pre = "if tty of s is \""@;
        let post = "\" then"@;
        let pat = pre + t + post;
        let i = head.len() - 16;
        assert(script.subrange(i, head.len() as int) =~= pre);
        assert(script.subrange(head.len() as int, (head.len() + t.len()) as int) =~= t);
        assert(script.subrange((head.len() + t.len()) as int, (head.len() + t.len() + 6) as int) =~= post);
        assert(script.subrange(i, i + pat.len()) =~= pat);
        assert(occurs_at(script, pat, i));
    }
    if s.terminal_app == Some(TerminalAppView::Terminal) {
        let head = "\ntell application \"Terminal\"\n  reopen\n  activate\n  repeat with w in windows\n    repeat with t in tabs of w\n      try\n        if tty of t is \""@;
        let tail = "\" then\n          set miniaturized of w to false\n          set selected of t to true\n          set frontmost of w to true\n          return\n        end if\n      end try\n    end repeat\n  end repeat\n  error \"TTY_NOT_FOUND\"\nend tell\n"@;
        let script = head + t + tail;
        assert(focus_plan_of(s) == FocusPlanView::Script(script));
        let app = "\ntell application \"Terminal\"\n"@;
        assert(script.subrange(0, app.len() as int) =~= app);
        let pre = "if tty of t is \""@;
        let post = "\" then"@;
        let pat = pre + t + post;
        let i = head.len() - 16;
        assert(script.subrange(i, head.len() as int) =~= pre);
        assert(script.subrange(head.len() as int, (head.len() + t.len()) as int) =~= t);
        assert(script.subrange((head.len() + t.len()) as int, (head.len() + t.len() + 6) as int) =~= post);
        assert(script.subrange(i, i + pat.len()) =~= pat);
        assert(occurs_at(script, pat, i));
    }
}

} // verus!

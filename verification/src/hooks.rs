//! Codex hook events: the command the island installs as a hook, and the
//! session events that the hook's JSON messages stand for.
use crate::discovery::cwd_basename;
use crate::json::{json_i64, json_int_at, json_str, json_text_at};
use crate::models::{
    PromptAction, PromptActionView, PromptSource, SessionEvent, SessionEventView, SessionSource,
    SessionStatus, SubmitTarget, SubmitTargetView, TerminalApp, TerminalAppView,
};
use crate::text::{chars_of, contains, file_name, lower_chars, lowercase_of, owned, push_str, has_text};
use vstd::prelude::*;
use vstd::string::*;

verus! {

broadcast use vstd::string::group_string_axioms;

/// Where the island listens for hook events.
pub fn socket_path() -> (r: &'static str)
    ensures
        r@ == "/tmp/codex-island.sock"@,
{
    "/tmp/codex-island.sock"
}

/// The hook command that the island installs for each hook event.
pub fn managed_hook_command() -> (r: &'static str)
    ensures
        r@ == "python3 ~/.codex/hooks/codex-island-state.py"@,
{
    "python3 ~/.codex/hooks/codex-island-state.py"
}

/// How long a cached hook event stays relevant, in milliseconds.
pub const EVENT_CACHE_TTL_MS: i64 = 30_000;

/// The terminal a hook reports by name: iTerm or Terminal when the
/// lower-cased name says so, none for an empty name, else the name as it is.
pub open spec fn terminal_app_named(value: Seq<char>) -> Option<TerminalAppView> {
    let lower = lowercase_of(value);
    if contains(lower, "iterm"@) {
        Some(TerminalAppView::ITerm)
    } else if contains(lower, "terminal"@) {
        Some(TerminalAppView::Terminal)
    } else if value.len() == 0 {
        None
    } else {
        Some(TerminalAppView::Unsupported(value))
    }
}

pub fn parse_terminal_app(value: &str) -> (r: Option<TerminalApp>)
    ensures
        r.deep_view() == terminal_app_named(value@),
{
    let v = chars_of(value);
    let lower = lower_chars(&v);
    if has_text(&lower, "iterm") {
        return Some(TerminalApp::ITerm);
    }
    if has_text(&lower, "terminal") {
        return Some(TerminalApp::Terminal);
    }
    if v.len() == 0 {
        return None;
    }
    Some(TerminalApp::Unsupported(owned(value)))
}

/// The status a hook reports.
pub open spec fn hook_status(s: Seq<char>) -> SessionStatus {
    if s == "waiting_for_input"@ {
        SessionStatus::WaitingInput
    } else if s == "idle"@ {
        SessionStatus::Idle
    } else if s == "completed"@ {
        SessionStatus::Completed
    } else if s == "failed"@ {
        SessionStatus::Failed
    } else {
        SessionStatus::Running
    }
}

fn status_from_hook(s: &str) -> (r: SessionStatus)
    ensures
        r == hook_status(s@),
{
    if crate::text::str_eq(s, "waiting_for_input") {
        SessionStatus::WaitingInput
    } else if crate::text::str_eq(s, "idle") {
        SessionStatus::Idle
    } else if crate::text::str_eq(s, "completed") {
        SessionStatus::Completed
    } else if crate::text::str_eq(s, "failed") {
        SessionStatus::Failed
    } else {
        SessionStatus::Running
    }
}

/// What a session with this status is doing, when the hook names no tool.
pub open spec fn status_activity(s: SessionStatus) -> Seq<char> {
    match s {
        SessionStatus::WaitingInput => "Waiting for input"@,
        SessionStatus::Completed => "Completed"@,
        SessionStatus::Failed => "Failed"@,
        _ => "Working"@,
    }
}

/// The session event that a hook message (JSON text) stands for, at the
/// instant `now_ms` (its time when it carries none). A message without a
/// `session_id` or a `status` string stands for none.
pub open spec fn hook_event(text: Seq<char>, now_ms: i64) -> Option<SessionEventView> {
    match (json_text_at(text, "/session_id"@), json_text_at(text, "/status"@)) {
        (Some(session_id), Some(status_text)) => {
            let status = hook_status(status_text);
            let cwd = json_text_at(text, "/cwd"@);
            let name = match cwd {
                Some(c) => file_name(c),
                None => None,
            };
            Some(
                SessionEventView {
                    session_id,
                    thread_id: Some(session_id),
                    source: if json_text_at(text, "/provider"@) == Some("desktop"@) {
                        SessionSource::Desktop
                    } else {
                        SessionSource::Cli
                    },
                    pid: match json_int_at(text, "/pid"@) {
                        Some(p) => if i32::MIN <= p <= i32::MAX {
                            Some(p as i32)
                        } else {
                            None
                        },
                        None => None,
                    },
                    cwd,
                    tty: json_text_at(text, "/tty"@),
                    terminal_app: match json_text_at(text, "/terminal_name"@) {
                        Some(n) => terminal_app_named(n),
                        None => None,
                    },
                    title: name,
                    project_name: name,
                    activity_label: Some(
                        match json_text_at(text, "/tool"@) {
                            Some(tool) => "Running "@ + tool,
                            None => status_activity(status),
                        },
                    ),
                    prompt_text: json_text_at(text, "/prompt"@),
                    user_prompt: json_text_at(text, "/user_prompt"@),
                    prompt_actions: Seq::empty(),
                    prompt_source: Some(PromptSource::Thread),
                    submit_target: Some(SubmitTargetView::ThreadId(session_id)),
                    status,
                    transcript_path: json_text_at(text, "/transcript_path"@),
                    happened_at_unix_ms: match json_int_at(text, "/timestamp"@) {
                        Some(t) => t,
                        None => now_ms,
                    },
                },
            )
        },
        _ => None,
    }
}

pub open spec fn opt_event(o: Option<SessionEvent>) -> Option<SessionEventView> {
    match o {
        Some(e) => Some(e@),
        None => None,
    }
}

/// The session event a hook message stands for, at the instant `now_ms`.
pub fn parse_hook_event_at(text: &str, now_ms: i64) -> (r: Option<SessionEvent>)
    ensures
        opt_event(r) == hook_event(text@, now_ms),
{
    let session_id = match json_str(text, "/session_id") {
        Some(s) => s,
        None => {
            return None;
        },
    };
    let status_text = match json_str(text, "/status") {
        Some(s) => s,
        None => {
            return None;
        },
    };
    let status = status_from_hook(status_text.as_str());
    let source = match json_str(text, "/provider") {
        Some(p) => if crate::text::str_eq(p.as_str(), "desktop") {
            SessionSource::Desktop
        } else {
            SessionSource::Cli
        },
        None => SessionSource::Cli,
    };
    let activity_label = match json_str(text, "/tool") {
        Some(tool) => {
            let mut l = owned("Running ");
            push_str(&mut l, tool.as_str());
            l
        },
        None => match status {
            SessionStatus::WaitingInput => owned("Waiting for input"),
            SessionStatus::Completed => owned("Completed"),
            SessionStatus::Failed => owned("Failed"),
            _ => owned("Working"),
        },
    };
    let happened_at_unix_ms = match json_i64(text, "/timestamp") {
        Some(t) => t,
        None => now_ms,
    };
    let terminal_app = match json_str(text, "/terminal_name") {
        Some(n) => parse_terminal_app(n.as_str()),
        None => None,
    };
    let pid = match json_i64(text, "/pid") {
        Some(p) => if i32::MIN as i64 <= p && p <= i32::MAX as i64 {
            Some(p as i32)
        } else {
            None
        },
        None => None,
    };
    let cwd = json_str(text, "/cwd");
    let title = match &cwd {
        Some(c) => cwd_basename(c.as_str()),
        None => None,
    };
    let project_name = match &cwd {
        Some(c) => cwd_basename(c.as_str()),
        None => None,
    };
    let none: Vec<PromptAction> = Vec::new();
    assert(none.deep_view() =~= Seq::<PromptActionView>::empty());
    Some(
        SessionEvent {
            session_id: owned(session_id.as_str()),
            thread_id: Some(owned(session_id.as_str())),
            source,
            pid,
            cwd,
            tty: json_str(text, "/tty"),
            terminal_app,
            title,
            project_name,
            activity_label: Some(activity_label),
            prompt_text: json_str(text, "/prompt"),
            user_prompt: json_str(text, "/user_prompt"),
            prompt_actions: none,
            prompt_source: Some(PromptSource::Thread),
            submit_target: Some(SubmitTarget::ThreadId(session_id)),
            status,
            transcript_path: json_str(text, "/transcript_path"),
            happened_at_unix_ms,
        },
    )
}

/// The session event a hook message stands for, dated now when it carries no
/// time of its own.
pub fn parse_hook_event_value(text: &str) -> (r: Option<SessionEvent>)
    ensures
        exists|now: i64| crate::time::chrono_millis_in_range(now) && opt_event(r) == hook_event(text@, now),
{
    let now = crate::time::utc_now_millis();
    parse_hook_event_at(text, now)
}

/// The cached hook events (one JSON message per line) that happened at most
/// thirty seconds before `now_ms`, in order.
pub open spec fn recent_events(lines: Seq<Seq<char>>, now_ms: i64) -> Seq<SessionEventView>
    decreases lines.len(),
{
    if lines.len() == 0 {
        Seq::empty()
    } else {
        let rest = recent_events(lines.drop_last(), now_ms);
        match hook_event(lines.last(), now_ms) {
            Some(e) => if e.happened_at_unix_ms >= now_ms - EVENT_CACHE_TTL_MS {
                rest.push(e)
            } else {
                rest
            },
            None => rest,
        }
    }
}

pub fn events_since(lines: &Vec<String>, now_ms: i64) -> (r: Vec<SessionEvent>)
    ensures
        r.deep_view() == recent_events(lines.deep_view(), now_ms),
{
    let ghost lv = lines.deep_view();
    let cutoff: i128 = now_ms as i128 - EVENT_CACHE_TTL_MS as i128;
    let mut out: Vec<SessionEvent> = Vec::new();
    let mut i: usize = 0;
    assert(lv.take(0) =~= Seq::<Seq<char>>::empty());
    while i < lines.len()
        invariant
            i <= lines.len(),
            lv == lines.deep_view(),
            cutoff == now_ms - EVENT_CACHE_TTL_MS,
            out.deep_view() == recent_events(lv.take(i as int), now_ms),
        decreases lines.len() - i,
    {
        assert(lv.take(i + 1).drop_last() =~= lv.take(i as int));
        assert(lv.take(i + 1).last() == lines@[i as int]@);
        let ghost before = out.deep_view();
        match parse_hook_event_at(lines[i].as_str(), now_ms) {
            Some(e) => {
                if e.happened_at_unix_ms as i128 >= cutoff {
                    out.push(e);
                    assert(out.deep_view() =~= before.push(out@[out.len() - 1]@));
                }
            },
            None => {},
        }
        i += 1;
    }
    assert(lv.take(lines.len() as int) =~= lv);
    out
}

/// Every cached event read back happened within the cache's lifetime before
/// the instant it is read at.
pub proof fn lemma_cached_events_are_fresh(lines: Seq<Seq<char>>, now_ms: i64)
    ensures
        forall|i: int|
            0 <= i < recent_events(lines, now_ms).len() ==> (#[trigger] recent_events(
                lines,
                now_ms,
            )[i]).happened_at_unix_ms >= now_ms - EVENT_CACHE_TTL_MS,
    decreases lines.len(),
{
    if lines.len() > 0 {
        lemma_cached_events_are_fresh(lines.drop_last(), now_ms);
    }
}

/// A hook event is always answered through its own thread.
pub proof fn lemma_hook_event_targets_its_thread(text: Seq<char>, now_ms: i64)
    ensures
        hook_event(text, now_ms) is Some ==> {
            let e = hook_event(text, now_ms)->Some_0;
            &&& e.submit_target == Some(SubmitTargetView::ThreadId(e.session_id))
            &&& e.thread_id == Some(e.session_id)
            &&& e.prompt_source == Some(PromptSource::Thread)
        },
{
}

/// How a hook message's status string reads: `waiting_for_input`, `idle`,
/// `completed` and `failed` name those statuses, and any other string means
/// Codex is running. Without a tool, the status line says "Waiting for input",
/// "Completed", "Failed", or else "Working"; with one, "Running" and the tool.
/// A message lacking a `session_id` or a `status` string stands for no event.
pub proof fn lemma_hook_status_table(text: Seq<char>, now_ms: i64)
    ensures
        (json_text_at(text, "/session_id"@) is None || json_text_at(text, "/status"@) is None) ==> hook_event(
            text,
            now_ms,
        ) is None,
        json_text_at(text, "/session_id"@) matches Some(id) ==> json_text_at(text, "/status"@) matches Some(st)
            ==> hook_event(text, now_ms) matches Some(e) && {
            &&& e.session_id == id
            &&& (st == "waiting_for_input"@ ==> e.status == SessionStatus::WaitingInput)
            &&& (st == "idle"@ ==> e.status == SessionStatus::Idle)
            &&& (st == "completed"@ ==> e.status == SessionStatus::Completed)
            &&& (st == "failed"@ ==> e.status == SessionStatus::Failed)
            &&& (st != "waiting_for_input"@ && st != "idle"@ && st != "completed"@ && st != "failed"@
                ==> e.status == SessionStatus::Running)
            &&& (json_text_at(text, "/tool"@) matches Some(tool) ==> e.activity_label == Some(
                "Running "@ + tool,
            ))
            &&& (json_text_at(text, "/tool"@) is None ==> e.activity_label == Some(
                if st == "waiting_for_input"@ {
                    "Waiting for input"@
                } else if st == "completed"@ {
                    "Completed"@
                } else if st == "failed"@ {
                    "Failed"@
                } else {
                    "Working"@
                },
            ))
        },
{
    reveal_strlit("waiting_for_input");
    reveal_strlit("idle");
    reveal_strlit("completed");
    reveal_strlit("failed");
    assert("waiting_for_input"@.len() == 17);
    assert("idle"@.len() == 4);
    assert("completed"@.len() == 9);
    assert("failed"@.len() == 6);
    if json_text_at(text, "/session_id"@) is Some && json_text_at(text, "/status"@) is Some {
        let st = json_text_at(text, "/status"@)->Some_0;
        let e = hook_event(text, now_ms)->Some_0;
        assert(e.status == hook_status(st));
        if st == "completed"@ {
            assert(st != "waiting_for_input"@);
            assert(st != "idle"@);
            assert(e.status == SessionStatus::Completed);
        }
        if st == "failed"@ {
            assert(st != "waiting_for_input"@);
            assert(st != "idle"@);
            assert(st != "completed"@);
        }
        if st == "idle"@ {
            assert(st != "waiting_for_input"@);
        }
        assert(e.status == SessionStatus::WaitingInput ==> st == "waiting_for_input"@);
    }
}

} // verus!

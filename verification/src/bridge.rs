//! The command-line bridge: its commands, and the state it builds from one
//! poll of a session monitor.
use crate::models::{CodexSession, CodexSessionView, DiscoveryObservation, ObservationView, SessionsPayload};
use crate::session_store::ingest_result;
use crate::state::{display_listing, shows, CoreState};
use crate::time::chrono_millis_in_range;
use crate::text::{owned, push_str};
use vstd::prelude::*;
use vstd::string::*;

verus! {

broadcast use vstd::string::group_string_axioms;

/// Something that can be asked which Codex sessions are live.
pub trait SessionMonitor {
    /// Whether `observations` is what one poll of this monitor can return. A
    /// monitor that does not say admits every list.
    open spec fn polled(&self, observations: Seq<ObservationView>) -> bool {
        true
    }

    fn poll(&self) -> (r: Vec<DiscoveryObservation>)
        ensures
            self.polled(r.deep_view()),
    ;
}

/// What the bridge was asked to do.
#[derive(Debug)]
pub enum CliCommand {
    GetSessions,
    FocusSession(String),
    SubmitSessionReply { session_id: String, reply: String },
}

/// How the bridge is used, as its error messages end.
pub open spec fn usage_listing() -> Seq<char> {
    "\nusage:\n  native-bridge get-sessions\n  native-bridge focus-session <session_id>\n  native-bridge submit-session-reply <session_id> <reply>"@
}

pub open spec fn usage_text(reason: Seq<char>) -> Seq<char> {
    reason + usage_listing()
}

/// The reason, followed by how the bridge is used.
pub fn usage(reason: &str) -> (r: String)
    ensures
        r@ == usage_text(reason@),
{
    let mut out = owned(reason);
    push_str(
        &mut out,
        "\nusage:\n  native-bridge get-sessions\n  native-bridge focus-session <session_id>\n  native-bridge submit-session-reply <session_id> <reply>",
    );
    out
}

pub enum CliCommandView {
    GetSessions,
    FocusSession(Seq<char>),
    SubmitSessionReply { session_id: Seq<char>, reply: Seq<char> },
}

impl View for CliCommand {
    type V = CliCommandView;

    open spec fn view(&self) -> CliCommandView {
        match self {
            CliCommand::GetSessions => CliCommandView::GetSessions,
            CliCommand::FocusSession(id) => CliCommandView::FocusSession(id@),
            CliCommand::SubmitSessionReply { session_id, reply } => CliCommandView::SubmitSessionReply {
                session_id: session_id@,
                reply: reply@,
            },
        }
    }
}

/// The command that the arguments (the program name first) ask for, or the
/// usage text explaining why they ask for none.
pub open spec fn command_of(args: Seq<Seq<char>>) -> Result<CliCommandView, Seq<char>> {
    if args.len() < 2 {
        Err(usage_text("missing command"@))
    } else if args[1] == "get-sessions"@ {
        Ok(CliCommandView::GetSessions)
    } else if args[1] == "focus-session"@ {
        if args.len() < 3 {
            Err(usage_text("focus-session requires a session id"@))
        } else {
            Ok(CliCommandView::FocusSession(args[2]))
        }
    } else if args[1] == "submit-session-reply"@ {
        if args.len() < 3 {
            Err(usage_text("submit-session-reply requires a session id"@))
        } else if args.len() < 4 {
            Err(usage_text("submit-session-reply requires reply text"@))
        } else {
            Ok(CliCommandView::SubmitSessionReply { session_id: args[2], reply: args[3] })
        }
    } else {
        Err(usage_text("unknown command: "@ + args[1]))
    }
}

pub fn parse_command(args: &[String]) -> (r: Result<CliCommand, String>)
    ensures
        match r {
            Ok(c) => command_of(args@.map_values(|a: String| a@)) == Ok::<CliCommandView, Seq<char>>(c@),
            Err(e) => command_of(args@.map_values(|a: String| a@)) == Err::<CliCommandView, Seq<char>>(e@),
        },
{
    let ghost av = args@.map_values(|a: String| a@);
    if args.len() < 2 {
        return Err(usage("missing command"));
    }
    assert(av[1] == args@[1]@);
    let command = args[1].as_str();
    if crate::text::str_eq(command, "get-sessions") {
        Ok(CliCommand::GetSessions)
    } else if crate::text::str_eq(command, "focus-session") {
        if args.len() < 3 {
            return Err(usage("focus-session requires a session id"));
        }
        assert(av[2] == args@[2]@);
        Ok(CliCommand::FocusSession(owned(args[2].as_str())))
    } else if crate::text::str_eq(command, "submit-session-reply") {
        if args.len() < 3 {
            return Err(usage("submit-session-reply requires a session id"));
        }
        if args.len() < 4 {
            return Err(usage("submit-session-reply requires reply text"));
        }
        assert(av[2] == args@[2]@);
        assert(av[3] == args@[3]@);
        Ok(
            CliCommand::SubmitSessionReply {
                session_id: owned(args[2].as_str()),
                reply: owned(args[3].as_str()),
            },
        )
    } else {
        let mut reason = owned("unknown command: ");
        push_str(&mut reason, command);
        Err(usage(reason.as_str()))
    }
}

/// A fresh state holding what one poll of `monitor` observed.
pub fn state_from_monitor<M: SessionMonitor>(monitor: &M) -> (r: CoreState)
    ensures
        !r.window_expanded,
        exists|observations: Seq<ObservationView>, now: i64|
            #![trigger ingest_result(Map::<Seq<char>, CodexSessionView>::empty(), observations, now)]
            monitor.polled(observations) && chrono_millis_in_range(now) && r.store@ == ingest_result(
                Map::<Seq<char>, CodexSessionView>::empty(),
                observations,
                now,
            ).0,
{
    let mut state = CoreState::default();
    let observations = monitor.poll();
    state.store.ingest(observations);
    state
}

/// The snapshot after one poll of `monitor`: the sessions that poll observed,
/// in display order.
pub fn snapshot_from_monitor<M: SessionMonitor>(monitor: &M) -> (r: SessionsPayload)
    ensures
        exists|observations: Seq<ObservationView>, polled_at: i64, listed: Seq<CodexSessionView>, now: i64|
            #![trigger ingest_result(Map::<Seq<char>, CodexSessionView>::empty(), observations, polled_at), shows(r, listed, now)]
            {
                &&& monitor.polled(observations)
                &&& chrono_millis_in_range(polled_at)
                &&& chrono_millis_in_range(now)
                &&& display_listing(
                    ingest_result(Map::<Seq<char>, CodexSessionView>::empty(), observations, polled_at).0,
                    listed,
                )
                &&& shows(r, listed, now)
            },
{
    let state = state_from_monitor(monitor);
    let r = state.snapshot();
    proof {
        let (observations, polled_at) = choose|observations: Seq<ObservationView>, polled_at: i64|
            monitor.polled(observations) && chrono_millis_in_range(polled_at) && state.store@ == ingest_result(
                Map::<Seq<char>, CodexSessionView>::empty(),
                observations,
                polled_at,
            ).0;
        let (listed, now) = choose|listed: Seq<CodexSessionView>, now: i64|
            chrono_millis_in_range(now) && display_listing(state.store@, listed) && shows(r, listed, now);
        assert(display_listing(
            ingest_result(Map::<Seq<char>, CodexSessionView>::empty(), observations, polled_at).0,
            listed,
        ));
    }
    r
}

/// The session `session_id` after one poll of `monitor`, or the error that
/// it was not found.
pub fn focusable_session_from_monitor<M: SessionMonitor>(monitor: &M, session_id: &str) -> (r: Result<
    CodexSession,
    String,
>)
    ensures
        r matches Err(e) ==> e@ == "session not found: "@ + session_id@,
        exists|observations: Seq<ObservationView>, now: i64|
            #![trigger ingest_result(Map::<Seq<char>, CodexSessionView>::empty(), observations, now)]
            {
                let store = ingest_result(
                    Map::<Seq<char>, CodexSessionView>::empty(),
                    observations,
                    now,
                ).0;
                &&& monitor.polled(observations)
                &&& chrono_millis_in_range(now)
                &&& (r is Ok <==> store.contains_key(session_id@))
                &&& (r matches Ok(s) ==> s@ == store[session_id@])
            },
{
    let state = state_from_monitor(monitor);
    match state.focusable_session(session_id) {
        Some(s) => Ok(s),
        None => {
            let mut e = owned("session not found: ");
            push_str(&mut e, session_id);
            Err(e)
        },
    }
}

/// Every command line that the bridge refuses is answered with a reason
/// followed by the usage listing.
pub proof fn lemma_refusals_show_usage(args: Seq<Seq<char>>)
    ensures
        command_of(args) is Err ==> exists|reason: Seq<char>|
            #[trigger] usage_text(reason) == command_of(args)->Err_0,
{
    if args.len() < 2 {
        assert(usage_text("missing command"@) == command_of(args)->Err_0);
    } else if args[1] == "get-sessions"@ {
    } else if args[1] == "focus-session"@ {
        if args.len() < 3 {
            assert(usage_text("focus-session requires a session id"@) == command_of(args)->Err_0);
        }
    } else if args[1] == "submit-session-reply"@ {
        if args.len() < 3 {
            assert(usage_text("submit-session-reply requires a session id"@) == command_of(args)->Err_0);
        } else if args.len() < 4 {
            assert(usage_text("submit-session-reply requires reply text"@) == command_of(args)->Err_0);
        }
    } else {
        assert(usage_text("unknown command: "@ + args[1]) == command_of(args)->Err_0);
    }
}

} // verus!

//! The store of tracked sessions: what polling observations and hook events
//! do to it, and the order in which it hands sessions out.
use crate::models::{
    actions_eq, dup_actions, dup_opt_target, history_label, observation_entry,
    observation_history_entry, observation_key,
    observed_status, session_from_observation, status_label_for_history, target_eq, CodexSession,
    CodexSessionView, DiscoveryObservation, ObservationView, SessionEvent, SessionEventView,
    SessionIngestionMode, SessionStatus, event_key, status_priority,
};
use crate::text::{chars_of, contains, lowercase, lowercase_of, owned, push_str, str_contains, str_eq};
use crate::time::{chrono_millis_in_range, unix_ms_to_utc_at, utc_instant, utc_now_millis};
use vstd::prelude::*;

verus! {

broadcast use vstd::string::group_string_axioms;

/// How long a hook event keeps polling from overriding what it reported.
pub const HOOK_EVENT_STALE_AFTER_MS: i64 = 60_000;

/// How many entries a session's status or conversation history keeps.
pub const HISTORY_LIMIT: usize = 10;

// ---------------------------------------------------------------------------
// The abstract store: sessions by key
// ---------------------------------------------------------------------------

pub open spec fn unique_keys(s: Seq<CodexSessionView>) -> bool {
    forall|i: int, j: int|
        0 <= i < s.len() && 0 <= j < s.len() && i != j ==> #[trigger] s[i].session_id
            != #[trigger] s[j].session_id
}

pub open spec fn to_map(s: Seq<CodexSessionView>) -> Map<Seq<char>, CodexSessionView>
    decreases s.len(),
{
    if s.len() == 0 {
        Map::empty()
    } else {
        to_map(s.drop_last()).insert(s.last().session_id, s.last())
    }
}

/// Every session needs attention exactly when it waits for input.
pub open spec fn attention_consistent(m: Map<Seq<char>, CodexSessionView>) -> bool {
    forall|k: Seq<char>|
        #[trigger] m.contains_key(k) ==> (m[k].needs_attention <==> m[k].status
            == SessionStatus::WaitingInput)
}

/// Every session is held under its own key.
pub open spec fn keyed_by_id(m: Map<Seq<char>, CodexSessionView>) -> bool {
    forall|k: Seq<char>| #[trigger] m.contains_key(k) ==> m[k].session_id == k
}

pub proof fn lemma_to_map_keys(s: Seq<CodexSessionView>, k: Seq<char>)
    ensures
        to_map(s).contains_key(k) <==> exists|i: int| 0 <= i < s.len() && s[i].session_id == k,
    decreases s.len(),
{
    if s.len() > 0 {
        lemma_to_map_keys(s.drop_last(), k);
        if to_map(s).contains_key(k) && k != s.last().session_id {
            let i = choose|i: int| 0 <= i < s.drop_last().len() && s.drop_last()[i].session_id == k;
            assert(s[i].session_id == k);
        }
        if exists|i: int| 0 <= i < s.len() && s[i].session_id == k {
            let i = choose|i: int| 0 <= i < s.len() && s[i].session_id == k;
            if i < s.len() - 1 {
                assert(s.drop_last()[i].session_id == k);
            }
        }
    }
}

pub proof fn lemma_to_map_value(s: Seq<CodexSessionView>, i: int)
    requires
        unique_keys(s),
        0 <= i < s.len(),
    ensures
        to_map(s).contains_key(s[i].session_id),
        to_map(s)[s[i].session_id] == s[i],
    decreases s.len(),
{
    if i < s.len() - 1 {
        assert(unique_keys(s.drop_last()));
        lemma_to_map_value(s.drop_last(), i);
        assert(s.drop_last()[i] == s[i]);
    }
}

pub proof fn lemma_to_map_keyed(s: Seq<CodexSessionView>)
    requires
        unique_keys(s),
    ensures
        keyed_by_id(to_map(s)),
        to_map(s).dom().finite(),
        to_map(s).dom().len() == s.len(),
    decreases s.len(),
{
    if s.len() > 0 {
        assert(unique_keys(s.drop_last()));
        lemma_to_map_keyed(s.drop_last());
        lemma_to_map_keys(s.drop_last(), s.last().session_id);
        if to_map(s.drop_last()).contains_key(s.last().session_id) {
            let i = choose|i: int|
                0 <= i < s.drop_last().len() && s.drop_last()[i].session_id == s.last().session_id;
            assert(s[i].session_id == s[s.len() - 1].session_id);
        }
    }
}

pub proof fn lemma_to_map_update(s: Seq<CodexSessionView>, i: int, x: CodexSessionView)
    requires
        unique_keys(s),
        0 <= i < s.len(),
        x.session_id == s[i].session_id,
    ensures
        unique_keys(s.update(i, x)),
        to_map(s.update(i, x)) == to_map(s).insert(x.session_id, x),
    decreases s.len(),
{
    let t = s.update(i, x);
    assert(unique_keys(t)) by {
        assert forall|a: int, b: int|
            0 <= a < t.len() && 0 <= b < t.len() && a != b implies #[trigger] t[a].session_id
            != #[trigger] t[b].session_id by {
            assert(t[a].session_id == s[a].session_id);
            assert(t[b].session_id == s[b].session_id);
        }
    }
    if i == s.len() - 1 {
        assert(t.drop_last() == s.drop_last());
        lemma_to_map_keys(s.drop_last(), x.session_id);
        assert(to_map(t) =~= to_map(s).insert(x.session_id, x));
    } else {
        assert(unique_keys(s.drop_last()));
        lemma_to_map_update(s.drop_last(), i, x);
        assert(t.drop_last() == s.drop_last().update(i, x));
        assert(s.last().session_id != x.session_id);
        assert(to_map(t) =~= to_map(s).insert(x.session_id, x));
    }
}

pub proof fn lemma_push_unique(s: Seq<CodexSessionView>, x: CodexSessionView)
    requires
        unique_keys(s),
        !to_map(s).contains_key(x.session_id),
    ensures
        unique_keys(s.push(x)),
        to_map(s.push(x)) == to_map(s).insert(x.session_id, x),
{
    let t = s.push(x);
    assert(t.drop_last() == s);
    assert forall|a: int, b: int|
        0 <= a < t.len() && 0 <= b < t.len() && a != b implies #[trigger] t[a].session_id
        != #[trigger] t[b].session_id by {
        if a == s.len() {
            lemma_to_map_keys(s, x.session_id);
            assert(t[b] == s[b]);
        } else if b == s.len() {
            lemma_to_map_keys(s, x.session_id);
            assert(t[a] == s[a]);
        } else {
            assert(t[a] == s[a]);
            assert(t[b] == s[b]);
        }
    }
}

// ---------------------------------------------------------------------------
// Histories
// ---------------------------------------------------------------------------

/// `history` with `entry` appended unless it already ends with it, keeping
/// the last ten entries.
pub open spec fn appended(history: Seq<Seq<char>>, entry: Seq<char>) -> Seq<Seq<char>> {
    if history.len() > 0 && history.last() == entry {
        history
    } else {
        let h = history.push(entry);
        if h.len() > HISTORY_LIMIT {
            h.subrange(h.len() - HISTORY_LIMIT, h.len() as int)
        } else {
            h
        }
    }
}

pub open spec fn conversation_entry(role: Seq<char>, text: Seq<char>) -> Seq<char> {
    role + ": "@ + text
}

pub open spec fn initial_conversation(user: Option<Seq<char>>, assistant: Option<Seq<char>>) -> Seq<
    Seq<char>,
> {
    let h = match user {
        Some(u) => seq![conversation_entry("You"@, u)],
        None => Seq::empty(),
    };
    match assistant {
        Some(a) => h.push(conversation_entry("Assistant"@, a)),
        None => h,
    }
}

/// Appends `entry` unless the history already ends with it, then drops the
/// oldest entries beyond ten.
pub fn append_history(history: &mut Vec<String>, entry: String)
    ensures
        final(history).deep_view() == appended(old(history).deep_view(), entry@),
{
    let n = history.len();
    if n > 0 && str_eq(history[n - 1].as_str(), entry.as_str()) {
        return ;
    }
    let ghost before = history.deep_view();
    history.push(entry);
    assert(history.deep_view() =~= before.push(entry@));
    if history.len() > HISTORY_LIMIT {
        let overflow = history.len() - HISTORY_LIMIT;
        let ghost full = history.deep_view();
        let mut k: usize = 0;
        while k < overflow
            invariant
                k <= overflow,
                overflow + HISTORY_LIMIT == full.len(),
                history.deep_view() == full.subrange(k as int, full.len() as int),
                history@.len() == full.len() - k,
            decreases overflow - k,
        {
            let ghost cur = history.deep_view();
            history.remove(0);
            assert(history.deep_view() =~= cur.subrange(1, cur.len() as int));
            k += 1;
        }
    }
}

/// The conversation history of a session that starts with these prompts.
pub fn initial_conversation_history(user_prompt: Option<&str>, assistant_prompt: Option<&str>) -> (r:
    Vec<String>)
    ensures
        r.deep_view() == initial_conversation(
            match user_prompt {
                Some(u) => Some(u@),
                None => None,
            },
            match assistant_prompt {
                Some(a) => Some(a@),
                None => None,
            },
        ),
{
    let mut history: Vec<String> = Vec::new();
    if let Some(u) = user_prompt {
        let mut e = owned("You");
        push_str(&mut e, ": ");
        push_str(&mut e, u);
        history.push(e);
    }
    let ghost mid = history.deep_view();
    if let Some(a) = assistant_prompt {
        let mut e = owned("Assistant");
        push_str(&mut e, ": ");
        push_str(&mut e, a);
        history.push(e);
        assert(history.deep_view() =~= mid.push(conversation_entry("Assistant"@, a@)));
    }
    assert(history.deep_view() =~= initial_conversation(
        match user_prompt {
            Some(u) => Some(u@),
            None => None,
        },
        match assistant_prompt {
            Some(a) => Some(a@),
            None => None,
        },
    ));
    history
}

/// Appends `role: text` to a conversation history.
pub fn append_conversation_history(history: &mut Vec<String>, role: &str, text: &str)
    ensures
        final(history).deep_view() == appended(
            old(history).deep_view(),
            conversation_entry(role@, text@),
        ),
{
    let mut e = owned(role);
    push_str(&mut e, ": ");
    push_str(&mut e, text);
    append_history(history, e);
}


// ---------------------------------------------------------------------------
// Observations
// ---------------------------------------------------------------------------

/// The session had a hook event at most a minute before `now_ms`, so polling
/// does not override what the hook reported.
pub open spec fn recent_event(s: CodexSessionView, now_ms: i64) -> bool {
    s.last_event_at matches Some(t) && now_ms - t <= HOOK_EVENT_STALE_AFTER_MS
}

pub open spec fn key_of(o: ObservationView) -> Seq<char> {
    observation_key(o.source, o.tty, o.pid)
}

/// `s` after observation `o`; `now` stands in for an instant chrono cannot
/// represent.
pub open spec fn observed(s: CodexSessionView, o: ObservationView, now: i64) -> CodexSessionView {
    let at = utc_instant(o.seen_at_unix_ms, now);
    let status = observed_status(o);
    let base = CodexSessionView {
        pid: o.pid,
        parent_pid: o.parent_pid,
        tty: o.tty,
        cwd: o.cwd,
        terminal_app: o.terminal_app,
        title: o.title,
        source: o.source,
        last_activity_at: at,
        last_observation_at: Some(at),
        ..s
    };
    let upd = if !recent_event(s, o.seen_at_unix_ms) {
        CodexSessionView {
            status: status,
            ingestion_mode: SessionIngestionMode::Fallback,
            needs_attention: status == SessionStatus::WaitingInput,
            activity_label: o.activity_label,
            last_snapshot: o.interaction_hint,
            prompt_actions: o.prompt_actions,
            prompt_source: o.prompt_source,
            submit_target: o.submit_target,
            status_history: appended(s.status_history, observation_history_entry(o, status)),
            ..base
        }
    } else if s.submit_target is None {
        CodexSessionView { submit_target: o.submit_target, ..base }
    } else {
        base
    };
    if upd.needs_attention && !s.needs_attention {
        CodexSessionView { notification_sent_at: None, ..upd }
    } else {
        upd
    }
}

/// What a poll counts as a change of a session.
pub open spec fn observation_changes(s: CodexSessionView, t: CodexSessionView) -> bool {
    ||| s.status != t.status
    ||| s.ingestion_mode != t.ingestion_mode
    ||| s.needs_attention != t.needs_attention
    ||| s.prompt_actions != t.prompt_actions
    ||| s.submit_target != t.submit_target
}

/// The store after one observation, and whether it changed.
pub open spec fn observe(m: Map<Seq<char>, CodexSessionView>, o: ObservationView, now: i64) -> (
    Map<Seq<char>, CodexSessionView>,
    bool,
) {
    let k = key_of(o);
    if m.contains_key(k) {
        let t = observed(m[k], o, now);
        (m.insert(k, t), observation_changes(m[k], t))
    } else {
        (m.insert(k, session_from_observation(o, observed_status(o), now)), true)
    }
}

/// The store after the observations in order, and whether any changed it.
pub open spec fn observe_all(
    m: Map<Seq<char>, CodexSessionView>,
    obs: Seq<ObservationView>,
    now: i64,
) -> (Map<Seq<char>, CodexSessionView>, bool)
    decreases obs.len(),
{
    if obs.len() == 0 {
        (m, false)
    } else {
        let (m1, c1) = observe_all(m, obs.drop_last(), now);
        let (m2, c2) = observe(m1, obs.last(), now);
        (m2, c1 || c2)
    }
}

/// The keys of the sessions that the observations belong to.
pub open spec fn observed_keys(obs: Seq<ObservationView>) -> Set<Seq<char>> {
    Set::new(|k: Seq<char>| exists|i: int| 0 <= i < obs.len() && key_of(obs[i]) == k)
}

/// The store after a poll: every observation applied in order, then every
/// session that no observation belongs to removed; and whether anything
/// changed (an observed session changed, a new one appeared, or one was
/// removed).
pub open spec fn ingest_result(
    m: Map<Seq<char>, CodexSessionView>,
    obs: Seq<ObservationView>,
    now: i64,
) -> (Map<Seq<char>, CodexSessionView>, bool) {
    let (m1, c1) = observe_all(m, obs, now);
    let kept = m1.restrict(observed_keys(obs));
    (kept, c1 || exists|k: Seq<char>| m1.contains_key(k) && !observed_keys(obs).contains(k))
}

pub open spec fn session_attention_consistent(s: CodexSessionView) -> bool {
    s.needs_attention <==> s.status == SessionStatus::WaitingInput
}

/// Whether `label` mentions idleness, in any letter case.
pub fn is_idle_activity_label(label: &str) -> (r: bool)
    ensures
        r == contains(lowercase_of(label@), "idle"@),
{
    let lower = lowercase(label);
    str_contains(lower.as_str(), "idle")
}

/// The status an observation implies.
pub fn status_of_observation(observation: &DiscoveryObservation) -> (r: SessionStatus)
    ensures
        r == observed_status(observation@),
{
    if observation.interaction_hint.is_some() {
        SessionStatus::WaitingInput
    } else {
        match &observation.activity_label {
            Some(l) => {
                if is_idle_activity_label(l.as_str()) {
                    SessionStatus::Idle
                } else {
                    SessionStatus::Running
                }
            },
            None => SessionStatus::Running,
        }
    }
}

/// Whether the session had a hook event at most a minute before `now_unix_ms`.
pub fn has_recent_event(session: &CodexSession, now_unix_ms: i64) -> (r: bool)
    ensures
        r == recent_event(session@, now_unix_ms),
{
    match session.last_event_at {
        Some(t) => (now_unix_ms as i128 - t as i128) <= HOOK_EVENT_STALE_AFTER_MS as i128,
        None => false,
    }
}

/// Applies an observation of an existing session; returns whether a poll
/// counts it as a change.
fn apply_observation(session: &mut CodexSession, observation: DiscoveryObservation, now: i64) -> (changed:
    bool)
    ensures
        final(session)@ == observed(old(session)@, observation@, now),
        changed == observation_changes(old(session)@, final(session)@),
{
    let ghost s0 = session@;
    let ghost o = observation@;
    let status = status_of_observation(&observation);
    let at = unix_ms_to_utc_at(observation.seen_at_unix_ms, now);
    let previous_status = session.status;
    let previous_mode = session.ingestion_mode;
    let previous_attention = session.needs_attention;
    let previous_actions = dup_actions(&session.prompt_actions);
    let previous_target = dup_opt_target(&session.submit_target);
    let fallback = !has_recent_event(session, observation.seen_at_unix_ms);
    let entry = observation_entry(&observation, &status);
    session.pid = observation.pid;
    session.parent_pid = observation.parent_pid;
    session.tty = observation.tty;
    session.cwd = observation.cwd;
    session.terminal_app = observation.terminal_app;
    session.title = observation.title;
    session.source = observation.source;
    session.last_activity_at = at;
    session.last_observation_at = Some(at);
    if fallback {
        session.status = status;
        session.ingestion_mode = SessionIngestionMode::Fallback;
        session.needs_attention = status == SessionStatus::WaitingInput;
        session.activity_label = observation.activity_label;
        session.last_snapshot = observation.interaction_hint;
        session.prompt_actions = observation.prompt_actions;
        session.prompt_source = observation.prompt_source;
        session.submit_target = observation.submit_target;
        append_history(&mut session.status_history, entry);
    } else if session.submit_target.is_none() {
        session.submit_target = observation.submit_target;
    }
    if session.needs_attention && !previous_attention {
        session.notification_sent_at = None;
    }
    assert(session@ == observed(s0, o, now));
    previous_status != session.status || previous_mode != session.ingestion_mode
        || previous_attention != session.needs_attention || !actions_eq(
        &previous_actions,
        &session.prompt_actions,
    ) || !target_eq(&previous_target, &session.submit_target)
}

/// The index of the session with key `id`, if any.
fn find_session(sessions: &Vec<CodexSession>, id: &String) -> (r: Option<usize>)
    ensures
        match r {
            Some(i) => i < sessions.len() && sessions.deep_view()[i as int].session_id == id@,
            None => forall|j: int|
                0 <= j < sessions.len() ==> sessions.deep_view()[j].session_id != id@,
        },
{
    let mut i: usize = 0;
    while i < sessions.len()
        invariant
            i <= sessions.len(),
            forall|j: int| 0 <= j < i ==> sessions.deep_view()[j].session_id != id@,
        decreases sessions.len() - i,
    {
        if str_eq(sessions[i].session_id.as_str(), id.as_str()) {
            return Some(i);
        }
        i += 1;
    }
    None
}

/// Whether `keys` holds `k`.
fn has_key(keys: &Vec<String>, k: &String) -> (r: bool)
    ensures
        r == keys.deep_view().contains(k@),
{
    let mut i: usize = 0;
    while i < keys.len()
        invariant
            i <= keys.len(),
            forall|j: int| 0 <= j < i ==> keys.deep_view()[j] != k@,
        decreases keys.len() - i,
    {
        if str_eq(keys[i].as_str(), k.as_str()) {
            assert(keys.deep_view()[i as int] == k@);
            return true;
        }
        i += 1;
    }
    false
}


// ---------------------------------------------------------------------------
// Hook events
// ---------------------------------------------------------------------------

pub open spec fn or_else<T>(a: Option<T>, b: Option<T>) -> Option<T> {
    if a is Some {
        a
    } else {
        b
    }
}

/// The history entry an event leaves: its activity, else its prompt, else the
/// status label.
pub open spec fn event_history_entry(e: SessionEventView) -> Seq<char> {
    match e.activity_label {
        Some(l) => l,
        None => match e.prompt_text {
            Some(p) => p,
            None => history_label(e.status),
        },
    }
}

/// A conversation history after a user prompt and an assistant prompt, each
/// where present.
pub open spec fn conversation_after(
    h: Seq<Seq<char>>,
    user: Option<Seq<char>>,
    assistant: Option<Seq<char>>,
) -> Seq<Seq<char>> {
    let h1 = match user {
        Some(u) => appended(h, conversation_entry("You"@, u)),
        None => h,
    };
    match assistant {
        Some(a) => appended(h1, conversation_entry("Assistant"@, a)),
        None => h1,
    }
}

fn extend_conversation(history: &mut Vec<String>, user: &Option<String>, assistant: &Option<String>)
    ensures
        final(history).deep_view() == conversation_after(
            old(history).deep_view(),
            user.deep_view(),
            assistant.deep_view(),
        ),
{
    if let Some(user_prompt) = user {
        append_conversation_history(history, "You", user_prompt.as_str());
    }
    if let Some(assistant_prompt) = assistant {
        append_conversation_history(history, "Assistant", assistant_prompt.as_str());
    }
}

/// `s` after hook event `e`, which happened at `at`.
pub open spec fn event_applied(s: CodexSessionView, e: SessionEventView, at: i64) -> CodexSessionView {
    let conv2 = conversation_after(s.conversation_history, e.user_prompt, e.prompt_text);
    let t = CodexSessionView {
        pid: match e.pid {
            Some(p) => p,
            None => s.pid,
        },
        cwd: or_else(e.cwd, s.cwd),
        tty: or_else(e.tty, s.tty),
        terminal_app: or_else(e.terminal_app, s.terminal_app),
        title: match e.title {
            Some(x) => x,
            None => s.title,
        },
        project_name: or_else(e.project_name, s.project_name),
        source: e.source,
        status: e.status,
        ingestion_mode: SessionIngestionMode::Hooks,
        needs_attention: e.status == SessionStatus::WaitingInput,
        last_activity_at: at,
        activity_label: e.activity_label,
        last_snapshot: e.prompt_text,
        latest_user_prompt: or_else(e.user_prompt, s.latest_user_prompt),
        conversation_history: conv2,
        prompt_actions: e.prompt_actions,
        prompt_source: e.prompt_source,
        submit_target: or_else(e.submit_target, s.submit_target),
        last_event_at: Some(at),
        transcript_path: or_else(e.transcript_path, s.transcript_path),
        status_history: appended(s.status_history, event_history_entry(e)),
        ..s
    };
    if t.needs_attention && !s.needs_attention {
        CodexSessionView { notification_sent_at: None, ..t }
    } else {
        t
    }
}

/// A new session made from its first hook event.
pub open spec fn session_from_event(k: Seq<char>, e: SessionEventView, at: i64) -> CodexSessionView {
    CodexSessionView {
        session_id: k,
        source: e.source,
        pid: match e.pid {
            Some(p) => p,
            None => 0,
        },
        parent_pid: None,
        tty: e.tty,
        cwd: e.cwd,
        terminal_app: e.terminal_app,
        title: match e.title {
            Some(x) => x,
            None => "Codex"@,
        },
        project_name: e.project_name,
        status: e.status,
        ingestion_mode: SessionIngestionMode::Hooks,
        needs_attention: e.status == SessionStatus::WaitingInput,
        last_activity_at: at,
        activity_label: e.activity_label,
        last_snapshot: e.prompt_text,
        latest_user_prompt: e.user_prompt,
        prompt_actions: e.prompt_actions,
        prompt_source: e.prompt_source,
        submit_target: e.submit_target,
        notification_sent_at: None,
        last_event_at: Some(at),
        last_observation_at: None,
        transcript_path: e.transcript_path,
        status_history: seq![event_history_entry(e)],
        conversation_history: initial_conversation(e.user_prompt, e.prompt_text),
    }
}

/// The store after a hook event (`now` stands in for an instant chrono cannot
/// represent), and whether the event changed anything.
pub open spec fn event_result(m: Map<Seq<char>, CodexSessionView>, e: SessionEventView, now: i64) -> (
    Map<Seq<char>, CodexSessionView>,
    bool,
) {
    let k = event_key(e);
    let at = utc_instant(e.happened_at_unix_ms, now);
    if m.contains_key(k) {
        let t = event_applied(m[k], e, at);
        (m.insert(k, t), t != m[k])
    } else {
        (m.insert(k, session_from_event(k, e, at)), true)
    }
}

fn event_entry(event: &SessionEvent) -> (r: String)
    ensures
        r@ == event_history_entry(event@),
{
    match &event.activity_label {
        Some(l) => l.clone(),
        None => match &event.prompt_text {
            Some(p) => p.clone(),
            None => owned(status_label_for_history(&event.status)),
        },
    }
}

fn opt_str<'a>(o: &'a Option<String>) -> (r: Option<&'a str>)
    ensures
        match r {
            Some(x) => o.deep_view() == Some(x@),
            None => o.deep_view() == None::<Seq<char>>,
        },
{
    match o {
        Some(s) => Some(s.as_str()),
        None => None,
    }
}

/// Applies a hook event to an existing session; returns whether it changed.
#[verifier::rlimit(40)]
fn apply_event(session: &mut CodexSession, event: SessionEvent, at: i64) -> (changed: bool)
    ensures
        final(session)@ == event_applied(old(session)@, event@, at),
        changed == (final(session)@ != old(session)@),
{
    let ghost s0 = session@;
    let ghost e = event@;
    let previous = session.duplicate();
    let entry = event_entry(&event);
    if let Some(pid) = event.pid {
        session.pid = pid;
    }
    if event.cwd.is_some() {
        session.cwd = event.cwd;
    }
    if event.tty.is_some() {
        session.tty = event.tty;
    }
    if event.terminal_app.is_some() {
        session.terminal_app = event.terminal_app;
    }
    if let Some(title) = event.title {
        session.title = title;
    }
    if event.project_name.is_some() {
        session.project_name = event.project_name;
    }
    session.source = event.source;
    session.status = event.status;
    session.ingestion_mode = SessionIngestionMode::Hooks;
    session.needs_attention = event.status == SessionStatus::WaitingInput;
    session.last_activity_at = at;
    extend_conversation(&mut session.conversation_history, &event.user_prompt, &event.prompt_text);
    if event.user_prompt.is_some() {
        session.latest_user_prompt = event.user_prompt;
    }
    session.activity_label = event.activity_label;
    session.last_snapshot = event.prompt_text;
    session.prompt_actions = event.prompt_actions;
    session.prompt_source = event.prompt_source;
    if event.submit_target.is_some() {
        session.submit_target = event.submit_target;
    }
    session.last_event_at = Some(at);
    if event.transcript_path.is_some() {
        session.transcript_path = event.transcript_path;
    }
    append_history(&mut session.status_history, entry);
    if session.needs_attention && !previous.needs_attention {
        session.notification_sent_at = None;
    }
    assert(session@ == event_applied(s0, e, at));
    !session.same_as(&previous)
}

// ---------------------------------------------------------------------------
// Order
// ---------------------------------------------------------------------------

/// `a` comes before `b` in code-point (equivalently UTF-8 byte) order.
pub open spec fn lex_lt(a: Seq<char>, b: Seq<char>) -> bool
    decreases a.len(),
{
    if a.len() == 0 {
        b.len() > 0
    } else if b.len() == 0 {
        false
    } else if a[0] != b[0] {
        (a[0] as u32) < (b[0] as u32)
    } else {
        lex_lt(a.drop_first(), b.drop_first())
    }
}

/// `a` is listed before `b`: more recent activity first, then the more
/// urgent status, then titles in order.
pub open spec fn sorts_before(a: CodexSessionView, b: CodexSessionView) -> bool {
    ||| a.last_activity_at > b.last_activity_at
    ||| a.last_activity_at == b.last_activity_at && status_priority(a.status) > status_priority(
        b.status,
    )
    ||| a.last_activity_at == b.last_activity_at && status_priority(a.status) == status_priority(
        b.status,
    ) && lex_lt(a.title, b.title)
}

pub proof fn lemma_lex_lt_transitive(a: Seq<char>, b: Seq<char>, c: Seq<char>)
    requires
        lex_lt(a, b),
        lex_lt(b, c),
    ensures
        lex_lt(a, c),
    decreases a.len(),
{
    if a.len() > 0 && b.len() > 0 && c.len() > 0 && a[0] == b[0] && b[0] == c[0] {
        lemma_lex_lt_transitive(a.drop_first(), b.drop_first(), c.drop_first());
    }
}

pub proof fn lemma_lex_lt_irreflexive(a: Seq<char>)
    ensures
        !lex_lt(a, a),
    decreases a.len(),
{
    if a.len() > 0 {
        lemma_lex_lt_irreflexive(a.drop_first());
    }
}

pub proof fn lemma_sorts_before_irreflexive(a: CodexSessionView)
    ensures
        !sorts_before(a, a),
{
    lemma_lex_lt_irreflexive(a.title);
}

pub proof fn lemma_sorts_before_transitive(a: CodexSessionView, b: CodexSessionView, c: CodexSessionView)
    requires
        sorts_before(a, b),
        sorts_before(b, c),
    ensures
        sorts_before(a, c),
{
    if a.last_activity_at == c.last_activity_at && status_priority(a.status) == status_priority(
        c.status,
    ) {
        lemma_lex_lt_transitive(a.title, b.title, c.title);
    }
}

/// Whether title `a` sorts before title `b`.
pub fn title_before(a: &Vec<char>, b: &Vec<char>) -> (r: bool)
    ensures
        r == lex_lt(a@, b@),
{
    let mut k: usize = 0;
    assert(a@.skip(0) == a@);
    assert(b@.skip(0) == b@);
    loop
        invariant
            k <= a.len(),
            k <= b.len(),
            lex_lt(a@, b@) == lex_lt(a@.skip(k as int), b@.skip(k as int)),
        decreases a.len() - k,
    {
        if k == a.len() {
            return k < b.len();
        }
        if k == b.len() {
            return false;
        }
        assert(a@.skip(k as int)[0] == a@[k as int]);
        assert(b@.skip(k as int)[0] == b@[k as int]);
        if a[k] != b[k] {
            return (a[k] as u32) < (b[k] as u32);
        }
        assert(a@.skip(k as int).drop_first() =~= a@.skip(k + 1));
        assert(b@.skip(k as int).drop_first() =~= b@.skip(k + 1));
        k += 1;
    }
}

/// Whether session `a` is listed before session `b`.
pub fn session_sorts_before(a: &CodexSession, b: &CodexSession) -> (r: bool)
    ensures
        r == sorts_before(a@, b@),
{
    if a.last_activity_at != b.last_activity_at {
        return a.last_activity_at > b.last_activity_at;
    }
    let pa = a.status.sort_priority();
    let pb = b.status.sort_priority();
    if pa != pb {
        return pa > pb;
    }
    let ta = chars_of(a.title.as_str());
    let tb = chars_of(b.title.as_str());
    title_before(&ta, &tb)
}

/// The sessions ordered: no session is listed after one it sorts before.
fn sort_sessions(src: Vec<CodexSession>) -> (r: Vec<CodexSession>)
    ensures
        r.deep_view().to_multiset() == src.deep_view().to_multiset(),
        forall|i: int, j: int|
            0 <= i < j < r.len() ==> !sorts_before(r.deep_view()[j], r.deep_view()[i]),
{
    broadcast use vstd::seq_lib::group_to_multiset_ensures;

    let ghost orig = src.deep_view();
    let mut remaining = src;
    let mut out: Vec<CodexSession> = Vec::new();
    while remaining.len() > 0
        invariant
            out.deep_view().to_multiset().add(remaining.deep_view().to_multiset())
                == orig.to_multiset(),
            forall|i: int, j: int|
                0 <= i < j < out.len() ==> !sorts_before(out.deep_view()[j], out.deep_view()[i]),
            forall|i: int, j: int|
                0 <= i < out.len() && 0 <= j < remaining.len() ==> !sorts_before(
                    remaining.deep_view()[j],
                    out.deep_view()[i],
                ),
        decreases remaining.len(),
    {
        let mut best: usize = 0;
        let mut k: usize = 1;
        proof {
            lemma_sorts_before_irreflexive(remaining.deep_view()[0]);
        }
        while k < remaining.len()
            invariant
                best < remaining.len(),
                1 <= k <= remaining.len(),
                forall|j: int| 0 <= j < k ==> !sorts_before(
                    remaining.deep_view()[j],
                    remaining.deep_view()[best as int],
                ),
            decreases remaining.len() - k,
        {
            if session_sorts_before(&remaining[k], &remaining[best]) {
                proof {
                    assert forall|j: int| 0 <= j < k implies !sorts_before(
                        remaining.deep_view()[j],
                        remaining.deep_view()[k as int],
                    ) by {
                        if sorts_before(remaining.deep_view()[j], remaining.deep_view()[k as int]) {
                            lemma_sorts_before_transitive(
                                remaining.deep_view()[j],
                                remaining.deep_view()[k as int],
                                remaining.deep_view()[best as int],
                            );
                        }
                    }
                }
                best = k;
            }
            proof {
                lemma_sorts_before_irreflexive(remaining.deep_view()[k as int]);
            }
            k += 1;
        }
        let ghost rem = remaining.deep_view();
        let ghost od = out.deep_view();
        let ghost raw = remaining@;
        let x = remaining.remove(best);
        assert(x == raw[best as int]);
        assert(x@ == rem[best as int]);
        assert(remaining.deep_view() =~= rem.remove(best as int));
        out.push(x);
        assert(out.deep_view() =~= od.push(rem[best as int]));
        proof {
            broadcast use vstd::multiset::group_multiset_axioms;

            let xv = rem[best as int];
            od.to_multiset_ensures();
            rem.to_multiset_ensures();
            assert(od.push(xv).to_multiset() =~= od.to_multiset().insert(xv));
            assert(rem.remove(best as int).to_multiset() =~= rem.to_multiset().remove(xv));
            assert(rem.to_multiset().contains(xv));
            assert(out.deep_view().to_multiset().add(remaining.deep_view().to_multiset())
                =~= od.to_multiset().add(rem.to_multiset()));
        }
        assert forall|i: int, j: int|
            0 <= i < out.len() && 0 <= j < remaining.len() implies !sorts_before(
            remaining.deep_view()[j],
            out.deep_view()[i],
        ) by {
            if j < best {
                assert(remaining.deep_view()[j] == rem[j]);
            } else {
                assert(remaining.deep_view()[j] == rem[j + 1]);
            }
        }
    }
    out
}

/// A reordering of sessions with distinct keys holds each under its key,
/// once, and as many as there were.
pub proof fn lemma_permutation_of_unique(src: Seq<CodexSessionView>, res: Seq<CodexSessionView>)
    requires
        unique_keys(src),
        res.to_multiset() == src.to_multiset(),
    ensures
        res.len() == src.len(),
        unique_keys(res),
        forall|i: int|
            0 <= i < res.len() ==> to_map(src).contains_key(#[trigger] res[i].session_id)
                && to_map(src)[res[i].session_id] == res[i],
{
    broadcast use vstd::seq_lib::group_to_multiset_ensures;

    src.to_multiset_ensures();
    res.to_multiset_ensures();
    assert(src.no_duplicates()) by {
        assert forall|i: int, j: int|
            0 <= i < src.len() && 0 <= j < src.len() && i != j implies src[i] != src[j] by {
            assert(src[i].session_id != src[j].session_id);
        }
    }
    src.lemma_multiset_has_no_duplicates();
    res.lemma_multiset_has_no_duplicates_conv();
    assert forall|i: int| #![trigger res[i]] 0 <= i < res.len() implies exists|p: int|
        0 <= p < src.len() && #[trigger] src[p] == res[i] by {
        assert(res.to_multiset().contains(res[i]));
        assert(src.contains(res[i]));
    }
    assert forall|i: int|
        0 <= i < res.len() implies to_map(src).contains_key(#[trigger] res[i].session_id)
        && to_map(src)[res[i].session_id] == res[i] by {
        let p = choose|p: int| 0 <= p < src.len() && src[p] == res[i];
        lemma_to_map_value(src, p);
    }
    assert forall|i: int, j: int|
        0 <= i < res.len() && 0 <= j < res.len() && i != j implies #[trigger] res[i].session_id
        != #[trigger] res[j].session_id by {
        let p = choose|p: int| 0 <= p < src.len() && src[p] == res[i];
        let q = choose|q: int| 0 <= q < src.len() && src[q] == res[j];
        if res[i].session_id == res[j].session_id {
            assert(p == q);
            assert(res[i] == res[j]);
        }
    }
}

fn dup_sessions(v: &Vec<CodexSession>) -> (r: Vec<CodexSession>)
    ensures
        r.deep_view() == v.deep_view(),
{
    let mut r: Vec<CodexSession> = Vec::new();
    let mut i: usize = 0;
    while i < v.len()
        invariant
            i <= v.len(),
            r.deep_view() == v.deep_view().take(i as int),
        decreases v.len() - i,
    {
        let ghost before = r.deep_view();
        let item = v[i].duplicate();
        r.push(item);
        assert(r.deep_view() =~= before.push(v.deep_view()[i as int]));
        assert(v.deep_view().take(i + 1) =~= v.deep_view().take(i as int).push(
            v.deep_view()[i as int],
        ));
        i += 1;
    }
    assert(v.deep_view().take(v.len() as int) == v.deep_view());
    r
}

// ---------------------------------------------------------------------------
// The store
// ---------------------------------------------------------------------------

/// The tracked sessions, each under its own key.
pub struct SessionStore {
    sessions: Vec<CodexSession>,
}

impl View for SessionStore {
    type V = Map<Seq<char>, CodexSessionView>;

    closed spec fn view(&self) -> Map<Seq<char>, CodexSessionView> {
        to_map(self.sessions.deep_view())
    }
}

impl SessionStore {
    #[verifier::type_invariant]
    closed spec fn well_formed(self) -> bool {
        &&& unique_keys(self.sessions.deep_view())
        &&& attention_consistent(to_map(self.sessions.deep_view()))
    }

    /// An empty store.
    pub fn new() -> (r: Self)
        ensures
            r@ == Map::<Seq<char>, CodexSessionView>::empty(),
    {
        SessionStore { sessions: Vec::new() }
    }

    /// The store holds each session under its own key, and every session
    /// needs attention exactly when it waits for input.
    pub fn check_well_formed(&self)
        ensures
            keyed_by_id(self@),
            attention_consistent(self@),
            self@.dom().finite(),
    {
        proof {
            use_type_invariant(self);
            lemma_to_map_keyed(self.sessions.deep_view());
        }
    }

    /// Applies one poll's observations (the current time stands in for an
    /// instant that chrono cannot represent); returns whether anything changed.
    pub fn ingest(&mut self, observations: Vec<DiscoveryObservation>) -> (changed: bool)
        ensures
            exists|now: i64|
                #![trigger ingest_result(old(self)@, observations.deep_view(), now)]
                chrono_millis_in_range(now) && final(self)@ == ingest_result(old(self)@, observations.deep_view(), now).0
                    && changed == ingest_result(old(self)@, observations.deep_view(), now).1,
            attention_consistent(final(self)@),
            final(self)@.dom() == observed_keys(observations.deep_view()),
    {
        self.ingest_observations(observations)
    }

    /// Applies one poll's observations (the current time stands in for an
    /// instant that chrono cannot represent); returns whether anything changed.
    pub fn ingest_observations(&mut self, observations: Vec<DiscoveryObservation>) -> (changed: bool)
        ensures
            exists|now: i64|
                #![trigger ingest_result(old(self)@, observations.deep_view(), now)]
                chrono_millis_in_range(now) && final(self)@ == ingest_result(old(self)@, observations.deep_view(), now).0
                    && changed == ingest_result(old(self)@, observations.deep_view(), now).1,
            attention_consistent(final(self)@),
            final(self)@.dom() == observed_keys(observations.deep_view()),
    {
        let now = utc_now_millis();
        self.ingest_observations_at(observations, now)
    }

    /// Applies one poll's observations in order, with `now` standing in for an
    /// instant that chrono cannot represent, then removes every session that
    /// no observation belongs to; returns whether anything changed.
    pub fn ingest_observations_at(&mut self, observations: Vec<DiscoveryObservation>, now: i64) -> (changed:
        bool)
        ensures
            final(self)@ == ingest_result(old(self)@, observations.deep_view(), now).0,
            changed == ingest_result(old(self)@, observations.deep_view(), now).1,
            attention_consistent(final(self)@),
            final(self)@.dom() == observed_keys(observations.deep_view()),
    {
        proof {
            use_type_invariant(&*self);
        }
        let ghost m0 = self@;
        let ghost obs0 = observations.deep_view();
        let mut sessions: Vec<CodexSession> = Vec::new();
        std::mem::swap(&mut sessions, &mut self.sessions);
        let mut remaining = observations;
        let mut seen: Vec<String> = Vec::new();
        let mut changed = false;
        let ghost mut i: int = 0;
        assert(obs0.take(0) =~= Seq::<ObservationView>::empty());
        assert(obs0.subrange(0, obs0.len() as int) == obs0);
        while remaining.len() > 0
            invariant
                0 <= i <= obs0.len(),
                remaining.deep_view() == obs0.subrange(i, obs0.len() as int),
                unique_keys(sessions.deep_view()),
                attention_consistent(to_map(sessions.deep_view())),
                to_map(sessions.deep_view()) == observe_all(m0, obs0.take(i), now).0,
                changed == observe_all(m0, obs0.take(i), now).1,
                seen.deep_view() == obs0.take(i).map_values(|o: ObservationView| key_of(o)),
            decreases remaining.len(),
        {
            let ghost before = sessions.deep_view();
            let ghost rem = remaining.deep_view();
            let ghost raw = remaining@;
            assert(rem[0] == raw[0]@);
            assert(rem.len() == raw.len());
            assert(i < obs0.len());
            assert(obs0.subrange(i, obs0.len() as int)[0] == obs0[i]);
            assert(rem[0] == obs0[i]);
            let observation = remaining.remove(0);
            assert(observation == raw[0]);
            assert(remaining.deep_view() =~= rem.subrange(1, rem.len() as int));
            assert(observation@ == obs0[i]);
            assert(obs0.take(i + 1).drop_last() =~= obs0.take(i));
            assert(obs0.take(i + 1).last() == obs0[i]);
            let id = observation.session_id();
            let ghost seen_before = seen.deep_view();
            seen.push(id.clone());
            assert(seen.deep_view() =~= seen_before.push(id@));
            assert(obs0.take(i + 1).map_values(|o: ObservationView| key_of(o)) =~= obs0.take(
                i,
            ).map_values(|o: ObservationView| key_of(o)).push(key_of(obs0[i])));
            match find_session(&sessions, &id) {
                Some(idx) => {
                    proof {
                        lemma_to_map_value(before, idx as int);
                    }
                    let mut session = sessions.remove(idx);
                    let ghost s_old = session@;
                    let ch = apply_observation(&mut session, observation, now);
                    let ghost s_new = session@;
                    sessions.insert(idx, session);
                    assert(sessions.deep_view() =~= before.update(idx as int, s_new));
                    proof {
                        lemma_to_map_update(before, idx as int, s_new);
                        assert(session_attention_consistent(s_old));
                        assert(session_attention_consistent(s_new));
                        assert(attention_consistent(to_map(sessions.deep_view())));
                    }
                    changed = changed || ch;
                },
                None => {
                    proof {
                        lemma_to_map_keys(before, id@);
                    }
                    let status = status_of_observation(&observation);
                    let fresh = CodexSession::from_observation_at(observation, status, now);
                    let ghost f = fresh@;
                    sessions.push(fresh);
                    assert(sessions.deep_view() =~= before.push(f));
                    proof {
                        lemma_push_unique(before, f);
                        assert(session_attention_consistent(f));
                        assert(attention_consistent(to_map(sessions.deep_view())));
                    }
                    changed = true;
                },
            }
            proof {
                i = i + 1;
            }
        }
        assert(obs0.take(i) == obs0);
        let ghost s1 = sessions.deep_view();
        let ghost keys = observed_keys(obs0);
        assert forall|k: Seq<char>| seen.deep_view().contains(k) <==> keys.contains(k) by {
            if seen.deep_view().contains(k) {
                let j = choose|j: int| 0 <= j < seen.deep_view().len() && seen.deep_view()[j] == k;
                assert(key_of(obs0[j]) == k);
            }
            if keys.contains(k) {
                let j = choose|j: int| 0 <= j < obs0.len() && key_of(obs0[j]) == k;
                assert(seen.deep_view()[j] == k);
            }
        }
        let mut kept: Vec<CodexSession> = Vec::new();
        let mut removed = false;
        let ghost mut j: int = 0;
        assert(s1.take(0) =~= Seq::<CodexSessionView>::empty());
        assert(to_map(s1.take(0)).restrict(keys) =~= to_map(kept.deep_view()));
        assert(s1.subrange(0, s1.len() as int) == s1);
        while sessions.len() > 0
            invariant
                0 <= j <= s1.len(),
                unique_keys(s1),
                attention_consistent(to_map(s1)),
                sessions.deep_view() == s1.subrange(j, s1.len() as int),
                unique_keys(kept.deep_view()),
                forall|k: Seq<char>| seen.deep_view().contains(k) <==> keys.contains(k),
                to_map(kept.deep_view()) == to_map(s1.take(j)).restrict(keys),
                removed == exists|k: Seq<char>|
                    to_map(s1.take(j)).contains_key(k) && !keys.contains(k),
            decreases sessions.len(),
        {
            let ghost rem = sessions.deep_view();
            let ghost kb = kept.deep_view();
            let ghost raw = sessions@;
            assert(rem[0] == raw[0]@);
            assert(rem.len() == raw.len());
            assert(j < s1.len());
            assert(s1.subrange(j, s1.len() as int)[0] == s1[j]);
            assert(rem[0] == s1[j]);
            let session = sessions.remove(0);
            assert(session == raw[0]);
            assert(sessions.deep_view() =~= rem.subrange(1, rem.len() as int));
            assert(session@ == s1[j]);
            assert(s1.take(j + 1).drop_last() =~= s1.take(j));
            assert(s1.take(j + 1).last() == s1[j]);
            let ghost sv = session@;
            proof {
                lemma_to_map_keys(s1.take(j), sv.session_id);
                if to_map(s1.take(j)).contains_key(sv.session_id) {
                    let q = choose|q: int|
                        0 <= q < s1.take(j).len() && s1.take(j)[q].session_id == sv.session_id;
                    assert(s1[q].session_id == s1[j].session_id);
                }
            }
            if has_key(&seen, &session.session_id) {
                proof {
                    lemma_to_map_keys(kb, sv.session_id);
                    if to_map(kb).contains_key(sv.session_id) {
                        assert(to_map(s1.take(j)).restrict(keys).contains_key(sv.session_id));
                    }
                    lemma_push_unique(kb, sv);
                }
                assert(keys.contains(sv.session_id));
                kept.push(session);
                assert(kept.deep_view() =~= kb.push(sv));
                assert(to_map(kept.deep_view()) =~= to_map(s1.take(j + 1)).restrict(keys));
            } else {
                assert(to_map(kept.deep_view()) =~= to_map(s1.take(j + 1)).restrict(keys));
                removed = true;
                assert(!keys.contains(sv.session_id));
                assert(to_map(s1.take(j + 1)).contains_key(sv.session_id));
            }
            proof {
                if exists|k: Seq<char>| to_map(s1.take(j)).contains_key(k) && !keys.contains(k) {
                    let k = choose|k: Seq<char>|
                        to_map(s1.take(j)).contains_key(k) && !keys.contains(k);
                    assert(to_map(s1.take(j + 1)).contains_key(k));
                }
                if exists|k: Seq<char>| to_map(s1.take(j + 1)).contains_key(k) && !keys.contains(k) {
                    let k = choose|k: Seq<char>|
                        to_map(s1.take(j + 1)).contains_key(k) && !keys.contains(k);
                    if k != sv.session_id {
                        assert(to_map(s1.take(j)).contains_key(k));
                    }
                }
                j = j + 1;
            }
        }
        assert(s1.take(j) == s1);
        assert forall|k: Seq<char>| #[trigger]
            to_map(kept.deep_view()).contains_key(k) implies (to_map(kept.deep_view())[k].needs_attention
            <==> to_map(kept.deep_view())[k].status == SessionStatus::WaitingInput) by {
            assert(to_map(s1).contains_key(k));
        }
        proof {
            lemma_observed_keys_present(m0, obs0, now);
        }
        assert(to_map(kept.deep_view()).dom() =~= keys);
        self.sessions = kept;
        changed || removed
    }

    /// The session with key `session_id`, if tracked.
    pub fn get(&self, session_id: &str) -> (r: Option<CodexSession>)
        ensures
            r is Some <==> self@.contains_key(session_id@),
            r matches Some(s) ==> s@ == self@[session_id@],
    {
        proof {
            use_type_invariant(self);
        }
        let id = owned(session_id);
        match find_session(&self.sessions, &id) {
            Some(i) => {
                proof {
                    lemma_to_map_value(self.sessions.deep_view(), i as int);
                }
                Some(self.sessions[i].duplicate())
            },
            None => {
                proof {
                    lemma_to_map_keys(self.sessions.deep_view(), id@);
                }
                None
            },
        }
    }

    /// Every tracked session, once each: more recent activity first, then the
    /// more urgent status, then titles in order.
    pub fn sessions(&self) -> (r: Vec<CodexSession>)
        ensures
            r.len() == self@.dom().len(),
            unique_keys(r.deep_view()),
            forall|i: int|
                0 <= i < r.len() ==> self@.contains_key(#[trigger] r.deep_view()[i].session_id)
                    && self@[r.deep_view()[i].session_id] == r.deep_view()[i],
            forall|i: int, j: int|
                0 <= i < j < r.len() ==> !sorts_before(r.deep_view()[j], r.deep_view()[i]),
    {
        proof {
            use_type_invariant(self);
            lemma_to_map_keyed(self.sessions.deep_view());
        }
        let copy = dup_sessions(&self.sessions);
        let sorted = sort_sessions(copy);
        proof {
            lemma_permutation_of_unique(self.sessions.deep_view(), sorted.deep_view());
        }
        sorted
    }

    /// Applies a hook event (the current time stands in for an instant that
    /// chrono cannot represent); returns whether it changed the store.
    pub fn ingest_event(&mut self, event: SessionEvent) -> (changed: bool)
        ensures
            exists|now: i64|
                #![trigger event_result(old(self)@, event@, now)]
                chrono_millis_in_range(now) && final(self)@ == event_result(old(self)@, event@, now).0 && changed == event_result(
                    old(self)@,
                    event@,
                    now,
                ).1,
            attention_consistent(final(self)@),
    {
        let now = utc_now_millis();
        self.ingest_event_at(event, now)
    }

    /// Applies a hook event, with `now` standing in for an instant that chrono
    /// cannot represent; returns whether it changed the store.
    pub fn ingest_event_at(&mut self, event: SessionEvent, now: i64) -> (changed: bool)
        ensures
            final(self)@ == event_result(old(self)@, event@, now).0,
            changed == event_result(old(self)@, event@, now).1,
            attention_consistent(final(self)@),
    {
        proof {
            use_type_invariant(&*self);
        }
        let ghost m0 = self@;
        let ghost ev = event@;
        let mut sessions: Vec<CodexSession> = Vec::new();
        std::mem::swap(&mut sessions, &mut self.sessions);
        let ghost before = sessions.deep_view();
        let key = event.session_key();
        let at = unix_ms_to_utc_at(event.happened_at_unix_ms, now);
        let changed = match find_session(&sessions, &key) {
            Some(idx) => {
                proof {
                    lemma_to_map_value(before, idx as int);
                }
                let mut session = sessions.remove(idx);
                let ch = apply_event(&mut session, event, at);
                let ghost s_new = session@;
                sessions.insert(idx, session);
                assert(sessions.deep_view() =~= before.update(idx as int, s_new));
                proof {
                    lemma_to_map_update(before, idx as int, s_new);
                    assert(session_attention_consistent(s_new));
                    assert(attention_consistent(to_map(sessions.deep_view())));
                }
                ch
            },
            None => {
                proof {
                    lemma_to_map_keys(before, key@);
                }
                let entry = event_entry(&event);
                let mut status_history: Vec<String> = Vec::new();
                status_history.push(entry);
                let conversation_history = initial_conversation_history(
                    opt_str(&event.user_prompt),
                    opt_str(&event.prompt_text),
                );
                let fresh = CodexSession {
                    session_id: key,
                    source: event.source,
                    pid: match event.pid {
                        Some(p) => p,
                        None => 0,
                    },
                    parent_pid: None,
                    tty: event.tty,
                    cwd: event.cwd,
                    terminal_app: event.terminal_app,
                    title: match event.title {
                        Some(t) => t,
                        None => owned("Codex"),
                    },
                    project_name: event.project_name,
                    status: event.status,
                    ingestion_mode: SessionIngestionMode::Hooks,
                    needs_attention: event.status == SessionStatus::WaitingInput,
                    last_activity_at: at,
                    activity_label: event.activity_label,
                    last_snapshot: event.prompt_text,
                    latest_user_prompt: event.user_prompt,
                    prompt_actions: event.prompt_actions,
                    prompt_source: event.prompt_source,
                    submit_target: event.submit_target,
                    notification_sent_at: None,
                    last_event_at: Some(at),
                    last_observation_at: None,
                    transcript_path: event.transcript_path,
                    status_history,
                    conversation_history,
                };
                let ghost f = fresh@;
                assert(f.status_history =~= seq![event_history_entry(ev)]);
                assert(f == session_from_event(event_key(ev), ev, utc_instant(ev.happened_at_unix_ms, now)));
                sessions.push(fresh);
                assert(sessions.deep_view() =~= before.push(f));
                proof {
                    lemma_push_unique(before, f);
                    assert(session_attention_consistent(f));
                    assert(attention_consistent(to_map(sessions.deep_view())));
                }
                true
            },
        };
        self.sessions = sessions;
        changed
    }
}

/// Every observed key is in the store after the observations.
pub proof fn lemma_observed_keys_present(
    m: Map<Seq<char>, CodexSessionView>,
    obs: Seq<ObservationView>,
    now: i64,
)
    ensures
        forall|k: Seq<char>| #[trigger]
            observed_keys(obs).contains(k) ==> observe_all(m, obs, now).0.contains_key(k),
    decreases obs.len(),
{
    if obs.len() > 0 {
        lemma_observed_keys_present(m, obs.drop_last(), now);
        assert forall|k: Seq<char>| #[trigger]
            observed_keys(obs).contains(k) implies observe_all(m, obs, now).0.contains_key(k) by {
            let i = choose|i: int| 0 <= i < obs.len() && key_of(obs[i]) == k;
            if i < obs.len() - 1 {
                assert(observed_keys(obs.drop_last()).contains(k)) by {
                    assert(key_of(obs.drop_last()[i]) == k);
                }
            }
        }
    }
}


// ---------------------------------------------------------------------------
// Notifications
// ---------------------------------------------------------------------------

/// A session is owed a notification when it needs attention and none was
/// sent since it began to.
pub open spec fn notification_due(s: CodexSessionView) -> bool {
    s.needs_attention && s.notification_sent_at is None
}

/// What a notification about `s` says: its prompt, else its title.
pub open spec fn notification_body(s: CodexSessionView) -> Seq<char> {
    match s.last_snapshot {
        Some(p) => p,
        None => s.title,
    }
}

/// The (session key, notification text) of each session owed a
/// notification, in the given order.
pub open spec fn due_notifications(s: Seq<CodexSessionView>) -> Seq<(Seq<char>, Seq<char>)>
    decreases s.len(),
{
    if s.len() == 0 {
        Seq::empty()
    } else {
        let rest = due_notifications(s.drop_last());
        if notification_due(s.last()) {
            rest.push((s.last().session_id, notification_body(s.last())))
        } else {
            rest
        }
    }
}

/// The (session key, notification text) of each of `sessions` that is owed a
/// notification, in order.
pub fn pending_notifications(sessions: &Vec<CodexSession>) -> (r: Vec<(String, String)>)
    ensures
        r.deep_view() == due_notifications(sessions.deep_view()),
{
    let mut r: Vec<(String, String)> = Vec::new();
    let mut i: usize = 0;
    assert(sessions.deep_view().take(0) =~= Seq::<CodexSessionView>::empty());
    while i < sessions.len()
        invariant
            i <= sessions.len(),
            r.deep_view() == due_notifications(sessions.deep_view().take(i as int)),
        decreases sessions.len() - i,
    {
        let s = &sessions[i];
        assert(sessions.deep_view().take(i + 1).drop_last() =~= sessions.deep_view().take(i as int));
        assert(sessions.deep_view().take(i + 1).last() == s@);
        if s.needs_attention && s.notification_sent_at.is_none() {
            let body = match &s.last_snapshot {
                Some(p) => p.clone(),
                None => s.title.clone(),
            };
            let ghost before = r.deep_view();
            r.push((s.session_id.clone(), body));
            assert(r.deep_view() =~= before.push((s@.session_id, notification_body(s@))));
        }
        i += 1;
    }
    assert(sessions.deep_view().take(sessions.len() as int) =~= sessions.deep_view());
    r
}

/// `s` with a notification recorded as sent at `at` when one was due.
pub open spec fn marked_sent(s: CodexSessionView, at: i64) -> CodexSessionView {
    if notification_due(s) {
        CodexSessionView { notification_sent_at: Some(at), ..s }
    } else {
        s
    }
}

impl SessionStore {
    /// Records a notification as sent at `at` for every session owed one.
    pub fn mark_notifications_sent(&mut self, at: i64)
        ensures
            final(self)@ == old(self)@.map_values(|s: CodexSessionView| marked_sent(s, at)),
            attention_consistent(final(self)@),
    {
        proof {
            use_type_invariant(&*self);
        }
        let mut sessions: Vec<CodexSession> = Vec::new();
        std::mem::swap(&mut sessions, &mut self.sessions);
        let ghost s0 = sessions.deep_view();
        let mut i: usize = 0;
        while i < sessions.len()
            invariant
                i <= sessions.len() == s0.len(),
                forall|j: int| 0 <= j < i ==> sessions.deep_view()[j] == marked_sent(s0[j], at),
                forall|j: int| i <= j < s0.len() ==> sessions.deep_view()[j] == s0[j],
            decreases sessions.len() - i,
        {
            assert(sessions.deep_view()[i as int] == sessions@[i as int]@);
            if sessions[i].needs_attention && sessions[i].notification_sent_at.is_none() {
                let ghost before = sessions.deep_view();
                let mut s = sessions.remove(i);
                s.notification_sent_at = Some(at);
                let ghost sv = s@;
                sessions.insert(i, s);
                assert(sv == marked_sent(s0[i as int], at));
                assert(sessions.deep_view() =~= before.update(i as int, sv));
            } else {
                assert(marked_sent(s0[i as int], at) == s0[i as int]);
            }
            i += 1;
        }
        proof {
            lemma_marked_map(s0, sessions.deep_view(), at);
        }
        self.sessions = sessions;
    }
}

impl SessionStore {
    /// The notifications owed, as (session key, text) in listing order, each
    /// recorded as sent at `at`.
    pub fn take_due_notifications(&mut self, at: i64) -> (r: Vec<(String, String)>)
        ensures
            final(self)@ == old(self)@.map_values(|s: CodexSessionView| marked_sent(s, at)),
            exists|listed: Seq<CodexSessionView>|
                {
                    &&& listed.len() == old(self)@.dom().len()
                    &&& unique_keys(listed)
                    &&& forall|i: int|
                        0 <= i < listed.len() ==> old(self)@.contains_key(#[trigger] listed[i].session_id)
                            && old(self)@[listed[i].session_id] == listed[i]
                    &&& forall|i: int, j: int|
                        0 <= i < j < listed.len() ==> !sorts_before(listed[j], listed[i])
                    &&& r.deep_view() == due_notifications(listed)
                },
    {
        let sessions = self.sessions();
        let due = pending_notifications(&sessions);
        self.mark_notifications_sent(at);
        due
    }
}

pub proof fn lemma_marked_map(s0: Seq<CodexSessionView>, s1: Seq<CodexSessionView>, at: i64)
    requires
        unique_keys(s0),
        attention_consistent(to_map(s0)),
        s1.len() == s0.len(),
        forall|j: int| 0 <= j < s0.len() ==> s1[j] == marked_sent(s0[j], at),
    ensures
        unique_keys(s1),
        to_map(s1) == to_map(s0).map_values(|s: CodexSessionView| marked_sent(s, at)),
        attention_consistent(to_map(s1)),
    decreases s0.len(),
{
    assert(unique_keys(s1)) by {
        assert forall|a: int, b: int|
            0 <= a < s1.len() && 0 <= b < s1.len() && a != b implies #[trigger] s1[a].session_id
            != #[trigger] s1[b].session_id by {
            assert(s0[a].session_id != s0[b].session_id);
        }
    }
    if s0.len() > 0 {
        let p0 = s0.drop_last();
        let p1 = s1.drop_last();
        assert(unique_keys(p0));
        assert(attention_consistent(to_map(p0))) by {
            assert forall|k: Seq<char>| #[trigger] to_map(p0).contains_key(k) implies (to_map(
                p0,
            )[k].needs_attention <==> to_map(p0)[k].status == SessionStatus::WaitingInput) by {
                lemma_to_map_keys(p0, k);
                let q = choose|q: int| 0 <= q < p0.len() && p0[q].session_id == k;
                lemma_to_map_value(p0, q);
                lemma_to_map_value(s0, q);
                assert(to_map(s0).contains_key(k));
            }
        }
        lemma_marked_map(p0, p1, at);
        assert(to_map(s1) =~= to_map(s0).map_values(|s: CodexSessionView| marked_sent(s, at)));
    }
}

impl Default for SessionStore {
    fn default() -> (r: Self)
        ensures
            r@ == Map::<Seq<char>, CodexSessionView>::empty(),
    {
        SessionStore::new()
    }
}


// ---------------------------------------------------------------------------
// Polling the same processes again
// ---------------------------------------------------------------------------

/// No two observations belong to the same session.
pub open spec fn distinct_keys(obs: Seq<ObservationView>) -> bool {
    forall|i: int, j: int|
        0 <= i < obs.len() && 0 <= j < obs.len() && i != j ==> key_of(obs[i]) != key_of(obs[j])
}

/// What the first poll makes of the session that observation `o` belongs to.
pub open spec fn first_touch(m: Map<Seq<char>, CodexSessionView>, o: ObservationView, now: i64) -> CodexSessionView {
    let k = key_of(o);
    if m.contains_key(k) {
        observed(m[k], o, now)
    } else {
        session_from_observation(o, observed_status(o), now)
    }
}

pub proof fn lemma_appended_twice(h: Seq<Seq<char>>, e: Seq<char>)
    ensures
        appended(appended(h, e), e) == appended(h, e),
{
    let a = appended(h, e);
    assert(a.len() > 0 && a.last() == e);
}

pub proof fn lemma_observed_twice(s: CodexSessionView, o: ObservationView, now: i64)
    ensures
        observed(observed(s, o, now), o, now) == observed(s, o, now),
{
    let st = observed_status(o);
    lemma_appended_twice(s.status_history, observation_history_entry(o, st));
}

pub proof fn lemma_observed_fresh(o: ObservationView, now: i64)
    ensures
        observed(session_from_observation(o, observed_status(o), now), o, now)
            == session_from_observation(o, observed_status(o), now),
{
    let st = observed_status(o);
    let f = session_from_observation(o, st, now);
    assert(appended(f.status_history, observation_history_entry(o, st)) =~= f.status_history);
}

pub proof fn lemma_untouched(m: Map<Seq<char>, CodexSessionView>, obs: Seq<ObservationView>, now: i64, k: Seq<char>)
    requires
        !observed_keys(obs).contains(k),
    ensures
        observe_all(m, obs, now).0.contains_key(k) == m.contains_key(k),
        m.contains_key(k) ==> observe_all(m, obs, now).0[k] == m[k],
    decreases obs.len(),
{
    if obs.len() > 0 {
        assert(!observed_keys(obs.drop_last()).contains(k)) by {
            if observed_keys(obs.drop_last()).contains(k) {
                let i = choose|i: int| 0 <= i < obs.drop_last().len() && key_of(obs.drop_last()[i]) == k;
                assert(key_of(obs[i]) == k);
            }
        }
        assert(key_of(obs[obs.len() - 1]) != k);
        lemma_untouched(m, obs.drop_last(), now, k);
    }
}

pub proof fn lemma_first_touch(m: Map<Seq<char>, CodexSessionView>, obs: Seq<ObservationView>, now: i64)
    requires
        distinct_keys(obs),
    ensures
        forall|i: int|
            0 <= i < obs.len() ==> observe_all(m, obs, now).0.contains_key(#[trigger] key_of(obs[i]))
                && observe_all(m, obs, now).0[key_of(obs[i])] == first_touch(m, obs[i], now),
    decreases obs.len(),
{
    if obs.len() > 0 {
        let p = obs.drop_last();
        let last = obs.last();
        assert(distinct_keys(p));
        lemma_first_touch(m, p, now);
        assert(!observed_keys(p).contains(key_of(last))) by {
            if observed_keys(p).contains(key_of(last)) {
                let i = choose|i: int| 0 <= i < p.len() && key_of(p[i]) == key_of(last);
                assert(key_of(obs[i]) == key_of(obs[obs.len() - 1]));
            }
        }
        lemma_untouched(m, p, now, key_of(last));
        assert forall|i: int| 0 <= i < obs.len() implies observe_all(m, obs, now).0.contains_key(
            #[trigger] key_of(obs[i]),
        ) && observe_all(m, obs, now).0[key_of(obs[i])] == first_touch(m, obs[i], now) by {
            if i < obs.len() - 1 {
                assert(key_of(p[i]) == key_of(obs[i]));
                assert(key_of(obs[i]) != key_of(obs[obs.len() - 1]));
            }
        }
    }
}

pub proof fn lemma_second_round(
    m: Map<Seq<char>, CodexSessionView>,
    m2: Map<Seq<char>, CodexSessionView>,
    obs: Seq<ObservationView>,
    now: i64,
)
    requires
        distinct_keys(obs),
        forall|i: int|
            0 <= i < obs.len() ==> m2.contains_key(#[trigger] key_of(obs[i])) && m2[key_of(obs[i])]
                == first_touch(m, obs[i], now),
    ensures
        observe_all(m2, obs, now) == (m2, false),
    decreases obs.len(),
{
    if obs.len() > 0 {
        let p = obs.drop_last();
        let last = obs.last();
        assert(distinct_keys(p));
        assert forall|i: int| 0 <= i < p.len() implies m2.contains_key(#[trigger] key_of(p[i]))
            && m2[key_of(p[i])] == first_touch(m, p[i], now) by {
            assert(p[i] == obs[i]);
        }
        lemma_second_round(m, m2, p, now);
        let k = key_of(last);
        assert(m2.contains_key(key_of(obs[obs.len() - 1])));
        let k_in_m = m.contains_key(k);
        if k_in_m {
            lemma_observed_twice(m[k], last, now);
        } else {
            lemma_observed_fresh(last, now);
        }
        assert(m2.insert(k, m2[k]) =~= m2);
    }
}

/// Polling the same processes twice in a row, with no two of them in one
/// session, changes nothing the second time: the store is the same and the
/// second poll reports no change.
pub proof fn lemma_repeated_poll_changes_nothing(
    m: Map<Seq<char>, CodexSessionView>,
    obs: Seq<ObservationView>,
    now: i64,
)
    requires
        distinct_keys(obs),
    ensures
        ingest_result(ingest_result(m, obs, now).0, obs, now) == (ingest_result(m, obs, now).0, false),
{
    let keys = observed_keys(obs);
    let m1 = observe_all(m, obs, now).0;
    let first = m1.restrict(keys);
    lemma_first_touch(m, obs, now);
    assert forall|i: int| 0 <= i < obs.len() implies first.contains_key(#[trigger] key_of(obs[i]))
        && first[key_of(obs[i])] == first_touch(m, obs[i], now) by {
        assert(keys.contains(key_of(obs[i])));
    }
    lemma_second_round(m, first, obs, now);
    assert(first.restrict(keys) =~= first);
    assert(!exists|k: Seq<char>| first.contains_key(k) && !keys.contains(k));
}

/// Polling never changes when a session last had a hook event: a session
/// already in the store keeps it, and one the poll creates has none.
pub proof fn lemma_poll_keeps_event_time(
    m: Map<Seq<char>, CodexSessionView>,
    obs: Seq<ObservationView>,
    now: i64,
    k: Seq<char>,
)
    ensures
        m.contains_key(k) ==> observe_all(m, obs, now).0.contains_key(k)
            && observe_all(m, obs, now).0[k].last_event_at == m[k].last_event_at,
        !m.contains_key(k) && observe_all(m, obs, now).0.contains_key(k) ==> observe_all(
            m,
            obs,
            now,
        ).0[k].last_event_at is None,
    decreases obs.len(),
{
    if obs.len() > 0 {
        lemma_poll_keeps_event_time(m, obs.drop_last(), now, k);
    }
}

/// A hook event at most a minute before an observation keeps what it
/// reported against that observation: the session keeps its status,
/// attention, activity, prompt and answers, takes the observation's submit
/// target only when it had none, and takes the process's details. The poll
/// reports a change exactly when it gave the session a submit target or
/// dropped another session.
pub proof fn lemma_recent_hook_event_wins(m: Map<Seq<char>, CodexSessionView>, o: ObservationView, now: i64)
    requires
        m.contains_key(key_of(o)),
        recent_event(m[key_of(o)], o.seen_at_unix_ms),
    ensures
        ({
            let k = key_of(o);
            let before = m[k];
            let (after, changed) = ingest_result(m, seq![o], now);
            &&& after.contains_key(k)
            &&& after[k].status == before.status
            &&& after[k].needs_attention == before.needs_attention
            &&& after[k].activity_label == before.activity_label
            &&& after[k].last_snapshot == before.last_snapshot
            &&& after[k].prompt_actions == before.prompt_actions
            &&& after[k].submit_target == (if before.submit_target is Some {
                before.submit_target
            } else {
                o.submit_target
            })
            &&& after[k].pid == o.pid
            &&& after[k].title == o.title
            &&& changed == ((before.submit_target is None && o.submit_target is Some) || exists|j: Seq<
                char,
            >| m.contains_key(j) && j != k)
        }),
{
    let k = key_of(o);
    let obs = seq![o];
    assert(obs.drop_last() =~= Seq::<ObservationView>::empty());
    assert(observe_all(m, obs.drop_last(), now) == (m, false));
    let m1 = observe_all(m, obs, now).0;
    assert(m1 == m.insert(k, observed(m[k], o, now)));
    assert(observed_keys(obs).contains(k)) by {
        assert(key_of(obs[0]) == k);
    }
    assert forall|j: Seq<char>| observed_keys(obs).contains(j) implies j == k by {
        let i = choose|i: int| 0 <= i < obs.len() && key_of(obs[i]) == j;
        assert(obs[i] == o);
    }
    assert((exists|j: Seq<char>| m1.contains_key(j) && !observed_keys(obs).contains(j)) == (exists|j: Seq<
        char,
    >| m.contains_key(j) && j != k)) by {
        if exists|j: Seq<char>| m.contains_key(j) && j != k {
            let j = choose|j: Seq<char>| m.contains_key(j) && j != k;
            assert(m1.contains_key(j) && !observed_keys(obs).contains(j));
        }
    }
}

/// Unless a hook event at most a minute before it says otherwise, the last
/// observation of a session in a poll sets what the island shows of it: the
/// status read from the observation, attention exactly when it waits for
/// input, and the observation's activity, prompt, answers, submit target and
/// title.
pub proof fn lemma_poll_sets_status(m: Map<Seq<char>, CodexSessionView>, obs: Seq<ObservationView>, now: i64)
    requires
        obs.len() > 0,
        !(m.contains_key(key_of(obs.last())) && recent_event(m[key_of(obs.last())], obs.last().seen_at_unix_ms)),
    ensures
        ({
            let o = obs.last();
            let k = key_of(o);
            let after = ingest_result(m, obs, now).0;
            &&& after.contains_key(k)
            &&& after[k].status == observed_status(o)
            &&& after[k].needs_attention == (after[k].status == SessionStatus::WaitingInput)
            &&& after[k].activity_label == o.activity_label
            &&& after[k].last_snapshot == o.interaction_hint
            &&& after[k].prompt_actions == o.prompt_actions
            &&& after[k].submit_target == o.submit_target
            &&& after[k].title == o.title
        }),
{
    let o = obs.last();
    let k = key_of(o);
    let p = obs.drop_last();
    lemma_poll_keeps_event_time(m, p, now, k);
    let m1 = observe_all(m, p, now).0;
    if m1.contains_key(k) {
        assert(!recent_event(m1[k], o.seen_at_unix_ms));
    }
    assert(observed_keys(obs).contains(k)) by {
        assert(key_of(obs[obs.len() - 1]) == k);
    }
}

/// A hook event refreshes the session it belongs to, whether the store had it
/// or not: the session's activity time and last-event time become the event's
/// instant (the clock's, when chrono cannot represent the event's), and its
/// status, attention, status line and prompt become the event's. Every other
/// session stays as it was.
pub proof fn lemma_hook_event_refreshes_session(m: Map<Seq<char>, CodexSessionView>, e: SessionEventView, now: i64)
    ensures
        ({
            let k = event_key(e);
            let at = if chrono_millis_in_range(e.happened_at_unix_ms) {
                e.happened_at_unix_ms
            } else {
                now
            };
            let after = event_result(m, e, now).0;
            &&& after.contains_key(k)
            &&& after[k].last_activity_at == at
            &&& after[k].last_event_at == Some(at)
            &&& after[k].status == e.status
            &&& after[k].needs_attention == (e.status == SessionStatus::WaitingInput)
            &&& after[k].ingestion_mode == SessionIngestionMode::Hooks
            &&& after[k].activity_label == e.activity_label
            &&& after[k].last_snapshot == e.prompt_text
            &&& after[k].prompt_actions == e.prompt_actions
            &&& forall|j: Seq<char>|
                j != k ==> (#[trigger] after.contains_key(j) == m.contains_key(j)) && (m.contains_key(j)
                    ==> after[j] == m[j])
        }),
{
}

/// Once notifications are recorded as sent, no session in the store is owed
/// one: each attention episode is notified once.
pub proof fn lemma_marked_store_owes_nothing(m: Map<Seq<char>, CodexSessionView>, at: i64)
    ensures
        forall|k: Seq<char>| m.contains_key(k) ==> !notification_due(#[trigger] marked_sent(m[k], at)),
{
}

} // verus!

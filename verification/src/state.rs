//! The core state shared by the hosts: the session store and whether the
//! island is expanded, and the snapshot the UI renders.
use crate::models::{
    CodexSession, CodexSessionView, SessionStatus, SessionSummary, SessionViewModel,
    SessionViewModelView, SessionsPayload, view_model_of,
};
use crate::session_store::{sorts_before, unique_keys, SessionStore};
use crate::time::{chrono_millis_in_range, utc_now_millis};
use vstd::prelude::*;

verus! {

/// How many sessions the snapshot shows.
pub const VISIBLE_SESSIONS: usize = 5;

/// How many of the sessions have status `st`.
pub open spec fn count_status(s: Seq<CodexSessionView>, st: SessionStatus) -> nat
    decreases s.len(),
{
    if s.len() == 0 {
        0
    } else {
        count_status(s.drop_last(), st) + if s.last().status == st {
            1nat
        } else {
            0nat
        }
    }
}

pub proof fn lemma_count_le_len(s: Seq<CodexSessionView>, st: SessionStatus)
    ensures
        count_status(s, st) <= s.len(),
    decreases s.len(),
{
    if s.len() > 0 {
        lemma_count_le_len(s.drop_last(), st);
    }
}

/// The view models of the first five sessions, seen at `now`.
pub open spec fn visible_models(s: Seq<CodexSessionView>, now: i64) -> Seq<SessionViewModelView> {
    let shown = if s.len() > VISIBLE_SESSIONS {
        s.take(VISIBLE_SESSIONS as int)
    } else {
        s
    };
    shown.map_values(|x: CodexSessionView| view_model_of(x, now))
}

fn count_with_status(sessions: &Vec<CodexSession>, st: SessionStatus) -> (r: usize)
    ensures
        r == count_status(sessions.deep_view(), st),
{
    let mut n: usize = 0;
    let mut i: usize = 0;
    assert(sessions.deep_view().take(0) =~= Seq::<CodexSessionView>::empty());
    while i < sessions.len()
        invariant
            i <= sessions.len(),
            n == count_status(sessions.deep_view().take(i as int), st),
            n <= i,
        decreases sessions.len() - i,
    {
        assert(sessions.deep_view().take(i + 1).drop_last() =~= sessions.deep_view().take(i as int));
        assert(sessions.deep_view().take(i + 1).last() == sessions@[i as int]@);
        if sessions[i].status == st {
            n += 1;
        }
        i += 1;
    }
    assert(sessions.deep_view().take(sessions.len() as int) =~= sessions.deep_view());
    n
}

/// The snapshot of `sessions` (already in display order) at `now`: counts
/// over all of them, and the view models of the first five.
pub fn build_payload(sessions: &Vec<CodexSession>, now: i64) -> (r: SessionsPayload)
    ensures
        r.summary.total == sessions.len(),
        r.summary.running == count_status(sessions.deep_view(), SessionStatus::Running),
        r.summary.waiting == count_status(sessions.deep_view(), SessionStatus::WaitingInput),
        r.summary.completed == count_status(sessions.deep_view(), SessionStatus::Completed),
        r.sessions.deep_view() == visible_models(sessions.deep_view(), now),
{
    let summary = SessionSummary {
        total: sessions.len(),
        running: count_with_status(sessions, SessionStatus::Running),
        waiting: count_with_status(sessions, SessionStatus::WaitingInput),
        completed: count_with_status(sessions, SessionStatus::Completed),
    };
    let shown = if sessions.len() > VISIBLE_SESSIONS {
        VISIBLE_SESSIONS
    } else {
        sessions.len()
    };
    let mut models: Vec<SessionViewModel> = Vec::new();
    let mut i: usize = 0;
    let ghost sv = sessions.deep_view();
    let ghost shown_seq = if sv.len() > VISIBLE_SESSIONS {
        sv.take(VISIBLE_SESSIONS as int)
    } else {
        sv
    };
    while i < shown
        invariant
            i <= shown <= sessions.len(),
            shown == shown_seq.len(),
            sv == sessions.deep_view(),
            forall|j: int| 0 <= j < shown ==> shown_seq[j] == sv[j],
            models.deep_view() =~= shown_seq.take(i as int).map_values(
                |x: CodexSessionView| view_model_of(x, now),
            ),
        decreases shown - i,
    {
        let ghost before = models.deep_view();
        let vm = SessionViewModel::from_session_at(&sessions[i], now);
        models.push(vm);
        assert(models.deep_view() =~= before.push(view_model_of(sv[i as int], now)));
        assert(shown_seq.take(i + 1) =~= shown_seq.take(i as int).push(shown_seq[i as int]));
        i += 1;
    }
    assert(shown_seq.take(shown as int) =~= shown_seq);
    SessionsPayload { sessions: models, summary }
}

/// `listed` is the store's sessions in display order: each once, each as the
/// store holds it, none listed after one it sorts before.
pub open spec fn display_listing(store: Map<Seq<char>, CodexSessionView>, listed: Seq<CodexSessionView>) -> bool {
    &&& listed.len() == store.dom().len()
    &&& unique_keys(listed)
    &&& forall|i: int|
        0 <= i < listed.len() ==> store.contains_key(#[trigger] listed[i].session_id)
            && store[listed[i].session_id] == listed[i]
    &&& forall|i: int, j: int| 0 <= i < j < listed.len() ==> !sorts_before(listed[j], listed[i])
}

/// `payload` is the snapshot of the sessions `listed`, in that order, seen at
/// `now`: counts over all of them and the view models of the first five.
pub open spec fn shows(payload: SessionsPayload, listed: Seq<CodexSessionView>, now: i64) -> bool {
    &&& payload.summary.total == listed.len()
    &&& payload.summary.running == count_status(listed, SessionStatus::Running)
    &&& payload.summary.waiting == count_status(listed, SessionStatus::WaitingInput)
    &&& payload.summary.completed == count_status(listed, SessionStatus::Completed)
    &&& payload.sessions.deep_view() == visible_models(listed, now)
}

/// The store and the island's window state.
pub struct CoreState {
    pub store: SessionStore,
    pub window_expanded: bool,
}

impl Default for CoreState {
    fn default() -> (r: Self)
        ensures
            r.store@ == Map::<Seq<char>, CodexSessionView>::empty(),
            !r.window_expanded,
    {
        CoreState { store: SessionStore::new(), window_expanded: false }
    }
}

impl CoreState {
    /// The snapshot of the store at `now`, its sessions in display order.
    pub fn snapshot_at(&self, now: i64) -> (r: SessionsPayload)
        ensures
            r.summary.total == self.store@.dom().len(),
            exists|listed: Seq<CodexSessionView>|
                #![trigger display_listing(self.store@, listed)]
                display_listing(self.store@, listed) && shows(r, listed, now),
    {
        let sessions = self.store.sessions();
        let r = build_payload(&sessions, now);
        assert(display_listing(self.store@, sessions.deep_view()));
        assert(shows(r, sessions.deep_view(), now));
        r
    }

    /// The snapshot of the store now, its sessions in display order.
    pub fn snapshot(&self) -> (r: SessionsPayload)
        ensures
            r.summary.total == self.store@.dom().len(),
            exists|listed: Seq<CodexSessionView>, now: i64|
                #![trigger display_listing(self.store@, listed), shows(r, listed, now)]
                chrono_millis_in_range(now) && display_listing(self.store@, listed) && shows(r, listed, now),
    {
        let now = utc_now_millis();
        self.snapshot_at(now)
    }

    /// The session with key `session_id`, if the store tracks one.
    pub fn focusable_session(&self, session_id: &str) -> (r: Option<CodexSession>)
        ensures
            r is Some <==> self.store@.contains_key(session_id@),
            r matches Some(s) ==> s@ == self.store@[session_id@],
    {
        self.store.get(session_id)
    }

    pub fn set_window_expanded(&mut self, expanded: bool)
        ensures
            final(self).window_expanded == expanded,
            final(self).store@ == old(self).store@,
    {
        self.window_expanded = expanded;
    }

    pub fn is_window_expanded(&self) -> (r: bool)
        ensures
            r == self.window_expanded,
    {
        self.window_expanded
    }
}

/// Whether a session has status `st`.
pub open spec fn has_status(st: SessionStatus) -> spec_fn(CodexSessionView) -> bool {
    |x: CodexSessionView| x.status == st
}

/// The count of sessions with status `st` is the number of those sessions
/// alone: a session of any other status never adds to it.
pub proof fn lemma_count_is_those_with_status(s: Seq<CodexSessionView>, st: SessionStatus)
    ensures
        count_status(s, st) == s.filter(has_status(st)).len(),
    decreases s.len(),
{
    reveal(Seq::filter);
    if s.len() > 0 {
        lemma_count_is_those_with_status(s.drop_last(), st);
    }
}

/// A snapshot counts every session it lists, and of them exactly those
/// running, those waiting for input and those completed.
pub proof fn lemma_summary_counts(payload: SessionsPayload, listed: Seq<CodexSessionView>, now: i64)
    requires
        shows(payload, listed, now),
    ensures
        payload.summary.total == listed.len(),
        payload.summary.running == listed.filter(|x: CodexSessionView| x.status == SessionStatus::Running).len(),
        payload.summary.waiting == listed.filter(|x: CodexSessionView| x.status == SessionStatus::WaitingInput).len(),
        payload.summary.completed == listed.filter(|x: CodexSessionView| x.status == SessionStatus::Completed).len(),
{
    lemma_count_is_those_with_status(listed, SessionStatus::Running);
    lemma_count_is_those_with_status(listed, SessionStatus::WaitingInput);
    lemma_count_is_those_with_status(listed, SessionStatus::Completed);
    assert(has_status(SessionStatus::Running) =~= (|x: CodexSessionView| x.status == SessionStatus::Running));
    assert(has_status(SessionStatus::WaitingInput) =~= (|x: CodexSessionView| x.status
        == SessionStatus::WaitingInput));
    assert(has_status(SessionStatus::Completed) =~= (|x: CodexSessionView| x.status == SessionStatus::Completed));
}

} // verus!

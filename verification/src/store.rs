//! The durable session store, modelled as the mathematical contents of the
//! three tables (sessions, messages, per-run history events) together with
//! the transition rules each operation must obey: conditional terminal
//! transitions, resume bookkeeping, idempotent history inserts, and startup
//! reconciliation of in-flight rows.

use vstd::prelude::*;
use vstd::string::*;

use crate::projection::{normalize_failure_reason, spec_normalize_failure_reason};
use crate::records::{
    clone_opt_string, Session, SessionDashboardRow, SessionDashboardRowV, SessionHistoryEvent,
    SessionHistoryEventV, SessionMessage, SessionMessageV, SessionRunMetadata, SessionV,
};
use crate::status::{
    is_inflight_status, is_terminal_status, spec_is_inflight_status, spec_is_terminal_status,
};
use crate::text::{lemma_lex_le_total, lemma_lex_le_trans, lex_le, str_eq, str_le};

verus! {

/// A full session row.
pub struct SessionRecord {
    pub id: String,
    pub name: String,
    pub status: String,
    pub working_dir: String,
    pub created_at: String,
    pub updated_at: String,
    pub last_activity_at: Option<String>,
    pub failure_reason: Option<String>,
    pub worktree_path: Option<String>,
    pub resume_count: u64,
    pub active_run_id: Option<String>,
    pub last_resume_at: Option<String>,
    pub restored: bool,
    pub restored_at: Option<String>,
    pub recovery_hint: bool,
}

/// The mathematical value of a session row.
pub struct SessionRecordV {
    pub id: Seq<char>,
    pub name: Seq<char>,
    pub status: Seq<char>,
    pub working_dir: Seq<char>,
    pub created_at: Seq<char>,
    pub updated_at: Seq<char>,
    pub last_activity_at: Option<Seq<char>>,
    pub failure_reason: Option<Seq<char>>,
    pub worktree_path: Option<Seq<char>>,
    pub resume_count: u64,
    pub active_run_id: Option<Seq<char>>,
    pub last_resume_at: Option<Seq<char>>,
    pub restored: bool,
    pub restored_at: Option<Seq<char>>,
    pub recovery_hint: bool,
}

impl View for SessionRecord {
    type V = SessionRecordV;

    open spec fn view(&self) -> SessionRecordV {
        SessionRecordV {
            id: self.id@,
            name: self.name@,
            status: self.status@,
            working_dir: self.working_dir@,
            created_at: self.created_at@,
            updated_at: self.updated_at@,
            last_activity_at: self.last_activity_at.deep_view(),
            failure_reason: self.failure_reason.deep_view(),
            worktree_path: self.worktree_path.deep_view(),
            resume_count: self.resume_count,
            active_run_id: self.active_run_id.deep_view(),
            last_resume_at: self.last_resume_at.deep_view(),
            restored: self.restored,
            restored_at: self.restored_at.deep_view(),
            recovery_hint: self.recovery_hint,
        }
    }
}

impl SessionRecord {
    /// Copies every field of the row.
    fn clone_record(&self) -> (r: SessionRecord)
        ensures
            r@ == self@,
    {
        SessionRecord {
            id: self.id.clone(),
            name: self.name.clone(),
            status: self.status.clone(),
            working_dir: self.working_dir.clone(),
            created_at: self.created_at.clone(),
            updated_at: self.updated_at.clone(),
            last_activity_at: clone_opt_string(&self.last_activity_at),
            failure_reason: clone_opt_string(&self.failure_reason),
            worktree_path: clone_opt_string(&self.worktree_path),
            resume_count: self.resume_count,
            active_run_id: clone_opt_string(&self.active_run_id),
            last_resume_at: clone_opt_string(&self.last_resume_at),
            restored: self.restored,
            restored_at: clone_opt_string(&self.restored_at),
            recovery_hint: self.recovery_hint,
        }
    }
}

impl SessionRecordV {
    /// The session row as handed to callers of `get_session`.
    pub open spec fn to_session(self) -> SessionV {
        SessionV {
            id: self.id,
            name: self.name,
            status: self.status,
            working_dir: self.working_dir,
            created_at: self.created_at,
            updated_at: self.updated_at,
        }
    }

    /// The fresh row that `create_session` stores for `s`.
    pub open spec fn fresh(s: SessionV) -> SessionRecordV {
        SessionRecordV {
            id: s.id,
            name: s.name,
            status: s.status,
            working_dir: s.working_dir,
            created_at: s.created_at,
            updated_at: s.updated_at,
            last_activity_at: None,
            failure_reason: None,
            worktree_path: None,
            resume_count: 0,
            active_run_id: None,
            last_resume_at: None,
            restored: false,
            restored_at: None,
            recovery_hint: false,
        }
    }

    /// The row with its status replaced and `updated_at` touched.
    pub open spec fn with_status(self, status: Seq<char>, now: Seq<char>) -> SessionRecordV {
        SessionRecordV { status: status, updated_at: now, ..self }
    }

    /// The row with its display name replaced and `updated_at` touched.
    pub open spec fn with_name(self, name: Seq<char>, now: Seq<char>) -> SessionRecordV {
        SessionRecordV { name: name, updated_at: now, ..self }
    }

    /// The row with `last_activity_at` written and `updated_at` touched.
    pub open spec fn with_activity(self, timestamp: Seq<char>, now: Seq<char>) -> SessionRecordV {
        SessionRecordV { last_activity_at: Some(timestamp), updated_at: now, ..self }
    }

    /// The row with its failure reason replaced and `updated_at` touched.
    pub open spec fn with_failure_reason(self, reason: Option<Seq<char>>, now: Seq<char>) -> SessionRecordV {
        SessionRecordV { failure_reason: reason, updated_at: now, ..self }
    }

    /// The row with its worktree path replaced and `updated_at` touched.
    pub open spec fn with_worktree_path(self, path: Option<Seq<char>>, now: Seq<char>) -> SessionRecordV {
        SessionRecordV { worktree_path: path, updated_at: now, ..self }
    }

    /// The row after `begin_resume_attempt`: resuming, resume count bumped,
    /// active run recorded, failure reason cleared.
    pub open spec fn with_resume(self, run_id: Seq<char>, resumed_at: Seq<char>) -> SessionRecordV {
        SessionRecordV {
            status: "resuming"@,
            resume_count: (self.resume_count + 1) as u64,
            active_run_id: Some(run_id),
            last_resume_at: Some(resumed_at),
            failure_reason: None,
            updated_at: resumed_at,
            ..self
        }
    }

    /// The row after `begin_run_attempt`: running, active run recorded,
    /// failure reason cleared, activity touched.
    pub open spec fn with_run(self, run_id: Seq<char>, now: Seq<char>) -> SessionRecordV {
        SessionRecordV {
            status: "running"@,
            active_run_id: Some(run_id),
            failure_reason: None,
            updated_at: now,
            last_activity_at: Some(now),
            ..self
        }
    }

    /// The row after startup reconciliation repaired it: failed, with the
    /// given reason, marked restored with a recovery hint.
    pub open spec fn with_reconciled(self, reason: Option<Seq<char>>, now: Seq<char>) -> SessionRecordV {
        SessionRecordV {
            status: "failed"@,
            failure_reason: reason,
            restored: true,
            restored_at: Some(now),
            recovery_hint: true,
            updated_at: now,
            ..self
        }
    }

    /// The row marked restored with a recovery hint.
    pub open spec fn with_restored(self, restored_at: Seq<char>) -> SessionRecordV {
        SessionRecordV {
            restored: true,
            restored_at: Some(restored_at),
            recovery_hint: true,
            updated_at: restored_at,
            ..self
        }
    }

    /// The row with its restored metadata cleared.
    pub open spec fn with_restored_cleared(self, now: Seq<char>) -> SessionRecordV {
        SessionRecordV {
            restored: false,
            restored_at: None,
            recovery_hint: false,
            updated_at: now,
            ..self
        }
    }

    /// The dashboard fields of the row.
    pub open spec fn to_dashboard(self) -> SessionDashboardRowV {
        SessionDashboardRowV {
            id: self.id,
            name: self.name,
            status: self.status,
            created_at: self.created_at,
            last_activity_at: self.last_activity_at,
            failure_reason: self.failure_reason,
            worktree_path: self.worktree_path,
            restored: self.restored,
            restored_at: self.restored_at,
            recovery_hint: self.recovery_hint,
        }
    }
}

/// The mathematical contents of the store.
pub struct DatabaseV {
    pub sessions: Seq<SessionRecordV>,
    pub messages: Seq<SessionMessageV>,
    pub events: Seq<SessionHistoryEventV>,
}

/// An error from the store.
#[derive(Debug)]
pub enum DbError {
    /// `create_session` was handed an identifier that already exists.
    DuplicateSessionId,
}

/// The durable store for sessions, messages, and per-run event history.
///
/// Sessions are kept ordered by `created_at`, newest first, so listings read
/// the rows as stored; history events are kept ordered by
/// `(timestamp, seq, id)` per session.
pub struct Database {
    sessions: Vec<SessionRecord>,
    messages: Vec<SessionMessage>,
    events: Vec<SessionHistoryEvent>,
}

impl View for Database {
    type V = DatabaseV;

    closed spec fn view(&self) -> DatabaseV {
        DatabaseV {
            sessions: self.sessions@.map_values(|r: SessionRecord| r@),
            messages: self.messages@.map_values(|m: SessionMessage| m@),
            events: self.events@.map_values(|e: SessionHistoryEvent| e@),
        }
    }
}

/// Whether the session id occurs in the rows.
pub open spec fn spec_has_session(sessions: Seq<SessionRecordV>, id: Seq<char>) -> bool {
    exists|i: int| 0 <= i < sessions.len() && sessions[i].id == id
}

/// The ordering key of a history event: `(timestamp, seq, id)`.
pub open spec fn hist_key_le(a: SessionHistoryEventV, b: SessionHistoryEventV) -> bool {
    if a.timestamp != b.timestamp {
        lex_le(a.timestamp, b.timestamp)
    } else if a.seq != b.seq {
        a.seq < b.seq
    } else {
        lex_le(a.id, b.id)
    }
}

impl Database {
    /// Internal well-formedness: sessions unique by id and ordered by
    /// `created_at` newest first; messages ordered by timestamp within each
    /// session; history events unique by `(session_id, run_id, seq)` and
    /// ordered by `(timestamp, seq, id)` within each session.
    pub open spec fn wf(&self) -> bool {
        let v = self@;
        &&& forall|i: int, j: int|
            0 <= i < j < v.sessions.len() ==> (#[trigger] v.sessions[i]).id != (
            #[trigger] v.sessions[j]).id
        &&& forall|i: int, j: int|
            0 <= i < j < v.sessions.len() ==> lex_le(
                (#[trigger] v.sessions[j]).created_at,
                (#[trigger] v.sessions[i]).created_at,
            )
        &&& forall|i: int, j: int|
            0 <= i < j < v.messages.len() && (#[trigger] v.messages[i]).session_id == (
            #[trigger] v.messages[j]).session_id ==> lex_le(
                v.messages[i].timestamp,
                v.messages[j].timestamp,
            )
        &&& forall|i: int, j: int|
            0 <= i < j < v.events.len() ==> !((#[trigger] v.events[i]).session_id == (
            #[trigger] v.events[j]).session_id && v.events[i].run_id == v.events[j].run_id
                && v.events[i].seq == v.events[j].seq)
        &&& forall|i: int, j: int|
            0 <= i < j < v.events.len() && (#[trigger] v.events[i]).session_id == (
            #[trigger] v.events[j]).session_id ==> hist_key_le(v.events[i], v.events[j])
    }

    /// An empty store.
    pub fn new() -> (r: Database)
        ensures
            r.wf(),
            r@.sessions =~= Seq::<SessionRecordV>::empty(),
            r@.messages =~= Seq::<SessionMessageV>::empty(),
            r@.events =~= Seq::<SessionHistoryEventV>::empty(),
    {
        let r = Database { sessions: Vec::new(), messages: Vec::new(), events: Vec::new() };
        proof {
            assert(r@.sessions =~= Seq::<SessionRecordV>::empty());
            assert(r@.messages =~= Seq::<SessionMessageV>::empty());
            assert(r@.events =~= Seq::<SessionHistoryEventV>::empty());
        }
        r
    }

    /// The index of the session row with the given id, if any.
    fn find_session_index(&self, id: &str) -> (r: Option<usize>)
        ensures
            match r {
                Some(i) => 0 <= i < self@.sessions.len() && self@.sessions[i as int].id == id@,
                None => !spec_has_session(self@.sessions, id@),
            },
    {
        let n = self.sessions.len();
        let mut i: usize = 0;
        while i < n
            invariant
                n == self@.sessions.len(),
                i <= n,
                forall|j: int| 0 <= j < i ==> (#[trigger] self@.sessions[j]).id != id@,
            decreases n - i,
        {
            if str_eq(self.sessions[i].id.as_str(), id) {
                return Some(i);
            }
            i = i + 1;
        }
        None
    }

    /// Inserts a new session row. Fails, changing nothing, if the identifier
    /// already exists; otherwise the row is stored with default lifecycle
    /// fields, placed so that rows stay ordered by `created_at` newest first.
    pub fn create_session(&mut self, session: &Session) -> (r: Result<(), DbError>)
        requires
            old(self).wf(),
        ensures
            final(self).wf(),
            final(self)@.messages == old(self)@.messages,
            final(self)@.events == old(self)@.events,
            match r {
                Err(_) => spec_has_session(old(self)@.sessions, session.id@) && final(self)@.sessions
                    == old(self)@.sessions,
                Ok(_) => {
                    &&& !spec_has_session(old(self)@.sessions, session.id@)
                    &&& final(self)@.sessions == old(self)@.sessions.insert(
                        spec_session_insert_pos(old(self)@.sessions, session.created_at@),
                        SessionRecordV::fresh(session@),
                    )
                },
            },
    {
        if let Some(_) = self.find_session_index(session.id.as_str()) {
            return Err(DbError::DuplicateSessionId);
        }
        let record = SessionRecord {
            id: session.id.clone(),
            name: session.name.clone(),
            status: session.status.clone(),
            working_dir: session.working_dir.clone(),
            created_at: session.created_at.clone(),
            updated_at: session.updated_at.clone(),
            last_activity_at: None,
            failure_reason: None,
            worktree_path: None,
            resume_count: 0,
            active_run_id: None,
            last_resume_at: None,
            restored: false,
            restored_at: None,
            recovery_hint: false,
        };
        assert(record@ == SessionRecordV::fresh(session@));
        // Find the first position whose row was created strictly earlier,
        // so equal timestamps keep insertion order.
        let n = self.sessions.len();
        let mut p: usize = 0;
        while p < n && str_le(record.created_at.as_str(), self.sessions[p].created_at.as_str())
            invariant
                self@ == old(self)@,
                n == self@.sessions.len(),
                p <= n,
                record@ == SessionRecordV::fresh(session@),
                forall|j: int|
                    0 <= j < p ==> lex_le(record@.created_at, (#[trigger] self@.sessions[j]).created_at),
                spec_session_insert_pos(self@.sessions, session.created_at@)
                    == spec_session_insert_pos_from(self@.sessions, session.created_at@, p as int),
            decreases n - p,
        {
            p = p + 1;
        }
        proof {
            if p < n {
                lemma_lex_le_total(record@.created_at, self@.sessions[p as int].created_at);
            }
            assert(spec_session_insert_pos(self@.sessions, session.created_at@) == p as int);
        }
        let ghost old_sessions = self@.sessions;
        self.sessions.insert(p, record);
        proof {
            assert(self@.sessions =~= old_sessions.insert(p as int, SessionRecordV::fresh(session@)));
            let v = self@.sessions;
            assert(v[p as int] == SessionRecordV::fresh(session@));
            assert(v[p as int].id == session.id@);
            assert(forall|k: int| 0 <= k < p ==> v[k] == old_sessions[k]);
            assert(forall|k: int| p < k < v.len() ==> v[k] == old_sessions[k - 1]);
            assert forall|i: int, j: int| 0 <= i < j < v.len() implies lex_le(
                (#[trigger] v[j]).created_at,
                (#[trigger] v[i]).created_at,
            ) by {
                if i == p {
                    // new row at i, j after: old index j-1 >= p
                    assert(v[j] == old_sessions[j - 1]);
                    if j - 1 > p {
                        lemma_lex_le_trans(
                            old_sessions[j - 1].created_at,
                            old_sessions[p as int].created_at,
                            v[i].created_at,
                        );
                    }
                } else if j == p {
                    assert(v[i] == old_sessions[i]);
                } else if i < p && j < p {
                    assert(v[i] == old_sessions[i] && v[j] == old_sessions[j]);
                } else if i < p && j > p {
                    assert(v[i] == old_sessions[i] && v[j] == old_sessions[j - 1]);
                    if j - 1 > p {
                        lemma_lex_le_trans(
                            old_sessions[j - 1].created_at,
                            old_sessions[p as int].created_at,
                            record@.created_at,
                        );
                        lemma_lex_le_trans(
                            old_sessions[j - 1].created_at,
                            record@.created_at,
                            old_sessions[i].created_at,
                        );
                    } else {
                        lemma_lex_le_trans(
                            old_sessions[j - 1].created_at,
                            record@.created_at,
                            old_sessions[i].created_at,
                        );
                    }
                } else {
                    assert(v[i] == old_sessions[i - 1] && v[j] == old_sessions[j - 1]);
                }
            }
            assert forall|i: int, j: int| 0 <= i < j < v.len() implies (#[trigger] v[i]).id != (
            #[trigger] v[j]).id by {
                if i == p {
                    assert(v[j] == old_sessions[j - 1]);
                    assert(!spec_has_session(old_sessions, v[i].id));
                } else if j == p {
                    assert(v[i] == old_sessions[i]);
                    assert(!spec_has_session(old_sessions, v[j].id));
                } else {
                    let i0: int = if i < p { i } else { i - 1 };
                    let j0: int = if j < p { j } else { j - 1 };
                    assert(v[i] == old_sessions[i0] && v[j] == old_sessions[j0]);
                }
            }
            let w = self@;
            assert(forall|i: int, j: int|
                0 <= i < j < w.sessions.len() ==> (#[trigger] w.sessions[i]).id != (
                #[trigger] w.sessions[j]).id);
            assert(forall|i: int, j: int|
                0 <= i < j < w.sessions.len() ==> lex_le(
                    (#[trigger] w.sessions[j]).created_at,
                    (#[trigger] w.sessions[i]).created_at,
                ));
            assert(w.messages == old(self)@.messages);
            assert(w.events == old(self)@.events);
            assert(forall|i: int, j: int|
                0 <= i < j < w.messages.len() && (#[trigger] w.messages[i]).session_id == (
                #[trigger] w.messages[j]).session_id ==> lex_le(
                    w.messages[i].timestamp,
                    w.messages[j].timestamp,
                ));
            assert(forall|i: int, j: int|
                0 <= i < j < w.events.len() ==> !((#[trigger] w.events[i]).session_id == (
                #[trigger] w.events[j]).session_id && w.events[i].run_id == w.events[j].run_id
                    && w.events[i].seq == w.events[j].seq));
            assert(forall|i: int, j: int|
                0 <= i < j < w.events.len() && (#[trigger] w.events[i]).session_id == (
                #[trigger] w.events[j]).session_id ==> hist_key_le(w.events[i], w.events[j]));
        }
        Ok(())
    }

    /// The stored identity fields of a session, if the id exists.
    pub fn get_session(&self, id: &str) -> (r: Option<Session>)
        ensures
            match r {
                Some(s) => exists|i: int|
                    0 <= i < self@.sessions.len() && (#[trigger] self@.sessions[i]).id == id@ && s@
                        == self@.sessions[i].to_session(),
                None => !spec_has_session(self@.sessions, id@),
            },
    {
        let Some(i) = self.find_session_index(id) else { return None };
        let row = &self.sessions[i];
        let s = Session {
            id: row.id.clone(),
            name: row.name.clone(),
            status: row.status.clone(),
            working_dir: row.working_dir.clone(),
            created_at: row.created_at.clone(),
            updated_at: row.updated_at.clone(),
        };
        proof {
            assert(s@ == self@.sessions[i as int].to_session());
        }
        Some(s)
    }

    /// Replaces the row at `i` with one that keeps its identity and creation
    /// time, so uniqueness and ordering are preserved.
    fn replace_session_at(&mut self, i: usize, row: SessionRecord)
        requires
            old(self).wf(),
            i < old(self)@.sessions.len(),
            row@.id == old(self)@.sessions[i as int].id,
            row@.created_at == old(self)@.sessions[i as int].created_at,
        ensures
            final(self).wf(),
            final(self)@.sessions =~= old(self)@.sessions.update(i as int, row@),
            final(self)@.messages == old(self)@.messages,
            final(self)@.events == old(self)@.events,
    {
        let ghost old_s = self@.sessions;
        let _ = self.sessions.remove(i);
        self.sessions.insert(i, row);
        proof {
            let u = self@.sessions;
            assert(u =~= old_s.update(i as int, row@));
            assert(forall|a: int|
                0 <= a < u.len() ==> (#[trigger] u[a]).id == old_s[a].id && u[a].created_at
                    == old_s[a].created_at);
            assert forall|a: int, b: int| 0 <= a < b < u.len() implies (#[trigger] u[a]).id != (
            #[trigger] u[b]).id && lex_le(u[b].created_at, u[a].created_at) by {
                assert(old_s[a].id != old_s[b].id);
                assert(lex_le(old_s[b].created_at, old_s[a].created_at));
            }
            let w = self@;
            assert(forall|a: int, b: int|
                0 <= a < b < w.sessions.len() ==> (#[trigger] w.sessions[a]).id != (
                #[trigger] w.sessions[b]).id);
            assert(forall|a: int, b: int|
                0 <= a < b < w.sessions.len() ==> lex_le(
                    (#[trigger] w.sessions[b]).created_at,
                    (#[trigger] w.sessions[a]).created_at,
                ));
            assert(w.messages == old(self)@.messages);
            assert(w.events == old(self)@.events);
            assert(forall|a: int, b: int|
                0 <= a < b < w.messages.len() && (#[trigger] w.messages[a]).session_id == (
                #[trigger] w.messages[b]).session_id ==> lex_le(
                    w.messages[a].timestamp,
                    w.messages[b].timestamp,
                ));
            assert(forall|a: int, b: int|
                0 <= a < b < w.events.len() ==> !((#[trigger] w.events[a]).session_id == (
                #[trigger] w.events[b]).session_id && w.events[a].run_id == w.events[b].run_id
                    && w.events[a].seq == w.events[b].seq));
            assert(forall|a: int, b: int|
                0 <= a < b < w.events.len() && (#[trigger] w.events[a]).session_id == (
                #[trigger] w.events[b]).session_id ==> hist_key_le(w.events[a], w.events[b]));
        }
    }

    /// Writes the status unconditionally and touches `updated_at`.
    pub fn update_session_status(&mut self, id: &str, status: &str, now: &str)
        requires
            old(self).wf(),
        ensures
            final(self).wf(),
            final(self)@.messages == old(self)@.messages,
            final(self)@.events == old(self)@.events,
            final(self)@.sessions.len() == old(self)@.sessions.len(),
            forall|i: int|
                0 <= i < old(self)@.sessions.len() ==> (#[trigger] final(self)@.sessions[i]) == (
                if old(self)@.sessions[i].id == id@ {
                    old(self)@.sessions[i].with_status(status@, now@)
                } else {
                    old(self)@.sessions[i]
                }),
    {
        let Some(i) = self.find_session_index(id) else { return };
        let mut row = self.sessions[i].clone_record();
        row.status = String::from_str(status);
        row.updated_at = String::from_str(now);
        assert(row@ == old(self)@.sessions[i as int].with_status(status@, now@));
        self.replace_session_at(i, row);
    }

    /// Writes the display name and touches `updated_at`.
    pub fn update_session_name(&mut self, id: &str, name: &str, now: &str)
        requires
            old(self).wf(),
        ensures
            final(self).wf(),
            final(self)@.messages == old(self)@.messages,
            final(self)@.events == old(self)@.events,
            final(self)@.sessions.len() == old(self)@.sessions.len(),
            forall|i: int|
                0 <= i < old(self)@.sessions.len() ==> (#[trigger] final(self)@.sessions[i]) == (
                if old(self)@.sessions[i].id == id@ {
                    old(self)@.sessions[i].with_name(name@, now@)
                } else {
                    old(self)@.sessions[i]
                }),
    {
        let Some(i) = self.find_session_index(id) else { return };
        let mut row = self.sessions[i].clone_record();
        row.name = String::from_str(name);
        row.updated_at = String::from_str(now);
        assert(row@ == old(self)@.sessions[i as int].with_name(name@, now@));
        self.replace_session_at(i, row);
    }

    /// Writes `last_activity_at` and touches `updated_at`.
    pub fn update_last_activity(&mut self, id: &str, timestamp: &str, now: &str)
        requires
            old(self).wf(),
        ensures
            final(self).wf(),
            final(self)@.messages == old(self)@.messages,
            final(self)@.events == old(self)@.events,
            final(self)@.sessions.len() == old(self)@.sessions.len(),
            forall|i: int|
                0 <= i < old(self)@.sessions.len() ==> (#[trigger] final(self)@.sessions[i]) == (
                if old(self)@.sessions[i].id == id@ {
                    old(self)@.sessions[i].with_activity(timestamp@, now@)
                } else {
                    old(self)@.sessions[i]
                }),
    {
        let Some(i) = self.find_session_index(id) else { return };
        let mut row = self.sessions[i].clone_record();
        row.last_activity_at = Some(String::from_str(timestamp));
        row.updated_at = String::from_str(now);
        assert(row@ == old(self)@.sessions[i as int].with_activity(timestamp@, now@));
        self.replace_session_at(i, row);
    }

    /// Writes the failure reason as given and touches `updated_at`.
    pub fn update_failure_reason(&mut self, id: &str, reason: Option<&str>, now: &str)
        requires
            old(self).wf(),
        ensures
            final(self).wf(),
            final(self)@.messages == old(self)@.messages,
            final(self)@.events == old(self)@.events,
            final(self)@.sessions.len() == old(self)@.sessions.len(),
            forall|i: int|
                0 <= i < old(self)@.sessions.len() ==> (#[trigger] final(self)@.sessions[i]) == (
                if old(self)@.sessions[i].id == id@ {
                    old(self)@.sessions[i].with_failure_reason(reason.deep_view(), now@)
                } else {
                    old(self)@.sessions[i]
                }),
    {
        let Some(i) = self.find_session_index(id) else { return };
        let mut row = self.sessions[i].clone_record();
        row.failure_reason = match reason {
            Some(r) => Some(String::from_str(r)),
            None => None,
        };
        row.updated_at = String::from_str(now);
        assert(row@ == old(self)@.sessions[i as int].with_failure_reason(
            reason.deep_view(),
            now@,
        ));
        self.replace_session_at(i, row);
    }

    /// Writes the worktree path and touches `updated_at`.
    pub fn update_worktree_path(&mut self, id: &str, worktree_path: Option<&str>, now: &str)
        requires
            old(self).wf(),
        ensures
            final(self).wf(),
            final(self)@.messages == old(self)@.messages,
            final(self)@.events == old(self)@.events,
            final(self)@.sessions.len() == old(self)@.sessions.len(),
            forall|i: int|
                0 <= i < old(self)@.sessions.len() ==> (#[trigger] final(self)@.sessions[i]) == (
                if old(self)@.sessions[i].id == id@ {
                    old(self)@.sessions[i].with_worktree_path(worktree_path.deep_view(), now@)
                } else {
                    old(self)@.sessions[i]
                }),
    {
        let Some(i) = self.find_session_index(id) else { return };
        let mut row = self.sessions[i].clone_record();
        row.worktree_path = match worktree_path {
            Some(p) => Some(String::from_str(p)),
            None => None,
        };
        row.updated_at = String::from_str(now);
        assert(row@ == old(self)@.sessions[i as int].with_worktree_path(
            worktree_path.deep_view(),
            now@,
        ));
        self.replace_session_at(i, row);
    }

    /// Moves the row to `status` if and only if `status` is terminal and the
    /// row exists in an in-flight status; returns whether the row moved.
    /// Together with the runtime's one-shot transition flag this guarantees
    /// at most one terminal write per row.
    pub fn transition_session_terminal(&mut self, id: &str, status: &str, now: &str) -> (r: bool)
        requires
            old(self).wf(),
        ensures
            final(self).wf(),
            final(self)@.messages == old(self)@.messages,
            final(self)@.events == old(self)@.events,
            final(self)@.sessions.len() == old(self)@.sessions.len(),
            r == (spec_is_terminal_status(status@) && exists|i: int|
                0 <= i < old(self)@.sessions.len() && (#[trigger] old(self)@.sessions[i]).id == id@
                    && spec_is_inflight_status(old(self)@.sessions[i].status)),
            forall|i: int|
                0 <= i < old(self)@.sessions.len() ==> (#[trigger] final(self)@.sessions[i]) == (
                if old(self)@.sessions[i].id == id@ && spec_is_terminal_status(status@)
                    && spec_is_inflight_status(old(self)@.sessions[i].status) {
                    old(self)@.sessions[i].with_status(status@, now@)
                } else {
                    old(self)@.sessions[i]
                }),
    {
        if !is_terminal_status(status) {
            return false;
        }
        let Some(i) = self.find_session_index(id) else { return false };
        if !is_inflight_status(self.sessions[i].status.as_str()) {
            return false;
        }
        let mut row = self.sessions[i].clone_record();
        row.status = String::from_str(status);
        row.updated_at = String::from_str(now);
        assert(row@ == old(self)@.sessions[i as int].with_status(status@, now@));
        self.replace_session_at(i, row);
        true
    }

    /// Moves the row to `interrupting` if and only if it exists in an
    /// in-flight status; returns whether the row moved.
    pub fn transition_session_to_interrupting(&mut self, id: &str, now: &str) -> (r: bool)
        requires
            old(self).wf(),
        ensures
            final(self).wf(),
            final(self)@.messages == old(self)@.messages,
            final(self)@.events == old(self)@.events,
            final(self)@.sessions.len() == old(self)@.sessions.len(),
            r == exists|i: int|
                0 <= i < old(self)@.sessions.len() && (#[trigger] old(self)@.sessions[i]).id == id@
                    && spec_is_inflight_status(old(self)@.sessions[i].status),
            forall|i: int|
                0 <= i < old(self)@.sessions.len() ==> (#[trigger] final(self)@.sessions[i]) == (
                if old(self)@.sessions[i].id == id@ && spec_is_inflight_status(
                    old(self)@.sessions[i].status,
                ) {
                    old(self)@.sessions[i].with_status("interrupting"@, now@)
                } else {
                    old(self)@.sessions[i]
                }),
    {
        let Some(i) = self.find_session_index(id) else { return false };
        if !is_inflight_status(self.sessions[i].status.as_str()) {
            return false;
        }
        let mut row = self.sessions[i].clone_record();
        row.status = String::from_str("interrupting");
        row.updated_at = String::from_str(now);
        assert(row@ == old(self)@.sessions[i as int].with_status("interrupting"@, now@));
        self.replace_session_at(i, row);
        true
    }

    /// Moves the row to `resuming` if and only if it exists in `completed` or
    /// `interrupted`: bumps `resume_count`, records the run and resume time,
    /// and clears the failure reason. Returns whether the row moved.
    pub fn begin_resume_attempt(&mut self, id: &str, run_id: &str, resumed_at: &str) -> (r: bool)
        requires
            old(self).wf(),
        ensures
            final(self).wf(),
            final(self)@.messages == old(self)@.messages,
            final(self)@.events == old(self)@.events,
            final(self)@.sessions.len() == old(self)@.sessions.len(),
            r == exists|i: int|
                0 <= i < old(self)@.sessions.len() && (#[trigger] old(self)@.sessions[i]).id == id@
                    && spec_is_resumable(old(self)@.sessions[i]),
            forall|i: int|
                0 <= i < old(self)@.sessions.len() ==> (#[trigger] final(self)@.sessions[i]) == (
                if old(self)@.sessions[i].id == id@ && spec_is_resumable(old(self)@.sessions[i]) {
                    old(self)@.sessions[i].with_resume(run_id@, resumed_at@)
                } else {
                    old(self)@.sessions[i]
                }),
    {
        let Some(i) = self.find_session_index(id) else { return false };
        let current = &self.sessions[i];
        if !(str_eq(current.status.as_str(), "completed") || str_eq(
            current.status.as_str(),
            "interrupted",
        )) {
            return false;
        }
        if current.resume_count == u64::MAX {
            return false;
        }
        let mut row = self.sessions[i].clone_record();
        row.status = String::from_str("resuming");
        row.resume_count = row.resume_count + 1;
        row.active_run_id = Some(String::from_str(run_id));
        row.last_resume_at = Some(String::from_str(resumed_at));
        row.failure_reason = None;
        row.updated_at = String::from_str(resumed_at);
        assert(row@ == old(self)@.sessions[i as int].with_resume(run_id@, resumed_at@));
        self.replace_session_at(i, row);
        true
    }

    /// Moves the row to `running` for the given run: records the run id,
    /// clears the failure reason, touches activity. Returns whether the row
    /// exists.
    pub fn begin_run_attempt(&mut self, id: &str, run_id: &str, now: &str) -> (r: bool)
        requires
            old(self).wf(),
        ensures
            final(self).wf(),
            final(self)@.messages == old(self)@.messages,
            final(self)@.events == old(self)@.events,
            final(self)@.sessions.len() == old(self)@.sessions.len(),
            r == spec_has_session(old(self)@.sessions, id@),
            forall|i: int|
                0 <= i < old(self)@.sessions.len() ==> (#[trigger] final(self)@.sessions[i]) == (
                if old(self)@.sessions[i].id == id@ {
                    old(self)@.sessions[i].with_run(run_id@, now@)
                } else {
                    old(self)@.sessions[i]
                }),
    {
        let Some(i) = self.find_session_index(id) else { return false };
        let mut row = self.sessions[i].clone_record();
        row.status = String::from_str("running");
        row.active_run_id = Some(String::from_str(run_id));
        row.failure_reason = None;
        row.updated_at = String::from_str(now);
        row.last_activity_at = Some(String::from_str(now));
        assert(row@ == old(self)@.sessions[i as int].with_run(run_id@, now@));
        self.replace_session_at(i, row);
        true
    }

    /// Repairs every row left in an in-flight status by a crash: each becomes
    /// `failed` with the normalized reason, marked restored with a recovery
    /// hint. Returns the repaired identifiers in stored order.
    pub fn reconcile_stale_inflight_sessions(&mut self, reason: &str, now: &str) -> (r: Vec<String>)
        requires
            old(self).wf(),
        ensures
            final(self).wf(),
            final(self)@.messages == old(self)@.messages,
            final(self)@.events == old(self)@.events,
            final(self)@.sessions.len() == old(self)@.sessions.len(),
            forall|i: int|
                0 <= i < old(self)@.sessions.len() ==> (#[trigger] final(self)@.sessions[i]) == (
                if spec_is_inflight_status(old(self)@.sessions[i].status) {
                    old(self)@.sessions[i].with_reconciled(
                        spec_normalize_failure_reason(Some(reason@)),
                        now@,
                    )
                } else {
                    old(self)@.sessions[i]
                }),
            r.deep_view() == spec_stale_ids_from(old(self)@.sessions, 0),
    {
        let normalized = normalize_failure_reason(Some(reason));
        let ghost norm_v = spec_normalize_failure_reason(Some(reason@));
        let ghost old_s = self@.sessions;
        let mut out: Vec<String> = Vec::new();
        let n = self.sessions.len();
        let mut i: usize = 0;
        while i < n
            invariant
                self.wf(),
                n == old_s.len(),
                i <= n,
                self@.sessions.len() == n,
                self@.messages == old(self)@.messages,
                self@.events == old(self)@.events,
                normalized.deep_view() == norm_v,
                forall|j: int|
                    0 <= j < n ==> (#[trigger] self@.sessions[j]) == (if j < i
                        && spec_is_inflight_status(old_s[j].status) {
                        old_s[j].with_reconciled(norm_v, now@)
                    } else {
                        old_s[j]
                    }),
                spec_stale_ids_from(old_s, 0) =~= out.deep_view() + spec_stale_ids_from(
                    old_s,
                    i as int,
                ),
            decreases n - i,
        {
            assert(self@.sessions[i as int] == old_s[i as int]);
            if is_inflight_status(self.sessions[i].status.as_str()) {
                out.push(self.sessions[i].id.clone());
                let mut row = self.sessions[i].clone_record();
                row.status = String::from_str("failed");
                row.failure_reason = clone_opt_string(&normalized);
                row.restored = true;
                row.restored_at = Some(String::from_str(now));
                row.recovery_hint = true;
                row.updated_at = String::from_str(now);
                assert(row@ == old_s[i as int].with_reconciled(norm_v, now@));
                self.replace_session_at(i, row);
            }
            proof {
                assert(spec_stale_ids_from(old_s, i as int) == (if spec_is_inflight_status(
                    old_s[i as int].status,
                ) {
                    seq![old_s[i as int].id] + spec_stale_ids_from(old_s, i + 1)
                } else {
                    spec_stale_ids_from(old_s, i + 1)
                }));
                assert(spec_stale_ids_from(old_s, 0) =~= out.deep_view() + spec_stale_ids_from(
                    old_s,
                    i + 1,
                ));
            }
            i = i + 1;
        }
        out
    }

    /// Marks each listed session restored with a recovery hint.
    pub fn mark_sessions_restored(&mut self, session_ids: &Vec<String>, restored_at: &str)
        requires
            old(self).wf(),
        ensures
            final(self).wf(),
            final(self)@.messages == old(self)@.messages,
            final(self)@.events == old(self)@.events,
            final(self)@.sessions.len() == old(self)@.sessions.len(),
            forall|i: int|
                0 <= i < old(self)@.sessions.len() ==> (#[trigger] final(self)@.sessions[i]) == (
                if session_ids.deep_view().contains(old(self)@.sessions[i].id) {
                    old(self)@.sessions[i].with_restored(restored_at@)
                } else {
                    old(self)@.sessions[i]
                }),
    {
        let ghost old_s = self@.sessions;
        let ghost ids = session_ids.deep_view();
        proof {
            assert(ids.len() == session_ids@.len());
            assert(forall|j: int| 0 <= j < ids.len() ==> (#[trigger] ids[j]) == session_ids@[j]@);
        }
        let n = session_ids.len();
        let mut k: usize = 0;
        while k < n
            invariant
                self.wf(),
                n == ids.len(),
                k <= n,
                n == session_ids@.len(),
                forall|j: int| 0 <= j < ids.len() ==> (#[trigger] ids[j]) == session_ids@[j]@,
                self@.sessions.len() == old_s.len(),
                self@.messages == old(self)@.messages,
                self@.events == old(self)@.events,
                forall|i: int|
                    0 <= i < old_s.len() ==> (#[trigger] self@.sessions[i]) == (if ids.take(
                        k as int,
                    ).contains(old_s[i].id) {
                        old_s[i].with_restored(restored_at@)
                    } else {
                        old_s[i]
                    }),
            decreases n - k,
        {
            assert(session_ids@[k as int]@ == ids[k as int]);
            let ghost pre = self@.sessions;
            let found = self.find_session_index(session_ids[k].as_str());
            if let Some(i) = found {
                let mut row = self.sessions[i].clone_record();
                row.restored = true;
                row.restored_at = Some(String::from_str(restored_at));
                row.recovery_hint = true;
                row.updated_at = String::from_str(restored_at);
                proof {
                    assert(pre[i as int].id == old_s[i as int].id);
                    assert(row@ == old_s[i as int].with_restored(restored_at@)) by {
                        if ids.take(k as int).contains(old_s[i as int].id) {
                            assert(pre[i as int] == old_s[i as int].with_restored(restored_at@));
                        } else {
                            assert(pre[i as int] == old_s[i as int]);
                        }
                    }
                }
                self.replace_session_at(i, row);
            }
            proof {
                assert(ids.take(k + 1) =~= ids.take(k as int).push(ids[k as int]));
                assert(ids.take(k + 1)[k as int] == ids[k as int]);
                assert forall|i: int| 0 <= i < old_s.len() implies (#[trigger] self@.sessions[i])
                    == (if ids.take(k + 1).contains(old_s[i].id) {
                    old_s[i].with_restored(restored_at@)
                } else {
                    old_s[i]
                }) by {
                    assert(pre[i].id == old_s[i].id);
                    if ids.take(k + 1).contains(old_s[i].id) {
                        if ids.take(k as int).contains(old_s[i].id) {
                            // Already restored before this step; a second write
                            // would store the same fields again.
                            assert(pre[i] == old_s[i].with_restored(restored_at@));
                            if found matches Some(f) && i == f as int {
                                assert(self@.sessions[i] == pre[i].with_restored(restored_at@));
                            } else {
                                assert(self@.sessions[i] == pre[i]);
                            }
                        } else {
                            let w = choose|w: int|
                                0 <= w < ids.take(k + 1).len() && #[trigger] ids.take(k + 1)[w]
                                    == old_s[i].id;
                            assert(w == k as int);
                            assert(old_s[i].id == ids[k as int]);
                            match found {
                                Some(f) => {
                                    assert(pre[f as int].id == ids[k as int]);
                                    assert(pre[i].id == pre[f as int].id);
                                    assert(i == f as int);
                                    assert(self@.sessions[i] == old_s[i].with_restored(
                                        restored_at@,
                                    ));
                                },
                                None => {
                                    assert(!spec_has_session(pre, ids[k as int]));
                                    assert(pre[i].id == ids[k as int]);
                                    assert(false);
                                },
                            }
                        }
                    } else {
                        assert(!ids.take(k as int).contains(old_s[i].id)) by {
                            if ids.take(k as int).contains(old_s[i].id) {
                                let w = choose|w: int|
                                    0 <= w < k && #[trigger] ids.take(k as int)[w] == old_s[i].id;
                                assert(ids.take(k + 1)[w] == old_s[i].id);
                            }
                        }
                        assert(old_s[i].id != ids[k as int]);
                        assert(pre[i] == old_s[i]);
                        match found {
                            Some(f) => {
                                if i == f as int {
                                    assert(pre[f as int].id == ids[k as int]);
                                    assert(false);
                                }
                                assert(self@.sessions[i] == pre[i]);
                            },
                            None => {
                                assert(self@.sessions[i] == pre[i]);
                            },
                        }
                    }
                }
            }
            k = k + 1;
        }
        proof {
            assert(ids.take(n as int) =~= ids);
        }
    }

    /// Clears the restored metadata of a row that carries any of it.
    pub fn clear_restored_metadata(&mut self, id: &str, now: &str)
        requires
            old(self).wf(),
        ensures
            final(self).wf(),
            final(self)@.messages == old(self)@.messages,
            final(self)@.events == old(self)@.events,
            final(self)@.sessions.len() == old(self)@.sessions.len(),
            forall|i: int|
                0 <= i < old(self)@.sessions.len() ==> (#[trigger] final(self)@.sessions[i]) == (
                if old(self)@.sessions[i].id == id@ && (old(self)@.sessions[i].restored || old(
                    self,
                )@.sessions[i].recovery_hint) {
                    old(self)@.sessions[i].with_restored_cleared(now@)
                } else {
                    old(self)@.sessions[i]
                }),
    {
        let Some(i) = self.find_session_index(id) else { return };
        if !(self.sessions[i].restored || self.sessions[i].recovery_hint) {
            return ;
        }
        let mut row = self.sessions[i].clone_record();
        row.restored = false;
        row.restored_at = None;
        row.recovery_hint = false;
        row.updated_at = String::from_str(now);
        assert(row@ == old(self)@.sessions[i as int].with_restored_cleared(now@));
        self.replace_session_at(i, row);
    }

    /// The stored worktree path of the session, if the row exists and has one.
    pub fn get_session_worktree_path(&self, id: &str) -> (r: Option<String>)
        requires
            self.wf(),
        ensures
            r.deep_view() == (match spec_session_of(self@.sessions, id@) {
                Some(row) => row.worktree_path,
                None => None,
            }),
    {
        let Some(i) = self.find_session_index(id) else {
            proof {
                lemma_session_of_none(self@.sessions, id@);
            }
            return None;
        };
        proof {
            lemma_session_of_some(self@.sessions, id@, i as int);
        }
        clone_opt_string(&self.sessions[i].worktree_path)
    }

    /// The resume-tracking fields of the session, if the row exists.
    pub fn get_session_run_metadata(&self, id: &str) -> (r: Option<SessionRunMetadata>)
        requires
            self.wf(),
        ensures
            match r {
                Some(m) => match spec_session_of(self@.sessions, id@) {
                    Some(row) => m.resume_count == row.resume_count && m.active_run_id.deep_view()
                        == row.active_run_id && m.last_resume_at.deep_view() == row.last_resume_at,
                    None => false,
                },
                None => spec_session_of(self@.sessions, id@) is None,
            },
    {
        let Some(i) = self.find_session_index(id) else {
            proof {
                lemma_session_of_none(self@.sessions, id@);
            }
            return None;
        };
        proof {
            lemma_session_of_some(self@.sessions, id@, i as int);
        }
        let row = &self.sessions[i];
        Some(
            SessionRunMetadata {
                resume_count: row.resume_count,
                active_run_id: clone_opt_string(&row.active_run_id),
                last_resume_at: clone_opt_string(&row.last_resume_at),
            },
        )
    }

    /// Every session, newest first.
    pub fn list_sessions(&self) -> (r: Vec<Session>)
        ensures
            r@.len() == self@.sessions.len(),
            forall|i: int|
                0 <= i < r@.len() ==> (#[trigger] r@[i])@ == self@.sessions[i].to_session(),
    {
        let n = self.sessions.len();
        let mut out: Vec<Session> = Vec::new();
        while out.len() < n
            invariant
                n == self@.sessions.len(),
                out@.len() <= n,
                forall|i: int|
                    0 <= i < out@.len() ==> (#[trigger] out@[i])@ == self@.sessions[i].to_session(),
            decreases n - out@.len(),
        {
            let row = &self.sessions[out.len()];
            out.push(
                Session {
                    id: row.id.clone(),
                    name: row.name.clone(),
                    status: row.status.clone(),
                    working_dir: row.working_dir.clone(),
                    created_at: row.created_at.clone(),
                    updated_at: row.updated_at.clone(),
                },
            );
        }
        out
    }

    /// Every session's dashboard fields, newest first.
    pub fn list_dashboard_sessions(&self) -> (r: Vec<SessionDashboardRow>)
        ensures
            r@.len() == self@.sessions.len(),
            forall|i: int|
                0 <= i < r@.len() ==> (#[trigger] r@[i])@ == self@.sessions[i].to_dashboard(),
    {
        let n = self.sessions.len();
        let mut out: Vec<SessionDashboardRow> = Vec::new();
        while out.len() < n
            invariant
                n == self@.sessions.len(),
                out@.len() <= n,
                forall|i: int|
                    0 <= i < out@.len() ==> (#[trigger] out@[i])@ == self@.sessions[i].to_dashboard(),
            decreases n - out@.len(),
        {
            let row = &self.sessions[out.len()];
            out.push(
                SessionDashboardRow {
                    id: row.id.clone(),
                    name: row.name.clone(),
                    status: row.status.clone(),
                    created_at: row.created_at.clone(),
                    last_activity_at: clone_opt_string(&row.last_activity_at),
                    failure_reason: clone_opt_string(&row.failure_reason),
                    worktree_path: clone_opt_string(&row.worktree_path),
                    restored: row.restored,
                    restored_at: clone_opt_string(&row.restored_at),
                    recovery_hint: row.recovery_hint,
                },
            );
        }
        out
    }
}

/// The identifiers, from position `i` on, of rows in an in-flight status.
pub open spec fn spec_stale_ids_from(s: Seq<SessionRecordV>, i: int) -> Seq<Seq<char>>
    decreases s.len() - i,
{
    if i < 0 || i >= s.len() {
        Seq::empty()
    } else if spec_is_inflight_status(s[i].status) {
        seq![s[i].id] + spec_stale_ids_from(s, i + 1)
    } else {
        spec_stale_ids_from(s, i + 1)
    }
}

/// Where a freshly created row with this creation time is stored, scanning
/// from position `i`: right after every row created no earlier, so rows stay
/// ordered newest first and equal timestamps keep insertion order.
pub open spec fn spec_session_insert_pos_from(
    rows: Seq<SessionRecordV>,
    created_at: Seq<char>,
    i: int,
) -> int
    decreases rows.len() - i,
{
    if i < 0 || i >= rows.len() {
        rows.len() as int
    } else if lex_le(created_at, rows[i].created_at) {
        spec_session_insert_pos_from(rows, created_at, i + 1)
    } else {
        i
    }
}

/// Where a freshly created row with this creation time is stored.
pub open spec fn spec_session_insert_pos(rows: Seq<SessionRecordV>, created_at: Seq<char>) -> int {
    spec_session_insert_pos_from(rows, created_at, 0)
}

/// The row with the given id, if any.
pub open spec fn spec_session_of(s: Seq<SessionRecordV>, id: Seq<char>) -> Option<SessionRecordV>
    decreases s.len(),
{
    if s.len() == 0 {
        None
    } else if s[0].id == id {
        Some(s[0])
    } else {
        spec_session_of(s.drop_first(), id)
    }
}

proof fn lemma_session_of_none(s: Seq<SessionRecordV>, id: Seq<char>)
    requires
        !spec_has_session(s, id),
    ensures
        spec_session_of(s, id) is None,
    decreases s.len(),
{
    if s.len() > 0 {
        assert(s[0].id != id);
        assert(forall|i: int|
            0 <= i < s.drop_first().len() ==> (#[trigger] s.drop_first()[i]) == s[i + 1]);
        lemma_session_of_none(s.drop_first(), id);
    }
}

proof fn lemma_session_of_some(s: Seq<SessionRecordV>, id: Seq<char>, i: int)
    requires
        0 <= i < s.len(),
        s[i].id == id,
        forall|a: int, b: int|
            0 <= a < b < s.len() ==> (#[trigger] s[a]).id != (#[trigger] s[b]).id,
    ensures
        spec_session_of(s, id) == Some(s[i]),
    decreases s.len(),
{
    if i == 0 {
    } else {
        assert(s[0].id != s[i].id);
        assert(forall|k: int|
            0 <= k < s.drop_first().len() ==> (#[trigger] s.drop_first()[k]) == s[k + 1]);
        lemma_session_of_some(s.drop_first(), id, i - 1);
    }
}

/// A session row from which an explicit resume is permitted.
pub open spec fn spec_is_resumable(r: SessionRecordV) -> bool {
    (r.status == "completed"@ || r.status == "interrupted"@) && r.resume_count < u64::MAX
}

/// The ordering of history keys is total.
pub proof fn lemma_hist_key_total(a: SessionHistoryEventV, b: SessionHistoryEventV)
    ensures
        hist_key_le(a, b) || hist_key_le(b, a),
{
    lemma_lex_le_total(a.timestamp, b.timestamp);
    lemma_lex_le_total(a.id, b.id);
}

/// The ordering of history keys is transitive.
pub proof fn lemma_hist_key_trans(
    a: SessionHistoryEventV,
    b: SessionHistoryEventV,
    c: SessionHistoryEventV,
)
    requires
        hist_key_le(a, b),
        hist_key_le(b, c),
    ensures
        hist_key_le(a, c),
{
    if a.timestamp == b.timestamp && b.timestamp == c.timestamp {
        if a.seq == b.seq && b.seq == c.seq {
            lemma_lex_le_trans(a.id, b.id, c.id);
        }
    } else if a.timestamp == b.timestamp {
    } else if b.timestamp == c.timestamp {
    } else {
        lemma_lex_le_trans(a.timestamp, b.timestamp, c.timestamp);
        if a.timestamp == c.timestamp {
            crate::text::lemma_lex_le_antisym(b.timestamp, c.timestamp);
        }
    }
}

/// The messages attached to a session, from position `i` on, in stored order.
pub open spec fn spec_messages_of_from(
    ms: Seq<SessionMessageV>,
    sid: Seq<char>,
    i: int,
) -> Seq<SessionMessageV>
    decreases ms.len() - i,
{
    if i < 0 || i >= ms.len() {
        Seq::empty()
    } else if ms[i].session_id == sid {
        seq![ms[i]] + spec_messages_of_from(ms, sid, i + 1)
    } else {
        spec_messages_of_from(ms, sid, i + 1)
    }
}

/// The messages attached to a session, in stored order.
pub open spec fn spec_messages_of(ms: Seq<SessionMessageV>, sid: Seq<char>) -> Seq<SessionMessageV> {
    spec_messages_of_from(ms, sid, 0)
}

/// The history events attached to a session, from position `i` on, in stored
/// order.
pub open spec fn spec_events_of_from(
    es: Seq<SessionHistoryEventV>,
    sid: Seq<char>,
    i: int,
) -> Seq<SessionHistoryEventV>
    decreases es.len() - i,
{
    if i < 0 || i >= es.len() {
        Seq::empty()
    } else if es[i].session_id == sid {
        seq![es[i]] + spec_events_of_from(es, sid, i + 1)
    } else {
        spec_events_of_from(es, sid, i + 1)
    }
}

/// The history events attached to a session, in stored order.
pub open spec fn spec_events_of(es: Seq<SessionHistoryEventV>, sid: Seq<char>) -> Seq<
    SessionHistoryEventV,
> {
    spec_events_of_from(es, sid, 0)
}

/// Where a new message of the session with the given timestamp is stored:
/// right after the last message of the same session that does not sort after
/// it.
pub open spec fn spec_msg_insert_pos(ms: Seq<SessionMessageV>, sid: Seq<char>, ts: Seq<char>) -> int
    decreases ms.len(),
{
    if ms.len() == 0 {
        0
    } else if ms.last().session_id == sid && lex_le(ms.last().timestamp, ts) {
        ms.len() as int
    } else {
        spec_msg_insert_pos(ms.drop_last(), sid, ts)
    }
}

proof fn lemma_msg_insert_pos(ms: Seq<SessionMessageV>, sid: Seq<char>, ts: Seq<char>)
    ensures
        0 <= spec_msg_insert_pos(ms, sid, ts) <= ms.len(),
        forall|k: int|
            spec_msg_insert_pos(ms, sid, ts) <= k < ms.len() && (#[trigger] ms[k]).session_id == sid
                ==> !lex_le(ms[k].timestamp, ts),
        spec_msg_insert_pos(ms, sid, ts) > 0 ==> ms[spec_msg_insert_pos(ms, sid, ts) - 1].session_id
            == sid && lex_le(ms[spec_msg_insert_pos(ms, sid, ts) - 1].timestamp, ts),
    decreases ms.len(),
{
    if ms.len() == 0 {
    } else if ms.last().session_id == sid && lex_le(ms.last().timestamp, ts) {
    } else {
        lemma_msg_insert_pos(ms.drop_last(), sid, ts);
        assert(forall|k: int| 0 <= k < ms.len() - 1 ==> ms.drop_last()[k] == ms[k]);
    }
}

/// Where a new history event is stored: right after the last event of the
/// same session whose `(timestamp, seq, id)` key does not sort after it.
pub open spec fn spec_evt_insert_pos(es: Seq<SessionHistoryEventV>, ev: SessionHistoryEventV) -> int
    decreases es.len(),
{
    if es.len() == 0 {
        0
    } else if es.last().session_id == ev.session_id && hist_key_le(es.last(), ev) {
        es.len() as int
    } else {
        spec_evt_insert_pos(es.drop_last(), ev)
    }
}

proof fn lemma_evt_insert_pos(es: Seq<SessionHistoryEventV>, ev: SessionHistoryEventV)
    ensures
        0 <= spec_evt_insert_pos(es, ev) <= es.len(),
        forall|k: int|
            spec_evt_insert_pos(es, ev) <= k < es.len() && (#[trigger] es[k]).session_id
                == ev.session_id ==> !hist_key_le(es[k], ev),
        spec_evt_insert_pos(es, ev) > 0 ==> es[spec_evt_insert_pos(es, ev) - 1].session_id
            == ev.session_id && hist_key_le(es[spec_evt_insert_pos(es, ev) - 1], ev),
    decreases es.len(),
{
    if es.len() == 0 {
    } else if es.last().session_id == ev.session_id && hist_key_le(es.last(), ev) {
    } else {
        lemma_evt_insert_pos(es.drop_last(), ev);
        assert(forall|k: int| 0 <= k < es.len() - 1 ==> es.drop_last()[k] == es[k]);
    }
}

/// Whether the stored message belongs to the session and does not sort after
/// a new message with the given timestamp.
fn msg_goes_after(m: &SessionMessage, session_id: &str, timestamp: &str) -> (r: bool)
    ensures
        r == (m@.session_id == session_id@ && lex_le(m@.timestamp, timestamp@)),
{
    str_eq(m.session_id.as_str(), session_id) && str_le(m.timestamp.as_str(), timestamp)
}

/// Whether the stored event belongs to the session and its
/// `(timestamp, seq, id)` key does not sort after a new event with the given
/// key.
fn evt_goes_after(
    e: &SessionHistoryEvent,
    session_id: &str,
    timestamp: &str,
    seq: u64,
    new_id: &str,
) -> (r: bool)
    ensures
        r == (e@.session_id == session_id@ && (if e@.timestamp != timestamp@ {
            lex_le(e@.timestamp, timestamp@)
        } else if e@.seq != seq {
            e@.seq < seq
        } else {
            lex_le(e@.id, new_id@)
        })),
{
    if !str_eq(e.session_id.as_str(), session_id) {
        return false;
    }
    if !str_eq(e.timestamp.as_str(), timestamp) {
        str_le(e.timestamp.as_str(), timestamp)
    } else if e.seq != seq {
        e.seq < seq
    } else {
        str_le(e.id.as_str(), new_id)
    }
}

/// Relies on `uuid::Uuid::new_v4` and its hyphenated `Display` form: a fresh
/// random identifier, 36 characters long.
#[verifier::external_body]
fn new_uuid() -> (r: String)
    ensures
        r@.len() == 36,
{
    uuid::Uuid::new_v4().to_string()
}

impl Database {
    /// Attaches a message to a session under a fresh identifier, stored so
    /// that a session's messages stay ordered by timestamp, insertions of
    /// equal timestamps keeping their order.
    pub fn insert_session_message(
        &mut self,
        session_id: &str,
        role: &str,
        content: &str,
        timestamp: &str,
    )
        requires
            old(self).wf(),
        ensures
            final(self).wf(),
            final(self)@.sessions == old(self)@.sessions,
            final(self)@.events == old(self)@.events,
            exists|mid: Seq<char>|
                #![auto]
                mid.len() == 36 && final(self)@.messages == old(self)@.messages.insert(
                    spec_msg_insert_pos(old(self)@.messages, session_id@, timestamp@),
                    SessionMessageV {
                        id: mid,
                        session_id: session_id@,
                        role: role@,
                        content: content@,
                        timestamp: timestamp@,
                    },
                ),
    {
        let ghost ms = self@.messages;
        let n = self.messages.len();
        proof {
            assert(ms.take(n as int) =~= ms);
        }
        let mut p: usize = n;
        while p > 0 && !msg_goes_after(&self.messages[p - 1], session_id, timestamp)
            invariant
                self.wf(),
                self@ == old(self)@,
                n == ms.len(),
                ms == self@.messages,
                p <= n,
                spec_msg_insert_pos(ms, session_id@, timestamp@) == spec_msg_insert_pos(
                    ms.take(p as int),
                    session_id@,
                    timestamp@,
                ),
            decreases p,
        {
            proof {
                assert(ms.take(p as int).last() == ms[p - 1]);
                assert(ms.take(p as int).drop_last() =~= ms.take(p - 1));
            }
            p = p - 1;
        }
        proof {
            if p == 0 {
                assert(ms.take(0) =~= Seq::<SessionMessageV>::empty());
            } else {
                assert(ms[p - 1].session_id == session_id@ && lex_le(
                    ms[p - 1].timestamp,
                    timestamp@,
                ));
                assert(ms.take(p as int).last() == ms[p - 1]);
                assert(ms.take(p as int).len() == p as int);
            }
            assert(spec_msg_insert_pos(ms, session_id@, timestamp@) == p as int);
        }
        let message = SessionMessage {
            id: new_uuid(),
            session_id: String::from_str(session_id),
            role: String::from_str(role),
            content: String::from_str(content),
            timestamp: String::from_str(timestamp),
        };
        let ghost mv = message@;
        self.messages.insert(p, message);
        proof {
            assert(self@.messages =~= ms.insert(p as int, mv));
            lemma_msg_insert_pos(ms, session_id@, timestamp@);
            let u = self@.messages;
            assert forall|a: int, b: int|
                0 <= a < b < u.len() && (#[trigger] u[a]).session_id == (
                #[trigger] u[b]).session_id implies lex_le(u[a].timestamp, u[b].timestamp) by {
                if a == p {
                    assert(u[b] == ms[b - 1]);
                    assert(!lex_le(ms[b - 1].timestamp, timestamp@));
                    lemma_lex_le_total(mv.timestamp, ms[b - 1].timestamp);
                } else if b == p {
                    assert(u[a] == ms[a]);
                    if p > 0 {
                        if a == p - 1 {
                        } else {
                            assert(lex_le(ms[a].timestamp, ms[p - 1].timestamp));
                            lemma_lex_le_trans(
                                ms[a].timestamp,
                                ms[p - 1].timestamp,
                                mv.timestamp,
                            );
                        }
                    }
                } else {
                    let a0: int = if a < p { a } else { a - 1 };
                    let b0: int = if b < p { b } else { b - 1 };
                    assert(u[a] == ms[a0] && u[b] == ms[b0]);
                }
            }
            let w = self@;
            assert(w.sessions == old(self)@.sessions);
            assert(w.events == old(self)@.events);
            assert(forall|a: int, b: int|
                0 <= a < b < w.sessions.len() ==> (#[trigger] w.sessions[a]).id != (
                #[trigger] w.sessions[b]).id);
            assert(forall|a: int, b: int|
                0 <= a < b < w.sessions.len() ==> lex_le(
                    (#[trigger] w.sessions[b]).created_at,
                    (#[trigger] w.sessions[a]).created_at,
                ));
            assert(forall|a: int, b: int|
                0 <= a < b < w.events.len() ==> !((#[trigger] w.events[a]).session_id == (
                #[trigger] w.events[b]).session_id && w.events[a].run_id == w.events[b].run_id
                    && w.events[a].seq == w.events[b].seq));
            assert(forall|a: int, b: int|
                0 <= a < b < w.events.len() && (#[trigger] w.events[a]).session_id == (
                #[trigger] w.events[b]).session_id ==> hist_key_le(w.events[a], w.events[b]));
        }
    }

    /// The messages of a session, ordered by timestamp.
    pub fn list_session_messages(&self, session_id: &str) -> (r: Vec<SessionMessage>)
        ensures
            r@.map_values(|m: SessionMessage| m@) == spec_messages_of(self@.messages, session_id@),
    {
        let n = self.messages.len();
        let mut out: Vec<SessionMessage> = Vec::new();
        let mut i: usize = 0;
        while i < n
            invariant
                n == self@.messages.len(),
                i <= n,
                spec_messages_of(self@.messages, session_id@) =~= out@.map_values(
                    |m: SessionMessage| m@,
                ) + spec_messages_of_from(self@.messages, session_id@, i as int),
            decreases n - i,
        {
            let ghost before = out@.map_values(|m: SessionMessage| m@);
            let m = &self.messages[i];
            if str_eq(m.session_id.as_str(), session_id) {
                out.push(
                    SessionMessage {
                        id: m.id.clone(),
                        session_id: m.session_id.clone(),
                        role: m.role.clone(),
                        content: m.content.clone(),
                        timestamp: m.timestamp.clone(),
                    },
                );
                proof {
                    assert(out@.map_values(|m: SessionMessage| m@) =~= before.push(
                        self@.messages[i as int],
                    ));
                    assert(before.push(self@.messages[i as int]) + spec_messages_of_from(
                        self@.messages,
                        session_id@,
                        i + 1,
                    ) =~= before + (seq![self@.messages[i as int]] + spec_messages_of_from(
                        self@.messages,
                        session_id@,
                        i + 1,
                    )));
                }
            }
            i = i + 1;
        }
        proof {
            assert(out@.map_values(|m: SessionMessage| m@) =~= spec_messages_of(
                self@.messages,
                session_id@,
            ));
        }
        out
    }

    /// Records one typed event of a run durably under a fresh identifier.
    /// A duplicate `(session_id, run_id, seq)` insert is an idempotent no-op.
    /// Events of a session stay ordered by `(timestamp, seq, id)`.
    pub fn insert_session_event(
        &mut self,
        session_id: &str,
        run_id: &str,
        seq: u64,
        event_type: &str,
        payload_json: &str,
        timestamp: &str,
    )
        requires
            old(self).wf(),
        ensures
            final(self).wf(),
            final(self)@.sessions == old(self)@.sessions,
            final(self)@.messages == old(self)@.messages,
            spec_has_event(old(self)@.events, session_id@, run_id@, seq) ==> final(self)@.events
                == old(self)@.events,
            !spec_has_event(old(self)@.events, session_id@, run_id@, seq) ==> exists|
                eid: Seq<char>,
            |
                #![auto]
                eid.len() == 36 && final(self)@.events == old(self)@.events.insert(
                    spec_evt_insert_pos(
                        old(self)@.events,
                        SessionHistoryEventV {
                            id: eid,
                            session_id: session_id@,
                            run_id: run_id@,
                            seq: seq,
                            event_type: event_type@,
                            payload_json: payload_json@,
                            timestamp: timestamp@,
                        },
                    ),
                    SessionHistoryEventV {
                        id: eid,
                        session_id: session_id@,
                        run_id: run_id@,
                        seq: seq,
                        event_type: event_type@,
                        payload_json: payload_json@,
                        timestamp: timestamp@,
                    },
                ),
    {
        let ghost es = self@.events;
        let n = self.events.len();
        let mut i: usize = 0;
        while i < n
            invariant
                self.wf(),
                self@ == old(self)@,
                n == es.len(),
                es == self@.events,
                i <= n,
                forall|j: int|
                    0 <= j < i ==> !((#[trigger] es[j]).session_id == session_id@ && es[j].run_id
                        == run_id@ && es[j].seq == seq),
            decreases n - i,
        {
            let e = &self.events[i];
            if str_eq(e.session_id.as_str(), session_id) && str_eq(e.run_id.as_str(), run_id)
                && e.seq == seq {
                proof {
                    assert((#[trigger] es[i as int]).session_id == session_id@ && es[
                        i as int
                    ].run_id == run_id@ && es[i as int].seq == seq);
                    assert(spec_has_event(es, session_id@, run_id@, seq));
                }
                return ;
            }
            i = i + 1;
        }
        let event = SessionHistoryEvent {
            id: new_uuid(),
            session_id: String::from_str(session_id),
            run_id: String::from_str(run_id),
            seq: seq,
            event_type: String::from_str(event_type),
            payload_json: String::from_str(payload_json),
            timestamp: String::from_str(timestamp),
        };
        let ghost ev = event@;
        proof {
            assert(es.take(n as int) =~= es);
        }
        let mut p: usize = n;
        while p > 0 && !evt_goes_after(
            &self.events[p - 1],
            session_id,
            timestamp,
            seq,
            event.id.as_str(),
        )
            invariant
                self.wf(),
                self@ == old(self)@,
                n == es.len(),
                es == self@.events,
                p <= n,
                event@ == ev,
                ev.session_id == session_id@,
                ev.timestamp == timestamp@,
                ev.seq == seq,
                spec_evt_insert_pos(es, ev) == spec_evt_insert_pos(es.take(p as int), ev),
            decreases p,
        {
            proof {
                assert(es.take(p as int).last() == es[p - 1]);
                assert(es.take(p as int).drop_last() =~= es.take(p - 1));
            }
            p = p - 1;
        }
        proof {
            if p == 0 {
                assert(es.take(0) =~= Seq::<SessionHistoryEventV>::empty());
            } else {
                assert(es[p - 1].session_id == ev.session_id && hist_key_le(es[p - 1], ev));
                assert(es.take(p as int).last() == es[p - 1]);
                assert(es.take(p as int).len() == p as int);
            }
            assert(spec_evt_insert_pos(es, ev) == p as int);
        }
        self.events.insert(p, event);
        proof {
            assert(self@.events =~= es.insert(p as int, ev));
            lemma_evt_insert_pos(es, ev);
            let u = self@.events;
            assert forall|a: int, b: int|
                0 <= a < b < u.len() && (#[trigger] u[a]).session_id == (
                #[trigger] u[b]).session_id implies hist_key_le(u[a], u[b]) && !(u[a].run_id
                == u[b].run_id && u[a].seq == u[b].seq) by {
                if a == p {
                    assert(u[b] == es[b - 1]);
                    assert(!hist_key_le(es[b - 1], ev));
                    lemma_hist_key_total(ev, es[b - 1]);
                } else if b == p {
                    assert(u[a] == es[a]);
                    if p > 0 {
                        if a == p - 1 {
                        } else {
                            assert(hist_key_le(es[a], es[p - 1]));
                            lemma_hist_key_trans(es[a], es[p - 1], ev);
                        }
                    }
                } else {
                    let a0: int = if a < p { a } else { a - 1 };
                    let b0: int = if b < p { b } else { b - 1 };
                    assert(u[a] == es[a0] && u[b] == es[b0]);
                }
            }
            let w = self@;
            assert(w.sessions == old(self)@.sessions);
            assert(w.messages == old(self)@.messages);
            assert(forall|a: int, b: int|
                0 <= a < b < w.sessions.len() ==> (#[trigger] w.sessions[a]).id != (
                #[trigger] w.sessions[b]).id);
            assert(forall|a: int, b: int|
                0 <= a < b < w.sessions.len() ==> lex_le(
                    (#[trigger] w.sessions[b]).created_at,
                    (#[trigger] w.sessions[a]).created_at,
                ));
            assert(forall|a: int, b: int|
                0 <= a < b < w.messages.len() && (#[trigger] w.messages[a]).session_id == (
                #[trigger] w.messages[b]).session_id ==> lex_le(
                    w.messages[a].timestamp,
                    w.messages[b].timestamp,
                ));
        }
    }

    /// The history events of a session, ordered by `(timestamp, seq, id)`.
    pub fn list_session_history(&self, session_id: &str) -> (r: Vec<SessionHistoryEvent>)
        ensures
            r@.map_values(|e: SessionHistoryEvent| e@) == spec_events_of(self@.events, session_id@),
    {
        let n = self.events.len();
        let mut out: Vec<SessionHistoryEvent> = Vec::new();
        let mut i: usize = 0;
        while i < n
            invariant
                n == self@.events.len(),
                i <= n,
                spec_events_of(self@.events, session_id@) =~= out@.map_values(
                    |e: SessionHistoryEvent| e@,
                ) + spec_events_of_from(self@.events, session_id@, i as int),
            decreases n - i,
        {
            let ghost before = out@.map_values(|e: SessionHistoryEvent| e@);
            let e = &self.events[i];
            if str_eq(e.session_id.as_str(), session_id) {
                out.push(
                    SessionHistoryEvent {
                        id: e.id.clone(),
                        session_id: e.session_id.clone(),
                        run_id: e.run_id.clone(),
                        seq: e.seq,
                        event_type: e.event_type.clone(),
                        payload_json: e.payload_json.clone(),
                        timestamp: e.timestamp.clone(),
                    },
                );
                proof {
                    assert(out@.map_values(|e: SessionHistoryEvent| e@) =~= before.push(
                        self@.events[i as int],
                    ));
                    assert(before.push(self@.events[i as int]) + spec_events_of_from(
                        self@.events,
                        session_id@,
                        i + 1,
                    ) =~= before + (seq![self@.events[i as int]] + spec_events_of_from(
                        self@.events,
                        session_id@,
                        i + 1,
                    )));
                }
            }
            i = i + 1;
        }
        proof {
            assert(out@.map_values(|e: SessionHistoryEvent| e@) =~= spec_events_of(
                self@.events,
                session_id@,
            ));
        }
        out
    }
}

/// The session rows among the first `j` whose id is not `id`, in order.
pub open spec fn spec_sessions_without_upto(
    s: Seq<SessionRecordV>,
    id: Seq<char>,
    j: int,
) -> Seq<SessionRecordV>
    decreases j,
{
    if j <= 0 {
        Seq::empty()
    } else if s[j - 1].id == id {
        spec_sessions_without_upto(s, id, j - 1)
    } else {
        spec_sessions_without_upto(s, id, j - 1).push(s[j - 1])
    }
}

/// The session rows whose id is not `id`, in order.
pub open spec fn spec_sessions_without(s: Seq<SessionRecordV>, id: Seq<char>) -> Seq<
    SessionRecordV,
> {
    spec_sessions_without_upto(s, id, s.len() as int)
}

/// The messages among the first `j` not attached to the session, in order.
pub open spec fn spec_messages_without_upto(
    ms: Seq<SessionMessageV>,
    sid: Seq<char>,
    j: int,
) -> Seq<SessionMessageV>
    decreases j,
{
    if j <= 0 {
        Seq::empty()
    } else if ms[j - 1].session_id == sid {
        spec_messages_without_upto(ms, sid, j - 1)
    } else {
        spec_messages_without_upto(ms, sid, j - 1).push(ms[j - 1])
    }
}

/// The messages not attached to the session, in order.
pub open spec fn spec_messages_without(ms: Seq<SessionMessageV>, sid: Seq<char>) -> Seq<
    SessionMessageV,
> {
    spec_messages_without_upto(ms, sid, ms.len() as int)
}

/// The history events among the first `j` not attached to the session, in
/// order.
pub open spec fn spec_events_without_upto(
    es: Seq<SessionHistoryEventV>,
    sid: Seq<char>,
    j: int,
) -> Seq<SessionHistoryEventV>
    decreases j,
{
    if j <= 0 {
        Seq::empty()
    } else if es[j - 1].session_id == sid {
        spec_events_without_upto(es, sid, j - 1)
    } else {
        spec_events_without_upto(es, sid, j - 1).push(es[j - 1])
    }
}

/// The history events not attached to the session, in order.
pub open spec fn spec_events_without(es: Seq<SessionHistoryEventV>, sid: Seq<char>) -> Seq<
    SessionHistoryEventV,
> {
    spec_events_without_upto(es, sid, es.len() as int)
}

impl Database {
    /// Removes the session row and, cascading, its messages and history
    /// events.
    pub fn delete_session(&mut self, id: &str)
        requires
            old(self).wf(),
        ensures
            final(self).wf(),
            final(self)@.sessions == spec_sessions_without(old(self)@.sessions, id@),
            final(self)@.messages == spec_messages_without(old(self)@.messages, id@),
            final(self)@.events == spec_events_without(old(self)@.events, id@),
    {
        let ghost pre_s = self@.sessions;
        let mut k: usize = 0;
        let ghost mut j: int = 0;
        while k < self.sessions.len()
            invariant
                self.wf(),
                self@.messages == old(self)@.messages,
                self@.events == old(self)@.events,
                0 <= j <= pre_s.len(),
                k == spec_sessions_without_upto(pre_s, id@, j).len(),
                self@.sessions =~= spec_sessions_without_upto(pre_s, id@, j) + pre_s.skip(j),
            decreases pre_s.len() - j,
        {
            proof {
                assert(self@.sessions[k as int] == pre_s.skip(j)[0]);
                assert(pre_s.skip(j)[0] == pre_s[j]);
            }
            let ghost cur = self@.sessions;
            if str_eq(self.sessions[k].id.as_str(), id) {
                let _ = self.sessions.remove(k);
                proof {
                    assert(self@.sessions =~= cur.remove(k as int));
                    assert(spec_sessions_without_upto(pre_s, id@, j + 1)
                        == spec_sessions_without_upto(pre_s, id@, j));
                    assert(self@.sessions =~= spec_sessions_without_upto(pre_s, id@, j + 1)
                        + pre_s.skip(j + 1));
                    let u = self@.sessions;
                    assert forall|a: int, b: int| 0 <= a < b < u.len() implies (
                    #[trigger] u[a]).id != (#[trigger] u[b]).id && lex_le(
                        u[b].created_at,
                        u[a].created_at,
                    ) by {
                        let a0: int = if a < k { a } else { a + 1 };
                        let b0: int = if b < k { b } else { b + 1 };
                        assert(u[a] == cur[a0] && u[b] == cur[b0]);
                    }
                }
            } else {
                k = k + 1;
                proof {
                    assert(spec_sessions_without_upto(pre_s, id@, j + 1)
                        =~= spec_sessions_without_upto(pre_s, id@, j).push(pre_s[j]));
                    assert(self@.sessions =~= spec_sessions_without_upto(pre_s, id@, j + 1)
                        + pre_s.skip(j + 1));
                }
            }
            proof {
                j = j + 1;
            }
        }
        proof {
            assert(pre_s.skip(j) =~= Seq::<SessionRecordV>::empty());
            assert(j == pre_s.len());
            assert(self@.sessions =~= spec_sessions_without(pre_s, id@));
        }
        let ghost pre_m = self@.messages;
        let mut k: usize = 0;
        let ghost mut j: int = 0;
        while k < self.messages.len()
            invariant
                self.wf(),
                self@.sessions == spec_sessions_without(old(self)@.sessions, id@),
                self@.events == old(self)@.events,
                pre_m == old(self)@.messages,
                0 <= j <= pre_m.len(),
                k == spec_messages_without_upto(pre_m, id@, j).len(),
                self@.messages =~= spec_messages_without_upto(pre_m, id@, j) + pre_m.skip(j),
            decreases pre_m.len() - j,
        {
            proof {
                assert(self@.messages[k as int] == pre_m.skip(j)[0]);
                assert(pre_m.skip(j)[0] == pre_m[j]);
            }
            let ghost cur = self@.messages;
            if str_eq(self.messages[k].session_id.as_str(), id) {
                let _ = self.messages.remove(k);
                proof {
                    assert(self@.messages =~= cur.remove(k as int));
                    assert(spec_messages_without_upto(pre_m, id@, j + 1)
                        == spec_messages_without_upto(pre_m, id@, j));
                    assert(self@.messages =~= spec_messages_without_upto(pre_m, id@, j + 1)
                        + pre_m.skip(j + 1));
                    let u = self@.messages;
                    assert forall|a: int, b: int|
                        0 <= a < b < u.len() && (#[trigger] u[a]).session_id == (
                        #[trigger] u[b]).session_id implies lex_le(
                        u[a].timestamp,
                        u[b].timestamp,
                    ) by {
                        let a0: int = if a < k { a } else { a + 1 };
                        let b0: int = if b < k { b } else { b + 1 };
                        assert(u[a] == cur[a0] && u[b] == cur[b0]);
                    }
                }
            } else {
                k = k + 1;
                proof {
                    assert(spec_messages_without_upto(pre_m, id@, j + 1)
                        =~= spec_messages_without_upto(pre_m, id@, j).push(pre_m[j]));
                    assert(self@.messages =~= spec_messages_without_upto(pre_m, id@, j + 1)
                        + pre_m.skip(j + 1));
                }
            }
            proof {
                j = j + 1;
            }
        }
        proof {
            assert(pre_m.skip(j) =~= Seq::<SessionMessageV>::empty());
            assert(self@.messages =~= spec_messages_without(pre_m, id@));
        }
        let ghost pre_e = self@.events;
        let mut k: usize = 0;
        let ghost mut j: int = 0;
        while k < self.events.len()
            invariant
                self.wf(),
                self@.sessions == spec_sessions_without(old(self)@.sessions, id@),
                self@.messages == spec_messages_without(old(self)@.messages, id@),
                pre_e == old(self)@.events,
                0 <= j <= pre_e.len(),
                k == spec_events_without_upto(pre_e, id@, j).len(),
                self@.events =~= spec_events_without_upto(pre_e, id@, j) + pre_e.skip(j),
            decreases pre_e.len() - j,
        {
            proof {
                assert(self@.events[k as int] == pre_e.skip(j)[0]);
                assert(pre_e.skip(j)[0] == pre_e[j]);
            }
            let ghost cur = self@.events;
            if str_eq(self.events[k].session_id.as_str(), id) {
                let _ = self.events.remove(k);
                proof {
                    assert(self@.events =~= cur.remove(k as int));
                    assert(spec_events_without_upto(pre_e, id@, j + 1) == spec_events_without_upto(
                        pre_e,
                        id@,
                        j,
                    ));
                    assert(self@.events =~= spec_events_without_upto(pre_e, id@, j + 1)
                        + pre_e.skip(j + 1));
                    let u = self@.events;
                    assert forall|a: int, b: int|
                        0 <= a < b < u.len() && (#[trigger] u[a]).session_id == (
                        #[trigger] u[b]).session_id implies hist_key_le(u[a], u[b]) && !(
                    u[a].run_id == u[b].run_id && u[a].seq == u[b].seq) by {
                        let a0: int = if a < k { a } else { a + 1 };
                        let b0: int = if b < k { b } else { b + 1 };
                        assert(u[a] == cur[a0] && u[b] == cur[b0]);
                    }
                }
            } else {
                k = k + 1;
                proof {
                    assert(spec_events_without_upto(pre_e, id@, j + 1) =~= spec_events_without_upto(
                        pre_e,
                        id@,
                        j,
                    ).push(pre_e[j]));
                    assert(self@.events =~= spec_events_without_upto(pre_e, id@, j + 1)
                        + pre_e.skip(j + 1));
                }
            }
            proof {
                j = j + 1;
            }
        }
        proof {
            assert(pre_e.skip(j) =~= Seq::<SessionHistoryEventV>::empty());
            assert(self@.events =~= spec_events_without(pre_e, id@));
        }
    }
}

/// Whether a history event with this `(session_id, run_id, seq)` key is
/// stored.
pub open spec fn spec_has_event(
    es: Seq<SessionHistoryEventV>,
    sid: Seq<char>,
    rid: Seq<char>,
    seq: u64,
) -> bool {
    exists|i: int|
        0 <= i < es.len() && (#[trigger] es[i]).session_id == sid && es[i].run_id == rid
            && es[i].seq == seq
}

} // verus!

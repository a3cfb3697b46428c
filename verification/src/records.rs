//! The persisted record shapes: sessions, messages, history events, dashboard
//! rows, and per-run metadata.

use vstd::prelude::*;

verus! {

/// The identity and lifecycle fields of a session, as handed to callers.
pub struct Session {
    pub id: String,
    pub name: String,
    pub status: String,
    pub working_dir: String,
    pub created_at: String,
    pub updated_at: String,
}

/// The mathematical value of a `Session`.
pub struct SessionV {
    pub id: Seq<char>,
    pub name: Seq<char>,
    pub status: Seq<char>,
    pub working_dir: Seq<char>,
    pub created_at: Seq<char>,
    pub updated_at: Seq<char>,
}

impl View for Session {
    type V = SessionV;

    open spec fn view(&self) -> SessionV {
        SessionV {
            id: self.id@,
            name: self.name@,
            status: self.status@,
            working_dir: self.working_dir@,
            created_at: self.created_at@,
            updated_at: self.updated_at@,
        }
    }
}

/// An assistant or tool text message attached to a session.
pub struct SessionMessage {
    pub id: String,
    pub session_id: String,
    pub role: String,
    pub content: String,
    pub timestamp: String,
}

/// The mathematical value of a `SessionMessage`.
pub struct SessionMessageV {
    pub id: Seq<char>,
    pub session_id: Seq<char>,
    pub role: Seq<char>,
    pub content: Seq<char>,
    pub timestamp: Seq<char>,
}

impl View for SessionMessage {
    type V = SessionMessageV;

    open spec fn view(&self) -> SessionMessageV {
        SessionMessageV {
            id: self.id@,
            session_id: self.session_id@,
            role: self.role@,
            content: self.content@,
            timestamp: self.timestamp@,
        }
    }
}

/// A session row restricted to the fields the dashboard reads.
pub struct SessionDashboardRow {
    pub id: String,
    pub name: String,
    pub status: String,
    pub created_at: String,
    pub last_activity_at: Option<String>,
    pub failure_reason: Option<String>,
    pub worktree_path: Option<String>,
    pub restored: bool,
    pub restored_at: Option<String>,
    pub recovery_hint: bool,
}

/// The mathematical value of a `SessionDashboardRow`.
pub struct SessionDashboardRowV {
    pub id: Seq<char>,
    pub name: Seq<char>,
    pub status: Seq<char>,
    pub created_at: Seq<char>,
    pub last_activity_at: Option<Seq<char>>,
    pub failure_reason: Option<Seq<char>>,
    pub worktree_path: Option<Seq<char>>,
    pub restored: bool,
    pub restored_at: Option<Seq<char>>,
    pub recovery_hint: bool,
}

impl View for SessionDashboardRow {
    type V = SessionDashboardRowV;

    open spec fn view(&self) -> SessionDashboardRowV {
        SessionDashboardRowV {
            id: self.id@,
            name: self.name@,
            status: self.status@,
            created_at: self.created_at@,
            last_activity_at: self.last_activity_at.deep_view(),
            failure_reason: self.failure_reason.deep_view(),
            worktree_path: self.worktree_path.deep_view(),
            restored: self.restored,
            restored_at: self.restored_at.deep_view(),
            recovery_hint: self.recovery_hint,
        }
    }
}

/// A durable record of one typed event emitted during a run.
/// `(session_id, run_id, seq)` is unique; rows are never mutated.
pub struct SessionHistoryEvent {
    pub id: String,
    pub session_id: String,
    pub run_id: String,
    pub seq: u64,
    pub event_type: String,
    pub payload_json: String,
    pub timestamp: String,
}

/// The mathematical value of a `SessionHistoryEvent`.
pub struct SessionHistoryEventV {
    pub id: Seq<char>,
    pub session_id: Seq<char>,
    pub run_id: Seq<char>,
    pub seq: u64,
    pub event_type: Seq<char>,
    pub payload_json: Seq<char>,
    pub timestamp: Seq<char>,
}

impl View for SessionHistoryEvent {
    type V = SessionHistoryEventV;

    open spec fn view(&self) -> SessionHistoryEventV {
        SessionHistoryEventV {
            id: self.id@,
            session_id: self.session_id@,
            run_id: self.run_id@,
            seq: self.seq,
            event_type: self.event_type@,
            payload_json: self.payload_json@,
            timestamp: self.timestamp@,
        }
    }
}

/// The resume-tracking fields of a session.
pub struct SessionRunMetadata {
    pub resume_count: u64,
    pub active_run_id: Option<String>,
    pub last_resume_at: Option<String>,
}

/// Copies an optional string.
pub fn clone_opt_string(s: &Option<String>) -> (r: Option<String>)
    ensures
        r == *s,
{
    match s {
        Some(v) => Some(v.clone()),
        None => None,
    }
}

/// Borrows the contents of an optional string.
pub fn opt_string_as_deref(s: &Option<String>) -> (r: Option<&str>)
    ensures
        r.deep_view() == s.deep_view(),
{
    match s {
        Some(v) => Some(v.as_str()),
        None => None,
    }
}

} // verus!

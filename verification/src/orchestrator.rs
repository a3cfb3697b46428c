//! The session orchestrator's decisions: working-directory resolution and
//! validation, the worktree-or-fallback choice, exit classification, the
//! event forwarder's per-event actions, the startup recovery reason, and
//! session-name validation. The host performs the I/O these decide.

use vstd::prelude::*;
use vstd::string::*;

use crate::events::{SessionEventPayload, SessionEventPayloadV};
use crate::status::{is_terminal_status, spec_is_terminal_status};
use crate::text::{spec_trim, trim_str};
use crate::worktree::{spec_starts_with, str_starts_with};

verus! {

/// The trimmed directory with every leading `~/` removed.
pub open spec fn spec_strip_tilde(s: Seq<char>) -> Seq<char>
    decreases s.len(),
{
    if spec_starts_with(s, "~/"@) && s.len() >= 2 {
        spec_strip_tilde(s.skip(2))
    } else {
        s
    }
}

/// What a working directory resolves to, given the home directory when one is
/// set.
pub open spec fn spec_resolve_working_dir(dir: Seq<char>, home: Option<Seq<char>>) -> Option<
    Seq<char>,
> {
    let trimmed = spec_trim(dir);
    if trimmed == "~"@ || spec_starts_with(trimmed, "~/"@) {
        match home {
            None => None,
            Some(h) => if trimmed == "~"@ {
                Some(h)
            } else {
                Some(h + "/"@ + spec_strip_tilde(trimmed))
            },
        }
    } else {
        Some(trimmed)
    }
}

/// Resolves a working directory: trims it and expands a leading `~` with the
/// home path. Fails, if and only if the directory needs `~` expansion and no
/// home is given, with a remediation hint.
pub fn resolve_working_dir(working_dir: &str, home: Option<&str>) -> (r: Result<String, String>)
    ensures
        match r {
            Ok(d) => spec_resolve_working_dir(working_dir@, home.deep_view()) == Some(d@),
            Err(m) => spec_resolve_working_dir(working_dir@, home.deep_view()) is None && m@
                == "HOME is not set; cannot resolve '~' working directory"@,
        },
{
    let trimmed = trim_str(working_dir);
    let is_bare_tilde = crate::text::str_eq(trimmed.as_str(), "~");
    let has_tilde_prefix = str_starts_with(trimmed.as_str(), "~/");
    if !(is_bare_tilde || has_tilde_prefix) {
        return Ok(trimmed);
    }
    let Some(h) = home else {
        return Err(String::from_str("HOME is not set; cannot resolve '~' working directory"));
    };
    if is_bare_tilde {
        return Ok(String::from_str(h));
    }
    let suffix = strip_tilde_prefixes(trimmed.as_str());
    let mut out = String::from_str(h);
    out.append("/");
    out.append(suffix.as_str());
    Ok(out)
}

/// Removes every leading `~/` of the path.
fn strip_tilde_prefixes(s: &str) -> (r: String)
    ensures
        r@ == spec_strip_tilde(s@),
{
    let mut rest = String::from_str(s);
    while str_starts_with(rest.as_str(), "~/") && rest.as_str().unicode_len() >= 2
        invariant
            spec_strip_tilde(s@) == spec_strip_tilde(rest@),
        decreases rest@.len(),
    {
        proof {
            reveal_strlit("~/");
        }
        let len = rest.as_str().unicode_len();
        let shorter = rest.as_str().substring_char(2, len);
        let next = String::from_str(shorter);
        proof {
            assert(next@ =~= rest@.skip(2));
        }
        rest = next;
    }
    rest
}

/// The error rejecting a missing or non-directory working directory, if any.
pub open spec fn spec_working_dir_error(dir: Seq<char>, exists: bool, is_dir: bool) -> Option<
    Seq<char>,
> {
    if !exists {
        Some("Working directory does not exist: "@ + dir)
    } else if !is_dir {
        Some("Working directory is not a directory: "@ + dir)
    } else {
        None
    }
}

/// Validates a working directory from what the filesystem reported of it:
/// accepted if and only if the path exists and is a directory.
pub fn validate_working_dir(working_dir: &str, exists: bool, is_dir: bool) -> (r: Result<
    (),
    String,
>)
    ensures
        match r {
            Ok(_) => spec_working_dir_error(working_dir@, exists, is_dir) is None,
            Err(m) => spec_working_dir_error(working_dir@, exists, is_dir) == Some(m@),
        },
{
    if !exists {
        let mut m = String::from_str("Working directory does not exist: ");
        m.append(working_dir);
        return Err(m);
    }
    if !is_dir {
        let mut m = String::from_str("Working directory is not a directory: ");
        m.append(working_dir);
        return Err(m);
    }
    Ok(())
}

/// How the worktree attempt for a session ended.
pub enum WorktreeAttempt {
    /// The working directory is not inside a git repository.
    NoRepository { error: String },
    /// The repository was found but `git worktree add` failed.
    CreationFailed { error: String },
    /// The worktree was created at this path.
    Created { path: String },
}

/// Where a session executes: in its worktree when one was created, else in
/// the plain working directory with a diagnostic fallback message.
pub struct ExecutionDirChoice {
    pub execution_dir: String,
    pub worktree_path: Option<String>,
    pub fallback_message: Option<String>,
}

/// Chooses the execution directory from the worktree attempt: the worktree
/// path on success; otherwise the working directory, with a non-fatal message
/// naming what failed. A worktree failure never fails the spawn.
pub fn resolve_execution_dir_with_worktree(working_dir: &str, attempt: WorktreeAttempt) -> (r:
    ExecutionDirChoice)
    ensures
        match attempt {
            WorktreeAttempt::Created { path } => r.execution_dir@ == path@
                && r.worktree_path.deep_view() == Some(path@) && r.fallback_message is None,
            WorktreeAttempt::CreationFailed { error } => r.execution_dir@ == working_dir@
                && r.worktree_path is None && r.fallback_message.deep_view() == Some(
                "Worktree creation failed, using working directory directly: "@ + error@,
            ),
            WorktreeAttempt::NoRepository { error } => r.execution_dir@ == working_dir@
                && r.worktree_path is None && r.fallback_message.deep_view() == Some(
                "No git repository detected, using working directory directly: "@ + error@,
            ),
        },
{
    match attempt {
        WorktreeAttempt::Created { path } => ExecutionDirChoice {
            execution_dir: path.clone(),
            worktree_path: Some(path),
            fallback_message: None,
        },
        WorktreeAttempt::CreationFailed { error } => {
            let mut m = String::from_str(
                "Worktree creation failed, using working directory directly: ",
            );
            m.append(error.as_str());
            ExecutionDirChoice {
                execution_dir: String::from_str(working_dir),
                worktree_path: None,
                fallback_message: Some(m),
            }
        },
        WorktreeAttempt::NoRepository { error } => {
            let mut m = String::from_str(
                "No git repository detected, using working directory directly: ",
            );
            m.append(error.as_str());
            ExecutionDirChoice {
                execution_dir: String::from_str(working_dir),
                worktree_path: None,
                fallback_message: Some(m),
            }
        },
    }
}

/// The terminal status the exit waiter reports: `killed` when the runtime was
/// marked killed, else `completed` on a successful exit, else `failed`.
pub open spec fn spec_classify_exit(was_killed: bool, exit_success: bool) -> Seq<char> {
    if was_killed {
        "killed"@
    } else if exit_success {
        "completed"@
    } else {
        "failed"@
    }
}

/// Classifies a child exit for terminal finalization.
pub fn classify_exit(was_killed: bool, exit_success: bool) -> (r: &'static str)
    ensures
        r@ == spec_classify_exit(was_killed, exit_success),
{
    if was_killed {
        "killed"
    } else if exit_success {
        "completed"
    } else {
        "failed"
    }
}

/// The failure reason written to sessions repaired at startup.
pub fn stale_recovery_reason() -> (r: &'static str)
    ensures
        r@
            == "Session was still in progress at previous shutdown and was marked failed on restart"@,
{
    "Session was still in progress at previous shutdown and was marked failed on restart"
}

/// What the event forwarder does with one event, beyond forwarding it.
pub enum ForwardAction {
    /// A `Message`: touch activity, persist a `SessionMessage` row, and emit
    /// a line-oriented output event.
    RecordMessage { content: String },
    /// A non-terminal `Status`: touch activity only.
    TouchActivity,
    /// A terminal `Status`: touch activity, then delegate to the terminal
    /// finalization gate without emitting a structured status.
    FinalizeTerminal { status: String },
    /// An `Error`: persist the normalized failure reason and forward the
    /// diagnostic.
    NoteTransient { message: String },
    /// `Thinking`, `ToolCall`, `ToolResult`: forwarded unchanged.
    ForwardOnly,
}

/// The forwarder action an event payload calls for.
pub open spec fn spec_forward_action_matches(p: SessionEventPayloadV, r: ForwardAction) -> bool {
    match p {
        SessionEventPayloadV::Message { content } => r matches ForwardAction::RecordMessage {
            content: c,
        } && c@ == content,
        SessionEventPayloadV::Status { status } => if spec_is_terminal_status(status) {
            r matches ForwardAction::FinalizeTerminal { status: s } && s@ == status
        } else {
            r is TouchActivity
        },
        SessionEventPayloadV::Error { message } => r matches ForwardAction::NoteTransient {
            message: m,
        } && m@ == message,
        _ => r is ForwardOnly,
    }
}

/// Decides what the event forwarder does with one event.
pub fn forward_event_action(payload: &SessionEventPayload) -> (r: ForwardAction)
    ensures
        spec_forward_action_matches(payload@, r),
{
    match payload {
        SessionEventPayload::Message { content } => ForwardAction::RecordMessage {
            content: content.clone(),
        },
        SessionEventPayload::Status { status } => {
            if is_terminal_status(status.as_str()) {
                ForwardAction::FinalizeTerminal { status: status.clone() }
            } else {
                ForwardAction::TouchActivity
            }
        },
        SessionEventPayload::Error { message } => ForwardAction::NoteTransient {
            message: message.clone(),
        },
        SessionEventPayload::Thinking { .. } => ForwardAction::ForwardOnly,
        SessionEventPayload::ToolCall { .. } => ForwardAction::ForwardOnly,
        SessionEventPayload::ToolResult { .. } => ForwardAction::ForwardOnly,
    }
}

/// Validates a session rename: the trimmed name, which must not be empty.
pub fn validated_session_name(name: &str) -> (r: Result<String, String>)
    ensures
        match r {
            Ok(n) => n@ == spec_trim(name@) && n@.len() > 0,
            Err(m) => spec_trim(name@).len() == 0 && m@ == "Session name cannot be empty"@,
        },
{
    let trimmed = trim_str(name);
    if trimmed.as_str().unicode_len() == 0 {
        Err(String::from_str("Session name cannot be empty"))
    } else {
        Ok(trimmed)
    }
}

} // verus!

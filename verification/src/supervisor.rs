//! The session supervisor: the registry of live per-session runtimes, the
//! single-writer terminal-transition gate, the per-session lifecycle-operation
//! mutex, and the interrupt protocol's decisions.

use vstd::prelude::*;
use vstd::string::*;

use crate::projection::{normalize_failure_reason, spec_normalize_failure_reason};
use crate::records::opt_string_as_deref;
use crate::status::{is_terminal_status, spec_is_inflight_status, spec_is_terminal_status};
use crate::store::{Database, SessionRecordV};
use crate::text::{spec_u64_digits, str_eq};

verus! {

/// The in-memory per-session record the supervisor owns while a child process
/// is alive. The child process handle itself lives with the host runtime;
/// this record carries the flags and counters the protocols decide by.
pub struct SessionRuntime {
    pub id: String,
    pub name: String,
    killed: bool,
    interrupt_requested: bool,
    interrupt_attempts_count: u64,
    terminal_transitioned: bool,
    cancelled: bool,
}

/// The mathematical value of a `SessionRuntime`.
pub struct SessionRuntimeV {
    pub id: Seq<char>,
    pub name: Seq<char>,
    pub killed: bool,
    pub interrupt_requested: bool,
    pub interrupt_attempts: u64,
    pub terminal_transitioned: bool,
    pub cancelled: bool,
}

impl View for SessionRuntime {
    type V = SessionRuntimeV;

    closed spec fn view(&self) -> SessionRuntimeV {
        SessionRuntimeV {
            id: self.id@,
            name: self.name@,
            killed: self.killed,
            interrupt_requested: self.interrupt_requested,
            interrupt_attempts: self.interrupt_attempts_count,
            terminal_transitioned: self.terminal_transitioned,
            cancelled: self.cancelled,
        }
    }
}

impl SessionRuntimeV {
    /// A fresh runtime: nothing requested, nothing transitioned.
    pub open spec fn fresh(id: Seq<char>, name: Seq<char>) -> SessionRuntimeV {
        SessionRuntimeV {
            id: id,
            name: name,
            killed: false,
            interrupt_requested: false,
            interrupt_attempts: 0,
            terminal_transitioned: false,
            cancelled: false,
        }
    }

    /// The runtime after it was marked killed, which also cancels its
    /// cancellation token.
    pub open spec fn after_kill(self) -> SessionRuntimeV {
        SessionRuntimeV { killed: true, cancelled: true, ..self }
    }

    /// The runtime after one interrupt attempt was requested and recorded.
    pub open spec fn after_interrupt_attempt(self) -> SessionRuntimeV {
        SessionRuntimeV {
            interrupt_requested: true,
            interrupt_attempts: if self.interrupt_attempts < u64::MAX {
                (self.interrupt_attempts + 1) as u64
            } else {
                self.interrupt_attempts
            },
            ..self
        }
    }

    /// The runtime after its one-shot terminal-transition flag was swapped.
    pub open spec fn after_terminal_swap(self) -> SessionRuntimeV {
        SessionRuntimeV { terminal_transitioned: true, ..self }
    }
}

impl SessionRuntime {
    fn new(id: String, name: String) -> (r: SessionRuntime)
        ensures
            r@ == SessionRuntimeV::fresh(id@, name@),
    {
        SessionRuntime {
            id: id,
            name: name,
            killed: false,
            interrupt_requested: false,
            interrupt_attempts_count: 0,
            terminal_transitioned: false,
            cancelled: false,
        }
    }

    /// Marks the runtime killed and cancels its cancellation token.
    pub fn mark_killed(&mut self)
        ensures
            final(self)@ == old(self)@.after_kill(),
    {
        self.killed = true;
        self.cancelled = true;
    }

    pub fn was_killed(&self) -> (r: bool)
        ensures
            r == self@.killed,
    {
        self.killed
    }

    pub fn mark_interrupt_requested(&mut self)
        ensures
            final(self)@ == (SessionRuntimeV { interrupt_requested: true, ..old(self)@ }),
    {
        self.interrupt_requested = true;
    }

    pub fn was_interrupt_requested(&self) -> (r: bool)
        ensures
            r == self@.interrupt_requested,
    {
        self.interrupt_requested
    }

    /// Counts one interrupt attempt; the count never moves backwards.
    pub fn record_interrupt_attempt(&mut self)
        ensures
            final(self)@ == (SessionRuntimeV {
                interrupt_attempts: if old(self)@.interrupt_attempts < u64::MAX {
                    (old(self)@.interrupt_attempts + 1) as u64
                } else {
                    old(self)@.interrupt_attempts
                },
                ..old(self)@
            }),
    {
        if self.interrupt_attempts_count < u64::MAX {
            self.interrupt_attempts_count = self.interrupt_attempts_count + 1;
        }
    }

    pub fn interrupt_attempts(&self) -> (r: u64)
        ensures
            r == self@.interrupt_attempts,
    {
        self.interrupt_attempts_count
    }

    /// Swaps the one-shot terminal-transition flag; returns `true` only on
    /// the first call for this runtime.
    pub fn begin_terminal_transition(&mut self) -> (r: bool)
        ensures
            r == !old(self)@.terminal_transitioned,
            final(self)@ == old(self)@.after_terminal_swap(),
    {
        let was = self.terminal_transitioned;
        self.terminal_transitioned = true;
        !was
    }

    /// Whether the runtime's cancellation token was cancelled.
    pub fn is_cancelled(&self) -> (r: bool)
        ensures
            r == self@.cancelled,
    {
        self.cancelled
    }
}

/// The result of a terminal finalization: the status that was written and the
/// normalized failure message, if any.
pub struct TerminalTransitionResult {
    pub final_status: String,
    pub failure_message: Option<String>,
}

/// `complete` and `done` are aliases for `completed`; anything else stands.
pub open spec fn spec_normalize_terminal_status(s: Seq<char>) -> Seq<char> {
    if s == "complete"@ || s == "done"@ {
        "completed"@
    } else {
        s
    }
}

/// Maps the terminal-status aliases `complete` and `done` to `completed`.
pub fn normalize_terminal_status(status: &str) -> (r: &str)
    ensures
        r@ == spec_normalize_terminal_status(status@),
{
    if str_eq(status, "complete") || str_eq(status, "done") {
        "completed"
    } else {
        status
    }
}

/// The mathematical value of the supervisor: the registered runtimes and the
/// in-progress lifecycle operations.
pub struct SessionSupervisorV {
    pub runtimes: Seq<SessionRuntimeV>,
    pub ops: Seq<(Seq<char>, Seq<char>)>,
}

/// The registry of live session runtimes, with the lifecycle-operation set
/// that serializes interrupt, resume, and kill per session.
pub struct SessionSupervisor {
    runtimes: Vec<SessionRuntime>,
    lifecycle_ops: Vec<(String, String)>,
}

impl View for SessionSupervisor {
    type V = SessionSupervisorV;

    closed spec fn view(&self) -> SessionSupervisorV {
        SessionSupervisorV {
            runtimes: self.runtimes@.map_values(|r: SessionRuntime| r@),
            ops: self.lifecycle_ops@.map_values(|p: (String, String)| (p.0@, p.1@)),
        }
    }
}

/// Whether a runtime with the given id is registered.
pub open spec fn spec_has_runtime(rs: Seq<SessionRuntimeV>, id: Seq<char>) -> bool {
    exists|i: int| 0 <= i < rs.len() && (#[trigger] rs[i]).id == id
}

/// Whether a lifecycle operation is in progress for the session.
pub open spec fn spec_has_op(ops: Seq<(Seq<char>, Seq<char>)>, id: Seq<char>) -> bool {
    exists|i: int| 0 <= i < ops.len() && (#[trigger] ops[i]).0 == id
}

impl SessionSupervisor {
    /// Internal well-formedness: at most one runtime per identifier and at
    /// most one in-progress lifecycle operation per session.
    pub open spec fn wf(&self) -> bool {
        &&& forall|i: int, j: int|
            0 <= i < j < self@.runtimes.len() ==> (#[trigger] self@.runtimes[i]).id != (
            #[trigger] self@.runtimes[j]).id
        &&& forall|i: int, j: int|
            0 <= i < j < self@.ops.len() ==> (#[trigger] self@.ops[i]).0 != (
            #[trigger] self@.ops[j]).0
    }

    /// An empty supervisor.
    pub fn new() -> (r: SessionSupervisor)
        ensures
            r.wf(),
            r@.runtimes =~= Seq::<SessionRuntimeV>::empty(),
            r@.ops =~= Seq::<(Seq<char>, Seq<char>)>::empty(),
    {
        let r = SessionSupervisor { runtimes: Vec::new(), lifecycle_ops: Vec::new() };
        proof {
            assert(r@.runtimes =~= Seq::<SessionRuntimeV>::empty());
            assert(r@.ops =~= Seq::<(Seq<char>, Seq<char>)>::empty());
        }
        r
    }

    fn find_runtime_index(&self, session_id: &str) -> (r: Option<usize>)
        ensures
            match r {
                Some(i) => 0 <= i < self@.runtimes.len() && self@.runtimes[i as int].id
                    == session_id@,
                None => !spec_has_runtime(self@.runtimes, session_id@),
            },
    {
        let n = self.runtimes.len();
        let mut i: usize = 0;
        while i < n
            invariant
                n == self@.runtimes.len(),
                i <= n,
                forall|j: int| 0 <= j < i ==> (#[trigger] self@.runtimes[j]).id != session_id@,
            decreases n - i,
        {
            if str_eq(self.runtimes[i].id.as_str(), session_id) {
                return Some(i);
            }
            i = i + 1;
        }
        None
    }

    /// Registers a fresh runtime for the session, replacing any runtime
    /// already registered under the identifier.
    pub fn register(&mut self, session_id: String, name: String)
        requires
            old(self).wf(),
        ensures
            final(self).wf(),
            final(self)@.ops == old(self)@.ops,
            spec_has_runtime(final(self)@.runtimes, session_id@),
            if spec_has_runtime(old(self)@.runtimes, session_id@) {
                final(self)@.runtimes.len() == old(self)@.runtimes.len() && forall|i: int|
                    0 <= i < old(self)@.runtimes.len() ==> (#[trigger] final(self)@.runtimes[i])
                        == (if old(self)@.runtimes[i].id == session_id@ {
                        SessionRuntimeV::fresh(session_id@, name@)
                    } else {
                        old(self)@.runtimes[i]
                    })
            } else {
                final(self)@.runtimes == old(self)@.runtimes.push(
                    SessionRuntimeV::fresh(session_id@, name@),
                )
            },
    {
        let ghost old_r = self@.runtimes;
        let runtime = SessionRuntime::new(session_id, name);
        let ghost rv = runtime@;
        match self.find_runtime_index(runtime.id.as_str()) {
            Some(i) => {
                let _ = self.runtimes.remove(i);
                self.runtimes.insert(i, runtime);
                proof {
                    let u = self@.runtimes;
                    assert(u =~= old_r.update(i as int, rv));
                    assert(forall|a: int|
                        0 <= a < u.len() ==> (#[trigger] u[a]).id == old_r[a].id);
                    assert forall|a: int, b: int| 0 <= a < b < u.len() implies (
                    #[trigger] u[a]).id != (#[trigger] u[b]).id by {
                        assert(old_r[a].id != old_r[b].id);
                    }
                    assert(u[i as int].id == session_id@);
                    assert(spec_has_runtime(u, session_id@));
                    assert forall|a: int|
                        0 <= a < old_r.len() && old_r[a].id == session_id@ implies a
                        == i as int by {
                        if a != i as int {
                            assert(old_r[a].id != old_r[i as int].id);
                        }
                    }
                    assert(self@.ops == old(self)@.ops);
                    assert(forall|a: int, b: int|
                        0 <= a < b < self@.ops.len() ==> (#[trigger] self@.ops[a]).0 != (
                        #[trigger] self@.ops[b]).0);
                }
            },
            None => {
                self.runtimes.push(runtime);
                proof {
                    let u = self@.runtimes;
                    assert(u =~= old_r.push(rv));
                    assert forall|a: int, b: int| 0 <= a < b < u.len() implies (
                    #[trigger] u[a]).id != (#[trigger] u[b]).id by {
                        if b < old_r.len() {
                            assert(old_r[a].id != old_r[b].id);
                        } else {
                            assert(u[a] == old_r[a]);
                            assert(!spec_has_runtime(old_r, rv.id));
                        }
                    }
                    assert(u[u.len() - 1].id == session_id@);
                    assert(spec_has_runtime(u, session_id@));
                    assert(self@.ops == old(self)@.ops);
                    assert(forall|a: int, b: int|
                        0 <= a < b < self@.ops.len() ==> (#[trigger] self@.ops[a]).0 != (
                        #[trigger] self@.ops[b]).0);
                }
            },
        }
    }

    /// A view of the runtime registered for the session, if any.
    pub fn get(&self, session_id: &str) -> (r: Option<&SessionRuntime>)
        requires
            self.wf(),
        ensures
            match r {
                Some(rt) => spec_has_runtime(self@.runtimes, session_id@) && exists|i: int|
                    0 <= i < self@.runtimes.len() && (#[trigger] self@.runtimes[i]) == rt@
                        && rt@.id == session_id@,
                None => !spec_has_runtime(self@.runtimes, session_id@),
            },
    {
        let Some(i) = self.find_runtime_index(session_id) else { return None };
        Some(&self.runtimes[i])
    }

    /// Removes and returns the runtime registered for the session, if any.
    pub fn remove(&mut self, session_id: &str) -> (r: Option<SessionRuntime>)
        requires
            old(self).wf(),
        ensures
            final(self).wf(),
            final(self)@.ops == old(self)@.ops,
            !spec_has_runtime(final(self)@.runtimes, session_id@),
            match r {
                Some(rt) => rt@.id == session_id@ && exists|i: int|
                    0 <= i < old(self)@.runtimes.len() && (#[trigger] old(self)@.runtimes[i]) == rt@
                        && final(self)@.runtimes == old(self)@.runtimes.remove(i),
                None => !spec_has_runtime(old(self)@.runtimes, session_id@) && final(self)@.runtimes
                    == old(self)@.runtimes,
            },
    {
        let ghost old_r = self@.runtimes;
        let Some(i) = self.find_runtime_index(session_id) else { return None };
        let rt = self.runtimes.remove(i);
        proof {
            assert(self@.runtimes =~= old_r.remove(i as int));
            assert forall|a: int, b: int| 0 <= a < b < self@.runtimes.len() implies (
            #[trigger] self@.runtimes[a]).id != (#[trigger] self@.runtimes[b]).id by {
                let a0: int = if a < i { a } else { a + 1 };
                let b0: int = if b < i { b } else { b + 1 };
                assert(self@.runtimes[a] == old_r[a0] && self@.runtimes[b] == old_r[b0]);
            }
            assert forall|a: int|
                0 <= a < self@.runtimes.len() implies (#[trigger] self@.runtimes[a]).id
                != session_id@ by {
                let a0: int = if a < i { a } else { a + 1 };
                assert(self@.runtimes[a] == old_r[a0]);
                assert(old_r[a0].id != old_r[i as int].id);
            }
            assert(self@.ops == old(self)@.ops);
            assert(forall|a: int, b: int|
                0 <= a < b < self@.ops.len() ==> (#[trigger] self@.ops[a]).0 != (
                #[trigger] self@.ops[b]).0);
        }
        Some(rt)
    }

    /// Whether the session's runtime was marked killed; `false` when no
    /// runtime is registered.
    pub fn was_killed(&self, session_id: &str) -> (r: bool)
        requires
            self.wf(),
        ensures
            r == exists|i: int|
                0 <= i < self@.runtimes.len() && (#[trigger] self@.runtimes[i]).id == session_id@
                    && self@.runtimes[i].killed,
    {
        match self.find_runtime_index(session_id) {
            Some(i) => {
                let k = self.runtimes[i].was_killed();
                proof {
                    if k {
                        assert(0 <= i < self@.runtimes.len() && (
                        #[trigger] self@.runtimes[i as int]).id == session_id@
                            && self@.runtimes[i as int].killed);
                    } else {
                        assert forall|j: int|
                            0 <= j < self@.runtimes.len() && (#[trigger] self@.runtimes[j]).id
                                == session_id@ implies !self@.runtimes[j].killed by {
                            if j != i as int {
                                assert(self@.runtimes[j].id != self@.runtimes[i as int].id);
                            }
                        }
                    }
                }
                k
            },
            None => false,
        }
    }

    /// Marks the session's runtime killed (cancelling its token); the host
    /// then force-terminates the child process. Returns `false` when no
    /// runtime is registered, which is safe.
    pub fn kill_session(&mut self, session_id: &str) -> (r: bool)
        requires
            old(self).wf(),
        ensures
            final(self).wf(),
            final(self)@.ops == old(self)@.ops,
            r == spec_has_runtime(old(self)@.runtimes, session_id@),
            final(self)@.runtimes.len() == old(self)@.runtimes.len(),
            forall|i: int|
                0 <= i < old(self)@.runtimes.len() ==> (#[trigger] final(self)@.runtimes[i]) == (
                if old(self)@.runtimes[i].id == session_id@ {
                    old(self)@.runtimes[i].after_kill()
                } else {
                    old(self)@.runtimes[i]
                }),
    {
        let ghost old_r = self@.runtimes;
        let Some(i) = self.find_runtime_index(session_id) else { return false };
        let mut rt = self.runtimes.remove(i);
        rt.mark_killed();
        self.runtimes.insert(i, rt);
        proof {
            let u = self@.runtimes;
            assert(u =~= old_r.update(i as int, old_r[i as int].after_kill()));
            assert(forall|a: int| 0 <= a < u.len() ==> (#[trigger] u[a]).id == old_r[a].id);
            assert forall|a: int, b: int| 0 <= a < b < u.len() implies (#[trigger] u[a]).id != (
            #[trigger] u[b]).id by {
                assert(old_r[a].id != old_r[b].id);
            }
            assert forall|a: int|
                0 <= a < old_r.len() && old_r[a].id == session_id@ implies a == i as int by {
                if a != i as int {
                    assert(old_r[a].id != old_r[i as int].id);
                }
            }
            assert(self@.ops == old(self)@.ops);
            assert(forall|a: int, b: int|
                0 <= a < b < self@.ops.len() ==> (#[trigger] self@.ops[a]).0 != (
                #[trigger] self@.ops[b]).0);
        }
        true
    }

    /// On shutdown: empties the registry and returns the identifiers whose
    /// child processes the host must force-terminate.
    pub fn kill_all(&mut self) -> (r: Vec<String>)
        requires
            old(self).wf(),
        ensures
            final(self).wf(),
            final(self)@.ops == old(self)@.ops,
            final(self)@.runtimes =~= Seq::<SessionRuntimeV>::empty(),
            r.deep_view().len() == old(self)@.runtimes.len(),
            forall|i: int|
                0 <= i < old(self)@.runtimes.len() ==> (#[trigger] r.deep_view()[i]) == old(
                    self,
                )@.runtimes[i].id,
    {
        let n = self.runtimes.len();
        let mut out: Vec<String> = Vec::new();
        let mut i: usize = 0;
        while i < n
            invariant
                self == old(self),
                n == self@.runtimes.len(),
                i <= n,
                out.deep_view().len() == i,
                forall|j: int|
                    0 <= j < i ==> (#[trigger] out.deep_view()[j]) == self@.runtimes[j].id,
            decreases n - i,
        {
            let ghost before = out.deep_view();
            out.push(self.runtimes[i].id.clone());
            proof {
                assert(out.deep_view() =~= before.push(self@.runtimes[i as int].id));
            }
            i = i + 1;
        }
        self.runtimes = Vec::new();
        proof {
            assert(self@.runtimes =~= Seq::<SessionRuntimeV>::empty());
            assert(self@.ops == old(self)@.ops);
            assert(forall|a: int, b: int|
                0 <= a < b < self@.ops.len() ==> (#[trigger] self@.ops[a]).0 != (
                #[trigger] self@.ops[b]).0);
        }
        out
    }

    /// Claims the per-session lifecycle gate for one operation. Fails,
    /// quoting the in-progress operation, while any operation on the same
    /// session holds it; this serializes interrupt, resume, and kill.
    pub fn acquire_lifecycle_operation(&mut self, session_id: &str, operation: &str) -> (r: Result<
        (),
        String,
    >)
        requires
            old(self).wf(),
        ensures
            final(self).wf(),
            final(self)@.runtimes == old(self)@.runtimes,
            match r {
                Ok(_) => !spec_has_op(old(self)@.ops, session_id@) && final(self)@.ops == old(
                    self,
                )@.ops.push((session_id@, operation@)),
                Err(m) => final(self)@.ops == old(self)@.ops && exists|i: int|
                    0 <= i < old(self)@.ops.len() && (#[trigger] old(self)@.ops[i]).0 == session_id@
                        && m@ == "Session "@ + session_id@ + " already has an in-progress "@ + old(
                        self,
                    )@.ops[i].1 + " operation"@,
            },
    {
        let ghost old_ops = self@.ops;
        let n = self.lifecycle_ops.len();
        let mut i: usize = 0;
        while i < n
            invariant
                self == old(self),
                self.wf(),
                old_ops == self@.ops,
                n == self@.ops.len(),
                i <= n,
                forall|j: int| 0 <= j < i ==> (#[trigger] self@.ops[j]).0 != session_id@,
            decreases n - i,
        {
            if str_eq(self.lifecycle_ops[i].0.as_str(), session_id) {
                let mut m = String::from_str("Session ");
                m.append(session_id);
                m.append(" already has an in-progress ");
                m.append(self.lifecycle_ops[i].1.as_str());
                m.append(" operation");
                proof {
                    assert((#[trigger] old_ops[i as int]).0 == session_id@);
                }
                return Err(m);
            }
            i = i + 1;
        }
        self.lifecycle_ops.push((String::from_str(session_id), String::from_str(operation)));
        proof {
            assert(self@.ops =~= old_ops.push((session_id@, operation@)));
            assert forall|a: int, b: int| 0 <= a < b < self@.ops.len() implies (
            #[trigger] self@.ops[a]).0 != (#[trigger] self@.ops[b]).0 by {
                if b < old_ops.len() {
                    assert(old_ops[a].0 != old_ops[b].0);
                } else {
                    assert(self@.ops[a] == old_ops[a]);
                }
            }
            assert(self@.runtimes == old(self)@.runtimes);
            assert(forall|a: int, b: int|
                0 <= a < b < self@.runtimes.len() ==> (#[trigger] self@.runtimes[a]).id != (
                #[trigger] self@.runtimes[b]).id);
        }
        Ok(())
    }

    /// Releases the per-session lifecycle gate: every entry of the session is
    /// removed, on success and error paths alike.
    pub fn release_lifecycle_operation(&mut self, session_id: &str)
        requires
            old(self).wf(),
        ensures
            final(self).wf(),
            final(self)@.runtimes == old(self)@.runtimes,
            final(self)@.ops == spec_ops_without(old(self)@.ops, session_id@),
    {
        let ghost pre = self@.ops;
        let mut k: usize = 0;
        let ghost mut j: int = 0;
        while k < self.lifecycle_ops.len()
            invariant
                self.wf(),
                self@.runtimes == old(self)@.runtimes,
                pre == old(self)@.ops,
                0 <= j <= pre.len(),
                k == spec_ops_without_upto(pre, session_id@, j).len(),
                self@.ops =~= spec_ops_without_upto(pre, session_id@, j) + pre.skip(j),
            decreases pre.len() - j,
        {
            proof {
                assert(self@.ops[k as int] == pre.skip(j)[0]);
                assert(pre.skip(j)[0] == pre[j]);
            }
            let ghost cur = self@.ops;
            if str_eq(self.lifecycle_ops[k].0.as_str(), session_id) {
                let _ = self.lifecycle_ops.remove(k);
                proof {
                    assert(self@.ops =~= cur.remove(k as int));
                    assert(spec_ops_without_upto(pre, session_id@, j + 1) == spec_ops_without_upto(
                        pre,
                        session_id@,
                        j,
                    ));
                    assert(self@.ops =~= spec_ops_without_upto(pre, session_id@, j + 1) + pre.skip(
                        j + 1,
                    ));
                    let u = self@.ops;
                    assert forall|a: int, b: int| 0 <= a < b < u.len() implies (
                    #[trigger] u[a]).0 != (#[trigger] u[b]).0 by {
                        let a0: int = if a < k { a } else { a + 1 };
                        let b0: int = if b < k { b } else { b + 1 };
                        assert(u[a] == cur[a0] && u[b] == cur[b0]);
                    }
                }
            } else {
                k = k + 1;
                proof {
                    assert(spec_ops_without_upto(pre, session_id@, j + 1) =~= spec_ops_without_upto(
                        pre,
                        session_id@,
                        j,
                    ).push(pre[j]));
                    assert(self@.ops =~= spec_ops_without_upto(pre, session_id@, j + 1) + pre.skip(
                        j + 1,
                    ));
                }
            }
            proof {
                j = j + 1;
            }
        }
        proof {
            assert(pre.skip(j) =~= Seq::<(Seq<char>, Seq<char>)>::empty());
            assert(self@.ops =~= spec_ops_without(pre, session_id@));
        }
    }

    /// Marks the target runtime's interrupt flag and counts the attempt.
    /// Every other runtime, and the lifecycle gate, is left untouched: an
    /// interrupt never leaks into a sibling session.
    pub fn note_interrupt_attempt(&mut self, session_id: &str)
        requires
            old(self).wf(),
        ensures
            final(self).wf(),
            final(self)@.ops == old(self)@.ops,
            final(self)@.runtimes.len() == old(self)@.runtimes.len(),
            forall|i: int|
                0 <= i < old(self)@.runtimes.len() ==> (#[trigger] final(self)@.runtimes[i]) == (
                if old(self)@.runtimes[i].id == session_id@ {
                    old(self)@.runtimes[i].after_interrupt_attempt()
                } else {
                    old(self)@.runtimes[i]
                }),
    {
        let ghost old_r = self@.runtimes;
        let Some(i) = self.find_runtime_index(session_id) else { return };
        let mut rt = self.runtimes.remove(i);
        rt.mark_interrupt_requested();
        rt.record_interrupt_attempt();
        self.runtimes.insert(i, rt);
        proof {
            let u = self@.runtimes;
            assert(u =~= old_r.update(i as int, old_r[i as int].after_interrupt_attempt()));
            assert(forall|a: int| 0 <= a < u.len() ==> (#[trigger] u[a]).id == old_r[a].id);
            assert forall|a: int, b: int| 0 <= a < b < u.len() implies (#[trigger] u[a]).id != (
            #[trigger] u[b]).id by {
                assert(old_r[a].id != old_r[b].id);
            }
            assert forall|a: int|
                0 <= a < old_r.len() && old_r[a].id == session_id@ implies a == i as int by {
                if a != i as int {
                    assert(old_r[a].id != old_r[i as int].id);
                }
            }
            assert(self@.ops == old(self)@.ops);
            assert(forall|a: int, b: int|
                0 <= a < b < self@.ops.len() ==> (#[trigger] self@.ops[a]).0 != (
                #[trigger] self@.ops[b]).0);
        }
    }
}

/// The lifecycle-operation entries that do not belong to the session, among
/// the first `j`, in order.
pub open spec fn spec_ops_without_upto(
    ops: Seq<(Seq<char>, Seq<char>)>,
    id: Seq<char>,
    j: int,
) -> Seq<(Seq<char>, Seq<char>)>
    decreases j,
{
    if j <= 0 {
        Seq::empty()
    } else if ops[j - 1].0 == id {
        spec_ops_without_upto(ops, id, j - 1)
    } else {
        spec_ops_without_upto(ops, id, j - 1).push(ops[j - 1])
    }
}

/// The lifecycle-operation entries that do not belong to the session.
pub open spec fn spec_ops_without(ops: Seq<(Seq<char>, Seq<char>)>, id: Seq<char>) -> Seq<
    (Seq<char>, Seq<char>),
> {
    spec_ops_without_upto(ops, id, ops.len() as int)
}

/// Whether a registered runtime of the session can still take the one-shot
/// terminal transition.
pub open spec fn spec_gate_open(rs: Seq<SessionRuntimeV>, id: Seq<char>) -> bool {
    exists|i: int|
        0 <= i < rs.len() && (#[trigger] rs[i]).id == id && !rs[i].terminal_transitioned
}

/// A session row after a terminal finalization wrote `fs`: the status written
/// (conditionally when `fs` is terminal), activity touched, and the
/// normalized failure reason stored when `fs` is `failed` or `killed`.
pub open spec fn spec_finalized_row(
    r0: SessionRecordV,
    fs: Seq<char>,
    norm: Option<Seq<char>>,
    now: Seq<char>,
) -> SessionRecordV {
    let r1 = if spec_is_terminal_status(fs) {
        if spec_is_inflight_status(r0.status) {
            r0.with_status(fs, now)
        } else {
            r0
        }
    } else {
        r0.with_status(fs, now)
    };
    let r2 = r1.with_activity(now, now);
    if fs == "failed"@ || fs == "killed"@ {
        r2.with_failure_reason(norm, now)
    } else {
        r2
    }
}

/// The failure message a finalization reports: the normalized reason when the
/// final status is `failed` or `killed`, else the message as given.
pub open spec fn spec_finalized_message(fs: Seq<char>, fm: Option<Seq<char>>) -> Option<Seq<char>> {
    let norm = if fs == "failed"@ || fs == "killed"@ {
        spec_normalize_failure_reason(fm)
    } else {
        None
    };
    match norm {
        Some(n) => Some(n),
        None => fm,
    }
}

impl SessionSupervisor {
    /// The only writer of terminal status in the system. Swaps the runtime's
    /// one-shot flag; only the first caller for a session proceeds to write
    /// the store: the normalized status (conditional on an in-flight row when
    /// terminal), a fresh activity timestamp, and, for `failed` or `killed`,
    /// the normalized failure reason. Every later call is a no-op returning
    /// `None`.
    pub fn finalize_terminal_transition(
        &mut self,
        db: &mut Database,
        session_id: &str,
        status: &str,
        failure_message: Option<&str>,
        now: &str,
    ) -> (r: Option<TerminalTransitionResult>)
        requires
            old(self).wf(),
            old(db).wf(),
        ensures
            final(self).wf(),
            final(db).wf(),
            final(db)@.messages == old(db)@.messages,
            final(db)@.events == old(db)@.events,
            final(self)@.ops == old(self)@.ops,
            final(self)@.runtimes.len() == old(self)@.runtimes.len(),
            forall|i: int|
                0 <= i < old(self)@.runtimes.len() ==> (#[trigger] final(self)@.runtimes[i]) == (
                if old(self)@.runtimes[i].id == session_id@ {
                    old(self)@.runtimes[i].after_terminal_swap()
                } else {
                    old(self)@.runtimes[i]
                }),
            r is Some <==> spec_gate_open(old(self)@.runtimes, session_id@),
            final(db)@.sessions.len() == old(db)@.sessions.len(),
            forall|i: int|
                0 <= i < old(db)@.sessions.len() ==> (#[trigger] final(db)@.sessions[i]) == (
                if spec_gate_open(old(self)@.runtimes, session_id@) && old(db)@.sessions[i].id
                    == session_id@ {
                    spec_finalized_row(
                        old(db)@.sessions[i],
                        spec_normalize_terminal_status(status@),
                        spec_normalize_failure_reason(failure_message.deep_view()),
                        now@,
                    )
                } else {
                    old(db)@.sessions[i]
                }),
            match r {
                Some(t) => t.final_status@ == spec_normalize_terminal_status(status@)
                    && t.failure_message.deep_view() == spec_finalized_message(
                    spec_normalize_terminal_status(status@),
                    failure_message.deep_view(),
                ),
                None => true,
            },
    {
        let ghost old_r = self@.runtimes;
        let ghost old_rows = old(db)@.sessions;
        let first = match self.find_runtime_index(session_id) {
            None => {
                proof {
                    assert(!spec_gate_open(old_r, session_id@));
                    assert(final(db)@.sessions =~= old_rows);
                }
                return None;
            },
            Some(i) => {
                let mut rt = self.runtimes.remove(i);
                let first = rt.begin_terminal_transition();
                self.runtimes.insert(i, rt);
                proof {
                    let u = self@.runtimes;
                    assert(u =~= old_r.update(i as int, old_r[i as int].after_terminal_swap()));
                    assert(forall|a: int|
                        0 <= a < u.len() ==> (#[trigger] u[a]).id == old_r[a].id);
                    assert forall|a: int, b: int| 0 <= a < b < u.len() implies (
                    #[trigger] u[a]).id != (#[trigger] u[b]).id by {
                        assert(old_r[a].id != old_r[b].id);
                    }
                    assert forall|a: int|
                        0 <= a < old_r.len() && old_r[a].id == session_id@ implies a
                        == i as int by {
                        if a != i as int {
                            assert(old_r[a].id != old_r[i as int].id);
                        }
                    }
                    assert(self@.ops == old(self)@.ops);
                    assert(forall|a: int, b: int|
                        0 <= a < b < self@.ops.len() ==> (#[trigger] self@.ops[a]).0 != (
                        #[trigger] self@.ops[b]).0);
                    if first {
                        assert(!old_r[i as int].terminal_transitioned);
                        assert(spec_gate_open(old_r, session_id@));
                    } else {
                        assert forall|a: int|
                            0 <= a < old_r.len() && (#[trigger] old_r[a]).id == session_id@
                                implies old_r[a].terminal_transitioned by {
                            assert(a == i as int);
                        }
                        assert(!spec_gate_open(old_r, session_id@));
                    }
                }
                first
            },
        };
        if !first {
            proof {
                assert(final(db)@.sessions =~= old_rows);
            }
            return None;
        }
        let final_status = normalize_terminal_status(status);
        let ghost fs = final_status@;
        if is_terminal_status(final_status) {
            let _ = db.transition_session_terminal(session_id, final_status, now);
        } else {
            db.update_session_status(session_id, final_status, now);
        }
        let ghost rows1 = db@.sessions;
        db.update_last_activity(session_id, now, now);
        let ghost rows2 = db@.sessions;
        let is_failure = str_eq(final_status, "failed") || str_eq(final_status, "killed");
        let normalized = if is_failure {
            normalize_failure_reason(failure_message)
        } else {
            None
        };
        if is_failure {
            db.update_failure_reason(session_id, opt_string_as_deref(&normalized), now);
        }
        proof {
            let ghost norm = spec_normalize_failure_reason(failure_message.deep_view());
            assert forall|i: int| 0 <= i < old_rows.len() implies (#[trigger] db@.sessions[i]) == (
            if old_rows[i].id == session_id@ {
                spec_finalized_row(old_rows[i], fs, norm, now@)
            } else {
                old_rows[i]
            }) by {
                if old_rows[i].id == session_id@ {
                    if spec_is_terminal_status(fs) {
                        if spec_is_inflight_status(old_rows[i].status) {
                            assert(rows1[i] == old_rows[i].with_status(fs, now@));
                        } else {
                            assert(rows1[i] == old_rows[i]);
                        }
                    } else {
                        assert(rows1[i] == old_rows[i].with_status(fs, now@));
                    }
                    assert(rows2[i] == rows1[i].with_activity(now@, now@));
                    if fs == "failed"@ || fs == "killed"@ {
                        assert(is_failure);
                        assert(db@.sessions[i] == rows2[i].with_failure_reason(norm, now@));
                    } else {
                        assert(!is_failure);
                        assert(db@.sessions[i] == rows2[i]);
                    }
                } else {
                    assert(rows1[i] == old_rows[i]);
                    assert(rows2[i] == old_rows[i]);
                    assert(db@.sessions[i] == old_rows[i]);
                }
            }
        }
        let failure_out = match normalized {
            Some(n) => Some(n),
            None => match failure_message {
                Some(m) => Some(String::from_str(m)),
                None => None,
            },
        };
        Some(
            TerminalTransitionResult {
                final_status: String::from_str(final_status),
                failure_message: failure_out,
            },
        )
    }
}

/// The runtimes that do not belong to the session, among the first `j`, in
/// order.
pub open spec fn spec_runtimes_without_upto(
    rs: Seq<SessionRuntimeV>,
    id: Seq<char>,
    j: int,
) -> Seq<SessionRuntimeV>
    decreases j,
{
    if j <= 0 {
        Seq::empty()
    } else if rs[j - 1].id == id {
        spec_runtimes_without_upto(rs, id, j - 1)
    } else {
        spec_runtimes_without_upto(rs, id, j - 1).push(rs[j - 1])
    }
}

/// The runtimes that do not belong to the session, in order.
pub open spec fn spec_runtimes_without(rs: Seq<SessionRuntimeV>, id: Seq<char>) -> Seq<
    SessionRuntimeV,
> {
    spec_runtimes_without_upto(rs, id, rs.len() as int)
}

proof fn lemma_runtimes_without_no_match(rs: Seq<SessionRuntimeV>, id: Seq<char>, j: int)
    requires
        0 <= j <= rs.len(),
        forall|k: int| 0 <= k < j ==> (#[trigger] rs[k]).id != id,
    ensures
        spec_runtimes_without_upto(rs, id, j) =~= rs.take(j),
    decreases j,
{
    if j > 0 {
        lemma_runtimes_without_no_match(rs, id, j - 1);
        assert(rs.take(j) =~= rs.take(j - 1).push(rs[j - 1]));
    }
}

proof fn lemma_runtimes_without_unique(rs: Seq<SessionRuntimeV>, id: Seq<char>, i: int, j: int)
    requires
        0 <= i < rs.len(),
        rs[i].id == id,
        0 <= j <= rs.len(),
        forall|a: int, b: int|
            0 <= a < b < rs.len() ==> (#[trigger] rs[a]).id != (#[trigger] rs[b]).id,
    ensures
        j <= i ==> spec_runtimes_without_upto(rs, id, j) =~= rs.take(j),
        j > i ==> spec_runtimes_without_upto(rs, id, j) =~= rs.take(i) + rs.subrange(i + 1, j),
    decreases j,
{
    if j > 0 {
        lemma_runtimes_without_unique(rs, id, i, j - 1);
        if j - 1 < i {
            assert(rs[j - 1].id != rs[i].id);
            assert(rs.take(j) =~= rs.take(j - 1).push(rs[j - 1]));
        } else if j - 1 == i {
            assert(rs.take(i) + rs.subrange(i + 1, j) =~= rs.take(i));
        } else {
            assert(rs[j - 1].id != rs[i].id);
            assert(rs.take(i) + rs.subrange(i + 1, j) =~= (rs.take(i) + rs.subrange(i + 1, j - 1)).push(
                rs[j - 1],
            ));
        }
    }
}

/// With unique identifiers, dropping the one runtime of a session is the same
/// as keeping every other session's runtime.
pub proof fn lemma_runtimes_without_is_remove(rs: Seq<SessionRuntimeV>, id: Seq<char>, i: int)
    requires
        0 <= i < rs.len(),
        rs[i].id == id,
        forall|a: int, b: int|
            0 <= a < b < rs.len() ==> (#[trigger] rs[a]).id != (#[trigger] rs[b]).id,
    ensures
        spec_runtimes_without(rs, id) =~= rs.remove(i),
{
    lemma_runtimes_without_unique(rs, id, i, rs.len() as int);
    assert(rs.remove(i) =~= rs.take(i) + rs.subrange(i + 1, rs.len() as int));
}

/// When no runtime of the session is registered, nothing is dropped.
pub proof fn lemma_runtimes_without_absent(rs: Seq<SessionRuntimeV>, id: Seq<char>)
    requires
        !spec_has_runtime(rs, id),
    ensures
        spec_runtimes_without(rs, id) =~= rs,
{
    lemma_runtimes_without_no_match(rs, id, rs.len() as int);
    assert(rs.take(rs.len() as int) =~= rs);
}

impl SessionSupervisor {
    /// Starts an interrupt: claims the lifecycle gate for the session and
    /// moves the row to `interrupting`. Fails, releasing nothing it did not
    /// take, when another lifecycle operation is in progress or when the row
    /// is not in an interruptible state.
    pub fn interrupt_begin(&mut self, db: &mut Database, session_id: &str, now: &str) -> (r: Result<
        (),
        String,
    >)
        requires
            old(self).wf(),
            old(db).wf(),
        ensures
            final(self).wf(),
            final(db).wf(),
            final(self)@.runtimes == old(self)@.runtimes,
            final(db)@.messages == old(db)@.messages,
            final(db)@.events == old(db)@.events,
            final(db)@.sessions.len() == old(db)@.sessions.len(),
            match r {
                Ok(_) => {
                    &&& !spec_has_op(old(self)@.ops, session_id@)
                    &&& final(self)@.ops == old(self)@.ops.push((session_id@, "interrupt"@))
                    &&& exists|i: int|
                        0 <= i < old(db)@.sessions.len() && (#[trigger] old(db)@.sessions[i]).id
                            == session_id@ && spec_is_inflight_status(old(db)@.sessions[i].status)
                    &&& forall|i: int|
                        0 <= i < old(db)@.sessions.len() ==> (#[trigger] final(db)@.sessions[i])
                            == (if old(db)@.sessions[i].id == session_id@ && spec_is_inflight_status(
                            old(db)@.sessions[i].status,
                        ) {
                            old(db)@.sessions[i].with_status("interrupting"@, now@)
                        } else {
                            old(db)@.sessions[i]
                        })
                },
                Err(m) => final(db)@.sessions == old(db)@.sessions && final(self)@.ops == old(
                    self,
                )@.ops && (if spec_has_op(old(self)@.ops, session_id@) {
                    exists|i: int|
                        0 <= i < old(self)@.ops.len() && (#[trigger] old(self)@.ops[i]).0
                            == session_id@ && m@ == "Session "@ + session_id@
                            + " already has an in-progress "@ + old(self)@.ops[i].1 + " operation"@
                } else {
                    m@ == "Session is not in an interruptible state"@ && !exists|i: int|
                        0 <= i < old(db)@.sessions.len() && (#[trigger] old(db)@.sessions[i]).id
                            == session_id@ && spec_is_inflight_status(old(db)@.sessions[i].status)
                }),
            },
    {
        if let Err(m) = self.acquire_lifecycle_operation(session_id, "interrupt") {
            proof {
                assert(final(db)@.sessions =~= old(db)@.sessions);
            }
            return Err(m);
        }
        let transitioned = db.transition_session_to_interrupting(session_id, now);
        if !transitioned {
            let ghost mid_ops = self@.ops;
            self.release_lifecycle_operation(session_id);
            proof {
                assert(mid_ops == old(self)@.ops.push((session_id@, "interrupt"@)));
                assert(mid_ops[mid_ops.len() - 1].0 == session_id@);
                assert(spec_ops_without_upto(mid_ops, session_id@, mid_ops.len() as int)
                    == spec_ops_without_upto(mid_ops, session_id@, mid_ops.len() - 1));
                lemma_ops_without_no_match(mid_ops, session_id@, mid_ops.len() - 1);
                assert(mid_ops.take(mid_ops.len() - 1) =~= old(self)@.ops);
                assert(final(self)@.ops == old(self)@.ops);
                assert(final(db)@.sessions =~= old(db)@.sessions);
            }
            return Err(String::from_str("Session is not in an interruptible state"));
        }
        Ok(())
    }

    /// The moment before which the interrupt protocol sends its second
    /// graceful signal: half the total deadline.
    pub fn interrupt_retry_deadline_ms(total_ms: u64) -> (r: u64)
        ensures
            r == total_ms / 2,
    {
        total_ms / 2
    }

    /// Ends a successful interrupt, after the child was observed to exit:
    /// finalizes the terminal status `interrupted` through the one-shot gate,
    /// drops the runtime, and releases the lifecycle gate.
    pub fn interrupt_finish_exited(&mut self, db: &mut Database, session_id: &str, now: &str) -> (r:
        Option<TerminalTransitionResult>)
        requires
            old(self).wf(),
            old(db).wf(),
        ensures
            final(self).wf(),
            final(db).wf(),
            final(db)@.messages == old(db)@.messages,
            final(db)@.events == old(db)@.events,
            final(self)@.runtimes == spec_runtimes_without(old(self)@.runtimes, session_id@),
            final(self)@.ops == spec_ops_without(old(self)@.ops, session_id@),
            r is Some <==> spec_gate_open(old(self)@.runtimes, session_id@),
            final(db)@.sessions.len() == old(db)@.sessions.len(),
            forall|i: int|
                0 <= i < old(db)@.sessions.len() ==> (#[trigger] final(db)@.sessions[i]) == (
                if spec_gate_open(old(self)@.runtimes, session_id@) && old(db)@.sessions[i].id
                    == session_id@ {
                    spec_finalized_row(old(db)@.sessions[i], "interrupted"@, None, now@)
                } else {
                    old(db)@.sessions[i]
                }),
    {
        let ghost old_r = self@.runtimes;
        let r = self.finalize_terminal_transition(db, session_id, "interrupted", None, now);
        proof {
            reveal_strlit("interrupted");
            reveal_strlit("complete");
            reveal_strlit("done");
            assert("interrupted"@.len() == 11);
            assert("complete"@.len() == 8);
            assert("done"@.len() == 4);
            assert(spec_normalize_terminal_status("interrupted"@) == "interrupted"@);
        }
        let ghost pre_remove = self@.runtimes;
        proof {
            assert(forall|a: int, b: int|
                0 <= a < b < pre_remove.len() ==> (#[trigger] pre_remove[a]).id != (
                #[trigger] pre_remove[b]).id);
            assert(forall|k: int|
                0 <= k < old_r.len() ==> (#[trigger] pre_remove[k]).id == (#[trigger] old_r[k]).id
                    && (old_r[k].id != session_id@ ==> pre_remove[k] == old_r[k]));
        }
        let removed = self.remove(session_id);
        let ghost mid_r = self@.runtimes;
        self.release_lifecycle_operation(session_id);
        proof {
            match removed {
                Some(ref rt) => {
                    let i = choose|i: int|
                        0 <= i < pre_remove.len() && (#[trigger] pre_remove[i]) == rt@ && mid_r
                            == pre_remove.remove(i);
                    assert(pre_remove[i].id == session_id@);
                    lemma_runtimes_without_is_remove(pre_remove, session_id@, i);
                    lemma_runtimes_without_same(old_r, pre_remove, session_id@);
                    assert(final(self)@.runtimes =~= spec_runtimes_without(old_r, session_id@));
                },
                None => {
                    assert(!spec_has_runtime(pre_remove, session_id@));
                    assert(!spec_has_runtime(old_r, session_id@)) by {
                        if spec_has_runtime(old_r, session_id@) {
                            let i = choose|i: int|
                                0 <= i < old_r.len() && (#[trigger] old_r[i]).id == session_id@;
                            assert(pre_remove[i].id == session_id@);
                        }
                    }
                    lemma_runtimes_without_absent(old_r, session_id@);
                    assert(final(self)@.runtimes =~= spec_runtimes_without(old_r, session_id@));
                },
            }
        }
        r
    }

    /// Ends a timed-out interrupt: restores the session's status to `running`,
    /// releases the lifecycle gate, and reports a failure message naming the
    /// total deadline.
    pub fn interrupt_finish_timeout(
        &mut self,
        db: &mut Database,
        session_id: &str,
        total_secs: u64,
        now: &str,
    ) -> (r: String)
        requires
            old(self).wf(),
            old(db).wf(),
        ensures
            final(self).wf(),
            final(db).wf(),
            final(db)@.messages == old(db)@.messages,
            final(db)@.events == old(db)@.events,
            final(self)@.runtimes == old(self)@.runtimes,
            final(self)@.ops == spec_ops_without(old(self)@.ops, session_id@),
            final(db)@.sessions.len() == old(db)@.sessions.len(),
            forall|i: int|
                0 <= i < old(db)@.sessions.len() ==> (#[trigger] final(db)@.sessions[i]) == (
                if old(db)@.sessions[i].id == session_id@ {
                    old(db)@.sessions[i].with_status("running"@, now@)
                } else {
                    old(db)@.sessions[i]
                }),
            r@ == "Interrupt did not complete within "@ + spec_u64_digits(total_secs as nat)
                + " seconds"@,
    {
        db.update_session_status(session_id, "running", now);
        self.release_lifecycle_operation(session_id);
        let mut m = String::from_str("Interrupt did not complete within ");
        crate::text::push_u64_decimal(&mut m, total_secs);
        m.append(" seconds");
        m
    }
}

proof fn lemma_ops_without_no_match(ops: Seq<(Seq<char>, Seq<char>)>, id: Seq<char>, j: int)
    requires
        0 <= j <= ops.len(),
        forall|k: int| 0 <= k < j ==> (#[trigger] ops[k]).0 != id,
    ensures
        spec_ops_without_upto(ops, id, j) =~= ops.take(j),
    decreases j,
{
    if j > 0 {
        lemma_ops_without_no_match(ops, id, j - 1);
        assert(ops.take(j) =~= ops.take(j - 1).push(ops[j - 1]));
    }
}

/// Keeping every runtime of other sessions reads the same through a pointwise
/// change confined to the session's own runtimes.
proof fn lemma_runtimes_without_same(
    rs1: Seq<SessionRuntimeV>,
    rs2: Seq<SessionRuntimeV>,
    id: Seq<char>,
)
    requires
        rs1.len() == rs2.len(),
        forall|k: int|
            0 <= k < rs1.len() ==> (#[trigger] rs1[k]).id == (#[trigger] rs2[k]).id && (rs1[k].id
                != id ==> rs1[k] == rs2[k]),
    ensures
        spec_runtimes_without(rs1, id) =~= spec_runtimes_without(rs2, id),
{
    lemma_runtimes_without_same_upto(rs1, rs2, id, rs1.len() as int);
}

proof fn lemma_runtimes_without_same_upto(
    rs1: Seq<SessionRuntimeV>,
    rs2: Seq<SessionRuntimeV>,
    id: Seq<char>,
    j: int,
)
    requires
        rs1.len() == rs2.len(),
        0 <= j <= rs1.len(),
        forall|k: int|
            0 <= k < rs1.len() ==> (#[trigger] rs1[k]).id == (#[trigger] rs2[k]).id && (rs1[k].id
                != id ==> rs1[k] == rs2[k]),
    ensures
        spec_runtimes_without_upto(rs1, id, j) =~= spec_runtimes_without_upto(rs2, id, j),
    decreases j,
{
    if j > 0 {
        lemma_runtimes_without_same_upto(rs1, rs2, id, j - 1);
    }
}

} // verus!

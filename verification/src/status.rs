//! The session status vocabulary: the in-flight and the terminal status
//! sets, and their disjointness.

use vstd::prelude::*;

use crate::text::str_eq;

verus! {

/// A status from which no further transition is expected.
pub open spec fn spec_is_terminal_status(s: Seq<char>) -> bool {
    ||| s == "completed"@
    ||| s == "failed"@
    ||| s == "killed"@
    ||| s == "interrupted"@
}

/// A status of a session whose run is still in progress.
pub open spec fn spec_is_inflight_status(s: Seq<char>) -> bool {
    ||| s == "starting"@
    ||| s == "running"@
    ||| s == "interrupting"@
    ||| s == "resuming"@
}

/// Returns `true` if `status` represents a terminal session state from which
/// no further transitions are expected (completed, failed, killed, or
/// interrupted).
pub fn is_terminal_status(status: &str) -> (r: bool)
    ensures
        r == spec_is_terminal_status(status@),
{
    str_eq(status, "completed") || str_eq(status, "failed") || str_eq(status, "killed")
        || str_eq(status, "interrupted")
}

/// Returns `true` if `status` is one of the in-flight statuses from which a
/// terminal transition is permitted.
pub fn is_inflight_status(status: &str) -> (r: bool)
    ensures
        r == spec_is_inflight_status(status@),
{
    str_eq(status, "starting") || str_eq(status, "running") || str_eq(status, "interrupting")
        || str_eq(status, "resuming")
}

/// No status is both in-flight and terminal.
pub proof fn lemma_inflight_terminal_disjoint(s: Seq<char>)
    ensures
        !(spec_is_inflight_status(s) && spec_is_terminal_status(s)),
{
    reveal_strlit("starting");
    reveal_strlit("running");
    reveal_strlit("interrupting");
    reveal_strlit("resuming");
    reveal_strlit("completed");
    reveal_strlit("failed");
    reveal_strlit("killed");
    reveal_strlit("interrupted");
    assert("starting"@.len() == 8);
    assert("running"@.len() == 7);
    assert("interrupting"@.len() == 12);
    assert("resuming"@.len() == 8);
    assert("completed"@.len() == 9);
    assert("failed"@.len() == 6);
    assert("killed"@.len() == 6);
    assert("interrupted"@.len() == 11);
}

} // verus!

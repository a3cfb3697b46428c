//! The system-wide laws, each proved from the contracts the modules state:
//! the one-shot terminal gate, terminal immutability, determinism and per-run
//! monotonicity of the history listing, idempotence of the dashboard
//! projection, the failure-reason bound, and interrupt isolation.

use vstd::prelude::*;

use crate::projection::{spec_normalize_dashboard_status, spec_normalize_failure_reason};
use crate::status::{spec_is_inflight_status, spec_is_terminal_status};
use crate::records::SessionHistoryEventV;
use crate::store::{hist_key_le, spec_events_of, spec_events_of_from, SessionRecordV};
use crate::supervisor::{spec_gate_open, SessionRuntimeV};
use crate::text::{
    collapse_step, collapse_ws, collapse_ws_from, is_space_char, lemma_lex_le_antisym,
    lex_le, rtrim_spaces,
};

verus! {

/// At-most-one terminal transition: after any finalization swapped the
/// session's one-shot flag, no runtime of that session can swap it again,
/// so every later `finalize_terminal_transition` returns the no-op.
pub proof fn lemma_terminal_transition_applies_once(
    rs1: Seq<SessionRuntimeV>,
    rs2: Seq<SessionRuntimeV>,
    id: Seq<char>,
)
    requires
        rs2.len() == rs1.len(),
        forall|i: int|
            0 <= i < rs1.len() ==> (#[trigger] rs2[i]) == (if rs1[i].id == id {
                rs1[i].after_terminal_swap()
            } else {
                rs1[i]
            }),
    ensures
        !spec_gate_open(rs2, id),
{
    assert forall|i: int|
        0 <= i < rs2.len() && (#[trigger] rs2[i]).id == id implies rs2[i].terminal_transitioned by {
        assert(rs1[i].id == id);
    }
}

/// Terminal immutability: a row whose status is terminal is not in flight,
/// so the conditional terminal transition refuses to move it again; only the
/// explicit resume path may leave a terminal status.
pub proof fn lemma_terminal_immutable(row: SessionRecordV)
    requires
        spec_is_terminal_status(row.status),
    ensures
        !spec_is_inflight_status(row.status),
{
    crate::status::lemma_inflight_terminal_disjoint(row.status);
}

/// Whether an event is one of the stored events of the session, at a
/// position no earlier than `i`.
spec fn spec_event_from_source(
    es: Seq<SessionHistoryEventV>,
    sid: Seq<char>,
    i: int,
    e: SessionHistoryEventV,
) -> bool {
    exists|j: int| i <= j < es.len() && e == #[trigger] es[j] && es[j].session_id == sid
}

/// Everything kept by the per-session history filter comes from the stored
/// events of that session, at a position no earlier than `i`.
proof fn lemma_events_of_membership(es: Seq<SessionHistoryEventV>, sid: Seq<char>, i: int)
    requires
        0 <= i,
    ensures
        forall|k: int|
            0 <= k < spec_events_of_from(es, sid, i).len() ==> spec_event_from_source(
                es,
                sid,
                i,
                #[trigger] spec_events_of_from(es, sid, i)[k],
            ),
    decreases es.len() - i,
{
    if i < es.len() {
        lemma_events_of_membership(es, sid, i + 1);
        assert forall|k: int|
            0 <= k < spec_events_of_from(es, sid, i + 1).len() implies spec_event_from_source(
            es,
            sid,
            i,
            #[trigger] spec_events_of_from(es, sid, i + 1)[k],
        ) by {
            assert(spec_event_from_source(es, sid, i + 1, spec_events_of_from(es, sid, i + 1)[k]));
            let j = choose|j: int|
                i + 1 <= j < es.len() && spec_events_of_from(es, sid, i + 1)[k] == #[trigger] es[j]
                    && es[j].session_id == sid;
            assert(i <= j);
        }
        if es[i].session_id == sid {
            assert forall|k: int|
                0 <= k < spec_events_of_from(es, sid, i).len() implies spec_event_from_source(
                es,
                sid,
                i,
                #[trigger] spec_events_of_from(es, sid, i)[k],
            ) by {
                if k == 0 {
                    assert(spec_events_of_from(es, sid, i)[0] == es[i]);
                } else {
                    assert(spec_events_of_from(es, sid, i)[k] == spec_events_of_from(
                        es,
                        sid,
                        i + 1,
                    )[k - 1]);
                }
            }
        }
    }
}

/// Any pairwise property of a session's stored events, taken in stored order,
/// carries over to the history listing of that session.
pub proof fn lemma_events_of_keeps_pairs(
    es: Seq<SessionHistoryEventV>,
    sid: Seq<char>,
    p: spec_fn(SessionHistoryEventV, SessionHistoryEventV) -> bool,
    i: int,
)
    requires
        0 <= i,
        forall|a: int, b: int|
            i <= a < b < es.len() && (#[trigger] es[a]).session_id == sid && (
            #[trigger] es[b]).session_id == sid ==> p(es[a], es[b]),
    ensures
        forall|a: int, b: int|
            0 <= a < b < spec_events_of_from(es, sid, i).len() ==> p(
                #[trigger] spec_events_of_from(es, sid, i)[a],
                #[trigger] spec_events_of_from(es, sid, i)[b],
            ),
    decreases es.len() - i,
{
    if i < es.len() {
        lemma_events_of_keeps_pairs(es, sid, p, i + 1);
        if es[i].session_id == sid {
            lemma_events_of_membership(es, sid, i + 1);
            assert forall|a: int, b: int|
                0 <= a < b < spec_events_of_from(es, sid, i).len() implies p(
                #[trigger] spec_events_of_from(es, sid, i)[a],
                #[trigger] spec_events_of_from(es, sid, i)[b],
            ) by {
                if a == 0 {
                    assert(spec_events_of_from(es, sid, i)[0] == es[i]);
                    let rest = spec_events_of_from(es, sid, i + 1);
                    assert(spec_events_of_from(es, sid, i)[b] == rest[b - 1]);
                    assert(spec_event_from_source(es, sid, i + 1, rest[b - 1]));
                    let j = choose|j: int|
                        i + 1 <= j < es.len() && rest[b - 1] == #[trigger] es[j] && es[j].session_id
                            == sid;
                    assert(p(es[i], es[j]));
                } else {
                    assert(spec_events_of_from(es, sid, i)[a] == spec_events_of_from(
                        es,
                        sid,
                        i + 1,
                    )[a - 1]);
                    assert(spec_events_of_from(es, sid, i)[b] == spec_events_of_from(
                        es,
                        sid,
                        i + 1,
                    )[b - 1]);
                }
            }
        }
    }
}

/// Ordering determinism: a session's history listing is ordered by the total
/// order on `(timestamp, seq, id)`, and no two listed events of one run share
/// a sequence number — the order does not depend on when rows were inserted.
pub proof fn lemma_history_listing_deterministic_order(
    es: Seq<SessionHistoryEventV>,
    sid: Seq<char>,
)
    requires
        forall|a: int, b: int|
            0 <= a < b < es.len() ==> !((#[trigger] es[a]).session_id == (
            #[trigger] es[b]).session_id && es[a].run_id == es[b].run_id && es[a].seq == es[b].seq),
        forall|a: int, b: int|
            0 <= a < b < es.len() && (#[trigger] es[a]).session_id == (
            #[trigger] es[b]).session_id ==> hist_key_le(es[a], es[b]),
    ensures
        forall|a: int, b: int|
            0 <= a < b < spec_events_of(es, sid).len() ==> hist_key_le(
                #[trigger] spec_events_of(es, sid)[a],
                #[trigger] spec_events_of(es, sid)[b],
            ) && !(spec_events_of(es, sid)[a].run_id == spec_events_of(es, sid)[b].run_id
                && spec_events_of(es, sid)[a].seq == spec_events_of(es, sid)[b].seq),
{
    let p = |x: SessionHistoryEventV, y: SessionHistoryEventV|
        hist_key_le(x, y) && !(x.run_id == y.run_id && x.seq == y.seq);
    lemma_events_of_keeps_pairs(es, sid, p, 0);
    assert forall|a: int, b: int|
        0 <= a < b < spec_events_of(es, sid).len() implies hist_key_le(
        #[trigger] spec_events_of(es, sid)[a],
        #[trigger] spec_events_of(es, sid)[b],
    ) && !(spec_events_of(es, sid)[a].run_id == spec_events_of(es, sid)[b].run_id
        && spec_events_of(es, sid)[a].seq == spec_events_of(es, sid)[b].seq) by {
        assert(p(spec_events_of(es, sid)[a], spec_events_of(es, sid)[b]));
    }
}

/// History monotonicity: when, within one run, stored timestamps never move
/// against the sequence numbers, the history listing replays that run with
/// strictly increasing `seq`.
pub proof fn lemma_history_seq_monotonic_per_run(
    es: Seq<SessionHistoryEventV>,
    sid: Seq<char>,
    rid: Seq<char>,
)
    requires
        forall|a: int, b: int|
            0 <= a < b < es.len() ==> !((#[trigger] es[a]).session_id == (
            #[trigger] es[b]).session_id && es[a].run_id == es[b].run_id && es[a].seq == es[b].seq),
        forall|a: int, b: int|
            0 <= a < b < es.len() && (#[trigger] es[a]).session_id == (
            #[trigger] es[b]).session_id ==> hist_key_le(es[a], es[b]),
        forall|a: int, b: int|
            0 <= a < es.len() && 0 <= b < es.len() && (#[trigger] es[a]).session_id == sid && (
            #[trigger] es[b]).session_id == sid && es[a].run_id == rid && es[b].run_id == rid
                && es[a].seq < es[b].seq ==> lex_le(es[a].timestamp, es[b].timestamp),
    ensures
        forall|a: int, b: int|
            0 <= a < b < spec_events_of(es, sid).len() && (#[trigger] spec_events_of(es, sid)[a]).run_id
                == rid && (#[trigger] spec_events_of(es, sid)[b]).run_id == rid ==> spec_events_of(
                es,
                sid,
            )[a].seq < spec_events_of(es, sid)[b].seq,
{
    let p = |x: SessionHistoryEventV, y: SessionHistoryEventV|
        (x.run_id == rid && y.run_id == rid) ==> x.seq < y.seq;
    assert forall|a: int, b: int|
        0 <= a < b < es.len() && (#[trigger] es[a]).session_id == sid && (
        #[trigger] es[b]).session_id == sid implies p(es[a], es[b]) by {
        if es[a].run_id == rid && es[b].run_id == rid {
            assert(hist_key_le(es[a], es[b]));
            assert(es[a].seq != es[b].seq);
            if es[b].seq < es[a].seq {
                assert(lex_le(es[b].timestamp, es[a].timestamp));
                if es[a].timestamp != es[b].timestamp {
                    assert(lex_le(es[a].timestamp, es[b].timestamp));
                    lemma_lex_le_antisym(es[a].timestamp, es[b].timestamp);
                }
                assert(es[a].timestamp == es[b].timestamp);
                assert(es[a].seq < es[b].seq);
            }
        }
    }
    lemma_events_of_keeps_pairs(es, sid, p, 0);
    assert forall|a: int, b: int|
        0 <= a < b < spec_events_of(es, sid).len() && (#[trigger] spec_events_of(es, sid)[a]).run_id
            == rid && (#[trigger] spec_events_of(es, sid)[b]).run_id == rid implies spec_events_of(
        es,
        sid,
    )[a].seq < spec_events_of(es, sid)[b].seq by {
        assert(p(spec_events_of(es, sid)[a], spec_events_of(es, sid)[b]));
    }
}

/// The canonical internal status of a dashboard bucket.
pub open spec fn spec_canonical_status_input(bucket: Seq<char>) -> Seq<char> {
    if bucket == "Starting"@ {
        "starting"@
    } else if bucket == "Running"@ {
        "running"@
    } else if bucket == "Interrupted"@ {
        "interrupted"@
    } else if bucket == "Completed"@ {
        "completed"@
    } else {
        "failed"@
    }
}

/// Projection idempotence: feeding a bucket's canonical input back through
/// the projection lands in the same bucket.
pub proof fn lemma_projection_idempotent(s: Seq<char>)
    ensures
        spec_normalize_dashboard_status(
            spec_canonical_status_input(spec_normalize_dashboard_status(s)),
        ) == spec_normalize_dashboard_status(s),
{
    reveal_strlit("Starting");
    reveal_strlit("Running");
    reveal_strlit("Interrupted");
    reveal_strlit("Completed");
    reveal_strlit("Failed");
    reveal_strlit("starting");
    reveal_strlit("queued");
    reveal_strlit("created");
    reveal_strlit("running");
    reveal_strlit("interrupting");
    reveal_strlit("interrupted");
    reveal_strlit("completed");
    reveal_strlit("complete");
    reveal_strlit("done");
    reveal_strlit("success");
    reveal_strlit("failed");
    reveal_strlit("error");
    reveal_strlit("killed");
    reveal_strlit("cancelled");
    reveal_strlit("canceled");
    reveal_strlit("crashed");
    reveal_strlit("panic");
    reveal_strlit("timed_out");
    reveal_strlit("timeout");
    reveal_strlit("aborted");
    assert("Starting"@.len() == 8 && "Running"@.len() == 7 && "Interrupted"@.len() == 11
        && "Completed"@.len() == 9 && "Failed"@.len() == 6);
    assert("starting"@.len() == 8 && "queued"@.len() == 6 && "created"@.len() == 7);
    assert("running"@.len() == 7 && "interrupting"@.len() == 12 && "interrupted"@.len() == 11);
    assert("completed"@.len() == 9 && "complete"@.len() == 8 && "done"@.len() == 4
        && "success"@.len() == 7);
    assert("failed"@.len() == 6 && "error"@.len() == 5 && "killed"@.len() == 6
        && "cancelled"@.len() == 9 && "canceled"@.len() == 8 && "crashed"@.len() == 7
        && "panic"@.len() == 5 && "timed_out"@.len() == 9 && "timeout"@.len() == 7
        && "aborted"@.len() == 7);
    assert("failed"@[0] != "queued"@[0]);
    assert("running"@[0] != "created"@[0]);
    assert("running"@[0] != "success"@[0]);
    assert("running"@[0] != "crashed"@[0]);
    assert("running"@[0] != "timeout"@[0]);
    assert("running"@[0] != "aborted"@[0]);
}

proof fn lemma_collapse_chars(s: Seq<char>, i: int, acc: Seq<char>, pending: bool)
    requires
        forall|k: int|
            0 <= k < acc.len() ==> (is_space_char(#[trigger] acc[k]) ==> acc[k] == ' '),
    ensures
        forall|k: int|
            0 <= k < collapse_ws_from(s, i, acc, pending).len() ==> (is_space_char(
                #[trigger] collapse_ws_from(s, i, acc, pending)[k],
            ) ==> collapse_ws_from(s, i, acc, pending)[k] == ' '),
    decreases s.len() - i,
{
    if 0 <= i < s.len() {
        let (acc2, pending2) = collapse_step(acc, pending, s[i]);
        assert forall|k: int| 0 <= k < acc2.len() implies (is_space_char(#[trigger] acc2[k])
            ==> acc2[k] == ' ') by {
            if is_space_char(s[i]) {
                assert(acc2[k] == acc[k]);
            } else if pending {
                assert(acc2 == acc.push(' ').push(s[i]));
                if k < acc.len() {
                    assert(acc2[k] == acc[k]);
                } else if k == acc.len() {
                    assert(acc2[k] == ' ');
                } else {
                    assert(acc2[k] == s[i]);
                }
            } else {
                assert(acc2 == acc.push(s[i]));
                if k < acc.len() {
                    assert(acc2[k] == acc[k]);
                } else {
                    assert(acc2[k] == s[i]);
                }
            }
        }
        lemma_collapse_chars(s, i + 1, acc2, pending2);
        assert(collapse_ws_from(s, i, acc, pending) == collapse_ws_from(s, i + 1, acc2, pending2));
    }
}

proof fn lemma_rtrim_is_prefix(s: Seq<char>)
    ensures
        rtrim_spaces(s).len() <= s.len(),
        forall|k: int| 0 <= k < rtrim_spaces(s).len() ==> #[trigger] rtrim_spaces(s)[k] == s[k],
    decreases s.len(),
{
    if s.len() > 0 && is_space_char(s.last()) {
        lemma_rtrim_is_prefix(s.drop_last());
        assert(forall|k: int| 0 <= k < s.len() - 1 ==> #[trigger] s.drop_last()[k] == s[k]);
    }
}

/// Failure-reason bound: a normalized failure reason is at most 140
/// characters and single-line — no character of it is whitespace other than
/// the ASCII space.
pub proof fn lemma_failure_reason_bounded(reason: Option<Seq<char>>)
    ensures
        match spec_normalize_failure_reason(reason) {
            None => true,
            Some(r) => r.len() <= 140 && forall|k: int|
                0 <= k < r.len() ==> (is_space_char(#[trigger] r[k]) ==> r[k] == ' '),
        },
{
    reveal_strlit("...");
    assert("..."@.len() == 3);
    match reason {
        None => {},
        Some(s) => {
            let c = collapse_ws(s);
            lemma_collapse_chars(s, 0, Seq::empty(), false);
            if c.len() == 0 || c.len() <= 140 {
            } else {
                let t = c.take(137);
                assert(forall|k: int| 0 <= k < t.len() ==> #[trigger] t[k] == c[k]);
                lemma_rtrim_is_prefix(t);
                let r = rtrim_spaces(t) + "..."@;
                assert(r.len() <= 140);
                assert forall|k: int| 0 <= k < r.len() implies (is_space_char(#[trigger] r[k])
                    ==> r[k] == ' ') by {
                    if k < rtrim_spaces(t).len() {
                        assert(r[k] == rtrim_spaces(t)[k]);
                        assert(rtrim_spaces(t)[k] == t[k]);
                        assert(t[k] == c[k]);
                    } else {
                        assert(r[k] == "..."@[k - rtrim_spaces(t).len()]);
                        assert(!is_space_char('.'));
                    }
                }
            }
        },
    }
}

/// Interrupt isolation: an interrupt attempt on one session leaves every
/// sibling runtime — its status flags, `interrupt_requested`, and
/// `interrupt_attempts` — exactly as it was.
pub proof fn lemma_interrupt_isolated(
    rs1: Seq<SessionRuntimeV>,
    rs2: Seq<SessionRuntimeV>,
    id: Seq<char>,
)
    requires
        rs2.len() == rs1.len(),
        forall|i: int|
            0 <= i < rs1.len() ==> (#[trigger] rs2[i]) == (if rs1[i].id == id {
                rs1[i].after_interrupt_attempt()
            } else {
                rs1[i]
            }),
    ensures
        forall|i: int|
            0 <= i < rs1.len() && (#[trigger] rs1[i]).id != id ==> rs2[i] == rs1[i],
{
}

/// Interrupt retry shape: one graceful attempt, then exactly one retry — a
/// timed-out interrupt leaves exactly two recorded attempts on the target.
pub proof fn lemma_interrupt_retry_attempts(r: SessionRuntimeV)
    requires
        r.interrupt_attempts + 2 <= u64::MAX,
    ensures
        r.after_interrupt_attempt().after_interrupt_attempt().interrupt_attempts
            == r.interrupt_attempts + 2,
        r.after_interrupt_attempt().after_interrupt_attempt().interrupt_requested,
{
}

} // verus!

//! Pure mapping of the internal status vocabulary to the dashboard
//! vocabulary, and normalization of failure reasons to a bounded single line.

use vstd::prelude::*;
use vstd::string::*;

use crate::records::{clone_opt_string, SessionDashboardRow};
use crate::text::{
    collapse_whitespace, collapse_ws, is_space, lemma_rtrim_spaces_take, rtrim_spaces, str_eq,
};

verus! {

pub const DASHBOARD_STATUS_STARTING: &'static str = "Starting";

pub const DASHBOARD_STATUS_RUNNING: &'static str = "Running";

pub const DASHBOARD_STATUS_COMPLETED: &'static str = "Completed";

pub const DASHBOARD_STATUS_INTERRUPTED: &'static str = "Interrupted";

pub const DASHBOARD_STATUS_FAILED: &'static str = "Failed";

/// A session as shown on the dashboard: identity fields copied, status
/// replaced by its dashboard bucket, failure reason kept only for failures.
pub struct DashboardSessionProjection {
    pub id: String,
    pub name: String,
    pub status: String,
    pub created_at: String,
    pub last_activity_at: Option<String>,
    pub failure_reason: Option<String>,
    pub restored: bool,
    pub restored_at: Option<String>,
    pub recovery_hint: bool,
}

pub open spec fn spec_maps_to_starting(s: Seq<char>) -> bool {
    s == "starting"@ || s == "queued"@ || s == "created"@
}

pub open spec fn spec_maps_to_completed(s: Seq<char>) -> bool {
    s == "completed"@ || s == "complete"@ || s == "done"@ || s == "success"@
}

pub open spec fn spec_maps_to_failed(s: Seq<char>) -> bool {
    ||| s == "failed"@
    ||| s == "error"@
    ||| s == "killed"@
    ||| s == "cancelled"@
    ||| s == "canceled"@
    ||| s == "crashed"@
    ||| s == "panic"@
    ||| s == "timed_out"@
    ||| s == "timeout"@
    ||| s == "aborted"@
}

/// The dashboard bucket of an internal status; any unknown status counts as
/// still running.
pub open spec fn spec_normalize_dashboard_status(s: Seq<char>) -> Seq<char> {
    if spec_maps_to_starting(s) {
        "Starting"@
    } else if s == "interrupted"@ {
        "Interrupted"@
    } else if spec_maps_to_completed(s) {
        "Completed"@
    } else if spec_maps_to_failed(s) {
        "Failed"@
    } else {
        "Running"@
    }
}

/// Maps an internal status to its dashboard bucket.
pub fn normalize_dashboard_status(status: &str) -> (r: &'static str)
    ensures
        r@ == spec_normalize_dashboard_status(status@),
{
    if str_eq(status, "starting") || str_eq(status, "queued") || str_eq(status, "created") {
        DASHBOARD_STATUS_STARTING
    } else if str_eq(status, "interrupted") {
        DASHBOARD_STATUS_INTERRUPTED
    } else if str_eq(status, "completed") || str_eq(status, "complete") || str_eq(status, "done")
        || str_eq(status, "success") {
        DASHBOARD_STATUS_COMPLETED
    } else if str_eq(status, "failed") || str_eq(status, "error") || str_eq(status, "killed")
        || str_eq(status, "cancelled") || str_eq(status, "canceled") || str_eq(status, "crashed")
        || str_eq(status, "panic") || str_eq(status, "timed_out") || str_eq(status, "timeout")
        || str_eq(status, "aborted") {
        DASHBOARD_STATUS_FAILED
    } else {
        DASHBOARD_STATUS_RUNNING
    }
}

/// Maps an internal status to its dashboard bucket, as an owned string.
pub fn project_dashboard_status(status: &str) -> (r: String)
    ensures
        r@ == spec_normalize_dashboard_status(status@),
{
    String::from_str(normalize_dashboard_status(status))
}

/// The normalized failure reason: whitespace runs collapsed to one space,
/// dropped when empty, truncated to at most 140 characters with a trailing
/// ellipsis when over the bound.
pub open spec fn spec_normalize_failure_reason(reason: Option<Seq<char>>) -> Option<Seq<char>> {
    match reason {
        Option::None => Option::None,
        Option::Some(s) => {
            let c = collapse_ws(s);
            if c.len() == 0 {
                Option::None
            } else if c.len() <= 140 {
                Option::Some(c)
            } else {
                Option::Some(rtrim_spaces(c.take(137)) + "..."@)
            }
        },
    }
}

pub open spec fn is_space_char_at(s: Seq<char>, j: int) -> bool {
    crate::text::is_space_char(s[j])
}

/// Normalizes an optional failure reason: trimmed, single line, at most 140
/// characters; an empty or all-whitespace reason becomes `None`.
pub fn normalize_failure_reason(reason: Option<&str>) -> (r: Option<String>)
    ensures
        r.deep_view() == spec_normalize_failure_reason(reason.deep_view()),
{
    let Some(raw) = reason else { return None };
    let collapsed = collapse_whitespace(raw);
    let len = collapsed.as_str().unicode_len();
    if len == 0 {
        return None;
    }
    if len <= 140 {
        return Some(collapsed);
    }
    let mut end: usize = 137;
    while end > 0 && is_space(collapsed.as_str().get_char(end - 1))
        invariant
            len == collapsed@.len(),
            len > 140,
            end <= 137,
            forall|j: int| end <= j < 137 ==> is_space_char_at(collapsed@.take(137), j),
        decreases end,
    {
        assert(collapsed@.take(137)[end - 1] == collapsed@[end - 1]);
        end = end - 1;
    }
    let prefix = collapsed.as_str().substring_char(0, end);
    let mut out = String::from_str(prefix);
    out.append("...");
    proof {
        let c = collapse_ws(raw@);
        assert(forall|j: int| end <= j < 137 ==> is_space_char_at(c.take(137), j));
        assert forall|j: int| end <= j < c.take(137).len() implies crate::text::is_space_char(
            #[trigger] c.take(137)[j],
        ) by {
            assert(is_space_char_at(c.take(137), j));
        }
        if end > 0 {
            assert(c.take(137)[end - 1] == c[end - 1]);
            assert(!is_space_char_at(c.take(137), end - 1));
            assert(!crate::text::is_space_char(c.take(137)[end - 1]));
        }
        lemma_rtrim_spaces_take(c.take(137), end as int);
        assert(c.take(137).take(end as int) =~= c.take(end as int));
        assert(prefix@ == c.subrange(0, end as int));
        assert(c.subrange(0, end as int) =~= c.take(end as int));
        assert(out@ == rtrim_spaces(c.take(137)) + "..."@);
    }
    Some(out)
}

/// Whether `proj` is the dashboard projection of `row`: identity fields
/// copied, status mapped to its bucket, failure reason normalized and kept
/// only when the bucket is `Failed`.
pub open spec fn is_projected_row(row: SessionDashboardRow, proj: DashboardSessionProjection) -> bool {
    &&& proj.id == row.id
    &&& proj.name == row.name
    &&& proj.status@ == spec_normalize_dashboard_status(row.status@)
    &&& proj.created_at == row.created_at
    &&& proj.last_activity_at == row.last_activity_at
    &&& proj.failure_reason.deep_view() == if spec_normalize_dashboard_status(row.status@)
        == "Failed"@ {
        spec_normalize_failure_reason(row.failure_reason.deep_view())
    } else {
        Option::<Seq<char>>::None
    }
    &&& proj.restored == row.restored
    &&& proj.restored_at == row.restored_at
    &&& proj.recovery_hint == row.recovery_hint
}

/// Projects one stored dashboard row for display.
pub fn project_dashboard_row(row: SessionDashboardRow) -> (r: DashboardSessionProjection)
    ensures
        is_projected_row(row, r),
{
    let projected_status = project_dashboard_status(row.status.as_str());
    let is_failed = str_eq(projected_status.as_str(), "Failed");
    let projected_reason = if is_failed {
        normalize_failure_reason(match &row.failure_reason {
            Some(reason) => Some(reason.as_str()),
            None => None,
        })
    } else {
        None
    };
    DashboardSessionProjection {
        id: row.id,
        name: row.name,
        status: projected_status,
        created_at: row.created_at,
        last_activity_at: row.last_activity_at,
        failure_reason: projected_reason,
        restored: row.restored,
        restored_at: row.restored_at,
        recovery_hint: row.recovery_hint,
    }
}

/// Projects every stored dashboard row, keeping the order.
pub fn project_dashboard_rows(rows: Vec<SessionDashboardRow>) -> (r: Vec<
    DashboardSessionProjection,
>)
    ensures
        r@.len() == rows@.len(),
        forall|i: int| 0 <= i < rows@.len() ==> is_projected_row(rows@[i], #[trigger] r@[i]),
{
    let mut out: Vec<DashboardSessionProjection> = Vec::new();
    let ghost orig = rows@;
    let n = rows.len();
    while out.len() < n
        invariant
            rows@ == orig,
            n == orig.len(),
            out@.len() <= n,
            forall|i: int| 0 <= i < out@.len() ==> is_projected_row(orig[i], #[trigger] out@[i]),
        decreases n - out@.len(),
    {
        let idx = out.len();
        let row = clone_dashboard_row(&rows[idx]);
        proof {
            assert(row == orig[idx as int]);
        }
        out.push(project_dashboard_row(row));
    }
    out
}

/// Relies on derived `Clone` for `String`: copies every field of the row.
fn clone_dashboard_row(row: &SessionDashboardRow) -> (r: SessionDashboardRow)
    ensures
        r == *row,
{
    SessionDashboardRow {
        id: row.id.clone(),
        name: row.name.clone(),
        status: row.status.clone(),
        created_at: row.created_at.clone(),
        last_activity_at: clone_opt_string(&row.last_activity_at),
        failure_reason: clone_opt_string(&row.failure_reason),
        worktree_path: clone_opt_string(&row.worktree_path),
        restored: row.restored,
        restored_at: clone_opt_string(&row.restored_at),
        recovery_hint: row.recovery_hint,
    }
}

} // verus!

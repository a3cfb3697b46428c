use lulu::projection::{
    normalize_dashboard_status, normalize_failure_reason, project_dashboard_row,
    project_dashboard_rows, DASHBOARD_STATUS_COMPLETED, DASHBOARD_STATUS_FAILED,
    DASHBOARD_STATUS_INTERRUPTED, DASHBOARD_STATUS_RUNNING, DASHBOARD_STATUS_STARTING,
};
use lulu::records::SessionDashboardRow;

#[test]
fn normalize_failure_reason_coalesces_whitespace() {
    let reason = normalize_failure_reason(Some("line one\nline two\tline three"));
    assert_eq!(reason.as_deref(), Some("line one line two line three"));
}

#[test]
fn interrupted_status_projects_to_interrupted_chip() {
    assert_eq!(normalize_dashboard_status("interrupted"), DASHBOARD_STATUS_INTERRUPTED);
}

#[test]
fn projection_maps_internal_terminal_states_to_failed() {
    for status in ["failed", "error", "killed", "crashed", "aborted"] {
        assert_eq!(normalize_dashboard_status(status), DASHBOARD_STATUS_FAILED);
    }

    assert_eq!(normalize_dashboard_status("interrupted"), DASHBOARD_STATUS_INTERRUPTED);
    assert_eq!(normalize_dashboard_status("completed"), DASHBOARD_STATUS_COMPLETED);
    assert_eq!(normalize_dashboard_status("running"), DASHBOARD_STATUS_RUNNING);
}

#[test]
fn projection_normalizes_dashboard_rows_to_locked_statuses() {
    let failed = SessionDashboardRow {
        id: "failed-1".to_string(),
        name: "failed session".to_string(),
        status: "killed".to_string(),
        created_at: "2026-02-18T00:00:00Z".to_string(),
        last_activity_at: None,
        failure_reason: Some("  one\nline\tfailure reason  ".to_string()),
        worktree_path: None,
        restored: false,
        restored_at: None,
        recovery_hint: false,
    };
    let failed_projection = project_dashboard_row(failed);
    assert_eq!(failed_projection.status, DASHBOARD_STATUS_FAILED);
    assert_eq!(failed_projection.failure_reason.as_deref(), Some("one line failure reason"));

    let completed = SessionDashboardRow {
        id: "completed-1".to_string(),
        name: "completed session".to_string(),
        status: "done".to_string(),
        created_at: "2026-02-18T00:00:00Z".to_string(),
        last_activity_at: None,
        failure_reason: Some("should disappear".to_string()),
        worktree_path: None,
        restored: false,
        restored_at: None,
        recovery_hint: false,
    };
    let completed_projection = project_dashboard_row(completed);
    assert_eq!(completed_projection.status, DASHBOARD_STATUS_COMPLETED);
    assert!(completed_projection.failure_reason.is_none());
}

#[test]
fn list_dashboard_projection_uses_locked_projection_boundary() {
    let rows = vec![SessionDashboardRow {
        id: "session-1".to_string(),
        name: "session".to_string(),
        status: "killed".to_string(),
        created_at: "2026-02-18T00:00:00Z".to_string(),
        last_activity_at: None,
        failure_reason: Some("  runtime\nerror ".to_string()),
        worktree_path: None,
        restored: false,
        restored_at: None,
        recovery_hint: false,
    }];

    let projected = project_dashboard_rows(rows);
    assert_eq!(projected[0].status, DASHBOARD_STATUS_FAILED);
    assert_eq!(projected[0].failure_reason.as_deref(), Some("runtime error"));
}

#[test]
fn failure_reason_over_bound_is_truncated_with_ellipsis() {
    let long = "a".repeat(150);
    let reason = normalize_failure_reason(Some(long.as_str())).expect("reason should survive");
    let expected = format!("{}...", "a".repeat(137));
    assert_eq!(reason, expected);
    assert_eq!(reason.chars().count(), 140);
}

#[test]
fn failure_reason_trailing_space_trimmed_before_ellipsis() {
    // Character 137 of the collapsed reason is a space, so the cut is
    // right-trimmed before the ellipsis is appended.
    let mut input = "b".repeat(136);
    input.push(' ');
    input.push_str(&"c".repeat(20));
    let reason = normalize_failure_reason(Some(input.as_str())).expect("reason should survive");
    let expected = format!("{}...", "b".repeat(136));
    assert_eq!(reason, expected);
}

#[test]
fn empty_or_whitespace_reason_is_dropped() {
    assert!(normalize_failure_reason(None).is_none());
    assert!(normalize_failure_reason(Some("")).is_none());
    assert!(normalize_failure_reason(Some("  \t\n  ")).is_none());
}

#[test]
fn projection_buckets_are_idempotent_on_canonical_inputs() {
    for (bucket, canonical) in [
        (DASHBOARD_STATUS_STARTING, "starting"),
        (DASHBOARD_STATUS_RUNNING, "running"),
        (DASHBOARD_STATUS_INTERRUPTED, "interrupted"),
        (DASHBOARD_STATUS_COMPLETED, "completed"),
        (DASHBOARD_STATUS_FAILED, "failed"),
    ] {
        assert_eq!(normalize_dashboard_status(canonical), bucket);
    }
}

#[test]
fn unknown_status_falls_back_to_running() {
    assert_eq!(normalize_dashboard_status("zombie"), DASHBOARD_STATUS_RUNNING);
    assert_eq!(normalize_dashboard_status(""), DASHBOARD_STATUS_RUNNING);
}

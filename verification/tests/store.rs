use lulu::orchestrator::stale_recovery_reason;
use lulu::records::Session;
use lulu::status::is_terminal_status;
use lulu::store::Database;

fn session(id: &str, status: &str, created_at: &str) -> Session {
    Session {
        id: id.to_string(),
        name: id.to_string(),
        status: status.to_string(),
        working_dir: "/tmp/project".to_string(),
        created_at: created_at.to_string(),
        updated_at: created_at.to_string(),
    }
}

#[test]
fn terminal_status_vocabulary_is_exact() {
    for status in ["completed", "failed", "killed", "interrupted"] {
        assert!(is_terminal_status(status));
    }
    for status in ["starting", "running", "interrupting", "resuming", "done", "complete", ""] {
        assert!(!is_terminal_status(status));
    }
}

#[test]
fn create_session_refuses_duplicate_identifier() {
    let mut db = Database::new();
    db.create_session(&session("s-1", "starting", "2026-02-18T00:00:01Z"))
        .expect("first insert should work");
    assert!(db.create_session(&session("s-1", "starting", "2026-02-18T00:00:02Z")).is_err());
    assert_eq!(db.list_sessions().len(), 1);
}

#[test]
fn sessions_list_newest_first() {
    let mut db = Database::new();
    db.create_session(&session("older", "running", "2026-02-18T00:00:01Z")).unwrap();
    db.create_session(&session("newest", "running", "2026-02-18T00:00:03Z")).unwrap();
    db.create_session(&session("middle", "running", "2026-02-18T00:00:02Z")).unwrap();

    let listed: Vec<String> = db.list_sessions().into_iter().map(|s| s.id).collect();
    assert_eq!(listed, vec!["newest".to_string(), "middle".to_string(), "older".to_string()]);

    let dashboard: Vec<String> = db.list_dashboard_sessions().into_iter().map(|r| r.id).collect();
    assert_eq!(dashboard, vec!["newest".to_string(), "middle".to_string(), "older".to_string()]);
}

#[test]
fn transition_session_terminal_moves_only_inflight_rows() {
    let mut db = Database::new();
    db.create_session(&session("s-run", "running", "2026-02-18T00:00:01Z")).unwrap();
    db.create_session(&session("s-done", "completed", "2026-02-18T00:00:02Z")).unwrap();

    assert!(db.transition_session_terminal("s-run", "completed", "2026-02-18T00:01:00Z"));
    assert_eq!(db.get_session("s-run").unwrap().status, "completed");

    // Terminal immutability: a second terminal transition is refused.
    assert!(!db.transition_session_terminal("s-run", "failed", "2026-02-18T00:02:00Z"));
    assert_eq!(db.get_session("s-run").unwrap().status, "completed");

    assert!(!db.transition_session_terminal("s-done", "failed", "2026-02-18T00:02:00Z"));
    assert_eq!(db.get_session("s-done").unwrap().status, "completed");

    // A non-terminal target status is refused outright.
    assert!(!db.transition_session_terminal("s-run", "running", "2026-02-18T00:03:00Z"));
    assert!(!db.transition_session_terminal("missing", "completed", "2026-02-18T00:03:00Z"));
}

#[test]
fn transition_to_interrupting_requires_inflight() {
    let mut db = Database::new();
    db.create_session(&session("s-a", "running", "2026-02-18T00:00:01Z")).unwrap();
    db.create_session(&session("s-b", "completed", "2026-02-18T00:00:02Z")).unwrap();

    assert!(db.transition_session_to_interrupting("s-a", "2026-02-18T00:01:00Z"));
    assert_eq!(db.get_session("s-a").unwrap().status, "interrupting");
    assert!(!db.transition_session_to_interrupting("s-b", "2026-02-18T00:01:00Z"));
    assert!(!db.transition_session_to_interrupting("missing", "2026-02-18T00:01:00Z"));
}

#[test]
fn resume_reuses_same_row_and_updates_metadata() {
    let mut db = Database::new();
    db.create_session(&session("resume-session", "completed", "2026-02-18T00:00:01Z")).unwrap();

    let run_id = "run-1";
    let resumed = db.begin_resume_attempt("resume-session", run_id, "2026-02-18T00:05:00Z");
    assert!(resumed);
    assert_eq!(db.get_session("resume-session").unwrap().status, "resuming");

    let metadata = db.get_session_run_metadata("resume-session").expect("metadata should exist");
    assert_eq!(metadata.resume_count, 1);
    assert_eq!(metadata.active_run_id.as_deref(), Some(run_id));
    assert_eq!(metadata.last_resume_at.as_deref(), Some("2026-02-18T00:05:00Z"));

    assert!(db.begin_run_attempt("resume-session", run_id, "2026-02-18T00:05:01Z"));
    assert_eq!(db.get_session("resume-session").unwrap().status, "running");

    let rows = db.list_sessions();
    assert_eq!(rows.iter().filter(|s| s.id == "resume-session").count(), 1);

    // Resume is refused while the session is in flight.
    assert!(!db.begin_resume_attempt("resume-session", "run-2", "2026-02-18T00:06:00Z"));
}

#[test]
fn session_history_keeps_deterministic_order_across_resume_runs() {
    let mut db = Database::new();
    db.create_session(&session("history-session", "completed", "2026-02-18T00:00:00Z")).unwrap();

    let run_a = "run-a";
    let run_b = "run-b";

    db.insert_session_event(
        "history-session",
        run_a,
        1,
        "status",
        "{\"status\":\"running\"}",
        "2026-02-18T00:00:01Z",
    );
    db.insert_session_event(
        "history-session",
        run_a,
        2,
        "message",
        "{\"content\":\"first run output\"}",
        "2026-02-18T00:00:02Z",
    );
    db.insert_session_event(
        "history-session",
        run_b,
        1,
        "status",
        "{\"status\":\"running\"}",
        "2026-02-18T00:00:03Z",
    );
    db.insert_session_event(
        "history-session",
        run_b,
        2,
        "tool_call",
        "{\"tool_name\":\"apply_patch\"}",
        "2026-02-18T00:00:04Z",
    );

    // Re-inserting the last tuple is an idempotent no-op.
    db.insert_session_event(
        "history-session",
        run_b,
        2,
        "tool_call",
        "{\"tool_name\":\"apply_patch\"}",
        "2026-02-18T00:00:04Z",
    );

    let history = db.list_session_history("history-session");
    assert_eq!(history.len(), 4, "history should include all unique rows across runs");
    let run_seq: Vec<(String, u64)> =
        history.iter().map(|event| (event.run_id.clone(), event.seq)).collect();
    assert_eq!(
        run_seq,
        vec![
            (run_a.to_string(), 1),
            (run_a.to_string(), 2),
            (run_b.to_string(), 1),
            (run_b.to_string(), 2),
        ],
        "history ordering should remain deterministic across resume attempts"
    );
}

#[test]
fn startup_reconcile_marks_stale_running_as_failed() {
    let mut db = Database::new();
    db.create_session(&session("stale-session", "running", "2026-02-18T00:00:00Z")).unwrap();
    db.update_worktree_path(
        "stale-session",
        Some("/repo/.lulu/worktrees/stale-session"),
        "2026-02-18T00:00:01Z",
    );

    let repaired =
        db.reconcile_stale_inflight_sessions(stale_recovery_reason(), "2026-02-18T01:00:00Z");
    assert_eq!(repaired, vec!["stale-session".to_string()]);

    let stored = db.get_session("stale-session").expect("session should exist");
    assert_eq!(stored.status, "failed");

    let dashboard = db.list_dashboard_sessions();
    let stale_row =
        dashboard.iter().find(|row| row.id == "stale-session").expect("stale row should exist");
    assert!(
        stale_row
            .failure_reason
            .as_deref()
            .unwrap_or_default()
            .contains("marked failed on restart"),
        "stale session should have inline-safe reconcile failure reason"
    );
    assert!(stale_row.restored);
    assert!(stale_row.recovery_hint);
    assert_eq!(stale_row.restored_at.as_deref(), Some("2026-02-18T01:00:00Z"));

    // Terminal rows are left alone.
    let repaired_again =
        db.reconcile_stale_inflight_sessions(stale_recovery_reason(), "2026-02-18T02:00:00Z");
    assert!(repaired_again.is_empty());
}

#[test]
fn delete_session_cascades_messages_and_events() {
    let mut db = Database::new();
    db.create_session(&session("gone", "completed", "2026-02-18T00:00:01Z")).unwrap();
    db.create_session(&session("kept", "completed", "2026-02-18T00:00:02Z")).unwrap();
    db.insert_session_message("gone", "assistant", "hello", "2026-02-18T00:00:03Z");
    db.insert_session_message("kept", "assistant", "world", "2026-02-18T00:00:04Z");
    db.insert_session_event("gone", "run-1", 1, "status", "{}", "2026-02-18T00:00:05Z");

    db.delete_session("gone");

    assert!(db.get_session("gone").is_none());
    assert!(db.list_session_messages("gone").is_empty());
    assert!(db.list_session_history("gone").is_empty());
    assert_eq!(db.list_session_messages("kept").len(), 1);
    assert!(db.get_session("kept").is_some());
}

#[test]
fn messages_list_in_timestamp_order() {
    let mut db = Database::new();
    db.create_session(&session("chat", "running", "2026-02-18T00:00:01Z")).unwrap();
    db.insert_session_message("chat", "assistant", "second", "2026-02-18T00:00:05Z");
    db.insert_session_message("chat", "assistant", "first", "2026-02-18T00:00:03Z");
    db.insert_session_message("chat", "assistant", "third", "2026-02-18T00:00:07Z");

    let contents: Vec<String> =
        db.list_session_messages("chat").into_iter().map(|m| m.content).collect();
    assert_eq!(contents, vec!["first".to_string(), "second".to_string(), "third".to_string()]);
}

#[test]
fn update_and_clear_restored_metadata() {
    let mut db = Database::new();
    db.create_session(&session("meta", "running", "2026-02-18T00:00:01Z")).unwrap();
    db.mark_sessions_restored(&vec!["meta".to_string()], "2026-02-18T00:10:00Z");

    let row = &db.list_dashboard_sessions()[0];
    assert!(row.restored && row.recovery_hint);

    db.clear_restored_metadata("meta", "2026-02-18T00:11:00Z");
    let row = &db.list_dashboard_sessions()[0];
    assert!(!row.restored && !row.recovery_hint && row.restored_at.is_none());
}

#[test]
fn rename_and_failure_reason_updates_apply() {
    let mut db = Database::new();
    db.create_session(&session("s", "running", "2026-02-18T00:00:01Z")).unwrap();

    db.update_session_name("s", "renamed", "2026-02-18T00:00:02Z");
    assert_eq!(db.get_session("s").unwrap().name, "renamed");

    db.update_failure_reason("s", Some("boom"), "2026-02-18T00:00:03Z");
    assert_eq!(db.list_dashboard_sessions()[0].failure_reason.as_deref(), Some("boom"));

    db.update_last_activity("s", "2026-02-18T00:00:04Z", "2026-02-18T00:00:04Z");
    assert_eq!(
        db.list_dashboard_sessions()[0].last_activity_at.as_deref(),
        Some("2026-02-18T00:00:04Z")
    );

    assert_eq!(
        db.get_session_worktree_path("s"),
        None,
        "no worktree path was stored yet"
    );
    db.update_worktree_path("s", Some("/repo/.lulu/worktrees/s"), "2026-02-18T00:00:05Z");
    assert_eq!(db.get_session_worktree_path("s").as_deref(), Some("/repo/.lulu/worktrees/s"));
}

use lulu::orchestrator::classify_exit;
use lulu::records::Session;
use lulu::store::Database;
use lulu::supervisor::{normalize_terminal_status, SessionSupervisor};

fn session(id: &str, status: &str, created_at: &str) -> Session {
    Session {
        id: id.to_string(),
        name: id.to_string(),
        status: status.to_string(),
        working_dir: "/tmp/project".to_string(),
        created_at: created_at.to_string(),
        updated_at: created_at.to_string(),
    }
}

#[test]
fn supervisor_terminal_transition_applies_once_per_session() {
    let mut db = Database::new();
    let mut supervisor = SessionSupervisor::new();
    let specs = [
        ("session-a", "completed"),
        ("session-b", "completed"),
        ("session-c", "failed"),
        ("session-d", "completed"),
        ("session-e", "completed"),
    ];

    for (idx, (id, _)) in specs.iter().enumerate() {
        // Later spawns carry earlier creation stamps, as the orchestration
        // test harness arranges, so the dashboard order is the spawn order.
        let created = format!("2026-02-18T00:00:0{}Z", 9 - idx);
        db.create_session(&session(id, "running", &created)).expect("session should persist");
        supervisor.register(id.to_string(), id.to_string());
    }

    for (id, terminal) in specs.iter() {
        let failure = if *terminal == "failed" { Some("fixture exited non-zero") } else { None };
        let first = supervisor.finalize_terminal_transition(
            &mut db,
            id,
            terminal,
            failure,
            "2026-02-18T00:05:00Z",
        );
        assert!(first.is_some(), "first finalization must apply for {}", id);
        let second = supervisor.finalize_terminal_transition(
            &mut db,
            id,
            terminal,
            None,
            "2026-02-18T00:05:01Z",
        );
        assert!(second.is_none(), "second finalization must be a no-op for {}", id);
        let _ = supervisor.remove(id);
    }

    for (id, terminal) in specs.iter() {
        assert_eq!(&db.get_session(id).expect("session should exist").status, terminal);
    }

    let observed: Vec<String> = db.list_dashboard_sessions().into_iter().map(|r| r.id).collect();
    let expected: Vec<String> = specs.iter().map(|(id, _)| id.to_string()).collect();
    assert_eq!(observed, expected, "dashboard ordering should remain based on created_at");
}

#[test]
fn finalize_normalizes_terminal_aliases_and_failure_reason() {
    assert_eq!(normalize_terminal_status("complete"), "completed");
    assert_eq!(normalize_terminal_status("done"), "completed");
    assert_eq!(normalize_terminal_status("failed"), "failed");

    let mut db = Database::new();
    let mut supervisor = SessionSupervisor::new();
    db.create_session(&session("s", "running", "2026-02-18T00:00:01Z")).unwrap();
    supervisor.register("s".to_string(), "s".to_string());

    let result = supervisor
        .finalize_terminal_transition(
            &mut db,
            "s",
            "failed",
            Some("  broke\nbadly  "),
            "2026-02-18T00:05:00Z",
        )
        .expect("first finalization applies");
    assert_eq!(result.final_status, "failed");
    assert_eq!(result.failure_message.as_deref(), Some("broke badly"));
    assert_eq!(db.get_session("s").unwrap().status, "failed");
    assert_eq!(db.list_dashboard_sessions()[0].failure_reason.as_deref(), Some("broke badly"));
}

#[test]
fn finalize_without_runtime_is_a_no_op() {
    let mut db = Database::new();
    let mut supervisor = SessionSupervisor::new();
    db.create_session(&session("ghost", "running", "2026-02-18T00:00:01Z")).unwrap();
    let r = supervisor.finalize_terminal_transition(
        &mut db,
        "ghost",
        "completed",
        None,
        "2026-02-18T00:05:00Z",
    );
    assert!(r.is_none());
    assert_eq!(db.get_session("ghost").unwrap().status, "running");
}

#[test]
fn interrupt_isolated_to_target_runtime_and_persists_interrupted_status() {
    let mut db = Database::new();
    let mut supervisor = SessionSupervisor::new();
    let now = "2026-02-18T00:00:01Z";
    db.create_session(&session("interrupt-target", "running", now)).unwrap();
    db.create_session(&session("interrupt-sibling", "running", now)).unwrap();
    supervisor.register("interrupt-target".to_string(), "interrupt-target".to_string());
    supervisor.register("interrupt-sibling".to_string(), "interrupt-sibling".to_string());

    supervisor
        .interrupt_begin(&mut db, "interrupt-target", "2026-02-18T00:00:02Z")
        .expect("interrupt should begin");
    supervisor.note_interrupt_attempt("interrupt-target");
    // The child exits promptly after the first graceful signal.
    let result =
        supervisor.interrupt_finish_exited(&mut db, "interrupt-target", "2026-02-18T00:00:03Z");
    assert!(result.is_some(), "interrupt should finalize the target once");

    let target = db.get_session("interrupt-target").expect("target session should exist");
    assert_eq!(target.status, "interrupted");

    let sibling = db.get_session("interrupt-sibling").expect("sibling session should exist");
    assert_eq!(sibling.status, "running");
    let sibling_runtime =
        supervisor.get("interrupt-sibling").expect("sibling runtime should remain");
    assert!(!sibling_runtime.was_interrupt_requested());
    assert_eq!(sibling_runtime.interrupt_attempts(), 0);
    assert!(supervisor.get("interrupt-target").is_none(), "target runtime should be removed");

    assert!(
        db.list_session_messages("interrupt-target").is_empty(),
        "successful interrupt should not append a timeline-only message"
    );
}

#[test]
fn interrupt_retries_once_and_times_out_after_total_deadline() {
    let mut db = Database::new();
    let mut supervisor = SessionSupervisor::new();
    db.create_session(&session("interrupt-timeout", "running", "2026-02-18T00:00:01Z")).unwrap();
    supervisor.register("interrupt-timeout".to_string(), "interrupt-timeout".to_string());

    supervisor
        .interrupt_begin(&mut db, "interrupt-timeout", "2026-02-18T00:00:02Z")
        .expect("interrupt should begin");
    assert_eq!(db.get_session("interrupt-timeout").unwrap().status, "interrupting");

    // First graceful attempt; the child never exits before the retry deadline.
    supervisor.note_interrupt_attempt("interrupt-timeout");
    // Second and last graceful attempt; the child outlives the total deadline.
    supervisor.note_interrupt_attempt("interrupt-timeout");
    let err = supervisor.interrupt_finish_timeout(
        &mut db,
        "interrupt-timeout",
        10,
        "2026-02-18T00:00:12Z",
    );

    assert!(err.contains("10 seconds"));
    assert_eq!(err, "Interrupt did not complete within 10 seconds");
    let runtime = supervisor.get("interrupt-timeout").expect("runtime should remain");
    assert_eq!(runtime.interrupt_attempts(), 2, "interrupt should retry once");
    assert_eq!(
        db.get_session("interrupt-timeout").unwrap().status,
        "running",
        "status should restore after timeout"
    );

    // The lifecycle gate was released: a later interrupt may start again.
    supervisor
        .interrupt_begin(&mut db, "interrupt-timeout", "2026-02-18T00:01:00Z")
        .expect("gate should be free after the timeout path");
}

#[test]
fn lifecycle_gate_blocks_overlapping_operations() {
    let mut supervisor = SessionSupervisor::new();
    supervisor
        .acquire_lifecycle_operation("resume-session", "interrupt")
        .expect("initial operation gate should lock");
    let gate_err = supervisor
        .acquire_lifecycle_operation("resume-session", "resume")
        .expect_err("second operation should be blocked");
    assert!(gate_err.contains("in-progress"));
    assert_eq!(
        gate_err,
        "Session resume-session already has an in-progress interrupt operation"
    );

    supervisor.release_lifecycle_operation("resume-session");
    supervisor
        .acquire_lifecycle_operation("resume-session", "resume")
        .expect("gate should reopen after release");
}

#[test]
fn interrupt_begin_requires_interruptible_state() {
    let mut db = Database::new();
    let mut supervisor = SessionSupervisor::new();
    db.create_session(&session("done", "completed", "2026-02-18T00:00:01Z")).unwrap();
    let err = supervisor
        .interrupt_begin(&mut db, "done", "2026-02-18T00:00:02Z")
        .expect_err("terminal sessions cannot be interrupted");
    assert_eq!(err, "Session is not in an interruptible state");
    // The lifecycle lock was released on the failure path.
    supervisor
        .acquire_lifecycle_operation("done", "kill")
        .expect("gate should be free after failed interrupt");
}

#[test]
fn kill_marks_runtime_and_cancels_token() {
    let mut supervisor = SessionSupervisor::new();
    supervisor.register("k".to_string(), "k".to_string());
    assert!(supervisor.kill_session("k"));
    let was_killed = {
        let runtime = supervisor.get("k").expect("runtime should remain until finalization");
        assert!(runtime.was_killed());
        assert!(runtime.is_cancelled());
        runtime.was_killed()
    };

    assert!(!supervisor.kill_session("unknown"), "killing an unknown session is a safe no-op");

    assert_eq!(classify_exit(was_killed, false), "killed");
    assert_eq!(classify_exit(false, true), "completed");
    assert_eq!(classify_exit(false, false), "failed");
}

#[test]
fn kill_all_empties_the_registry() {
    let mut supervisor = SessionSupervisor::new();
    supervisor.register("a".to_string(), "a".to_string());
    supervisor.register("b".to_string(), "b".to_string());
    let ids = supervisor.kill_all();
    assert_eq!(ids, vec!["a".to_string(), "b".to_string()]);
    assert!(supervisor.get("a").is_none());
    assert!(supervisor.get("b").is_none());
}

#[test]
fn runtime_terminal_swap_returns_true_once() {
    let mut supervisor = SessionSupervisor::new();
    supervisor.register("swap".to_string(), "swap".to_string());
    let mut db = Database::new();
    db.create_session(&session("swap", "running", "2026-02-18T00:00:01Z")).unwrap();

    assert!(supervisor
        .finalize_terminal_transition(&mut db, "swap", "killed", None, "2026-02-18T00:00:02Z")
        .is_some());
    assert!(supervisor
        .finalize_terminal_transition(&mut db, "swap", "completed", None, "2026-02-18T00:00:03Z")
        .is_none());
    assert_eq!(db.get_session("swap").unwrap().status, "killed");
}

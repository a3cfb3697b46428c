use lulu::events::SessionEventPayload;
use lulu::json::Json;
use lulu::orchestrator::{
    forward_event_action, resolve_execution_dir_with_worktree, resolve_working_dir,
    validate_working_dir, validated_session_name, ForwardAction, WorktreeAttempt,
};

#[test]
fn resolve_working_dir_trims_non_tilde_paths() {
    let resolved = resolve_working_dir("  /tmp/project  ", None).expect("path should resolve");
    assert_eq!(resolved, "/tmp/project");
}

#[test]
fn resolve_working_dir_expands_home_alias() {
    let home = "/home/user";
    let resolved_home = resolve_working_dir("~", Some(home)).expect("tilde should resolve");
    let resolved_subdir =
        resolve_working_dir("~/workspace", Some(home)).expect("tilde path should resolve");

    assert_eq!(resolved_home, home);
    assert_eq!(resolved_subdir, format!("{}/workspace", home));
}

#[test]
fn resolve_working_dir_without_home_fails_for_tilde() {
    let err = resolve_working_dir("~/workspace", None).expect_err("tilde needs a home");
    assert_eq!(err, "HOME is not set; cannot resolve '~' working directory");
    assert!(resolve_working_dir("/absolute", None).is_ok());
}

#[test]
fn validate_working_dir_names_the_failing_path() {
    assert!(validate_working_dir("/ok", true, true).is_ok());
    assert_eq!(
        validate_working_dir("/missing", false, false).expect_err("missing dir"),
        "Working directory does not exist: /missing"
    );
    assert_eq!(
        validate_working_dir("/a-file", true, false).expect_err("not a directory"),
        "Working directory is not a directory: /a-file"
    );
}

#[test]
fn resolve_execution_dir_falls_back_for_non_git_folder() {
    let choice = resolve_execution_dir_with_worktree(
        "/tmp/plain",
        WorktreeAttempt::NoRepository { error: "not a git repository".to_string() },
    );
    assert_eq!(choice.execution_dir, "/tmp/plain");
    assert!(choice.worktree_path.is_none());
    assert!(
        choice
            .fallback_message
            .as_deref()
            .unwrap_or_default()
            .contains("No git repository detected"),
        "expected explicit non-git fallback message"
    );
}

#[test]
fn resolve_execution_dir_falls_back_when_worktree_creation_fails() {
    let choice = resolve_execution_dir_with_worktree(
        "/tmp/repo",
        WorktreeAttempt::CreationFailed { error: "git worktree add failed: no HEAD".to_string() },
    );
    assert_eq!(choice.execution_dir, "/tmp/repo");
    assert!(choice.worktree_path.is_none());
    assert!(
        choice
            .fallback_message
            .as_deref()
            .unwrap_or_default()
            .contains("Worktree creation failed"),
        "expected explicit worktree creation fallback message"
    );
}

#[test]
fn resolve_execution_dir_prefers_created_worktree() {
    let choice = resolve_execution_dir_with_worktree(
        "/tmp/repo",
        WorktreeAttempt::Created { path: "/tmp/repo/.lulu/worktrees/s".to_string() },
    );
    assert_eq!(choice.execution_dir, "/tmp/repo/.lulu/worktrees/s");
    assert_eq!(choice.worktree_path.as_deref(), Some("/tmp/repo/.lulu/worktrees/s"));
    assert!(choice.fallback_message.is_none());
}

#[test]
fn forwarder_actions_follow_the_payload() {
    let message = SessionEventPayload::Message { content: "hi".to_string() };
    assert!(
        matches!(forward_event_action(&message), ForwardAction::RecordMessage { content } if content == "hi")
    );

    let terminal = SessionEventPayload::Status { status: "completed".to_string() };
    assert!(
        matches!(forward_event_action(&terminal), ForwardAction::FinalizeTerminal { status } if status == "completed")
    );

    let transient = SessionEventPayload::Status { status: "running".to_string() };
    assert!(matches!(forward_event_action(&transient), ForwardAction::TouchActivity));

    let error = SessionEventPayload::Error { message: "se broke".to_string() };
    assert!(
        matches!(forward_event_action(&error), ForwardAction::NoteTransient { message } if message == "se broke")
    );

    let tool = SessionEventPayload::ToolCall {
        call_id: None,
        tool_name: "read_file".to_string(),
        args: Json::Null,
    };
    assert!(matches!(forward_event_action(&tool), ForwardAction::ForwardOnly));
}

#[test]
fn session_rename_requires_a_non_empty_name() {
    assert_eq!(validated_session_name("  fresh name ").expect("name should pass"), "fresh name");
    assert_eq!(
        validated_session_name("   ").expect_err("blank names are refused"),
        "Session name cannot be empty"
    );
}

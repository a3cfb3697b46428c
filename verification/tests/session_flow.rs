//! The success and failure paths of one session, replayed at the model level:
//! the fixture's output lines run through the codec, the sequenced publisher,
//! the forwarder's decisions, and the supervisor's one-shot finalization.

use lulu::codec::{event_to_json, parse_event_payload};
use lulu::events::{SendOutcome, SessionEvent, SessionEventPayload, SessionEventStream};
use lulu::orchestrator::{classify_exit, forward_event_action, ForwardAction};
use lulu::records::Session;
use lulu::status::is_terminal_status;
use lulu::store::Database;
use lulu::supervisor::SessionSupervisor;

const SUCCESS_LINES: [&str; 6] = [
    r#"{"type":"system","subtype":"init"}"#,
    r#"{"type":"assistant","message":{"content":[{"type":"thinking","thinking":"Planning the response"}]}}"#,
    r#"{"type":"assistant","message":{"content":[{"type":"text","text":"hello from test cli"}]}}"#,
    r#"{"type":"assistant","message":{"content":[{"type":"tool_use","id":"tool-1","name":"read_file","input":{"path":"README.md"}}]}}"#,
    r#"{"type":"user","message":{"content":[{"type":"tool_result","tool_use_id":"tool-1","content":{"ok":true}}]}}"#,
    r#"{"type":"result","subtype":"success","is_error":false}"#,
];

fn session(id: &str) -> Session {
    Session {
        id: id.to_string(),
        name: id.to_string(),
        status: "running".to_string(),
        working_dir: "/tmp/project".to_string(),
        created_at: "2026-02-18T00:00:00Z".to_string(),
        updated_at: "2026-02-18T00:00:00Z".to_string(),
    }
}

fn drain(rx: &mut tokio::sync::mpsc::Receiver<SessionEvent>) -> Vec<SessionEvent> {
    let mut events = Vec::new();
    while let Ok(event) = rx.try_recv() {
        events.push(event);
    }
    events
}

#[test]
fn single_session_launch_stream_and_terminal_persist_success() {
    let mut db = Database::new();
    let mut supervisor = SessionSupervisor::new();
    let session_id = "session-success";
    db.create_session(&session(session_id)).expect("running session should persist");
    supervisor.register(session_id.to_string(), session_id.to_string());

    let (tx, mut rx) = tokio::sync::mpsc::channel::<SessionEvent>(128);
    let mut stream = SessionEventStream::new(session_id.to_string(), tx);
    let outcome = stream.publish(
        SessionEventPayload::Status { status: "running".to_string() },
        "2026-02-18T00:00:01Z",
    );
    assert!(matches!(outcome, SendOutcome::Sent));
    for line in SUCCESS_LINES {
        let outcome = stream.publish(parse_event_payload(line), "2026-02-18T00:00:02Z");
        assert!(matches!(outcome, SendOutcome::Sent));
    }

    let events = drain(&mut rx);
    assert!(!events.is_empty(), "expected streamed events");

    let mut prev_seq = 0u64;
    for event in &events {
        assert_eq!(event.session_id, session_id);
        assert!(event.seq > prev_seq, "seq must increase monotonically");
        prev_seq = event.seq;
    }

    let mut finalized = 0usize;
    let mut terminal_statuses: Vec<String> = Vec::new();
    for event in &events {
        match forward_event_action(&event.payload) {
            ForwardAction::RecordMessage { content } => {
                db.insert_session_message(session_id, "assistant", &content, &event.timestamp);
            }
            ForwardAction::FinalizeTerminal { status } => {
                terminal_statuses.push(status.clone());
                if supervisor
                    .finalize_terminal_transition(
                        &mut db,
                        session_id,
                        &status,
                        None,
                        &event.timestamp,
                    )
                    .is_some()
                {
                    finalized += 1;
                }
            }
            _ => {}
        }
    }

    assert_eq!(terminal_statuses, vec!["completed".to_string()], "terminal status emits once");
    assert_eq!(finalized, 1, "the terminal transition applies exactly once");
    assert_eq!(db.get_session(session_id).expect("session should exist").status, "completed");

    let message_idx = events
        .iter()
        .position(
            |e| matches!(&e.payload, SessionEventPayload::Message { content } if content == "hello from test cli"),
        )
        .expect("message event should exist");
    let tool_call_idx = events
        .iter()
        .position(|e| matches!(&e.payload, SessionEventPayload::ToolCall { .. }))
        .expect("tool_call event should exist");
    let tool_result_idx = events
        .iter()
        .position(|e| matches!(&e.payload, SessionEventPayload::ToolResult { .. }))
        .expect("tool_result event should exist");
    assert!(
        message_idx < tool_call_idx && tool_call_idx < tool_result_idx,
        "expected Message, then ToolCall, then ToolResult"
    );
    assert!(events
        .iter()
        .any(|e| matches!(&e.payload, SessionEventPayload::Thinking { content } if content == "Planning the response")));

    let messages = db.list_session_messages(session_id);
    assert_eq!(messages.len(), 1);
    assert_eq!(messages[0].content, "hello from test cli");
}

#[test]
fn single_session_failure_stream_persists_failed_once() {
    let mut db = Database::new();
    let mut supervisor = SessionSupervisor::new();
    let session_id = "session-failure";
    db.create_session(&session(session_id)).expect("running session should persist");
    supervisor.register(session_id.to_string(), session_id.to_string());

    let (tx, mut rx) = tokio::sync::mpsc::channel::<SessionEvent>(128);
    let mut stream = SessionEventStream::new(session_id.to_string(), tx);
    let _ = stream.publish(
        parse_event_payload(r#"{"type":"result","subtype":"error","is_error":true}"#),
        "2026-02-18T00:00:01Z",
    );
    // The fixture also writes a diagnostic on its error stream.
    let _ = stream.publish(
        SessionEventPayload::Error { message: "fixture exploded\non purpose".to_string() },
        "2026-02-18T00:00:02Z",
    );

    let events = drain(&mut rx);
    let mut finalized = 0usize;
    let mut terminal_statuses: Vec<String> = Vec::new();
    for event in &events {
        match forward_event_action(&event.payload) {
            ForwardAction::FinalizeTerminal { status } => {
                terminal_statuses.push(status.clone());
                if supervisor
                    .finalize_terminal_transition(
                        &mut db,
                        session_id,
                        &status,
                        Some("fixture exploded\non purpose"),
                        &event.timestamp,
                    )
                    .is_some()
                {
                    finalized += 1;
                }
            }
            ForwardAction::NoteTransient { message } => {
                let normalized =
                    lulu::projection::normalize_failure_reason(Some(&message));
                db.update_failure_reason(
                    session_id,
                    normalized.as_deref(),
                    &event.timestamp,
                );
            }
            _ => {}
        }
    }

    // The exit waiter observes the non-zero exit after the stream drained;
    // its finalization is the no-op because the stream path won the swap.
    let exit_terminal = classify_exit(false, false);
    assert_eq!(exit_terminal, "failed");
    assert!(supervisor
        .finalize_terminal_transition(&mut db, session_id, exit_terminal, None, "2026-02-18T00:00:03Z")
        .is_none());

    assert_eq!(terminal_statuses, vec!["failed".to_string()], "terminal status emits once");
    assert_eq!(finalized, 1);
    assert!(is_terminal_status("failed"));
    assert_eq!(db.get_session(session_id).expect("session should exist").status, "failed");

    let reason = db.list_dashboard_sessions()[0]
        .failure_reason
        .clone()
        .expect("failure reason should be set");
    assert!(reason.chars().count() <= 140);
    assert_eq!(reason, "fixture exploded on purpose");
}

#[test]
fn outbound_event_document_carries_identity_and_fields() {
    let event = SessionEvent {
        session_id: "s-1".to_string(),
        seq: 42,
        timestamp: "2026-02-18T00:00:01Z".to_string(),
        payload: SessionEventPayload::Status { status: "completed".to_string() },
    };
    let doc = event_to_json(&event);
    let kind = doc.get("type").and_then(|v| v.as_str()).expect("type should be present");
    assert_eq!(kind, "status");
    let data = doc.get("data").expect("data should be present");
    assert_eq!(data.get("session_id").and_then(|v| v.as_str()), Some("s-1"));
    assert_eq!(data.get("status").and_then(|v| v.as_str()), Some("completed"));
    match data.get("seq").expect("seq should be present") {
        lulu::json::Json::Num(text) => assert_eq!(text, "42"),
        _ => panic!("seq should be numeric"),
    }
}

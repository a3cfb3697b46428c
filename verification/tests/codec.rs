use lulu::codec::{parse_event_payload, parse_output_line};
use lulu::events::{SendOutcome, SessionEvent, SessionEventPayload, SessionEventStream};
use lulu::json::Json;

fn payload(line: &str) -> SessionEventPayload {
    parse_event_payload(line)
}

#[test]
fn non_json_line_becomes_raw_message() {
    assert!(
        matches!(payload("plain text output"), SessionEventPayload::Message { content } if content == "plain text output")
    );
}

#[test]
fn unknown_type_becomes_raw_message() {
    let line = r#"{"type":"telemetry","data":{"x":1}}"#;
    assert!(matches!(payload(line), SessionEventPayload::Message { content } if content == line));
}

#[test]
fn documented_types_read_fields_from_data() {
    assert!(
        matches!(payload(r#"{"type":"message","data":{"content":"hi"}}"#), SessionEventPayload::Message { content } if content == "hi")
    );
    assert!(
        matches!(payload(r#"{"type":"thinking","data":{"content":"hmm"}}"#), SessionEventPayload::Thinking { content } if content == "hmm")
    );
    assert!(
        matches!(payload(r#"{"type":"status","data":{"status":"running"}}"#), SessionEventPayload::Status { status } if status == "running")
    );
    assert!(
        matches!(payload(r#"{"type":"status"}"#), SessionEventPayload::Status { status } if status == "unknown")
    );
    assert!(
        matches!(payload(r#"{"type":"error","data":{"message":"boom"}}"#), SessionEventPayload::Error { message } if message == "boom")
    );
}

#[test]
fn documented_types_fall_back_to_top_level_fields() {
    assert!(
        matches!(payload(r#"{"type":"message","content":"top"}"#), SessionEventPayload::Message { content } if content == "top")
    );
}

#[test]
fn tool_call_accepts_documented_aliases() {
    match payload(r#"{"type":"tool_call","data":{"name":"read_file","arguments":{"path":"a"}}}"#) {
        SessionEventPayload::ToolCall { call_id, tool_name, args } => {
            assert_eq!(tool_name, "read_file");
            assert!(call_id.is_none());
            let path = args.get("path").expect("args should carry the alias payload");
            assert_eq!(path.as_str(), Some("a"));
        }
        other => panic!("expected a tool call, got {:?}", kind_of(&other)),
    }

    match payload(
        r#"{"type":"tool_call","data":{"tool_name":"grep","args":{"q":"x"},"call_id":"c1"}}"#,
    ) {
        SessionEventPayload::ToolCall { call_id, tool_name, args } => {
            assert_eq!(tool_name, "grep");
            assert_eq!(call_id.as_deref(), Some("c1"));
            assert!(args.get("q").is_some());
        }
        other => panic!("expected a tool call, got {:?}", kind_of(&other)),
    }

    // A tool call without any name cannot be typed and stays a raw message.
    let nameless = r#"{"type":"tool_call","data":{"args":{}}}"#;
    assert!(
        matches!(payload(nameless), SessionEventPayload::Message { content } if content == nameless)
    );
}

#[test]
fn tool_result_fields_are_optional_except_result() {
    match payload(r#"{"type":"tool_result","data":{"result":{"ok":true}}}"#) {
        SessionEventPayload::ToolResult { call_id, tool_name, result } => {
            assert!(call_id.is_none());
            assert!(tool_name.is_none());
            assert_eq!(result.get("ok").and_then(|v| v.as_bool()), Some(true));
        }
        other => panic!("expected a tool result, got {:?}", kind_of(&other)),
    }

    match payload(r#"{"type":"tool_result","data":{}}"#) {
        SessionEventPayload::ToolResult { result, .. } => assert!(result.is_null()),
        other => panic!("expected a tool result, got {:?}", kind_of(&other)),
    }
}

#[test]
fn provider_idiomatic_documents_map_to_typed_events() {
    assert!(
        matches!(payload(r#"{"type":"system","subtype":"init"}"#), SessionEventPayload::Status { status } if status == "running")
    );

    let thinking = r#"{"type":"assistant","message":{"content":[{"type":"thinking","thinking":"Planning the response"}]}}"#;
    assert!(
        matches!(payload(thinking), SessionEventPayload::Thinking { content } if content == "Planning the response")
    );

    let text = r#"{"type":"assistant","message":{"content":[{"type":"text","text":"hello from test cli"}]}}"#;
    assert!(
        matches!(payload(text), SessionEventPayload::Message { content } if content == "hello from test cli")
    );

    let tool_use = r#"{"type":"assistant","message":{"content":[{"type":"tool_use","id":"tool-1","name":"read_file","input":{"path":"README.md"}}]}}"#;
    match payload(tool_use) {
        SessionEventPayload::ToolCall { call_id, tool_name, args } => {
            assert_eq!(call_id.as_deref(), Some("tool-1"));
            assert_eq!(tool_name, "read_file");
            assert_eq!(args.get("path").and_then(|v| v.as_str()), Some("README.md"));
        }
        other => panic!("expected a tool call, got {:?}", kind_of(&other)),
    }

    let tool_result = r#"{"type":"user","message":{"content":[{"type":"tool_result","tool_use_id":"tool-1","content":{"ok":true}}]}}"#;
    match payload(tool_result) {
        SessionEventPayload::ToolResult { call_id, tool_name, result } => {
            assert_eq!(call_id.as_deref(), Some("tool-1"));
            assert!(tool_name.is_none());
            assert_eq!(result.get("ok").and_then(|v| v.as_bool()), Some(true));
        }
        other => panic!("expected a tool result, got {:?}", kind_of(&other)),
    }

    assert!(
        matches!(payload(r#"{"type":"result","subtype":"success","is_error":false}"#), SessionEventPayload::Status { status } if status == "completed")
    );
    assert!(
        matches!(payload(r#"{"type":"result","subtype":"error","is_error":true}"#), SessionEventPayload::Status { status } if status == "failed")
    );
}

fn kind_of(p: &SessionEventPayload) -> &'static str {
    match p {
        SessionEventPayload::Message { .. } => "message",
        SessionEventPayload::Thinking { .. } => "thinking",
        SessionEventPayload::ToolCall { .. } => "tool_call",
        SessionEventPayload::ToolResult { .. } => "tool_result",
        SessionEventPayload::Status { .. } => "status",
        SessionEventPayload::Error { .. } => "error",
    }
}

#[test]
fn parse_output_line_carries_identity_and_sequence() {
    let event: SessionEvent =
        parse_output_line("session-1", 7, "2026-02-18T00:00:01Z", "hello");
    assert_eq!(event.session_id, "session-1");
    assert_eq!(event.seq, 7);
    assert_eq!(event.timestamp, "2026-02-18T00:00:01Z");
    assert!(matches!(event.payload, SessionEventPayload::Message { content } if content == "hello"));
}

#[test]
fn stream_assigns_strictly_increasing_sequence_numbers() {
    let (tx, mut rx) = tokio::sync::mpsc::channel::<SessionEvent>(8);
    let mut stream = SessionEventStream::new("s".to_string(), tx);
    assert_eq!(stream.next_seq(), 1);

    for content in ["a", "b", "c"] {
        let outcome = stream.publish(
            SessionEventPayload::Message { content: content.to_string() },
            "2026-02-18T00:00:01Z",
        );
        assert!(matches!(outcome, SendOutcome::Sent));
    }
    assert_eq!(stream.next_seq(), 4);

    let mut prev_seq = 0u64;
    for _ in 0..3 {
        let event = rx.try_recv().expect("event should be queued");
        assert_eq!(event.session_id, "s");
        assert!(event.seq > prev_seq, "seq must increase monotonically");
        prev_seq = event.seq;
    }
}

#[test]
fn overflow_produces_one_notice_per_burst() {
    let (tx, mut rx) = tokio::sync::mpsc::channel::<SessionEvent>(1);
    let mut stream = SessionEventStream::new("s".to_string(), tx);

    let first = stream.publish(
        SessionEventPayload::Message { content: "kept".to_string() },
        "2026-02-18T00:00:01Z",
    );
    assert!(matches!(first, SendOutcome::Sent));
    assert!(!stream.overflow_reported());

    // The channel is now full: a burst of drops arms the notice exactly once.
    for _ in 0..4 {
        let outcome = stream.publish(
            SessionEventPayload::Message { content: "dropped".to_string() },
            "2026-02-18T00:00:02Z",
        );
        assert!(matches!(outcome, SendOutcome::Full));
        assert!(stream.overflow_reported());
    }

    let kept = rx.try_recv().expect("first event should be queued");
    assert!(matches!(kept.payload, SessionEventPayload::Message { content } if content == "kept"));

    // Room again: the next send succeeds and re-arms the notice.
    let after = stream.publish(
        SessionEventPayload::Message { content: "resumed".to_string() },
        "2026-02-18T00:00:03Z",
    );
    assert!(matches!(after, SendOutcome::Sent));
    assert!(!stream.overflow_reported());
}

#[test]
fn closed_receiver_is_silently_ignored() {
    let (tx, rx) = tokio::sync::mpsc::channel::<SessionEvent>(1);
    drop(rx);
    let mut stream = SessionEventStream::new("s".to_string(), tx);
    let outcome = stream.publish(
        SessionEventPayload::Message { content: "late".to_string() },
        "2026-02-18T00:00:01Z",
    );
    assert!(matches!(outcome, SendOutcome::Closed));
    assert!(!stream.overflow_reported());
    assert_eq!(stream.next_seq(), 2);
}

#[test]
fn json_tree_reads_nested_values() {
    let doc = match parse_event_payload(
        r#"{"type":"tool_call","data":{"name":"t","args":{"outer":{"inner":[1,2,3]}}}}"#,
    ) {
        SessionEventPayload::ToolCall { args, .. } => args,
        _ => panic!("expected a tool call"),
    };
    let outer = doc.get("outer").expect("outer should exist");
    let inner = outer.get("inner").expect("inner should exist");
    match inner {
        Json::Arr(items) => assert_eq!(items.len(), 3),
        _ => panic!("inner should be an array"),
    }
    assert!(doc.get("missing").is_none());
}

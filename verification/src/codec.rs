//! The event codec: one line of child output becomes one typed event.
//! A line that parses as JSON with a recognized top-level `type` is mapped to
//! its variant, reading fields from the top-level `data` object when present
//! and from the document itself otherwise, with the documented aliases;
//! provider-idiomatic documents (`assistant`, `user`, `system`, `result`) are
//! mapped onto the same six variants. Anything else is a plain `Message`
//! carrying the raw line.

use vstd::prelude::*;
use vstd::string::*;

use crate::events::{SessionEvent, SessionEventPayload, SessionEventPayloadV};
use crate::json::{spec_as_bool, spec_as_str, spec_get, Json, JsonV};
use crate::text::str_eq;

verus! {

/// What `serde_json` makes of one line of text; parsing is a function of the
/// text alone.
pub uninterp spec fn json_parse(line: Seq<char>) -> Option<JsonV>;

#[verifier::external_type_specification]
#[verifier::external_body]
pub struct ExValue(serde_json::Value);

/// Relies on `serde_json::Value`: converts a parsed document into the
/// library's tree, arm for arm; a number keeps its printed form.
#[verifier::external_body]
fn json_of_value(v: &serde_json::Value) -> Json {
    match v {
        serde_json::Value::Null => Json::Null,
        serde_json::Value::Bool(b) => Json::Bool(*b),
        serde_json::Value::Number(n) => Json::Num(n.to_string()),
        serde_json::Value::String(s) => Json::Str(s.clone()),
        serde_json::Value::Array(items) => Json::Arr(items.iter().map(json_of_value).collect()),
        serde_json::Value::Object(map) => Json::Obj(
            map.iter().map(|(k, v)| (k.clone(), json_of_value(v))).collect(),
        ),
    }
}

/// Relies on `serde_json::from_str::<Value>`: whether a line parses, and to
/// what document, is a function of the text alone.
#[verifier::external_body]
fn parse_json_line(line: &str) -> (r: Option<Json>)
    ensures
        r matches Some(j) ==> json_parse(line@) == Some(j@),
        r is None ==> json_parse(line@) is None,
{
    serde_json::from_str::<serde_json::Value>(line).ok().map(|v| json_of_value(&v))
}

/// A payload field: read from the top-level `data` object when it is there,
/// else from the document itself.
pub open spec fn spec_field(doc: JsonV, key: Seq<char>) -> Option<JsonV> {
    match spec_get(doc, "data"@) {
        Some(d) => if spec_get(d, key) is Some {
            spec_get(d, key)
        } else {
            spec_get(doc, key)
        },
        None => spec_get(doc, key),
    }
}

/// A payload field that must be a string.
pub open spec fn spec_field_str(doc: JsonV, key: Seq<char>) -> Option<Seq<char>> {
    match spec_field(doc, key) {
        Some(v) => spec_as_str(v),
        None => None,
    }
}

/// The first content block of a provider-idiomatic `assistant` or `user`
/// document: `message.content[0]`.
pub open spec fn spec_first_block(doc: JsonV) -> Option<JsonV> {
    match spec_field(doc, "message"@) {
        Some(m) => match spec_get(m, "content"@) {
            Some(JsonV::Arr(items)) => if items.len() > 0 {
                Some(items[0])
            } else {
                None
            },
            _ => None,
        },
        None => None,
    }
}

/// The payload of a provider content block, by the block's `type`.
pub open spec fn spec_payload_for_block(line: Seq<char>, b: JsonV) -> SessionEventPayloadV {
    match spec_get(b, "type"@) {
        Some(bt) => if spec_as_str(bt) == Some("thinking"@) {
            match spec_get(b, "thinking"@) {
                Some(c) => match spec_as_str(c) {
                    Some(text) => SessionEventPayloadV::Thinking { content: text },
                    None => SessionEventPayloadV::Message { content: line },
                },
                None => SessionEventPayloadV::Message { content: line },
            }
        } else if spec_as_str(bt) == Some("text"@) {
            match spec_get(b, "text"@) {
                Some(c) => match spec_as_str(c) {
                    Some(text) => SessionEventPayloadV::Message { content: text },
                    None => SessionEventPayloadV::Message { content: line },
                },
                None => SessionEventPayloadV::Message { content: line },
            }
        } else if spec_as_str(bt) == Some("tool_use"@) {
            match spec_get(b, "name"@) {
                Some(n) => match spec_as_str(n) {
                    Some(name) => SessionEventPayloadV::ToolCall {
                        call_id: spec_opt_str(spec_get(b, "id"@)),
                        tool_name: name,
                        args: spec_or_null(spec_get(b, "input"@)),
                    },
                    None => SessionEventPayloadV::Message { content: line },
                },
                None => SessionEventPayloadV::Message { content: line },
            }
        } else if spec_as_str(bt) == Some("tool_result"@) {
            SessionEventPayloadV::ToolResult {
                call_id: spec_opt_str(spec_get(b, "tool_use_id"@)),
                tool_name: None,
                result: spec_or_null(spec_get(b, "content"@)),
            }
        } else {
            SessionEventPayloadV::Message { content: line }
        },
        None => SessionEventPayloadV::Message { content: line },
    }
}

/// A string read from an optional document.
pub open spec fn spec_opt_str(v: Option<JsonV>) -> Option<Seq<char>> {
    match v {
        Some(j) => spec_as_str(j),
        None => None,
    }
}

/// An optional document, defaulting to `null`.
pub open spec fn spec_or_null(v: Option<JsonV>) -> JsonV {
    match v {
        Some(j) => j,
        None => JsonV::Null,
    }
}

/// The payload of a recognized document, by its top-level `type`.
pub open spec fn spec_payload_for_doc(line: Seq<char>, doc: JsonV, t: Seq<char>) -> SessionEventPayloadV {
    if t == "message"@ {
        match spec_field_str(doc, "content"@) {
            Some(c) => SessionEventPayloadV::Message { content: c },
            None => SessionEventPayloadV::Message { content: line },
        }
    } else if t == "thinking"@ {
        match spec_field_str(doc, "content"@) {
            Some(c) => SessionEventPayloadV::Thinking { content: c },
            None => SessionEventPayloadV::Message { content: line },
        }
    } else if t == "tool_call"@ {
        let name = if spec_field_str(doc, "tool_name"@) is Some {
            spec_field_str(doc, "tool_name"@)
        } else {
            spec_field_str(doc, "name"@)
        };
        match name {
            Some(n) => SessionEventPayloadV::ToolCall {
                call_id: spec_field_str(doc, "call_id"@),
                tool_name: n,
                args: spec_or_null(
                    if spec_field(doc, "args"@) is Some {
                        spec_field(doc, "args"@)
                    } else {
                        spec_field(doc, "arguments"@)
                    },
                ),
            },
            None => SessionEventPayloadV::Message { content: line },
        }
    } else if t == "tool_result"@ {
        SessionEventPayloadV::ToolResult {
            call_id: spec_field_str(doc, "call_id"@),
            tool_name: spec_field_str(doc, "tool_name"@),
            result: spec_or_null(spec_field(doc, "result"@)),
        }
    } else if t == "status"@ {
        SessionEventPayloadV::Status {
            status: match spec_field_str(doc, "status"@) {
                Some(s) => s,
                None => "unknown"@,
            },
        }
    } else if t == "error"@ {
        SessionEventPayloadV::Error {
            message: match spec_field_str(doc, "message"@) {
                Some(m) => m,
                None => "unknown"@,
            },
        }
    } else if t == "assistant"@ || t == "user"@ {
        match spec_first_block(doc) {
            Some(b) => spec_payload_for_block(line, b),
            None => SessionEventPayloadV::Message { content: line },
        }
    } else if t == "system"@ {
        SessionEventPayloadV::Status { status: "running"@ }
    } else if t == "result"@ {
        if spec_as_bool(spec_or_null(spec_field(doc, "is_error"@))) == Some(true) || spec_field_str(
            doc,
            "subtype"@,
        ) == Some("error"@) {
            SessionEventPayloadV::Status { status: "failed"@ }
        } else {
            SessionEventPayloadV::Status { status: "completed"@ }
        }
    } else {
        SessionEventPayloadV::Message { content: line }
    }
}

/// The payload of one line of standard output: the recognized document's
/// variant, or a `Message` carrying the raw line.
pub open spec fn spec_payload_for_line(line: Seq<char>) -> SessionEventPayloadV {
    match json_parse(line) {
        None => SessionEventPayloadV::Message { content: line },
        Some(doc) => match spec_get(doc, "type"@) {
            Some(t) => match spec_as_str(t) {
                Some(ts) => spec_payload_for_doc(line, doc, ts),
                None => SessionEventPayloadV::Message { content: line },
            },
            None => SessionEventPayloadV::Message { content: line },
        },
    }
}

/// Reads a payload field, from `data` when it has the key, else top-level.
fn field_of<'a>(doc: &'a Json, key: &str) -> (r: Option<&'a Json>)
    ensures
        match r {
            Some(v) => spec_field(doc@, key@) == Some(v@),
            None => spec_field(doc@, key@) is None,
        },
{
    if let Some(data) = doc.get("data") {
        if let Some(v) = data.get(key) {
            return Some(v);
        }
    }
    doc.get(key)
}

/// Reads a string payload field.
fn field_str(doc: &Json, key: &str) -> (r: Option<String>)
    ensures
        r.deep_view() == spec_field_str(doc@, key@),
{
    match field_of(doc, key) {
        Some(v) => match v.as_str() {
            Some(s) => Some(String::from_str(s)),
            None => None,
        },
        None => None,
    }
}

/// Reads a JSON payload field, defaulting to `null`.
fn field_or_null(doc: &Json, key: &str, alias: &str) -> (r: Json)
    ensures
        r@ == spec_or_null(
            if spec_field(doc@, key@) is Some {
                spec_field(doc@, key@)
            } else {
                spec_field(doc@, alias@)
            },
        ),
{
    match field_of(doc, key) {
        Some(v) => v.clone_value(),
        None => match field_of(doc, alias) {
            Some(v) => v.clone_value(),
            None => Json::Null,
        },
    }
}

/// Reads a string member of a block.
fn block_str(b: &Json, key: &str) -> (r: Option<String>)
    ensures
        r.deep_view() == spec_opt_str(spec_get(b@, key@)),
{
    match b.get(key) {
        Some(v) => match v.as_str() {
            Some(s) => Some(String::from_str(s)),
            None => None,
        },
        None => None,
    }
}

/// Reads a JSON member of a block, defaulting to `null`.
fn block_or_null(b: &Json, key: &str) -> (r: Json)
    ensures
        r@ == spec_or_null(spec_get(b@, key@)),
{
    match b.get(key) {
        Some(v) => v.clone_value(),
        None => Json::Null,
    }
}

fn payload_for_block(line: &str, b: &Json) -> (r: SessionEventPayload)
    ensures
        r@ == spec_payload_for_block(line@, b@),
{
    let Some(bt_json) = b.get("type") else {
        return SessionEventPayload::Message { content: String::from_str(line) };
    };
    let Some(bt) = bt_json.as_str() else {
        return SessionEventPayload::Message { content: String::from_str(line) };
    };
    if str_eq(bt, "thinking") {
        match block_str(b, "thinking") {
            Some(text) => SessionEventPayload::Thinking { content: text },
            None => SessionEventPayload::Message { content: String::from_str(line) },
        }
    } else if str_eq(bt, "text") {
        match block_str(b, "text") {
            Some(text) => SessionEventPayload::Message { content: text },
            None => SessionEventPayload::Message { content: String::from_str(line) },
        }
    } else if str_eq(bt, "tool_use") {
        match block_str(b, "name") {
            Some(name) => SessionEventPayload::ToolCall {
                call_id: block_str(b, "id"),
                tool_name: name,
                args: block_or_null(b, "input"),
            },
            None => SessionEventPayload::Message { content: String::from_str(line) },
        }
    } else if str_eq(bt, "tool_result") {
        SessionEventPayload::ToolResult {
            call_id: block_str(b, "tool_use_id"),
            tool_name: None,
            result: block_or_null(b, "content"),
        }
    } else {
        SessionEventPayload::Message { content: String::from_str(line) }
    }
}

/// Maps one line of standard output to its event payload.
pub fn parse_event_payload(line: &str) -> (r: SessionEventPayload)
    ensures
        r@ == spec_payload_for_line(line@),
{
    let Some(doc) = parse_json_line(line) else {
        return SessionEventPayload::Message { content: String::from_str(line) };
    };
    let t_owned = match doc.get("type") {
        Some(t_json) => match t_json.as_str() {
            Some(t) => String::from_str(t),
            None => {
                return SessionEventPayload::Message { content: String::from_str(line) };
            },
        },
        None => {
            return SessionEventPayload::Message { content: String::from_str(line) };
        },
    };
    let t = t_owned.as_str();
    if str_eq(t, "message") {
        match field_str(&doc, "content") {
            Some(c) => SessionEventPayload::Message { content: c },
            None => SessionEventPayload::Message { content: String::from_str(line) },
        }
    } else if str_eq(t, "thinking") {
        match field_str(&doc, "content") {
            Some(c) => SessionEventPayload::Thinking { content: c },
            None => SessionEventPayload::Message { content: String::from_str(line) },
        }
    } else if str_eq(t, "tool_call") {
        let name = match field_str(&doc, "tool_name") {
            Some(n) => Some(n),
            None => field_str(&doc, "name"),
        };
        match name {
            Some(n) => SessionEventPayload::ToolCall {
                call_id: field_str(&doc, "call_id"),
                tool_name: n,
                args: field_or_null(&doc, "args", "arguments"),
            },
            None => SessionEventPayload::Message { content: String::from_str(line) },
        }
    } else if str_eq(t, "tool_result") {
        SessionEventPayload::ToolResult {
            call_id: field_str(&doc, "call_id"),
            tool_name: field_str(&doc, "tool_name"),
            result: field_or_null(&doc, "result", "result"),
        }
    } else if str_eq(t, "status") {
        SessionEventPayload::Status {
            status: match field_str(&doc, "status") {
                Some(s) => s,
                None => String::from_str("unknown"),
            },
        }
    } else if str_eq(t, "error") {
        SessionEventPayload::Error {
            message: match field_str(&doc, "message") {
                Some(m) => m,
                None => String::from_str("unknown"),
            },
        }
    } else if str_eq(t, "assistant") || str_eq(t, "user") {
        let block = first_block(&doc);
        match block {
            Some(b) => payload_for_block(line, &b),
            None => SessionEventPayload::Message { content: String::from_str(line) },
        }
    } else if str_eq(t, "system") {
        SessionEventPayload::Status { status: String::from_str("running") }
    } else if str_eq(t, "result") {
        let is_error = match field_of(&doc, "is_error") {
            Some(v) => v.as_bool() == Some(true),
            None => false,
        };
        let subtype_error = match field_str(&doc, "subtype") {
            Some(s) => str_eq(s.as_str(), "error"),
            None => false,
        };
        if is_error || subtype_error {
            SessionEventPayload::Status { status: String::from_str("failed") }
        } else {
            SessionEventPayload::Status { status: String::from_str("completed") }
        }
    } else {
        SessionEventPayload::Message { content: String::from_str(line) }
    }
}

/// The first content block of an `assistant` or `user` document, copied out.
fn first_block(doc: &Json) -> (r: Option<Json>)
    ensures
        match r {
            Some(b) => spec_first_block(doc@) == Some(b@),
            None => spec_first_block(doc@) is None,
        },
{
    let Some(m) = field_of(doc, "message") else { return None };
    let Some(content) = m.get("content") else { return None };
    match content {
        Json::Arr(items) => {
            if items.len() > 0 {
                proof {
                    crate::json::lemma_json_views_index(items@);
                }
                Some(items[0].clone_value())
            } else {
                None
            }
        },
        _ => None,
    }
}

/// The identity members every outbound event document carries.
pub open spec fn spec_event_identity(e: crate::events::SessionEventV) -> Seq<
    (Seq<char>, JsonV),
> {
    seq![
        ("session_id"@, JsonV::Str(e.session_id)),
        ("seq"@, JsonV::Num(crate::text::spec_u64_digits(e.seq as nat))),
        ("timestamp"@, JsonV::Str(e.timestamp)),
    ]
}

/// An optional string member of an outbound event document.
pub open spec fn spec_opt_str_json(v: Option<Seq<char>>) -> JsonV {
    match v {
        Some(s) => JsonV::Str(s),
        None => JsonV::Null,
    }
}

/// The tagged document an event is sent out as: its type name beside a `data`
/// object of the identity members and the variant's own fields.
pub open spec fn spec_event_json(e: crate::events::SessionEventV) -> JsonV {
    let data = match e.payload {
        SessionEventPayloadV::Message { content } => spec_event_identity(e).push(
            ("content"@, JsonV::Str(content)),
        ).push(("complete"@, JsonV::Bool(true))),
        SessionEventPayloadV::Thinking { content } => spec_event_identity(e).push(
            ("content"@, JsonV::Str(content)),
        ),
        SessionEventPayloadV::ToolCall { call_id, tool_name, args } => spec_event_identity(e).push(
            ("call_id"@, spec_opt_str_json(call_id)),
        ).push(("tool_name"@, JsonV::Str(tool_name))).push(("args"@, args)),
        SessionEventPayloadV::ToolResult { call_id, tool_name, result } => spec_event_identity(
            e,
        ).push(("call_id"@, spec_opt_str_json(call_id))).push(
            ("tool_name"@, spec_opt_str_json(tool_name)),
        ).push(("result"@, result)),
        SessionEventPayloadV::Status { status } => spec_event_identity(e).push(
            ("status"@, JsonV::Str(status)),
        ),
        SessionEventPayloadV::Error { message } => spec_event_identity(e).push(
            ("error"@, JsonV::Str(message)),
        ),
    };
    let name = spec_event_type_name(e.payload);
    JsonV::Obj(seq![("type"@, JsonV::Str(name)), ("data"@, JsonV::Obj(data))])
}

/// The wire name of a payload variant.
pub open spec fn spec_event_type_name(p: SessionEventPayloadV) -> Seq<char> {
    match p {
        SessionEventPayloadV::Message { .. } => "message"@,
        SessionEventPayloadV::Thinking { .. } => "thinking"@,
        SessionEventPayloadV::ToolCall { .. } => "tool_call"@,
        SessionEventPayloadV::ToolResult { .. } => "tool_result"@,
        SessionEventPayloadV::Status { .. } => "status"@,
        SessionEventPayloadV::Error { .. } => "error"@,
    }
}

fn opt_str_json(v: &Option<String>) -> (r: Json)
    ensures
        r@ == spec_opt_str_json(v.deep_view()),
{
    match v {
        Some(s) => Json::Str(s.clone()),
        None => Json::Null,
    }
}

/// Builds the tagged document an event is sent out as.
pub fn event_to_json(event: &SessionEvent) -> (r: Json)
    ensures
        r@ == spec_event_json(event@),
{
    let mut data: Vec<(String, Json)> = Vec::new();
    data.push((String::from_str("session_id"), Json::Str(event.session_id.clone())));
    let mut seq_text = String::new();
    crate::text::push_u64_decimal(&mut seq_text, event.seq);
    data.push((String::from_str("seq"), Json::Num(seq_text)));
    data.push((String::from_str("timestamp"), Json::Str(event.timestamp.clone())));
    let wire_name: &str = match &event.payload {
        SessionEventPayload::Message { content } => {
            data.push((String::from_str("content"), Json::Str(content.clone())));
            data.push((String::from_str("complete"), Json::Bool(true)));
            "message"
        },
        SessionEventPayload::Thinking { content } => {
            data.push((String::from_str("content"), Json::Str(content.clone())));
            "thinking"
        },
        SessionEventPayload::ToolCall { call_id, tool_name, args } => {
            data.push((String::from_str("call_id"), opt_str_json(call_id)));
            data.push((String::from_str("tool_name"), Json::Str(tool_name.clone())));
            data.push((String::from_str("args"), args.clone_value()));
            "tool_call"
        },
        SessionEventPayload::ToolResult { call_id, tool_name, result } => {
            data.push((String::from_str("call_id"), opt_str_json(call_id)));
            data.push((String::from_str("tool_name"), opt_str_json(tool_name)));
            data.push((String::from_str("result"), result.clone_value()));
            "tool_result"
        },
        SessionEventPayload::Status { status } => {
            data.push((String::from_str("status"), Json::Str(status.clone())));
            "status"
        },
        SessionEventPayload::Error { message } => {
            data.push((String::from_str("error"), Json::Str(message.clone())));
            "error"
        },
    };
    proof {
        crate::json::lemma_json_view_fields_index(data@);
    }
    let mut top: Vec<(String, Json)> = Vec::new();
    top.push((String::from_str("type"), Json::Str(String::from_str(wire_name))));
    top.push((String::from_str("data"), Json::Obj(data)));
    let r = Json::Obj(top);
    proof {
        crate::json::lemma_json_view_fields_index(top@);
        let e = event@;
        let expected = spec_event_json(e);
        match e.payload {
            SessionEventPayloadV::Message { .. } => {},
            SessionEventPayloadV::Thinking { .. } => {},
            SessionEventPayloadV::ToolCall { .. } => {},
            SessionEventPayloadV::ToolResult { .. } => {},
            SessionEventPayloadV::Status { .. } => {},
            SessionEventPayloadV::Error { .. } => {},
        }
        assert(r@ == expected) by {
            assert(expected matches JsonV::Obj(fields) && crate::json::json_view_fields(top@)
                =~= fields) by {
                let inner = match e.payload {
                    SessionEventPayloadV::Message { content } => spec_event_identity(e).push(
                        ("content"@, JsonV::Str(content)),
                    ).push(("complete"@, JsonV::Bool(true))),
                    SessionEventPayloadV::Thinking { content } => spec_event_identity(e).push(
                        ("content"@, JsonV::Str(content)),
                    ),
                    SessionEventPayloadV::ToolCall { call_id, tool_name, args } => (
                    spec_event_identity(e).push(("call_id"@, spec_opt_str_json(call_id))).push(
                        ("tool_name"@, JsonV::Str(tool_name)),
                    ).push(("args"@, args))),
                    SessionEventPayloadV::ToolResult { call_id, tool_name, result } => (
                    spec_event_identity(e).push(("call_id"@, spec_opt_str_json(call_id))).push(
                        ("tool_name"@, spec_opt_str_json(tool_name)),
                    ).push(("result"@, result))),
                    SessionEventPayloadV::Status { status } => spec_event_identity(e).push(
                        ("status"@, JsonV::Str(status)),
                    ),
                    SessionEventPayloadV::Error { message } => spec_event_identity(e).push(
                        ("error"@, JsonV::Str(message)),
                    ),
                };
                assert(crate::json::json_view_fields(data@) =~= inner);
            }
        }
    }
    r
}

/// Parses one line of child standard output into one typed, sequenced event.
pub fn parse_output_line(session_id: &str, seq: u64, timestamp: &str, line: &str) -> (r:
    SessionEvent)
    ensures
        r@.session_id == session_id@,
        r@.seq == seq,
        r@.timestamp == timestamp@,
        r@.payload == spec_payload_for_line(line@),
{
    SessionEvent {
        session_id: String::from_str(session_id),
        seq: seq,
        timestamp: String::from_str(timestamp),
        payload: parse_event_payload(line),
    }
}

} // verus!

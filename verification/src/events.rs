//! The typed event stream of a session: the six event payloads, the sequenced
//! event record, and the bounded-channel publisher with its overflow-notice
//! discipline.

use vstd::prelude::*;
use vstd::string::*;

use crate::json::{Json, JsonV};

verus! {

/// One typed event parsed from a line of child output.
pub enum SessionEventPayload {
    Message { content: String },
    Thinking { content: String },
    ToolCall { call_id: Option<String>, tool_name: String, args: Json },
    ToolResult { call_id: Option<String>, tool_name: Option<String>, result: Json },
    Status { status: String },
    Error { message: String },
}

/// The mathematical value of a payload.
pub enum SessionEventPayloadV {
    Message { content: Seq<char> },
    Thinking { content: Seq<char> },
    ToolCall { call_id: Option<Seq<char>>, tool_name: Seq<char>, args: JsonV },
    ToolResult { call_id: Option<Seq<char>>, tool_name: Option<Seq<char>>, result: JsonV },
    Status { status: Seq<char> },
    Error { message: Seq<char> },
}

impl View for SessionEventPayload {
    type V = SessionEventPayloadV;

    open spec fn view(&self) -> SessionEventPayloadV {
        match self {
            SessionEventPayload::Message { content } => SessionEventPayloadV::Message {
                content: content@,
            },
            SessionEventPayload::Thinking { content } => SessionEventPayloadV::Thinking {
                content: content@,
            },
            SessionEventPayload::ToolCall { call_id, tool_name, args } => (
            SessionEventPayloadV::ToolCall {
                call_id: call_id.deep_view(),
                tool_name: tool_name@,
                args: args@,
            }),
            SessionEventPayload::ToolResult { call_id, tool_name, result } => (
            SessionEventPayloadV::ToolResult {
                call_id: call_id.deep_view(),
                tool_name: tool_name.deep_view(),
                result: result@,
            }),
            SessionEventPayload::Status { status } => SessionEventPayloadV::Status {
                status: status@,
            },
            SessionEventPayload::Error { message } => SessionEventPayloadV::Error {
                message: message@,
            },
        }
    }
}

/// One event on a session's stream, carrying its monotonic sequence number.
pub struct SessionEvent {
    pub session_id: String,
    pub seq: u64,
    pub timestamp: String,
    pub payload: SessionEventPayload,
}

/// The mathematical value of a stream event.
pub struct SessionEventV {
    pub session_id: Seq<char>,
    pub seq: u64,
    pub timestamp: Seq<char>,
    pub payload: SessionEventPayloadV,
}

impl View for SessionEvent {
    type V = SessionEventV;

    open spec fn view(&self) -> SessionEventV {
        SessionEventV {
            session_id: self.session_id@,
            seq: self.seq,
            timestamp: self.timestamp@,
            payload: self.payload@,
        }
    }
}

#[verifier::external_type_specification]
#[verifier::external_body]
#[verifier::reject_recursive_types(T)]
pub struct ExSender<T>(tokio::sync::mpsc::Sender<T>);

/// What one `try_send` on the bounded channel did.
pub enum SendOutcome {
    /// The event was enqueued.
    Sent,
    /// The channel was at capacity; the event was dropped.
    Full,
    /// The receiver is gone; the event was dropped.
    Closed,
}

/// Relies on `tokio::sync::mpsc::Sender::try_send`: the message is enqueued
/// on `Ok`; a `Full` or `Closed` error hands the message back unsent. Which
/// outcome occurs depends on the receiver, so nothing is promised of it.
#[verifier::external_body]
fn channel_try_send(
    sender: &tokio::sync::mpsc::Sender<SessionEvent>,
    event: SessionEvent,
) -> (r: SendOutcome) {
    match sender.try_send(event) {
        Ok(()) => SendOutcome::Sent,
        Err(tokio::sync::mpsc::error::TrySendError::Full(_)) => SendOutcome::Full,
        Err(tokio::sync::mpsc::error::TrySendError::Closed(_)) => SendOutcome::Closed,
    }
}

/// The overflow-notice discipline on one send outcome: a successful send
/// arms the notice again; a full channel produces a notice only if none is
/// pending, so a burst of drops yields at most one notice.
pub open spec fn spec_overflow_step(reported: bool, outcome: SendOutcome) -> (bool, bool) {
    match outcome {
        SendOutcome::Sent => (false, false),
        SendOutcome::Closed => (reported, false),
        SendOutcome::Full => (true, !reported),
    }
}

/// The number of overflow notices produced by a run of send outcomes.
pub open spec fn spec_notice_count(reported: bool, outcomes: Seq<SendOutcome>) -> nat
    decreases outcomes.len(),
{
    if outcomes.len() == 0 {
        0
    } else {
        let (reported2, notice) = spec_overflow_step(reported, outcomes[0]);
        (if notice {
            1nat
        } else {
            0nat
        }) + spec_notice_count(reported2, outcomes.drop_first())
    }
}

/// Overflow-notice bound: a contiguous burst of overflowing sends produces at
/// most one notice, and none at all when a notice is already pending.
pub proof fn lemma_overflow_notice_bound(reported: bool, outcomes: Seq<SendOutcome>)
    requires
        forall|i: int| 0 <= i < outcomes.len() ==> (#[trigger] outcomes[i]) is Full,
    ensures
        spec_notice_count(reported, outcomes) <= 1,
        reported ==> spec_notice_count(reported, outcomes) == 0,
    decreases outcomes.len(),
{
    if outcomes.len() > 0 {
        assert(outcomes[0] is Full);
        assert(forall|i: int|
            0 <= i < outcomes.drop_first().len() ==> (#[trigger] outcomes.drop_first()[i])
                == outcomes[i + 1]);
        lemma_overflow_notice_bound(true, outcomes.drop_first());
    }
}

/// The sequenced publisher of one session's events: a bounded channel, the
/// session's monotonic sequence counter, and the overflow-reported flag.
pub struct SessionEventStream {
    session_id: String,
    sender: tokio::sync::mpsc::Sender<SessionEvent>,
    next_seq: u64,
    overflow_reported: bool,
}

/// The mathematical value of a stream: its session, the next sequence number,
/// and whether an overflow notice is pending.
pub struct SessionEventStreamV {
    pub session_id: Seq<char>,
    pub next_seq: u64,
    pub overflow_reported: bool,
}

impl View for SessionEventStream {
    type V = SessionEventStreamV;

    closed spec fn view(&self) -> SessionEventStreamV {
        SessionEventStreamV {
            session_id: self.session_id@,
            next_seq: self.next_seq,
            overflow_reported: self.overflow_reported,
        }
    }
}

impl SessionEventStream {
    /// A publisher whose first event will carry sequence number 1.
    pub fn new(session_id: String, sender: tokio::sync::mpsc::Sender<SessionEvent>) -> (r:
        SessionEventStream)
        ensures
            r@.session_id == session_id@,
            r@.next_seq == 1,
            !r@.overflow_reported,
    {
        SessionEventStream { session_id, sender, next_seq: 1, overflow_reported: false }
    }

    /// The sequence number the next event will carry.
    pub fn next_seq(&self) -> (r: u64)
        ensures
            r == self@.next_seq,
    {
        self.next_seq
    }

    /// Whether an overflow notice is pending.
    pub fn overflow_reported(&self) -> (r: bool)
        ensures
            r == self@.overflow_reported,
    {
        self.overflow_reported
    }

    /// Publishes one event under the next sequence number. The sequence
    /// strictly increases on every call. On a full channel, exactly one
    /// synthetic overflow-notice `Error` event (consuming one more sequence
    /// number) is attempted per burst of drops; the notice is re-armed by the
    /// next successful send.
    pub fn publish(&mut self, payload: SessionEventPayload, timestamp: &str) -> (r: SendOutcome)
        requires
            old(self)@.next_seq + 2 <= u64::MAX,
        ensures
            final(self)@.session_id == old(self)@.session_id,
            final(self)@.next_seq > old(self)@.next_seq,
            final(self)@.overflow_reported == spec_overflow_step(
                old(self)@.overflow_reported,
                r,
            ).0,
            final(self)@.next_seq == (if r is Full && !old(self)@.overflow_reported {
                old(self)@.next_seq + 2
            } else {
                old(self)@.next_seq + 1
            }),
    {
        let event = SessionEvent {
            session_id: self.session_id.clone(),
            seq: self.next_seq,
            timestamp: String::from_str(timestamp),
            payload: payload,
        };
        self.next_seq = self.next_seq + 1;
        let outcome = channel_try_send(&self.sender, event);
        match outcome {
            SendOutcome::Sent => {
                self.overflow_reported = false;
            },
            SendOutcome::Closed => {},
            SendOutcome::Full => {
                if !self.overflow_reported {
                    self.overflow_reported = true;
                    let notice = SessionEvent {
                        session_id: self.session_id.clone(),
                        seq: self.next_seq,
                        timestamp: String::from_str(timestamp),
                        payload: SessionEventPayload::Error {
                            message: String::from_str(
                                "event channel overflow: dropped session output",
                            ),
                        },
                    };
                    self.next_seq = self.next_seq + 1;
                    let _ = channel_try_send(&self.sender, notice);
                }
            },
        }
        outcome
    }
}

} // verus!

//! What a gRPC server does, message by message, while it relays a handler's
//! response stream: send each message as a frame, stop quietly when the
//! client has gone, and end the stream with the handler's error or an OK
//! status. The caller awaits the handler and the connection and reports each
//! happening; these functions say what to do next.

use vstd::prelude::*;

use super::framing::{encode_frame, spec_frame};
use crate::common::text::{str_contains, text_contains};

verus! {

/// Where the stream is relayed from; the three paths treat failures
/// differently.
#[derive(Debug, Clone, Copy, PartialEq, Eq, Structural)]
pub enum StreamPolicy {
    /// A task taken from the worker queue: only an `inactive stream` send
    /// failure means the client has gone; any other send failure, and a
    /// message that cannot be encoded, fail the task; a handler error is sent
    /// and then an OK status still follows.
    Queued,
    /// A server-streaming handler: a closed connection stops quietly; any
    /// other send failure, and a message that cannot be encoded, end the
    /// stream with an OK status; a handler error is sent and ends the stream.
    ServerStream,
    /// A bidirectional handler: a closed connection stops quietly; any other
    /// send failure, and a message that cannot be encoded, fail the request;
    /// a handler error is sent and then an OK status follows.
    Bidirectional,
}

/// What happened since the last decision.
pub enum StreamEvent {
    /// The handler produced a message, here already serialized.
    Message(Vec<u8>),
    /// The handler produced a message that could not be serialized (the
    /// codec's error text).
    EncodeFailed(String),
    /// The handler's stream produced an error.
    HandlerError,
    /// Sending the last frame failed (the error's text).
    SendFailed(String),
    /// The handler's stream ended.
    End,
}

/// What to do next.
pub enum StreamDecision {
    /// Send this frame, then report what happens next.
    SendFrame(Vec<u8>),
    /// The stream is over: send the handler's error in the trailers if
    /// `send_error`, then an OK status if `send_ok_status`.
    Finish { send_error: bool, send_ok_status: bool },
    /// The request fails with this text.
    Fail(String),
}

/// A send failure's text says that the client has gone, as the streaming
/// handlers read it.
pub open spec fn client_gone(t: Seq<char>) -> bool {
    ||| text_contains(t, "inactive stream"@)
    ||| text_contains(t, "closed"@)
    ||| text_contains(t, "broken pipe"@)
    ||| text_contains(t, "connection reset"@)
}

/// A send failure's text says that the stream is no longer active, as the
/// worker queue reads it.
pub open spec fn stream_inactive(t: Seq<char>) -> bool {
    text_contains(t, "inactive stream"@)
}

/// Whether a send failure's text says that the client has gone.
pub fn is_client_gone(t: &str) -> (r: bool)
    ensures
        r == client_gone(t@),
{
    str_contains(t, "inactive stream") || str_contains(t, "closed") || str_contains(t, "broken pipe")
        || str_contains(t, "connection reset")
}

/// Whether a send failure's text says that the stream is no longer active.
pub fn is_stream_inactive(t: &str) -> (r: bool)
    ensures
        r == stream_inactive(t@),
{
    str_contains(t, "inactive stream")
}

/// The decision, stated as a finish (error trailers, OK status) when the
/// stream ends quietly.
pub open spec fn finishes(d: StreamDecision, send_error: bool, send_ok_status: bool) -> bool {
    d == StreamDecision::Finish { send_error, send_ok_status }
}

/// Decides the next step of relaying a response stream under `policy`.
pub fn next_stream_step(policy: StreamPolicy, event: StreamEvent) -> (r: StreamDecision)
    ensures
        match event {
            StreamEvent::Message(m) => r matches StreamDecision::SendFrame(f) && f@ == spec_frame(m@),
            StreamEvent::EncodeFailed(e) => match policy {
                StreamPolicy::ServerStream => finishes(r, false, true),
                _ => r matches StreamDecision::Fail(t) && t@ == e@,
            },
            StreamEvent::HandlerError => match policy {
                StreamPolicy::ServerStream => finishes(r, true, false),
                _ => finishes(r, true, true),
            },
            StreamEvent::SendFailed(e) => match policy {
                StreamPolicy::Queued => if stream_inactive(e@) {
                    finishes(r, false, true)
                } else {
                    r matches StreamDecision::Fail(t) && t@ == e@
                },
                StreamPolicy::ServerStream => if client_gone(e@) {
                    finishes(r, false, false)
                } else {
                    finishes(r, false, true)
                },
                StreamPolicy::Bidirectional => if client_gone(e@) {
                    finishes(r, false, false)
                } else {
                    r matches StreamDecision::Fail(t) && t@ == e@
                },
            },
            StreamEvent::End => finishes(r, false, true),
        },
{
    match event {
        StreamEvent::Message(m) => StreamDecision::SendFrame(encode_frame(m.as_slice())),
        StreamEvent::EncodeFailed(e) => match policy {
            StreamPolicy::ServerStream => StreamDecision::Finish { send_error: false, send_ok_status: true },
            _ => StreamDecision::Fail(e),
        },
        StreamEvent::HandlerError => match policy {
            StreamPolicy::ServerStream => StreamDecision::Finish { send_error: true, send_ok_status: false },
            _ => StreamDecision::Finish { send_error: true, send_ok_status: true },
        },
        StreamEvent::SendFailed(e) => match policy {
            StreamPolicy::Queued => {
                if is_stream_inactive(e.as_str()) {
                    StreamDecision::Finish { send_error: false, send_ok_status: true }
                } else {
                    StreamDecision::Fail(e)
                }
            },
            StreamPolicy::ServerStream => {
                if is_client_gone(e.as_str()) {
                    StreamDecision::Finish { send_error: false, send_ok_status: false }
                } else {
                    StreamDecision::Finish { send_error: false, send_ok_status: true }
                }
            },
            StreamPolicy::Bidirectional => {
                if is_client_gone(e.as_str()) {
                    StreamDecision::Finish { send_error: false, send_ok_status: false }
                } else {
                    StreamDecision::Fail(e)
                }
            },
        },
        StreamEvent::End => StreamDecision::Finish { send_error: false, send_ok_status: true },
    }
}

/// What the worker queue reads as an inactive stream, the streaming handlers
/// also read as a gone client.
pub proof fn lemma_inactive_stream_is_client_gone(e: Seq<char>)
    requires
        stream_inactive(e),
    ensures
        client_gone(e),
{
}

} // verus!

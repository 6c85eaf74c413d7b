//! The life of one client connection.
//!
//! The head of the first request is read in the raw. Where it asks for a
//! WebSocket upgrade the connection is handed over to that; else the head is
//! put back and requests are served one after the other until the client
//! closes.

use vstd::prelude::*;

use crate::pipeline::websocket;

verus! {

/// A connection around a stream.
pub struct ProxyConnection<S> {
    pub stream: S,
}

/// Where a connection stands: what it waits for.
#[derive(Debug, Clone, Copy, PartialEq, Eq, Structural)]
pub enum SessionState {
    /// For the head of the first request.
    Opening,
    /// For a request.
    Listening,
    /// For the response to a request.
    Handling,
    /// For the response to be sent.
    Responding,
    /// For nothing: the connection is closed or handed over.
    Finished,
}

/// What has come of the last action.
pub enum SessionEvent {
    /// The raw head of the first request, or none if it could not be read.
    Head(Option<Vec<u8>>),
    /// A request came in.
    Request,
    /// What came in is no request.
    Malformed,
    /// The client closed the connection.
    Closed,
    /// The response is there.
    Handled,
    /// Whether the response was sent.
    Sent(bool),
}

/// What to do next.
pub enum SessionAction {
    /// Hand the connection over as a WebSocket upgrade.
    Upgrade(Vec<u8>),
    /// Put these bytes back in front of the stream and read a request.
    Serve(Vec<u8>),
    /// Read the next request.
    ReadRequest,
    /// Pass the request down the pipeline.
    Handle,
    /// Send the response.
    Send,
    /// Close: all is done.
    Close,
    /// Give up with the error that reading the head came with.
    FailReading,
    /// Give up: invalid data.
    FailInvalid,
    /// Give up: broken pipe.
    FailBroken,
}

/// What an event leads to: the next state and what to do. An event that the
/// state does not wait for is invalid data.
pub open spec fn session_step(state: SessionState, event: SessionEvent) -> (
    SessionState,
    SessionAction,
) {
    match (state, event) {
        (SessionState::Opening, SessionEvent::Head(Some(raw))) => {
            if websocket::raw_upgrade(raw@) {
                (SessionState::Finished, SessionAction::Upgrade(raw))
            } else {
                (SessionState::Listening, SessionAction::Serve(raw))
            }
        },
        (SessionState::Opening, SessionEvent::Head(None)) => (
            SessionState::Finished,
            SessionAction::FailReading,
        ),
        (SessionState::Listening, SessionEvent::Request) => (
            SessionState::Handling,
            SessionAction::Handle,
        ),
        (SessionState::Listening, SessionEvent::Closed) => (
            SessionState::Finished,
            SessionAction::Close,
        ),
        (SessionState::Handling, SessionEvent::Handled) => (
            SessionState::Responding,
            SessionAction::Send,
        ),
        (SessionState::Responding, SessionEvent::Sent(true)) => (
            SessionState::Listening,
            SessionAction::ReadRequest,
        ),
        (SessionState::Responding, SessionEvent::Sent(false)) => (
            SessionState::Finished,
            SessionAction::FailBroken,
        ),
        _ => (SessionState::Finished, SessionAction::FailInvalid),
    }
}

/// The next state of a connection, and what to do.
pub fn step_session(state: SessionState, event: SessionEvent) -> (r: (SessionState, SessionAction))
    ensures
        r == session_step(state, event),
{
    match (state, event) {
        (SessionState::Opening, SessionEvent::Head(Some(raw))) => {
            if websocket::is_raw_websocket_upgrade(raw.as_slice()) {
                (SessionState::Finished, SessionAction::Upgrade(raw))
            } else {
                (SessionState::Listening, SessionAction::Serve(raw))
            }
        },
        (SessionState::Opening, SessionEvent::Head(None)) => (
            SessionState::Finished,
            SessionAction::FailReading,
        ),
        (SessionState::Listening, SessionEvent::Request) => (
            SessionState::Handling,
            SessionAction::Handle,
        ),
        (SessionState::Listening, SessionEvent::Closed) => (
            SessionState::Finished,
            SessionAction::Close,
        ),
        (SessionState::Handling, SessionEvent::Handled) => (
            SessionState::Responding,
            SessionAction::Send,
        ),
        (SessionState::Responding, SessionEvent::Sent(true)) => (
            SessionState::Listening,
            SessionAction::ReadRequest,
        ),
        (SessionState::Responding, SessionEvent::Sent(false)) => (
            SessionState::Finished,
            SessionAction::FailBroken,
        ),
        _ => (SessionState::Finished, SessionAction::FailInvalid),
    }
}

/// Only the first request of a connection can become an upgrade.
pub proof fn law_only_the_first_request_upgrades(state: SessionState, event: SessionEvent)
    requires
        session_step(state, event).1 is Upgrade,
    ensures
        state == SessionState::Opening,
        session_step(state, event).1->Upgrade_0@ == (event->Head_0->0)@,
        websocket::raw_upgrade((event->Head_0->0)@),
{
}

/// Every request that comes in is answered before the next is read.
pub proof fn law_requests_are_answered_in_turn(state: SessionState, event: SessionEvent)
    requires
        session_step(state, event).1 is ReadRequest,
    ensures
        state == SessionState::Responding,
        event == SessionEvent::Sent(true),
{
}

/// The first head of a connection becomes an upgrade where, and only where, it
/// asks for one; any other is put back to be read as a request, byte for byte.
pub proof fn law_the_first_head_decides(raw: Vec<u8>)
    ensures
        ({
            let (next, action) = session_step(SessionState::Opening, SessionEvent::Head(Some(raw)));
            &&& websocket::raw_upgrade(raw@) ==> action == SessionAction::Upgrade(raw) && next
                == SessionState::Finished
            &&& !websocket::raw_upgrade(raw@) ==> action == SessionAction::Serve(raw) && next
                == SessionState::Listening
        }),
{
}

/// A connection serves request after request: each is handled, its response
/// sent, and the next one read, until the client closes. A head that cannot be
/// read, a request that is none and a response that cannot be sent end it, each
/// with its own error.
pub proof fn law_connections_serve_until_closed()
    ensures
        session_step(SessionState::Listening, SessionEvent::Request) == (
            SessionState::Handling,
            SessionAction::Handle,
        ),
        session_step(SessionState::Handling, SessionEvent::Handled) == (
            SessionState::Responding,
            SessionAction::Send,
        ),
        session_step(SessionState::Responding, SessionEvent::Sent(true)) == (
            SessionState::Listening,
            SessionAction::ReadRequest,
        ),
        session_step(SessionState::Listening, SessionEvent::Closed) == (
            SessionState::Finished,
            SessionAction::Close,
        ),
        session_step(SessionState::Opening, SessionEvent::Head(None)) == (
            SessionState::Finished,
            SessionAction::FailReading,
        ),
        session_step(SessionState::Listening, SessionEvent::Malformed) == (
            SessionState::Finished,
            SessionAction::FailInvalid,
        ),
        session_step(SessionState::Responding, SessionEvent::Sent(false)) == (
            SessionState::Finished,
            SessionAction::FailBroken,
        ),
{
}

} // verus!

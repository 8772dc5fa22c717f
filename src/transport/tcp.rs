//! The lifecycle of a stream session.
use vstd::prelude::*;

use crate::codec::message::Message;

verus! {

/// The states of a stream session; each transition moves forward only.
#[derive(Debug, Copy, Clone, PartialEq, Eq, Structural)]
pub enum SessionState {
    Starting,
    Running,
    Stopping,
    Terminal,
}

impl SessionState {
    /// The position of a state in the lifecycle.
    pub open spec fn rank(self) -> int {
        match self {
            SessionState::Starting => 0,
            SessionState::Running => 1,
            SessionState::Stopping => 2,
            SessionState::Terminal => 3,
        }
    }
}

/// What happens to a stream session.
pub enum SessionEvent {
    /// The socket is split and framed, and the session is set up.
    Constructed,
    /// A frame was decoded from the socket.
    Frame(Message),
    /// The coordinator asked the session to stop.
    Stop,
    /// The peer closed its side.
    ReaderEof,
    /// A frame could not be decoded.
    DecodeError,
    /// The socket failed.
    IoError,
    /// The writer has been closed.
    WriterClosed,
}

/// What a stream session does on an event.
pub enum SessionAction {
    /// Report the session as connected.
    EmitConnected,
    /// Pass a received envelope on.
    EmitReceived(Message),
    /// Close the writer and stop reading.
    Close,
    /// Report the session as disconnected.
    EmitDisconnected,
    Nothing,
}

/// The next state of a stream session, and what it does, on an event.
pub open spec fn session_next(state: SessionState, event: SessionEvent) -> (
    SessionState,
    SessionAction,
) {
    match (state, event) {
        (SessionState::Starting, SessionEvent::Constructed) => (
            SessionState::Running,
            SessionAction::EmitConnected,
        ),
        (SessionState::Running, SessionEvent::Frame(m)) => (
            SessionState::Running,
            SessionAction::EmitReceived(m),
        ),
        (SessionState::Running, SessionEvent::Stop) => (SessionState::Stopping, SessionAction::Close),
        (SessionState::Running, SessionEvent::ReaderEof) => (
            SessionState::Stopping,
            SessionAction::Close,
        ),
        (SessionState::Running, SessionEvent::DecodeError) => (
            SessionState::Stopping,
            SessionAction::Close,
        ),
        (SessionState::Running, SessionEvent::IoError) => (
            SessionState::Stopping,
            SessionAction::Close,
        ),
        (SessionState::Stopping, SessionEvent::WriterClosed) => (
            SessionState::Terminal,
            SessionAction::EmitDisconnected,
        ),
        _ => (state, SessionAction::Nothing),
    }
}

/// The next state of a stream session, and what it does, on an event.
pub fn session_step(state: SessionState, event: SessionEvent) -> (r: (SessionState, SessionAction))
    ensures
        r == session_next(state, event),
        r.0.rank() >= state.rank(),
{
    match (state, event) {
        (SessionState::Starting, SessionEvent::Constructed) => (
            SessionState::Running,
            SessionAction::EmitConnected,
        ),
        (SessionState::Running, SessionEvent::Frame(m)) => (
            SessionState::Running,
            SessionAction::EmitReceived(m),
        ),
        (SessionState::Running, SessionEvent::Stop) => (SessionState::Stopping, SessionAction::Close),
        (SessionState::Running, SessionEvent::ReaderEof) => (
            SessionState::Stopping,
            SessionAction::Close,
        ),
        (SessionState::Running, SessionEvent::DecodeError) => (
            SessionState::Stopping,
            SessionAction::Close,
        ),
        (SessionState::Running, SessionEvent::IoError) => (
            SessionState::Stopping,
            SessionAction::Close,
        ),
        (SessionState::Stopping, SessionEvent::WriterClosed) => (
            SessionState::Terminal,
            SessionAction::EmitDisconnected,
        ),
        (s, _) => (s, SessionAction::Nothing),
    }
}

/// Whether a stream session accepts an envelope to write: only while it is
/// running and its writer is open; otherwise the envelope is dropped.
pub fn accepts_write(state: SessionState, writer_closed: bool) -> (r: bool)
    ensures
        r == (state == SessionState::Running && !writer_closed),
{
    state == SessionState::Running && !writer_closed
}

} // verus!

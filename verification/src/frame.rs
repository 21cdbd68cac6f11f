//! The frames of a socket: what a room does about each, and how they are passed on.
use crate::text::{opt_text, pieces, split, texts};
use vstd::prelude::*;

verus! {

/// Why a socket is closed.
#[derive(Debug)]
pub struct CloseReason {
    pub code: u16,
    pub reason: String,
}

/// A frame of a socket.
#[derive(Debug)]
pub enum Frame {
    Text(String),
    Binary(Vec<u8>),
    Ping(Vec<u8>),
    Pong(Vec<u8>),
    Close(Option<CloseReason>),
    /// A frame that was not put together.
    Raw,
}

/// What happens at a socket.
#[derive(Debug)]
pub enum SocketEvent {
    /// A frame has come.
    Received(Frame),
    /// A frame could not be received.
    Broken,
    /// No more frames will come.
    Ended,
    /// For a while nothing has happened.
    Idle,
    /// The room has ended.
    RoomExit,
}

/// What is done at a socket.
#[derive(Debug)]
pub enum SocketAction {
    /// Carries out the message that a text holds.
    Process(String),
    /// Answers a ping.
    Pong(Vec<u8>),
    /// Sends a ping.
    Ping(Vec<u8>),
    /// Sends a text.
    Send(String),
    /// Reports that a frame could not be received.
    Report,
    /// Nothing.
    Idle,
}

/// How it goes on at a socket.
#[derive(Clone, Copy, Debug, PartialEq, Eq, Structural)]
pub enum Flow {
    /// With the next event.
    Resume,
    /// With the next event, once those who watch the room were told that it may have changed.
    Announce,
    /// Not at all.
    Leave,
}

/// What both protocols do about an event, and how they go on. `keepalive` is what is done when
/// for a while nothing has happened.
pub open spec fn socket_step(event: SocketEvent, keepalive: SocketAction) -> (SocketAction, Flow) {
    match event {
        SocketEvent::Received(Frame::Text(text)) => (SocketAction::Process(text), Flow::Announce),
        SocketEvent::Received(Frame::Close(_)) => (SocketAction::Idle, Flow::Leave),
        SocketEvent::Received(Frame::Ping(data)) => (SocketAction::Pong(data), Flow::Resume),
        SocketEvent::Received(_) => (SocketAction::Idle, Flow::Resume),
        SocketEvent::Broken => (SocketAction::Report, Flow::Announce),
        SocketEvent::Ended => (SocketAction::Idle, Flow::Leave),
        SocketEvent::Idle => (keepalive, Flow::Announce),
        SocketEvent::RoomExit => (SocketAction::Idle, Flow::Leave),
    }
}

/// Decides what is done about an event.
pub fn step(event: SocketEvent, keepalive: SocketAction) -> (r: (SocketAction, Flow))
    ensures
        r == socket_step(event, keepalive),
{
    match event {
        SocketEvent::Received(frame) => match frame {
            Frame::Text(text) => (SocketAction::Process(text), Flow::Announce),
            Frame::Close(_) => (SocketAction::Idle, Flow::Leave),
            Frame::Ping(data) => (SocketAction::Pong(data), Flow::Resume),
            _ => (SocketAction::Idle, Flow::Resume),
        },
        SocketEvent::Broken => (SocketAction::Report, Flow::Announce),
        SocketEvent::Ended => (SocketAction::Idle, Flow::Leave),
        SocketEvent::Idle => (keepalive, Flow::Announce),
        SocketEvent::RoomExit => (SocketAction::Idle, Flow::Leave),
    }
}

/// Why a frame is not passed on.
#[derive(Clone, Copy, Debug, PartialEq, Eq, Structural)]
pub enum RelayError {
    /// It was not put together.
    RawFrame,
}

/// The frame that is passed on for a frame that has come.
pub open spec fn relayed(frame: Frame) -> Result<Frame, RelayError> {
    if frame is Raw {
        Err(RelayError::RawFrame)
    } else {
        Ok(frame)
    }
}

/// The frame that is passed on for a frame that has come: the same, unless it was not put
/// together.
pub fn relay(frame: Frame) -> (r: Result<Frame, RelayError>)
    ensures
        r == relayed(frame),
{
    match frame {
        Frame::Raw => Err(RelayError::RawFrame),
        other => Ok(other),
    }
}

/// What stands before the first `:::` of a text, and what stands between it and the next, or up
/// to the end, where there is a first one.
pub open spec fn log_parts(text: Seq<char>) -> (Seq<char>, Option<Seq<char>>) {
    let parts = split(text, ":::"@);
    (
        parts[0],
        if parts.len() > 1 {
            Some(parts[1])
        } else {
            None
        },
    )
}

/// The opcode and the message under which a text that is passed on is logged.
pub fn logged(text: &str) -> (r: (String, Option<String>))
    ensures
        r.0@ == log_parts(text@).0,
        opt_text(r.1) == log_parts(text@).1,
{
    proof {
        reveal_strlit(":::");
    }
    let parts = pieces(text, ":::");
    proof {
        assert(split(text@, ":::"@).len() > 0);
    }
    assert(texts(parts@)[0] == parts@[0]@);
    let message: Option<String> = if parts.len() > 1 {
        assert(texts(parts@)[1] == parts@[1]@);
        Some(parts[1].clone())
    } else {
        None
    };
    (parts[0].clone(), message)
}

} // verus!

use vstd::prelude::*;

use crate::error::{Error, ProtocolError};

verus! {

/// A WebSocket frame as the transport received it.
#[derive(Debug)]
pub enum Frame {
    Text(String),
    Binary(Vec<u8>),
    Ping,
    Pong,
    Close,
}

/// What to do with a received frame.
#[derive(Debug)]
pub enum FrameAction {
    /// Decode the text as a JSON array of server messages.
    Decode(String),
    /// Report this recoverable error and go on.
    Reject(Error),
    /// Nothing: the transport answers control frames itself.
    Ignore,
}

/// Only text frames carry messages; a binary frame is a recoverable protocol
/// error, and control frames are ignored.
pub fn classify_frame(frame: Frame) -> (r: FrameAction)
    ensures
        match frame {
            Frame::Text(t) => r == FrameAction::Decode(t),
            Frame::Binary(b) => r == FrameAction::Reject(Error::ProtocolError(ProtocolError::BinaryMessage(b))),
            _ => r == FrameAction::Ignore,
        },
{
    match frame {
        Frame::Text(t) => FrameAction::Decode(t),
        Frame::Binary(b) => FrameAction::Reject(Error::ProtocolError(ProtocolError::BinaryMessage(b))),
        _ => FrameAction::Ignore,
    }
}

} // verus!

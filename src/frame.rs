//! What a frame is: its type, and what can go wrong while receiving it.
use vstd::prelude::*;

use crate::constants::{CONFIGURATION, DIAGNOSTIC};

verus! {

/// The three traffic classes that share the line.
#[derive(Clone, Copy, Debug, PartialEq, Eq, Structural)]
pub enum FrameType {
    /// Human-readable text, marked by [`DIAGNOSTIC`].
    Diagnostic,
    /// A control message, marked by [`CONFIGURATION`].
    Configuration,
    /// An IP packet; it carries no marker.
    Ip,
}

/// A fault of the wire data within one frame; it is reported when the frame
/// ends and does not stop the stream.
#[derive(Clone, Copy, Debug, PartialEq, Eq, Structural)]
pub enum Error {
    /// An escape introducer was followed by neither substitute byte.
    UnexpectedEscape,
    /// The payload did not fit where it was to be stored.
    BufferOverflow,
}

/// One thing a decoder tells its frame handler.
#[derive(Clone, Copy, Debug, PartialEq, Eq, Structural)]
pub enum Event {
    /// A frame of this type starts.
    Begin(FrameType),
    /// One decoded payload byte of the open frame.
    Byte(u8),
    /// The open frame ends, with the wire fault found in it, if any.
    End(Option<Error>),
}

/// The marker byte that starts a frame of type `t`, if that type has one.
pub open spec fn marker_spec(t: FrameType) -> Option<u8> {
    match t {
        FrameType::Diagnostic => Some(DIAGNOSTIC),
        FrameType::Configuration => Some(CONFIGURATION),
        FrameType::Ip => None,
    }
}

/// The marker byte that starts a frame of type `frame_type`, if any.
pub fn marker(frame_type: FrameType) -> (r: Option<u8>)
    ensures
        r == marker_spec(frame_type),
{
    match frame_type {
        FrameType::Diagnostic => Some(DIAGNOSTIC),
        FrameType::Configuration => Some(CONFIGURATION),
        FrameType::Ip => None,
    }
}

} // verus!

//! Wire-level bytes of the protocol.
use vstd::prelude::*;

verus! {

/// Frame delimiter.
pub const END: u8 = 0xc0;

/// Escape introducer.
pub const ESC: u8 = 0xdb;

/// Stands, after `ESC`, for a literal `END` inside a payload.
pub const ESC_END: u8 = 0xdc;

/// Stands, after `ESC`, for a literal `ESC` inside a payload.
pub const ESC_ESC: u8 = 0xdd;

/// First byte of a diagnostic frame.
pub const DIAGNOSTIC: u8 = 0x0a;

/// First byte of a configuration frame.
pub const CONFIGURATION: u8 = 0xa9;

} // verus!

//! Slipmux framing: one serial line carrying diagnostic text, configuration
//! messages and IP packets, kept apart by SLIP-style byte stuffing.
//!
//! The [`decoder`] turns a received byte stream into frame events for a
//! [`decoder::FrameHandler`]; the [`encoder`] produces the bytes of one frame;
//! the [`handler`] stores decoded frames in bounded buffers until a consumer
//! takes them.
pub mod buffer;
pub mod checksum;
pub mod constants;
pub mod decoder;
pub mod encoder;
pub mod frame;
pub mod handler;
pub mod lemmas;

pub use checksum::_calc_csum;
pub use decoder::{DecodeState, Decoder, FrameHandler};
pub use encoder::{encode_frame, write_escaping_bytes};
pub use frame::{Error, Event, FrameType};
pub use handler::RiotSlipmuxFramehandler;

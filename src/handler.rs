//! A frame handler that keeps each decoded frame in a bounded buffer of its
//! own until a consumer takes it.
//!
//! Diagnostic bytes go to a queue that the console drains. A configuration
//! message and an IP packet each have a single slot: a completed frame stays
//! there, marked ready, until it is taken, and a frame of the same type that
//! arrives before that is refused rather than written over it.
use vstd::prelude::*;

use crate::buffer::{cleared, push_spec, BufferView, FrameBuffer};
use crate::decoder::FrameHandler;
use crate::frame::{Error, Event, FrameType};

verus! {

/// How many diagnostic bytes wait for the console at most.
pub const DIAGNOSTIC_QUEUE_CAPACITY: usize = 64;

/// The abstract state of a [`RiotSlipmuxFramehandler`].
pub struct HandlerView {
    /// The frame that is open, if any.
    pub open: Option<FrameType>,
    /// Whether the open frame has lost bytes: its buffer filled up, or its
    /// slot still held a frame that nobody had taken.
    pub dropping: bool,
    /// Diagnostic bytes not yet handed to the console.
    pub diagnostic: BufferView,
    /// The configuration slot.
    pub configuration: BufferView,
    /// Whether the configuration slot holds a complete message.
    pub configuration_ready: bool,
    /// The packet slot.
    pub packet: BufferView,
    /// Whether the packet slot holds a complete packet.
    pub packet_ready: bool,
    /// How the last frame ended: `None` when it was whole.
    pub last_error: Option<Error>,
}

/// The buffer that receives the bytes of a frame of type `t`.
pub open spec fn buffer_of(v: HandlerView, t: FrameType) -> BufferView {
    match t {
        FrameType::Diagnostic => v.diagnostic,
        FrameType::Configuration => v.configuration,
        FrameType::Ip => v.packet,
    }
}

/// `v` with the buffer for frames of type `t` replaced by `b`.
pub open spec fn with_buffer(v: HandlerView, t: FrameType, b: BufferView) -> HandlerView {
    match t {
        FrameType::Diagnostic => HandlerView { diagnostic: b, ..v },
        FrameType::Configuration => HandlerView { configuration: b, ..v },
        FrameType::Ip => HandlerView { packet: b, ..v },
    }
}

/// Whether the slot for frames of type `t` holds a frame nobody has taken.
pub open spec fn slot_taken(v: HandlerView, t: FrameType) -> bool {
    match t {
        FrameType::Diagnostic => false,
        FrameType::Configuration => v.configuration_ready,
        FrameType::Ip => v.packet_ready,
    }
}

/// How a frame ends: the wire fault if there was one, else an overflow if
/// bytes were lost, else nothing.
pub open spec fn outcome(err: Option<Error>, dropping: bool) -> Option<Error> {
    if err is Some {
        err
    } else if dropping {
        Some(Error::BufferOverflow)
    } else {
        None
    }
}

/// What handler state `v` becomes on event `e`.
pub open spec fn handle_spec(v: HandlerView, e: Event) -> HandlerView {
    match e {
        Event::Begin(t) => {
            let taken = slot_taken(v, t);
            let w = HandlerView { open: Some(t), dropping: taken, ..v };
            if t != FrameType::Diagnostic && !taken {
                with_buffer(w, t, cleared(buffer_of(v, t)))
            } else {
                w
            }
        },
        Event::Byte(x) => match v.open {
            Some(t) => {
                if v.dropping {
                    v
                } else if buffer_of(v, t).contents.len() < buffer_of(v, t).capacity {
                    with_buffer(v, t, push_spec(buffer_of(v, t), x))
                } else {
                    HandlerView { dropping: true, ..v }
                }
            },
            None => v,
        },
        Event::End(err) => {
            let out = outcome(err, v.dropping);
            HandlerView {
                open: None,
                dropping: false,
                configuration_ready: v.configuration_ready || (v.open == Some(
                    FrameType::Configuration,
                ) && out is None),
                packet_ready: v.packet_ready || (v.open == Some(FrameType::Ip) && out is None),
                last_error: out,
                ..v
            }
        },
    }
}

/// A handler with a queue for diagnostic bytes and one slot each for a
/// configuration message and an IP packet.
pub struct RiotSlipmuxFramehandler {
    frame_type: Option<FrameType>,
    dropping: bool,
    diagnostic: FrameBuffer,
    configuration_buffer: FrameBuffer,
    configuration_ready: bool,
    packet_buffer: FrameBuffer,
    packet_ready: bool,
    last_error: Option<Error>,
}

impl View for RiotSlipmuxFramehandler {
    type V = HandlerView;

    closed spec fn view(&self) -> HandlerView {
        HandlerView {
            open: self.frame_type,
            dropping: self.dropping,
            diagnostic: self.diagnostic@,
            configuration: self.configuration_buffer@,
            configuration_ready: self.configuration_ready,
            packet: self.packet_buffer@,
            packet_ready: self.packet_ready,
            last_error: self.last_error,
        }
    }
}

impl FrameHandler for RiotSlipmuxFramehandler {
    closed spec fn wf(&self) -> bool {
        &&& self.diagnostic.wf()
        &&& self.configuration_buffer.wf()
        &&& self.packet_buffer.wf()
    }

    open spec fn open_frame(v: HandlerView) -> Option<FrameType> {
        v.open
    }

    open spec fn handle(v: HandlerView, e: Event) -> HandlerView {
        handle_spec(v, e)
    }

    fn begin_frame(&mut self, frame_type: FrameType) {
        self.frame_type = Some(frame_type);
        match frame_type {
            FrameType::Diagnostic => {
                self.dropping = false;
            },
            FrameType::Configuration => {
                self.dropping = self.configuration_ready;
                if !self.configuration_ready {
                    self.configuration_buffer.clear();
                }
            },
            FrameType::Ip => {
                self.dropping = self.packet_ready;
                if !self.packet_ready {
                    self.packet_buffer.clear();
                }
            },
        }
    }

    fn write_byte(&mut self, byte: u8) {
        if !self.dropping {
            let kept = match self.frame_type {
                Some(FrameType::Diagnostic) => self.diagnostic.push(byte),
                Some(FrameType::Configuration) => self.configuration_buffer.push(byte),
                Some(FrameType::Ip) => self.packet_buffer.push(byte),
                None => true,
            };
            if !kept {
                self.dropping = true;
            }
        }
    }

    fn end_frame(&mut self, err: Option<Error>) {
        let out = match err {
            Some(e) => Some(e),
            None => {
                if self.dropping {
                    Some(Error::BufferOverflow)
                } else {
                    None
                }
            },
        };
        if out.is_none() {
            match self.frame_type {
                Some(FrameType::Configuration) => {
                    self.configuration_ready = true;
                },
                Some(FrameType::Ip) => {
                    self.packet_ready = true;
                },
                _ => {},
            }
        }
        self.frame_type = None;
        self.dropping = false;
        self.last_error = out;
    }
}

/// The state of a new handler whose slots hold `configuration_capacity` and
/// `packet_capacity` bytes.
pub open spec fn initial_view(configuration_capacity: nat, packet_capacity: nat) -> HandlerView {
    HandlerView {
        open: None,
        dropping: false,
        diagnostic: BufferView {
            contents: Seq::empty(),
            capacity: DIAGNOSTIC_QUEUE_CAPACITY as nat,
        },
        configuration: BufferView { contents: Seq::empty(), capacity: configuration_capacity },
        configuration_ready: false,
        packet: BufferView { contents: Seq::empty(), capacity: packet_capacity },
        packet_ready: false,
        last_error: None,
    }
}

impl RiotSlipmuxFramehandler {
    /// A handler that stores configuration messages in `configuration_buffer`
    /// and packets in `packet_buffer`; their lengths are the slots' capacities.
    pub fn new(configuration_buffer: Vec<u8>, packet_buffer: Vec<u8>) -> (r: Self)
        ensures
            r.wf(),
            r@ == initial_view(configuration_buffer@.len(), packet_buffer@.len()),
    {
        RiotSlipmuxFramehandler {
            frame_type: None,
            dropping: false,
            diagnostic: FrameBuffer::with_capacity(DIAGNOSTIC_QUEUE_CAPACITY),
            configuration_buffer: FrameBuffer::new(configuration_buffer),
            configuration_ready: false,
            packet_buffer: FrameBuffer::new(packet_buffer),
            packet_ready: false,
            last_error: None,
        }
    }

    /// The frame that is open, if any.
    pub fn frame_type(&self) -> (r: Option<FrameType>)
        ensures
            r == self@.open,
    {
        self.frame_type
    }

    /// How the last frame ended: `None` when it was whole.
    pub fn last_error(&self) -> (r: Option<Error>)
        ensures
            r == self@.last_error,
    {
        self.last_error
    }

    /// Hands over the diagnostic bytes received so far and empties the queue.
    pub fn take_diagnostic(&mut self) -> (r: Vec<u8>)
        requires
            old(self).wf(),
        ensures
            final(self).wf(),
            r@ == old(self)@.diagnostic.contents,
            final(self)@ == (HandlerView {
                diagnostic: cleared(old(self)@.diagnostic),
                ..old(self)@
            }),
    {
        let r = self.diagnostic.to_vec();
        self.diagnostic.clear();
        r
    }

    /// Hands over the completed configuration message, if there is one, and
    /// frees its slot for the next.
    pub fn take_configuration(&mut self) -> (r: Option<Vec<u8>>)
        requires
            old(self).wf(),
        ensures
            final(self).wf(),
            match r {
                Some(m) => {
                    &&& old(self)@.configuration_ready
                    &&& m@ == old(self)@.configuration.contents
                    &&& final(self)@ == (HandlerView {
                        configuration: cleared(old(self)@.configuration),
                        configuration_ready: false,
                        ..old(self)@
                    })
                },
                None => !old(self)@.configuration_ready && final(self)@ == old(self)@,
            },
    {
        if self.configuration_ready {
            let m = self.configuration_buffer.to_vec();
            self.configuration_buffer.clear();
            self.configuration_ready = false;
            Some(m)
        } else {
            None
        }
    }

    /// Hands over the completed IP packet, if there is one, and frees its
    /// slot for the next.
    pub fn take_packet(&mut self) -> (r: Option<Vec<u8>>)
        requires
            old(self).wf(),
        ensures
            final(self).wf(),
            match r {
                Some(m) => {
                    &&& old(self)@.packet_ready
                    &&& m@ == old(self)@.packet.contents
                    &&& final(self)@ == (HandlerView {
                        packet: cleared(old(self)@.packet),
                        packet_ready: false,
                        ..old(self)@
                    })
                },
                None => !old(self)@.packet_ready && final(self)@ == old(self)@,
            },
    {
        if self.packet_ready {
            let m = self.packet_buffer.to_vec();
            self.packet_buffer.clear();
            self.packet_ready = false;
            Some(m)
        } else {
            None
        }
    }
}

} // verus!

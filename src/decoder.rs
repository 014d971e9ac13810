//! Receiving: a state machine that takes one byte at a time and tells a
//! [`FrameHandler`] where frames begin, what their payload bytes are, and
//! where they end.
use vstd::prelude::*;

use crate::constants::{CONFIGURATION, DIAGNOSTIC, END, ESC, ESC_END, ESC_ESC};
use crate::frame::{Error, Event, FrameType};

verus! {

/// Where the decoder stands in the byte stream.
#[derive(Clone, Copy, Debug, PartialEq, Eq, Structural)]
pub enum DecodeState {
    /// Between frames.
    Idle,
    /// Inside a diagnostic frame.
    Diagnostic,
    /// Inside a diagnostic frame, just after an escape introducer.
    DiagnosticEscaped,
    /// Inside a configuration frame.
    Configuration,
    /// Inside a configuration frame, just after an escape introducer.
    ConfigurationEscaped,
    /// Inside an IP frame.
    Packet,
    /// Inside an IP frame, just after an escape introducer.
    PacketEscaped,
}

/// The type of the frame that is open in state `s`, if one is.
pub open spec fn open_frame_of(s: DecodeState) -> Option<FrameType> {
    match s {
        DecodeState::Idle => None,
        DecodeState::Diagnostic | DecodeState::DiagnosticEscaped => Some(FrameType::Diagnostic),
        DecodeState::Configuration | DecodeState::ConfigurationEscaped => Some(
            FrameType::Configuration,
        ),
        DecodeState::Packet | DecodeState::PacketEscaped => Some(FrameType::Ip),
    }
}

/// Whether state `s` is the one just after an escape introducer.
pub open spec fn is_escaped(s: DecodeState) -> bool {
    s is DiagnosticEscaped || s is ConfigurationEscaped || s is PacketEscaped
}

/// The state inside a frame of type `t`, outside an escape.
pub open spec fn payload_state(t: FrameType) -> DecodeState {
    match t {
        FrameType::Diagnostic => DecodeState::Diagnostic,
        FrameType::Configuration => DecodeState::Configuration,
        FrameType::Ip => DecodeState::Packet,
    }
}

/// The state inside a frame of type `t`, just after an escape introducer.
pub open spec fn escaped_state(t: FrameType) -> DecodeState {
    match t {
        FrameType::Diagnostic => DecodeState::DiagnosticEscaped,
        FrameType::Configuration => DecodeState::ConfigurationEscaped,
        FrameType::Ip => DecodeState::PacketEscaped,
    }
}

/// The receiving state machine. Besides its state it remembers whether the
/// open frame has held a bad escape sequence, to report it when the frame ends.
#[derive(Clone, Copy, Debug, PartialEq, Eq, Structural)]
pub struct Decoder {
    pub state: DecodeState,
    pub escape_error: bool,
}

/// A decoder between frames, as it is made.
pub open spec fn idle_decoder() -> Decoder {
    Decoder { state: DecodeState::Idle, escape_error: false }
}

/// What the decoder `d` becomes on byte `b`, and the events it issues.
pub open spec fn step(d: Decoder, b: u8) -> (Decoder, Seq<Event>) {
    match open_frame_of(d.state) {
        None => {
            if b == END {
                (d, seq![])
            } else if b == DIAGNOSTIC {
                (
                    Decoder { state: DecodeState::Diagnostic, escape_error: false },
                    seq![Event::Begin(FrameType::Diagnostic)],
                )
            } else if b == CONFIGURATION {
                (
                    Decoder { state: DecodeState::Configuration, escape_error: false },
                    seq![Event::Begin(FrameType::Configuration)],
                )
            } else {
                (
                    Decoder { state: DecodeState::Packet, escape_error: false },
                    seq![Event::Begin(FrameType::Ip), Event::Byte(b)],
                )
            }
        },
        Some(t) => {
            if is_escaped(d.state) {
                if b == ESC_END {
                    (Decoder { state: payload_state(t), ..d }, seq![Event::Byte(END)])
                } else if b == ESC_ESC {
                    (Decoder { state: payload_state(t), ..d }, seq![Event::Byte(ESC)])
                } else {
                    (Decoder { state: payload_state(t), escape_error: true }, seq![Event::Byte(b)])
                }
            } else if b == ESC {
                (Decoder { state: escaped_state(t), ..d }, seq![])
            } else if b == END {
                (
                    idle_decoder(),
                    seq![
                        Event::End(
                            if d.escape_error {
                                Some(Error::UnexpectedEscape)
                            } else {
                                None
                            },
                        ),
                    ],
                )
            } else {
                (d, seq![Event::Byte(b)])
            }
        },
    }
}

/// What the decoder `d` becomes on the bytes `bytes`, in order, and the
/// events it issues.
pub open spec fn run(d: Decoder, bytes: Seq<u8>) -> (Decoder, Seq<Event>)
    decreases bytes.len(),
{
    if bytes.len() == 0 {
        (d, seq![])
    } else {
        let (d1, e1) = run(d, bytes.drop_last());
        let (d2, e2) = step(d1, bytes.last());
        (d2, e1 + e2)
    }
}

/// The receiver of decoded frames. Its abstract state is its view; `handle`
/// says how each event changes it.
pub trait FrameHandler: View + Sized {
    /// The handler's own invariant.
    spec fn wf(&self) -> bool;

    /// The frame that is open in state `v`, if any.
    spec fn open_frame(v: Self::V) -> Option<FrameType>;

    /// What state `v` becomes on event `e`.
    spec fn handle(v: Self::V, e: Event) -> Self::V;

    /// A frame of type `frame_type` starts.
    fn begin_frame(&mut self, frame_type: FrameType)
        requires
            old(self).wf(),
            Self::open_frame(old(self)@) is None,
        ensures
            final(self).wf(),
            final(self)@ == Self::handle(old(self)@, Event::Begin(frame_type)),
            Self::open_frame(final(self)@) == Some(frame_type),
    ;

    /// One decoded payload byte of the open frame.
    fn write_byte(&mut self, byte: u8)
        requires
            old(self).wf(),
            Self::open_frame(old(self)@) is Some,
        ensures
            final(self).wf(),
            final(self)@ == Self::handle(old(self)@, Event::Byte(byte)),
            Self::open_frame(final(self)@) == Self::open_frame(old(self)@),
    ;

    /// The open frame ends, with the wire fault found in it, if any.
    fn end_frame(&mut self, err: Option<Error>)
        requires
            old(self).wf(),
            Self::open_frame(old(self)@) is Some,
        ensures
            final(self).wf(),
            final(self)@ == Self::handle(old(self)@, Event::End(err)),
            Self::open_frame(final(self)@) is None,
    ;
}

/// What state `v` of a handler of type `H` becomes on the events `es`, in order.
pub open spec fn handle_all<H: FrameHandler>(v: H::V, es: Seq<Event>) -> H::V
    decreases es.len(),
{
    if es.len() == 0 {
        v
    } else {
        H::handle(handle_all::<H>(v, es.drop_last()), es.last())
    }
}

/// Handling `a` and then `b` is handling `a + b`.
pub proof fn lemma_handle_all_append<H: FrameHandler>(v: H::V, a: Seq<Event>, b: Seq<Event>)
    ensures
        handle_all::<H>(v, a + b) == handle_all::<H>(handle_all::<H>(v, a), b),
    decreases b.len(),
{
    if b.len() == 0 {
        assert(a + b =~= a);
    } else {
        assert((a + b).drop_last() =~= a + b.drop_last());
        lemma_handle_all_append::<H>(v, a, b.drop_last());
    }
}

/// Handling one event, or two, one after the other.
proof fn lemma_handle_all_short<H: FrameHandler>(v: H::V, x: Event, y: Event)
    ensures
        handle_all::<H>(v, seq![]) == v,
        handle_all::<H>(v, seq![x]) == H::handle(v, x),
        handle_all::<H>(v, seq![x, y]) == H::handle(H::handle(v, x), y),
{
    let one = seq![x];
    let two = seq![x, y];
    assert(one.drop_last() =~= seq![]);
    assert(two.drop_last() =~= one);
    assert(handle_all::<H>(v, one) == H::handle(handle_all::<H>(v, one.drop_last()), one.last()));
    assert(handle_all::<H>(v, two) == H::handle(handle_all::<H>(v, two.drop_last()), two.last()));
}

impl Decoder {
    /// A decoder between frames.
    pub fn new() -> (r: Decoder)
        ensures
            r == idle_decoder(),
    {
        Decoder { state: DecodeState::Idle, escape_error: false }
    }

    /// The frame that is open, if any.
    pub open spec fn frame(self) -> Option<FrameType> {
        open_frame_of(self.state)
    }

    /// The type of the frame that is open, if one is.
    pub fn frame_type(&self) -> (r: Option<FrameType>)
        ensures
            r == self.frame(),
    {
        match self.state {
            DecodeState::Idle => None,
            DecodeState::Diagnostic | DecodeState::DiagnosticEscaped => Some(FrameType::Diagnostic),
            DecodeState::Configuration | DecodeState::ConfigurationEscaped => Some(
                FrameType::Configuration,
            ),
            DecodeState::Packet | DecodeState::PacketEscaped => Some(FrameType::Ip),
        }
    }

    /// Takes the next byte of the stream and tells `handler` what it means.
    pub fn decode<H: FrameHandler>(&mut self, byte: u8, handler: &mut H)
        requires
            old(handler).wf(),
            H::open_frame(old(handler)@) == old(self).frame(),
        ensures
            final(handler).wf(),
            *final(self) == step(*old(self), byte).0,
            final(handler)@ == handle_all::<H>(old(handler)@, step(*old(self), byte).1),
            H::open_frame(final(handler)@) == final(self).frame(),
    {
        let ghost d0 = *self;
        let ghost v0 = handler@;
        proof {
            lemma_handle_all_short::<H>(v0, step(d0, byte).1[0], step(d0, byte).1[1]);
        }
        match self.state {
            DecodeState::Idle => {
                if byte == END {
                } else if byte == DIAGNOSTIC {
                    *self = Decoder { state: DecodeState::Diagnostic, escape_error: false };
                    handler.begin_frame(FrameType::Diagnostic);
                } else if byte == CONFIGURATION {
                    *self = Decoder { state: DecodeState::Configuration, escape_error: false };
                    handler.begin_frame(FrameType::Configuration);
                } else {
                    *self = Decoder { state: DecodeState::Packet, escape_error: false };
                    handler.begin_frame(FrameType::Ip);
                    handler.write_byte(byte);
                }
            },
            DecodeState::Diagnostic => {
                self.payload_byte(byte, DecodeState::DiagnosticEscaped, handler);
            },
            DecodeState::Configuration => {
                self.payload_byte(byte, DecodeState::ConfigurationEscaped, handler);
            },
            DecodeState::Packet => {
                self.payload_byte(byte, DecodeState::PacketEscaped, handler);
            },
            DecodeState::DiagnosticEscaped => {
                self.escaped_byte(byte, DecodeState::Diagnostic, handler);
            },
            DecodeState::ConfigurationEscaped => {
                self.escaped_byte(byte, DecodeState::Configuration, handler);
            },
            DecodeState::PacketEscaped => {
                self.escaped_byte(byte, DecodeState::Packet, handler);
            },
        }
    }

    /// A byte inside a frame, outside an escape; `escaped` is the state that
    /// an escape introducer leads to.
    fn payload_byte<H: FrameHandler>(&mut self, byte: u8, escaped: DecodeState, handler: &mut H)
        requires
            old(handler).wf(),
            H::open_frame(old(handler)@) == old(self).frame(),
            old(self).frame() is Some,
            !is_escaped(old(self).state),
            escaped == escaped_state(old(self).frame()->0),
        ensures
            final(handler).wf(),
            *final(self) == step(*old(self), byte).0,
            final(handler)@ == handle_all::<H>(old(handler)@, step(*old(self), byte).1),
            H::open_frame(final(handler)@) == final(self).frame(),
    {
        let ghost d0 = *self;
        let ghost v0 = handler@;
        proof {
            lemma_handle_all_short::<H>(v0, step(d0, byte).1[0], step(d0, byte).1[0]);
        }
        if byte == ESC {
            self.state = escaped;
        } else if byte == END {
            let err = if self.escape_error {
                Some(Error::UnexpectedEscape)
            } else {
                None
            };
            *self = Decoder { state: DecodeState::Idle, escape_error: false };
            handler.end_frame(err);
        } else {
            handler.write_byte(byte);
        }
    }

    /// The byte after an escape introducer; `unescaped` is the state that
    /// the frame goes back to.
    fn escaped_byte<H: FrameHandler>(&mut self, byte: u8, unescaped: DecodeState, handler: &mut H)
        requires
            old(handler).wf(),
            H::open_frame(old(handler)@) == old(self).frame(),
            old(self).frame() is Some,
            is_escaped(old(self).state),
            unescaped == payload_state(old(self).frame()->0),
        ensures
            final(handler).wf(),
            *final(self) == step(*old(self), byte).0,
            final(handler)@ == handle_all::<H>(old(handler)@, step(*old(self), byte).1),
            H::open_frame(final(handler)@) == final(self).frame(),
    {
        let ghost d0 = *self;
        let ghost v0 = handler@;
        proof {
            lemma_handle_all_short::<H>(v0, step(d0, byte).1[0], step(d0, byte).1[0]);
        }
        self.state = unescaped;
        if byte == ESC_END {
            handler.write_byte(END);
        } else if byte == ESC_ESC {
            handler.write_byte(ESC);
        } else {
            self.escape_error = true;
            handler.write_byte(byte);
        }
    }

    /// Takes the bytes `bytes` of the stream, in order, and tells `handler`
    /// what they mean.
    pub fn decode_all<H: FrameHandler>(&mut self, bytes: &[u8], handler: &mut H)
        requires
            old(handler).wf(),
            H::open_frame(old(handler)@) == old(self).frame(),
        ensures
            final(handler).wf(),
            *final(self) == run(*old(self), bytes@).0,
            final(handler)@ == handle_all::<H>(old(handler)@, run(*old(self), bytes@).1),
            H::open_frame(final(handler)@) == final(self).frame(),
    {
        let ghost d0 = *self;
        let ghost v0 = handler@;
        let mut i: usize = 0;
        proof {
            assert(bytes@.take(0) =~= seq![]);
        }
        while i < bytes.len()
            invariant
                i <= bytes@.len(),
                handler.wf(),
                *self == run(d0, bytes@.take(i as int)).0,
                handler@ == handle_all::<H>(v0, run(d0, bytes@.take(i as int)).1),
                H::open_frame(handler@) == self.frame(),
            decreases bytes@.len() - i,
        {
            let ghost before = *self;
            let ghost es = run(d0, bytes@.take(i as int)).1;
            self.decode(bytes[i], handler);
            proof {
                lemma_handle_all_append::<H>(v0, es, step(before, bytes@[i as int]).1);
                assert(bytes@.take(i + 1).drop_last() =~= bytes@.take(i as int));
            }
            i = i + 1;
        }
        proof {
            assert(bytes@.take(i as int) =~= bytes@);
        }
    }
}

} // verus!

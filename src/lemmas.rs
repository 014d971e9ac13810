//! What decoding and encoding guarantee together.
use vstd::prelude::*;

use crate::constants::{CONFIGURATION, DIAGNOSTIC, END, ESC, ESC_END, ESC_ESC};
use crate::buffer::BufferView;
use crate::decoder::{
    handle_all, idle_decoder, lemma_handle_all_append, payload_state, run, step, DecodeState,
    Decoder,
};
use crate::encoder::{encode, escape, escape_byte, marker_bytes};
use crate::frame::{Error, Event, FrameType};
use crate::handler::{buffer_of, handle_spec, slot_taken, with_buffer, HandlerView, RiotSlipmuxFramehandler};

verus! {

/// The events that carry the payload bytes `p`, in order.
pub open spec fn byte_events(p: Seq<u8>) -> Seq<Event> {
    p.map_values(|b: u8| Event::Byte(b))
}

/// The events of one whole frame of type `t` with payload `p`, ending with
/// the fault `err`.
pub open spec fn frame_events(t: FrameType, p: Seq<u8>, err: Option<Error>) -> Seq<Event> {
    seq![Event::Begin(t)] + byte_events(p) + seq![Event::End(err)]
}

/// Whether `p` can be sent as an IP frame and be read back as one: it is not
/// empty, and its first byte is neither a marker, nor the delimiter, nor the
/// escape introducer.
pub open spec fn ip_payload_unambiguous(p: Seq<u8>) -> bool {
    &&& p.len() > 0
    &&& p[0] != END
    &&& p[0] != ESC
    &&& p[0] != DIAGNOSTIC
    &&& p[0] != CONFIGURATION
}

/// Decoding `a + b` is decoding `a`, then `b` from where `a` left off.
pub proof fn lemma_run_append(d: Decoder, a: Seq<u8>, b: Seq<u8>)
    ensures
        run(d, a + b).0 == run(run(d, a).0, b).0,
        run(d, a + b).1 == run(d, a).1 + run(run(d, a).0, b).1,
    decreases b.len(),
{
    if b.len() == 0 {
        assert(a + b =~= a);
        assert(run(d, a).1 + seq![] =~= run(d, a).1);
    } else {
        assert((a + b).drop_last() =~= a + b.drop_last());
        assert((a + b).last() == b.last());
        lemma_run_append(d, a, b.drop_last());
        let mid = run(d, a);
        let r = run(mid.0, b.drop_last());
        let s = step(r.0, b.last());
        assert(run(d, a).1 + r.1 + s.1 =~= run(d, a).1 + (r.1 + s.1));
    }
}

/// Decoding one byte, or two, is stepping once, or twice.
proof fn lemma_run_short(d: Decoder, x: u8, y: u8)
    ensures
        run(d, seq![x]) == step(d, x),
        run(d, seq![x, y]).0 == step(step(d, x).0, y).0,
        run(d, seq![x, y]).1 == step(d, x).1 + step(step(d, x).0, y).1,
{
    let one = seq![x];
    let two = seq![x, y];
    assert(one.drop_last() =~= seq![]);
    assert(two.drop_last() =~= one);
    assert(one.last() == x);
    assert(two.last() == y);
    assert(run(d, one.drop_last()) == (d, Seq::<Event>::empty()));
    assert(seq![] + step(d, x).1 =~= step(d, x).1);
    assert(run(d, one) == step(d, x));
    assert(run(d, two) == (step(run(d, one).0, y).0, run(d, one).1 + step(run(d, one).0, y).1));
}

/// Escaping `a + b` is escaping `a`, then `b`.
pub proof fn lemma_escape_append(a: Seq<u8>, b: Seq<u8>)
    ensures
        escape(a + b) == escape(a) + escape(b),
    decreases b.len(),
{
    if b.len() == 0 {
        assert(a + b =~= a);
        assert(escape(a) + seq![] =~= escape(a));
    } else {
        assert((a + b).drop_last() =~= a + b.drop_last());
        lemma_escape_append(a, b.drop_last());
        assert(escape(a) + escape(b.drop_last()) + escape_byte(b.last()) =~= escape(a) + (escape(
            b.drop_last(),
        ) + escape_byte(b.last())));
    }
}

/// Inside an open frame, the escaped form of any payload, whatever delimiter
/// and escape bytes it holds, decodes to exactly that payload, and the
/// decoder ends where it started.
pub proof fn lemma_escaping(t: FrameType, escape_error: bool, p: Seq<u8>)
    ensures
        run(Decoder { state: payload_state(t), escape_error }, escape(p)) == (
            Decoder { state: payload_state(t), escape_error },
            byte_events(p),
        ),
    decreases p.len(),
{
    let d = Decoder { state: payload_state(t), escape_error };
    if p.len() == 0 {
        assert(byte_events(p) =~= seq![]);
    } else {
        let q = p.drop_last();
        let b = p.last();
        lemma_escaping(t, escape_error, q);
        lemma_run_append(d, escape(q), escape_byte(b));
        if b == END {
            lemma_run_short(d, ESC, ESC_END);
        } else if b == ESC {
            lemma_run_short(d, ESC, ESC_ESC);
        } else {
            lemma_run_short(d, b, b);
        }
        assert(byte_events(q) + seq![Event::Byte(b)] =~= byte_events(p));
    }
}

/// Any run of delimiters leaves a decoder between frames where it is, and
/// issues no event.
pub proof fn lemma_idle_delimiters(d: Decoder, s: Seq<u8>)
    requires
        d.state == DecodeState::Idle,
        forall|i: int| 0 <= i < s.len() ==> s[i] == END,
    ensures
        run(d, s) == (d, Seq::<Event>::empty()),
    decreases s.len(),
{
    if s.len() > 0 {
        lemma_idle_delimiters(d, s.drop_last());
        assert(Seq::<Event>::empty() + seq![] =~= Seq::<Event>::empty());
    }
}

/// Between frames, the first byte decides the frame: the diagnostic marker
/// begins a diagnostic frame, the configuration marker a configuration
/// frame, and any other byte but the delimiter an IP frame whose first
/// payload byte it is.
pub proof fn lemma_marker_discrimination(d: Decoder, b: u8, rest: Seq<u8>)
    requires
        d.state == DecodeState::Idle,
    ensures
        b == DIAGNOSTIC ==> run(d, seq![b] + rest).1[0] == Event::Begin(FrameType::Diagnostic),
        b == CONFIGURATION ==> run(d, seq![b] + rest).1[0] == Event::Begin(
            FrameType::Configuration,
        ),
        b != END && b != DIAGNOSTIC && b != CONFIGURATION ==> {
            &&& run(d, seq![b] + rest).1[0] == Event::Begin(FrameType::Ip)
            &&& run(d, seq![b] + rest).1[1] == Event::Byte(b)
        },
{
    lemma_run_append(d, seq![b], rest);
    lemma_run_short(d, b, b);
}

/// Any payload sent as a frame of any type is read back as exactly one frame
/// of that type with that payload and no fault, and the decoder is between
/// frames again. An IP payload must not begin with a byte that would read as
/// a marker or be escaped, and must not be empty.
pub proof fn lemma_round_trip(t: FrameType, p: Seq<u8>)
    requires
        t == FrameType::Ip ==> ip_payload_unambiguous(p),
    ensures
        run(idle_decoder(), encode(t, p)) == (idle_decoder(), frame_events(t, p, None)),
{
    let d0 = idle_decoder();
    let open = Decoder { state: payload_state(t), escape_error: false };
    let body = if t == FrameType::Ip {
        p.drop_first()
    } else {
        p
    };
    let head = if t == FrameType::Ip {
        seq![p[0]]
    } else {
        marker_bytes(t)
    };
    let head_events = if t == FrameType::Ip {
        seq![Event::Begin(t), Event::Byte(p[0])]
    } else {
        seq![Event::Begin(t)]
    };
    if t == FrameType::Ip {
        assert(p =~= seq![p[0]] + p.drop_first());
        lemma_escape_append(seq![p[0]], p.drop_first());
        assert(seq![p[0]].drop_last() =~= seq![]);
        assert(escape(seq![p[0]]) == escape(seq![]) + escape_byte(p[0]));
        assert(escape(seq![p[0]]) =~= seq![p[0]]);
    }
    assert(encode(t, p) =~= head + escape(body) + seq![END]);
    lemma_run_short(d0, head[0], head[0]);
    assert(run(d0, head) == (open, head_events));
    lemma_run_append(d0, head, escape(body));
    lemma_escaping(t, false, body);
    lemma_run_append(d0, head + escape(body), seq![END]);
    lemma_run_short(open, END, END);
    if t == FrameType::Ip {
        assert(byte_events(p) =~= seq![Event::Byte(p[0])] + byte_events(body));
    }
    assert(head_events + byte_events(body) + seq![Event::End(None)] =~= frame_events(t, p, None));
}

/// What a handler state becomes on events `es`.
pub open spec fn deliver(v: HandlerView, es: Seq<Event>) -> HandlerView {
    handle_all::<RiotSlipmuxFramehandler>(v, es)
}

/// Replacing the buffer of one frame type changes nothing else.
proof fn lemma_with_buffer(v: HandlerView, t: FrameType, b: BufferView)
    ensures
        buffer_of(with_buffer(v, t, b), t) == b,
        with_buffer(v, t, b).open == v.open,
        with_buffer(v, t, b).dropping == v.dropping,
        with_buffer(v, t, b).last_error == v.last_error,
        with_buffer(v, t, b).configuration_ready == v.configuration_ready,
        with_buffer(v, t, b).packet_ready == v.packet_ready,
        with_buffer(v, t, buffer_of(v, t)) == v,
        with_buffer(HandlerView { dropping: true, ..v }, t, b) == (HandlerView {
            dropping: true,
            ..with_buffer(v, t, b)
        }),
{
}

/// Payload bytes reaching an open frame fill its buffer while there is room;
/// from the first byte that finds none, the frame drops the rest.
pub proof fn lemma_deliver_bytes(v: HandlerView, t: FrameType, q: Seq<u8>)
    requires
        v.open == Some(t),
        buffer_of(v, t).contents.len() <= buffer_of(v, t).capacity,
    ensures
        ({
            let b = buffer_of(v, t);
            let room = b.capacity - b.contents.len();
            let w = deliver(v, byte_events(q));
            &&& v.dropping ==> w == v
            &&& !v.dropping && q.len() <= room ==> w == with_buffer(
                v,
                t,
                BufferView { contents: b.contents + q, capacity: b.capacity },
            )
            &&& !v.dropping && q.len() > room ==> w == with_buffer(
                HandlerView { dropping: true, ..v },
                t,
                BufferView { contents: b.contents + q.take(room), capacity: b.capacity },
            )
        }),
    decreases q.len(),
{
    let b = buffer_of(v, t);
    let room = b.capacity - b.contents.len();
    if q.len() == 0 {
        assert(byte_events(q) =~= seq![]);
        assert(b.contents + q =~= b.contents);
        lemma_with_buffer(v, t, b);
    } else {
        let r = q.drop_last();
        let x = q.last();
        lemma_deliver_bytes(v, t, r);
        assert(byte_events(q).drop_last() =~= byte_events(r));
        assert(byte_events(q).last() == Event::Byte(x));
        let w1 = deliver(v, byte_events(r));
        assert(deliver(v, byte_events(q)) == handle_spec(w1, Event::Byte(x)));
        if !v.dropping {
            if r.len() < room {
                let b1 = BufferView { contents: b.contents + r, capacity: b.capacity };
                lemma_with_buffer(v, t, b1);
                let b2 = BufferView { contents: b.contents + q, capacity: b.capacity };
                assert(b1.contents.push(x) =~= b2.contents);
                lemma_with_buffer(with_buffer(v, t, b1), t, b2);
                assert(with_buffer(with_buffer(v, t, b1), t, b2) == with_buffer(v, t, b2));
            } else if r.len() == room {
                assert(q.take(room) =~= r);
                let b1 = BufferView { contents: b.contents + r, capacity: b.capacity };
                lemma_with_buffer(v, t, b1);
            } else {
                assert(q.take(room) =~= r.take(room));
                let b1 = BufferView { contents: b.contents + r.take(room), capacity: b.capacity };
                lemma_with_buffer(v, t, b1);
                lemma_with_buffer(HandlerView { dropping: true, ..v }, t, b1);
            }
        }
    }
}

/// Handling a whole frame: its beginning, its payload bytes, its end.
proof fn lemma_deliver_frame(v: HandlerView, t: FrameType, p: Seq<u8>, err: Option<Error>)
    ensures
        deliver(v, frame_events(t, p, err)) == handle_spec(
            deliver(handle_spec(v, Event::Begin(t)), byte_events(p)),
            Event::End(err),
        ),
{
    let head = seq![Event::Begin(t)];
    let body = byte_events(p);
    let tail = seq![Event::End(err)];
    lemma_handle_all_append::<RiotSlipmuxFramehandler>(v, head + body, tail);
    lemma_handle_all_append::<RiotSlipmuxFramehandler>(v, head, body);
    assert(head.drop_last() =~= seq![]);
    assert(tail.drop_last() =~= seq![]);
    assert(head.last() == Event::Begin(t));
    assert(handle_all::<RiotSlipmuxFramehandler>(v, head.drop_last()) == v);
    assert(deliver(v, head) == handle_spec(v, Event::Begin(t)));
    assert(tail.last() == Event::End(err));
    let mid = deliver(v, head + body);
    assert(deliver(mid, tail) == handle_spec(deliver(mid, seq![]), Event::End(err)));
}

/// Any payload sent as a frame and decoded into a handler whose slot for that
/// type is free and large enough arrives whole: the frame ends without fault,
/// and its slot holds the payload, ready to be taken (a diagnostic payload
/// joins the bytes already queued for the console).
pub proof fn lemma_round_trip_delivered(v: HandlerView, t: FrameType, p: Seq<u8>)
    requires
        v.open is None,
        t == FrameType::Ip ==> ip_payload_unambiguous(p),
        !slot_taken(v, t),
        t == FrameType::Diagnostic ==> v.diagnostic.contents.len() + p.len()
            <= v.diagnostic.capacity,
        t != FrameType::Diagnostic ==> p.len() <= buffer_of(v, t).capacity,
    ensures
        ({
            let w = deliver(v, run(idle_decoder(), encode(t, p)).1);
            &&& w.open is None
            &&& w.last_error is None
            &&& slot_taken(w, t) == (t != FrameType::Diagnostic)
            &&& buffer_of(w, t).contents == if t == FrameType::Diagnostic {
                v.diagnostic.contents + p
            } else {
                p
            }
        }),
{
    lemma_round_trip(t, p);
    lemma_deliver_frame(v, t, p, None);
    let v1 = handle_spec(v, Event::Begin(t));
    if t != FrameType::Diagnostic {
        assert(Seq::<u8>::empty() + p =~= p);
    }
    lemma_deliver_bytes(v1, t, p);
}

/// A configuration payload longer than the configuration slot, sent and
/// decoded into a handler whose slot is free, fills the slot to its capacity
/// and no further, ends with an overflow, and is not offered as a message.
pub proof fn lemma_overflow_containment(v: HandlerView, p: Seq<u8>)
    requires
        v.open is None,
        !v.configuration_ready,
        p.len() > v.configuration.capacity,
    ensures
        ({
            let w = deliver(v, run(idle_decoder(), encode(FrameType::Configuration, p)).1);
            &&& w.last_error == Some(Error::BufferOverflow)
            &&& !w.configuration_ready
            &&& w.configuration.capacity == v.configuration.capacity
            &&& w.configuration.contents == p.take(v.configuration.capacity as int)
        }),
{
    let t = FrameType::Configuration;
    lemma_round_trip(t, p);
    lemma_deliver_frame(v, t, p, None);
    let v1 = handle_spec(v, Event::Begin(t));
    assert(Seq::<u8>::empty() + p.take(v.configuration.capacity as int) =~= p.take(
        v.configuration.capacity as int,
    ));
    lemma_deliver_bytes(v1, t, p);
}

/// A configuration or IP frame that arrives while its slot still holds a
/// frame nobody has taken leaves that frame as it was, and ends with an
/// overflow.
pub proof fn lemma_taken_slot_kept(v: HandlerView, t: FrameType, p: Seq<u8>, err: Option<Error>)
    requires
        v.open is None,
        slot_taken(v, t),
        buffer_of(v, t).contents.len() <= buffer_of(v, t).capacity,
    ensures
        ({
            let w = deliver(v, frame_events(t, p, err));
            &&& buffer_of(w, t) == buffer_of(v, t)
            &&& slot_taken(w, t)
            &&& w.last_error is Some
        }),
{
    lemma_deliver_frame(v, t, p, err);
    let v1 = handle_spec(v, Event::Begin(t));
    lemma_deliver_bytes(v1, t, p);
}

} // verus!

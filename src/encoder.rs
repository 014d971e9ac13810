//! Sending: the bytes of one frame, with its payload escaped.
use vstd::prelude::*;

use crate::constants::{END, ESC, ESC_END, ESC_ESC};
use crate::frame::{marker, marker_spec, FrameType};

verus! {

/// How one payload byte goes on the wire.
pub open spec fn escape_byte(b: u8) -> Seq<u8> {
    if b == END {
        seq![ESC, ESC_END]
    } else if b == ESC {
        seq![ESC, ESC_ESC]
    } else {
        seq![b]
    }
}

/// How a payload goes on the wire: each byte escaped, in order.
pub open spec fn escape(p: Seq<u8>) -> Seq<u8>
    decreases p.len(),
{
    if p.len() == 0 {
        seq![]
    } else {
        escape(p.drop_last()) + escape_byte(p.last())
    }
}

/// The marker of type `t` as a sequence: one byte, or none.
pub open spec fn marker_bytes(t: FrameType) -> Seq<u8> {
    match marker_spec(t) {
        Some(m) => seq![m],
        None => seq![],
    }
}

/// The whole frame of type `t` with payload `p`: marker, escaped payload,
/// delimiter.
pub open spec fn encode(t: FrameType, p: Seq<u8>) -> Seq<u8> {
    marker_bytes(t) + escape(p) + seq![END]
}

/// Appends the escaped form of `bytes` to `out`.
pub fn write_escaping_bytes(out: &mut Vec<u8>, bytes: &[u8])
    ensures
        final(out)@ == old(out)@ + escape(bytes@),
{
    let ghost start = out@;
    let mut i: usize = 0;
    proof {
        assert(bytes@.take(0) =~= seq![]);
        assert(start + escape(seq![]) =~= start);
    }
    while i < bytes.len()
        invariant
            i <= bytes@.len(),
            out@ == start + escape(bytes@.take(i as int)),
        decreases bytes@.len() - i,
    {
        let byte = bytes[i];
        if byte == END {
            out.push(ESC);
            out.push(ESC_END);
        } else if byte == ESC {
            out.push(ESC);
            out.push(ESC_ESC);
        } else {
            out.push(byte);
        }
        proof {
            let t = bytes@.take(i + 1);
            assert(t.drop_last() =~= bytes@.take(i as int));
            assert(out@ =~= start + escape(t));
        }
        i = i + 1;
    }
    proof {
        assert(bytes@.take(i as int) =~= bytes@);
    }
}

/// The bytes that carry `payload` as a frame of type `frame_type`.
pub fn encode_frame(frame_type: FrameType, payload: &[u8]) -> (r: Vec<u8>)
    ensures
        r@ == encode(frame_type, payload@),
{
    let mut out: Vec<u8> = Vec::new();
    if let Some(m) = marker(frame_type) {
        out.push(m);
    }
    assert(out@ =~= marker_bytes(frame_type));
    write_escaping_bytes(&mut out, payload);
    out.push(END);
    out
}

} // verus!

//! The 16-bit ones' complement sum used by Internet checksums.
use vstd::prelude::*;

verus! {

/// The plain sum of the words `ws`.
pub open spec fn word_sum(ws: Seq<u16>) -> nat
    decreases ws.len(),
{
    if ws.len() == 0 {
        0
    } else {
        word_sum(ws.drop_last()) + ws.last() as nat
    }
}

/// A sum `s` with its carries folded back into 16 bits (end-around carry):
/// zero stays zero, and any other sum becomes the value in `1..=0xffff` that
/// is congruent to it modulo `0xffff`.
pub open spec fn fold_carries(s: nat) -> nat {
    if s == 0 {
        0
    } else {
        ((s - 1) as nat % 0xffff) + 1
    }
}

/// Folding after each word gives what folding once at the end gives.
proof fn lemma_fold_step(s: nat, w: nat)
    requires
        w <= 0xffff,
    ensures
        fold_carries(s) <= 0xffff,
        fold_carries(s) + w <= 0xffff ==> fold_carries(s + w) == fold_carries(s) + w,
        fold_carries(s) + w > 0xffff ==> fold_carries(s + w) == fold_carries(s) + w - 0xffff,
{
    if s == 0 {
        if w > 0 {
            assert((w - 1) as nat % 0xffff == w - 1);
        }
    } else {
        let a = (s - 1) as nat;
        let r = a % 0xffff;
        assert(a == (a / 0xffff) * 0xffff + r);
        if r + w < 0xffff {
            assert((a + w) % 0xffff == r + w);
        } else {
            assert((a + w) % 0xffff == r + w - 0xffff);
        }
    }
}

/// The ones' complement sum of `payload`: the words added, each carry out of
/// the low 16 bits added back in.
pub fn _calc_csum(payload: &[u16]) -> (r: u16)
    ensures
        r as nat == fold_carries(word_sum(payload@)),
{
    let mut csum: u32 = 0;
    let mut i: usize = 0;
    proof {
        assert(payload@.take(0) =~= seq![]);
    }
    while i < payload.len()
        invariant
            i <= payload@.len(),
            csum <= 0xffff,
            csum as nat == fold_carries(word_sum(payload@.take(i as int))),
        decreases payload@.len() - i,
    {
        let word = payload[i];
        proof {
            lemma_fold_step(word_sum(payload@.take(i as int)), word as nat);
            assert(payload@.take(i + 1).drop_last() =~= payload@.take(i as int));
        }
        csum = csum + word as u32;
        if (csum >> 16) > 0 {
            let carry: u32 = csum >> 16;
            assert(carry == 1 && csum & 0xffff == csum - 0x10000) by (bit_vector)
                requires
                    csum <= 0x1fffe,
                    (csum >> 16) > 0,
                    carry == csum >> 16,
            ;
            csum = (csum & 0xffff) + carry;
        } else {
            assert(csum <= 0xffff) by (bit_vector)
                requires
                    csum >> 16 == 0,
            ;
        }
        i = i + 1;
    }
    proof {
        assert(payload@.take(i as int) =~= payload@);
    }
    csum as u16
}

} // verus!

//! Little-endian byte strings of integers.

use vstd::prelude::*;

verus! {

/// The `width` low bytes of `v`, least significant first. A negative `v`
/// comes out in two's complement.
pub open spec fn le_bytes(v: int, width: nat) -> Seq<u8>
    decreases width,
{
    if width == 0 {
        Seq::empty()
    } else {
        seq![(v % 256) as u8] + le_bytes(v / 256, (width - 1) as nat)
    }
}

/// The number that a little-endian byte string stands for, read as unsigned.
pub open spec fn le_value(bytes: Seq<u8>) -> nat
    decreases bytes.len(),
{
    if bytes.len() == 0 {
        0
    } else {
        (bytes[0] as nat) + 256 * le_value(bytes.drop_first())
    }
}

/// 256 to the power `width`: the number of byte strings of that length.
pub open spec fn radix(width: nat) -> nat
    decreases width,
{
    if width == 0 {
        1
    } else {
        256 * radix((width - 1) as nat)
    }
}

/// A little-endian byte string has as many bytes as were asked for.
pub proof fn lemma_le_bytes_len(v: int, width: nat)
    ensures
        le_bytes(v, width).len() == width,
    decreases width,
{
    if width > 0 {
        lemma_le_bytes_len(v / 256, (width - 1) as nat);
    }
}

/// Reading back the bytes of a number that fits in `width` bytes gives the
/// number itself.
pub proof fn lemma_le_value_of_le_bytes(v: int, width: nat)
    requires
        0 <= v < radix(width),
    ensures
        le_value(le_bytes(v, width)) == v,
    decreases width,
{
    if width > 0 {
        lemma_le_value_of_le_bytes(v / 256, (width - 1) as nat);
        assert(le_bytes(v, width).drop_first() =~= le_bytes(v / 256, (width - 1) as nat));
    }
}

/// Adding a multiple of 256^`width` to a number leaves its `width` low bytes
/// as they were: this is how a negative number gets its two's complement.
pub proof fn lemma_le_bytes_wrap(v: int, k: int, width: nat)
    ensures
        le_bytes(v + k * radix(width), width) == le_bytes(v, width),
    decreases width,
{
    if width > 0 {
        let r = radix((width - 1) as nat) as int;
        assert(k * radix(width) == 256 * (k * r)) by (nonlinear_arith)
            requires
                radix(width) == 256 * r,
        ;
        lemma_le_bytes_wrap(v / 256, k, (width - 1) as nat);
    }
}

/// Appends the `width` low bytes of `x` to `out`, least significant first.
pub fn push_le(out: &mut Vec<u8>, x: u64, width: usize)
    ensures
        final(out)@ == old(out)@ + le_bytes(x as int, width as nat),
{
    let mut rest: u64 = x;
    let mut done: usize = 0;
    while done < width
        invariant
            done <= width,
            out@ + le_bytes(rest as int, (width - done) as nat) == old(out)@ + le_bytes(
                x as int,
                width as nat,
            ),
        decreases width - done,
    {
        assert(le_bytes(rest as int, (width - done) as nat) == seq![(rest % 256) as u8] + le_bytes(
            rest as int / 256,
            (width - done - 1) as nat,
        ));
        out.push((rest % 256) as u8);
        rest = rest / 256;
        done = done + 1;
    }
}

} // verus!

//! What writing and mixing do to a run of frames, stated on amplitudes.

use crate::frame::mixed;
use crate::sample::lemma_saturating_sum_in_range;
use vstd::prelude::*;

verus! {

/// The frame at position `i`, or `quiet` where the run has none.
pub open spec fn frame_at(frames: Seq<Seq<int>>, i: int, quiet: Seq<int>) -> Seq<int> {
    if 0 <= i < frames.len() {
        frames[i]
    } else {
        quiet
    }
}

/// The length of a run of `len` frames once `count` frames have been put
/// at `start`: the run never shrinks, and reaches to the end of what came in.
pub open spec fn grown_len(len: nat, start: nat, count: nat) -> nat {
    if len >= start + count {
        len
    } else {
        start + count
    }
}

/// The run `frames`, made at least `len` long with `quiet` frames.
pub open spec fn padded(frames: Seq<Seq<int>>, len: nat, quiet: Seq<int>) -> Seq<Seq<int>> {
    Seq::new(grown_len(frames.len(), len, 0), |i: int| frame_at(frames, i, quiet))
}

/// The run `frames` with `incoming` written over it from `start` on. A gap
/// between the end of `frames` and `start` is filled with `quiet` frames.
pub open spec fn written_at(
    frames: Seq<Seq<int>>,
    start: nat,
    incoming: Seq<Seq<int>>,
    quiet: Seq<int>,
) -> Seq<Seq<int>> {
    Seq::new(
        grown_len(frames.len(), start, incoming.len()),
        |i: int|
            if start <= i < start + incoming.len() {
                incoming[i - start]
            } else {
                frame_at(frames, i, quiet)
            },
    )
}

/// The run `frames` with `incoming` added onto it from `start` on, each
/// channel's sum held within `lo..=hi`. Where `frames` has no frame yet,
/// `incoming` is added onto a `quiet` frame.
pub open spec fn mixed_at(
    frames: Seq<Seq<int>>,
    start: nat,
    incoming: Seq<Seq<int>>,
    quiet: Seq<int>,
    lo: int,
    hi: int,
) -> Seq<Seq<int>> {
    Seq::new(
        grown_len(frames.len(), start, incoming.len()),
        |i: int|
            if start <= i < start + incoming.len() {
                mixed(frame_at(frames, i, quiet), incoming[i - start], lo, hi)
            } else {
                frame_at(frames, i, quiet)
            },
    )
}

/// Writing never shortens a run, makes it reach to the end of what came in,
/// and leaves every frame before `start` as it was.
pub proof fn lemma_written_at_grows(
    frames: Seq<Seq<int>>,
    start: nat,
    incoming: Seq<Seq<int>>,
    quiet: Seq<int>,
)
    ensures
        written_at(frames, start, incoming, quiet).len() >= frames.len(),
        written_at(frames, start, incoming, quiet).len() >= start + incoming.len(),
        forall|i: int|
            0 <= i < frames.len() && i < start ==> #[trigger] written_at(
                frames,
                start,
                incoming,
                quiet,
            )[i] == frames[i],
        forall|i: int|
            start + incoming.len() <= i < frames.len() ==> #[trigger] written_at(
                frames,
                start,
                incoming,
                quiet,
            )[i] == frames[i],
        forall|i: int|
            start <= i < start + incoming.len() ==> #[trigger] written_at(
                frames,
                start,
                incoming,
                quiet,
            )[i] == incoming[i - start],
{
}

/// Mixing never shortens a run, makes it reach to the end of what came in,
/// and leaves every frame before `start` as it was.
pub proof fn lemma_mixed_at_grows(
    frames: Seq<Seq<int>>,
    start: nat,
    incoming: Seq<Seq<int>>,
    quiet: Seq<int>,
    lo: int,
    hi: int,
)
    ensures
        mixed_at(frames, start, incoming, quiet, lo, hi).len() >= frames.len(),
        mixed_at(frames, start, incoming, quiet, lo, hi).len() >= start + incoming.len(),
        forall|i: int|
            0 <= i < frames.len() && i < start ==> #[trigger] mixed_at(
                frames,
                start,
                incoming,
                quiet,
                lo,
                hi,
            )[i] == frames[i],
        forall|i: int|
            start + incoming.len() <= i < frames.len() ==> #[trigger] mixed_at(
                frames,
                start,
                incoming,
                quiet,
                lo,
                hi,
            )[i] == frames[i],
{
}

/// Writing `incoming` at a `start` beyond the end of a run gives a run of
/// exactly `start + incoming.len()` frames: the old frames unchanged, then
/// quiet frames up to `start`, then `incoming`.
pub proof fn lemma_written_past_end(
    frames: Seq<Seq<int>>,
    start: nat,
    incoming: Seq<Seq<int>>,
    quiet: Seq<int>,
)
    requires
        frames.len() < start,
    ensures
        written_at(frames, start, incoming, quiet).len() == start + incoming.len(),
        forall|i: int|
            0 <= i < frames.len() ==> #[trigger] written_at(frames, start, incoming, quiet)[i]
                == frames[i],
        forall|i: int|
            frames.len() <= i < start ==> #[trigger] written_at(frames, start, incoming, quiet)[i]
                == quiet,
        written_at(frames, start, incoming, quiet) == frames + Seq::new(
            (start - frames.len()) as nat,
            |i: int| quiet,
        ) + incoming,
{
}

/// Mixing `incoming` in at a `start` beyond the end of a run gives a run of
/// exactly `start + incoming.len()` frames: the old frames unchanged, then
/// quiet frames up to `start`, then each frame of `incoming` added onto a
/// quiet frame.
pub proof fn lemma_mixed_past_end(
    frames: Seq<Seq<int>>,
    start: nat,
    incoming: Seq<Seq<int>>,
    quiet: Seq<int>,
    lo: int,
    hi: int,
)
    requires
        frames.len() < start,
    ensures
        mixed_at(frames, start, incoming, quiet, lo, hi).len() == start + incoming.len(),
        forall|i: int|
            0 <= i < frames.len() ==> #[trigger] mixed_at(
                frames,
                start,
                incoming,
                quiet,
                lo,
                hi,
            )[i] == frames[i],
        forall|i: int|
            frames.len() <= i < start ==> #[trigger] mixed_at(
                frames,
                start,
                incoming,
                quiet,
                lo,
                hi,
            )[i] == quiet,
        forall|i: int|
            start <= i < start + incoming.len() ==> #[trigger] mixed_at(
                frames,
                start,
                incoming,
                quiet,
                lo,
                hi,
            )[i] == mixed(quiet, incoming[i - start], lo, hi),
{
}

/// Every channel that mixing has touched lies within `lo..=hi`, whatever the
/// two amplitudes were that met there.
pub proof fn lemma_mixed_at_in_range(
    frames: Seq<Seq<int>>,
    start: nat,
    incoming: Seq<Seq<int>>,
    quiet: Seq<int>,
    lo: int,
    hi: int,
)
    requires
        lo <= hi,
    ensures
        forall|i: int, c: int|
            start <= i < start + incoming.len() && 0 <= c < frame_at(frames, i, quiet).len() ==> lo
                <= #[trigger] mixed_at(frames, start, incoming, quiet, lo, hi)[i][c] <= hi,
{
    assert forall|i: int, c: int|
        start <= i < start + incoming.len() && 0 <= c < frame_at(
            frames,
            i,
            quiet,
        ).len() implies lo <= #[trigger] mixed_at(frames, start, incoming, quiet, lo, hi)[i][c]
        <= hi by {
        lemma_saturating_sum_in_range(
            frame_at(frames, i, quiet)[c],
            incoming[i - start][c],
            lo,
            hi,
        );
    }
}

} // verus!

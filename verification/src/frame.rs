//! Frames: one sample for each channel, all of the same instant.

use crate::sample::{saturating_sum, AudioSample};
use vstd::prelude::*;

verus! {

/// The amplitudes of a frame, channel by channel.
pub open spec fn frame_values<T: AudioSample, const N: usize>(frame: [T; N]) -> Seq<int> {
    Seq::new(N as nat, |c: int| frame[c].value())
}

/// The amplitudes of a run of frames.
pub open spec fn stream_values<T: AudioSample, const N: usize>(
    frames: Seq<[T; N]>,
) -> Seq<Seq<int>> {
    Seq::new(frames.len(), |i: int| frame_values(frames[i]))
}

/// A frame that holds the same amplitude in each of its channels.
pub open spec fn uniform(channels: nat, amplitude: int) -> Seq<int> {
    Seq::new(channels, |c: int| amplitude)
}

/// Two frames added channel by channel, each sum held within `lo..=hi`.
pub open spec fn mixed(under: Seq<int>, over: Seq<int>, lo: int, hi: int) -> Seq<int> {
    Seq::new(under.len(), |c: int| saturating_sum(under[c], over[c], lo, hi))
}

/// A frame with `sample` in every channel.
pub fn filled<T: AudioSample, const N: usize>(sample: T) -> (frame: [T; N])
    ensures
        frame_values(frame) == uniform(N as nat, sample.value()),
{
    [sample;N]
}

/// Spreads a mono sample over all channels of a frame. A source that has
/// run out gives no frame.
pub fn broadcast<T: AudioSample, const N: usize>(mono: Option<T>) -> (frame: Option<[T; N]>)
    ensures
        mono is None ==> frame is None,
        mono matches Some(sample) ==> (frame matches Some(f) && frame_values(f) == uniform(
            N as nat,
            sample.value(),
        )),
{
    match mono {
        Some(sample) => Some(filled(sample)),
        None => None,
    }
}

/// Adds `over` onto `under`, channel by channel, saturating.
pub fn mix<T: AudioSample, const N: usize>(under: [T; N], over: [T; N]) -> (sum: [T; N])
    ensures
        frame_values(sum) == mixed(
            frame_values(under),
            frame_values(over),
            T::MIN.value(),
            T::MAX.value(),
        ),
{
    let mut sum = under;
    let mut c: usize = 0;
    while c < N
        invariant
            c <= N,
            forall|k: int| 0 <= k < c ==> (#[trigger] sum[k]).value() == saturating_sum(
                under[k].value(),
                over[k].value(),
                T::MIN.value(),
                T::MAX.value(),
            ),
            forall|k: int| c <= k < N ==> #[trigger] sum[k] == under[k],
        decreases N - c,
    {
        sum[c] = under[c].saturating_add(over[c]);
        c = c + 1;
    }
    sum
}

} // verus!

//! The audio buffer: frames of samples with their sample rate.

use crate::container::{
    block_align, byte_rate, check_header, container, fits_header, header, stream_bytes,
    write_frame, write_header,
};
use crate::frame::{filled, frame_values, mix, stream_values, uniform};
use crate::mixing::{frame_at, mixed_at, padded, written_at};
pub use crate::sample::AudioSample;
use vstd::layout::size_of;
use vstd::prelude::*;
use vstd::std_specs::iter::IteratorSpec;

verus! {

/// What an audio buffer holds: the amplitudes of its frames, in order, and
/// the number of frames that make one second.
pub struct Audio {
    pub frames: Seq<Seq<int>>,
    pub sample_rate: nat,
}

/// The samples of an audio stream, frame by frame in the order of the WAV
/// file, with the sample rate.
///
/// The number of channels is given by `N`.
pub struct AudioData<T: AudioSample, const N: usize> {
    /// The frames of the stream.
    data: Vec<[T; N]>,
    /// Number of samples per second.
    sample_rate: u32,
}

/// How an incoming frame meets the frame that is already there.
enum Blend {
    /// The incoming frame takes its place.
    Overwrite,
    /// The two are added, saturating.
    Add,
}

impl<T: AudioSample, const N: usize> View for AudioData<T, N> {
    type V = Audio;

    closed spec fn view(&self) -> Audio {
        Audio { frames: stream_values(self.data@), sample_rate: self.sample_rate as nat }
    }
}

impl<T: AudioSample, const N: usize> AudioData<T, N> {
    /// A buffer is played at a positive rate. `new` makes such a buffer from
    /// a positive rate, and no method changes the rate.
    pub open spec fn wf(&self) -> bool {
        self@.sample_rate > 0
    }

    /// Every frame of a buffer has `N` channels, each with an amplitude
    /// that the sample type can hold.
    pub proof fn lemma_frames_valid(&self)
        ensures
            forall|i: int|
                0 <= i < self@.frames.len() ==> (#[trigger] self@.frames[i]).len() == N,
            forall|i: int, c: int|
                0 <= i < self@.frames.len() && 0 <= c < N ==> T::MIN.value()
                    <= #[trigger] self@.frames[i][c] <= T::MAX.value(),
    {
        assert forall|i: int, c: int|
            0 <= i < self@.frames.len() && 0 <= c < N implies T::MIN.value()
            <= #[trigger] self@.frames[i][c] <= T::MAX.value() by {
            self.data@[i][c].lemma_in_range();
        }
    }

    /// The frame of silence that this buffer grows by.
    pub open spec fn quiet() -> Seq<int> {
        uniform(N as nat, T::ZERO.value())
    }

    /// Initializes empty audio data. A rate of zero is kept as it is, and
    /// gives a buffer that no player can use.
    pub fn new(sample_rate: u32) -> (audio: Self)
        ensures
            audio@.frames == Seq::<Seq<int>>::empty(),
            audio@.sample_rate == sample_rate,
            audio.wf() <==> sample_rate > 0,
    {
        let audio = Self { data: Vec::new(), sample_rate };
        audio
    }

    /// Grows the buffer with silence until it has `sample_count` frames.
    fn resize(&mut self, sample_count: u32)
        ensures
            final(self)@.sample_rate == old(self)@.sample_rate,
            final(self)@.frames == padded(old(self)@.frames, sample_count as nat, Self::quiet()),
    {
        let silence: [T; N] = filled(T::ZERO);
        while self.data.len() < sample_count as usize
            invariant
                self.sample_rate == old(self).sample_rate,
                frame_values(silence) == Self::quiet(),
                old(self).data@.len() <= self.data@.len(),
                self.data@.len() <= sample_count || self.data@.len() == old(self).data@.len(),
                forall|i: int|
                    0 <= i < old(self).data@.len() ==> #[trigger] self.data@[i] == old(
                        self,
                    ).data@[i],
                forall|i: int|
                    old(self).data@.len() <= i < self.data@.len() ==> #[trigger] self.data@[i]
                        == silence,
            decreases sample_count - self.data.len(),
        {
            self.data.push(silence);
        }
    }

    /// What blending `incoming` into `frames` from `start` on gives.
    spec fn blended_at(
        blend: Blend,
        frames: Seq<Seq<int>>,
        start: nat,
        incoming: Seq<Seq<int>>,
    ) -> Seq<Seq<int>> {
        match blend {
            Blend::Overwrite => written_at(frames, start, incoming, Self::quiet()),
            Blend::Add => mixed_at(
                frames,
                start,
                incoming,
                Self::quiet(),
                T::MIN.value(),
                T::MAX.value(),
            ),
        }
    }

    /// Visits the frames of the buffer from `init_sample` on, one for each
    /// frame that `iter` gives, and blends the two. Extends the buffer with
    /// silence where it is too short.
    fn do_data<I: Iterator<Item = [T; N]>>(&mut self, init_sample: u32, iter: I, blend: Blend)
        requires
            iter.obeys_prophetic_iter_laws(),
            iter.decrease() is Some,
        ensures
            final(self)@.sample_rate == old(self)@.sample_rate,
            final(self)@.frames == Self::blended_at(
                blend,
                old(self)@.frames,
                init_sample as nat,
                stream_values(iter.remaining()),
            ),
    {
        let mut iter = iter;
        let ghost all = iter.remaining();
        let ghost mut taken: Seq<[T; N]> = Seq::empty();
        let silence: [T; N] = filled(T::ZERO);
        self.resize(init_sample);
        let mut i: usize = init_sample as usize;
        assert(self@.frames.len() == self.data@.len());
        loop
            invariant
                iter.obeys_prophetic_iter_laws(),
                iter.decrease() is Some,
                taken + iter.remaining() == all,
                frame_values(silence) == Self::quiet(),
                i == init_sample + taken.len(),
                i <= self.data@.len(),
                self.sample_rate == old(self).sample_rate,
                self@.frames == Self::blended_at(
                    blend,
                    old(self)@.frames,
                    init_sample as nat,
                    stream_values(taken),
                ),
            ensures
                taken == all,
                self.sample_rate == old(self).sample_rate,
                self@.frames == Self::blended_at(
                    blend,
                    old(self)@.frames,
                    init_sample as nat,
                    stream_values(taken),
                ),
            decreases iter.decrease()->0,
        {
            let ghost before = self@.frames;
            assert(i < before.len() ==> before[i as int] == frame_values(self.data@[i as int]));
            match iter.next() {
                None => {
                    break ;
                },
                Some(t) => {
                    // The frame that is there, or a fresh frame of silence.
                    let under: [T; N] = if i < self.data.len() {
                        self.data[i]
                    } else {
                        self.data.push(silence);
                        silence
                    };
                    self.data[i] = match blend {
                        Blend::Overwrite => t,
                        Blend::Add => mix(under, t),
                    };
                    assert(forall|k: int|
                        0 <= k < before.len() && k != i ==> #[trigger] self@.frames[k]
                            == before[k]);
                    assert(i < self.data.len());
                    proof {
                        taken = taken.push(t);
                    }
                    i = i + 1;
                },
            }
        }
    }

    /// Writes a raw data sample at the end of the audio data.
    pub fn push_data(&mut self, sample: [T; N])
        ensures
            final(self)@.sample_rate == old(self)@.sample_rate,
            final(self)@.frames == old(self)@.frames.push(frame_values(sample)),
    {
        self.data.push(sample);
    }

    /// Writes a raw data buffer at the end of the audio data.
    pub fn extend_data<I: Iterator<Item = [T; N]>>(&mut self, iter: I)
        requires
            iter.obeys_prophetic_iter_laws(),
            iter.decrease() is Some,
        ensures
            final(self)@.sample_rate == old(self)@.sample_rate,
            final(self)@.frames == old(self)@.frames + stream_values(iter.remaining()),
    {
        let mut iter = iter;
        let ghost all = iter.remaining();
        let ghost mut taken: Seq<[T; N]> = Seq::empty();
        loop
            invariant
                iter.obeys_prophetic_iter_laws(),
                iter.decrease() is Some,
                taken + iter.remaining() == all,
                self.sample_rate == old(self).sample_rate,
                self@.frames == old(self)@.frames + stream_values(taken),
            ensures
                taken == all,
                self.sample_rate == old(self).sample_rate,
                self@.frames == old(self)@.frames + stream_values(taken),
            decreases iter.decrease()->0,
        {
            let ghost before = self@.frames;
            match iter.next() {
                None => {
                    break ;
                },
                Some(t) => {
                    self.data.push(t);
                    assert(self@.frames =~= before.push(frame_values(t)));
                    proof {
                        taken = taken.push(t);
                    }
                },
            }
        }
    }

    /// Writes a raw data buffer at a given sample. This overwrites anything
    /// previously written. Where the buffer ends before `init_sample`, the
    /// gap is filled with silence.
    pub fn write_data_at<I: Iterator<Item = [T; N]>>(&mut self, init_sample: u32, iter: I)
        requires
            iter.obeys_prophetic_iter_laws(),
            iter.decrease() is Some,
        ensures
            final(self)@.sample_rate == old(self)@.sample_rate,
            final(self)@.frames == written_at(
                old(self)@.frames,
                init_sample as nat,
                stream_values(iter.remaining()),
                Self::quiet(),
            ),
    {
        self.do_data(init_sample, iter, Blend::Overwrite)
    }

    /// Writes a raw data buffer at a given sample. This is added to anything
    /// previously written, over all channels at the same time; a sum beyond
    /// the sample type's range becomes the nearest extreme.
    pub fn add_data_at<I: Iterator<Item = [T; N]>>(&mut self, init_sample: u32, iter: I)
        requires
            iter.obeys_prophetic_iter_laws(),
            iter.decrease() is Some,
        ensures
            final(self)@.sample_rate == old(self)@.sample_rate,
            final(self)@.frames == mixed_at(
                old(self)@.frames,
                init_sample as nat,
                stream_values(iter.remaining()),
                Self::quiet(),
                T::MIN.value(),
                T::MAX.value(),
            ),
    {
        self.do_data(init_sample, iter, Blend::Add)
    }

    /// Number of frames in the buffer.
    pub fn len(&self) -> (len: usize)
        ensures
            len == self@.frames.len(),
    {
        self.data.len()
    }

    /// Number of samples per second.
    pub fn sample_rate(&self) -> (rate: u32)
        ensures
            rate == self@.sample_rate,
    {
        self.sample_rate
    }

    /// The frame at `index`, if the buffer reaches that far.
    pub fn frame(&self, index: usize) -> (frame: Option<[T; N]>)
        ensures
            index >= self@.frames.len() ==> frame is None,
            index < self@.frames.len() ==> (frame matches Some(f) && frame_values(f)
                == self@.frames[index as int]),
    {
        if index < self.data.len() {
            Some(self.data[index])
        } else {
            None
        }
    }

    /// Whether the header of the container can describe this buffer.
    pub open spec fn encodable(&self) -> bool {
        fits_header(self@.frames.len(), N as nat, self@.sample_rate, size_of::<T>())
    }

    /// Tells whether the header of the container can describe this buffer.
    pub fn can_encode(&self) -> (ok: bool)
        ensures
            ok == self.encodable(),
    {
        check_header(self.data.len(), N, self.sample_rate, core::mem::size_of::<T>())
    }

    /// Number of bytes per second.
    pub fn byte_rate(&self) -> (rate: u32)
        requires
            byte_rate(self@.sample_rate, N as nat, size_of::<T>()) <= u32::MAX,
        ensures
            rate == byte_rate(self@.sample_rate, N as nat, size_of::<T>()),
    {
        let width: usize = core::mem::size_of::<T>();
        if self.sample_rate == 0 || N == 0 || width == 0 {
            assert(self.sample_rate * N * width == 0) by (nonlinear_arith)
                requires
                    self.sample_rate == 0 || N == 0 || width == 0,
            ;
            return 0;
        }
        assert(N * width <= self.sample_rate * N * width && N <= N * width && width <= N * width)
            by (nonlinear_arith)
            requires
                self.sample_rate >= 1,
                N >= 1,
                width >= 1,
        ;
        let block: u64 = N as u64 * width as u64;
        assert(self.sample_rate * N * width == self.sample_rate * block) by (nonlinear_arith)
            requires
                block == N * width,
        ;
        (self.sample_rate as u64 * block) as u32
    }

    /// Number of bytes per frame.
    pub fn block_align(&self) -> (align: u16)
        requires
            block_align(N as nat, size_of::<T>()) <= u16::MAX,
        ensures
            align == block_align(N as nat, size_of::<T>()),
    {
        let width: usize = core::mem::size_of::<T>();
        if N == 0 || width == 0 {
            assert(N * width == 0) by (nonlinear_arith)
                requires
                    N == 0 || width == 0,
            ;
            return 0;
        }
        assert(N <= N * width && width <= N * width) by (nonlinear_arith)
            requires
                N >= 1,
                width >= 1,
        ;
        (N as u64 * width as u64) as u16
    }

    /// The header of the WAV file that holds this buffer.
    pub fn header(&self) -> (bytes: Vec<u8>)
        requires
            self.encodable(),
        ensures
            bytes@ == header(self@.frames.len(), N as nat, self@.sample_rate, size_of::<T>()),
    {
        write_header(self.data.len(), N, self.sample_rate, core::mem::size_of::<T>())
    }

    /// Appends the samples of the buffer to `out`: frame by frame, channel
    /// by channel, each sample little-endian.
    pub fn write_samples(&self, out: &mut Vec<u8>)
        ensures
            final(out)@ == old(out)@ + stream_bytes(self@.frames, size_of::<T>()),
    {
        let ghost frames = self@.frames;
        let mut i: usize = 0;
        while i < self.data.len()
            invariant
                i <= self.data@.len(),
                frames == self@.frames,
                frames.len() == self.data@.len(),
                out@ == old(out)@ + stream_bytes(frames.take(i as int), size_of::<T>()),
            decreases self.data@.len() - i,
        {
            write_frame(out, &self.data[i]);
            assert(frames.take(i + 1).drop_last() =~= frames.take(i as int));
            i = i + 1;
        }
        assert(frames.take(self.data@.len() as int) =~= frames);
    }

    /// The bytes of the WAV file that holds this buffer.
    pub fn encode(&self) -> (bytes: Vec<u8>)
        requires
            self.encodable(),
        ensures
            bytes@ == container(self@.frames, N as nat, self@.sample_rate, size_of::<T>()),
    {
        let mut bytes = self.header();
        self.write_samples(&mut bytes);
        bytes
    }
}

} // verus!

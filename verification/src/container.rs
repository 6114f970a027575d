//! The RIFF/WAVE container for uncompressed integer PCM: a header of 44
//! bytes, then the samples, frame by frame and channel by channel. Every
//! number in it is little-endian.

use crate::bytes::{
    le_bytes, le_value, lemma_le_bytes_len, lemma_le_value_of_le_bytes, push_le, radix,
};
use crate::frame::frame_values;
use crate::sample::AudioSample;
use vstd::layout::size_of;
use vstd::prelude::*;

verus! {

/// The four bytes "RIFF".
pub open spec fn riff_tag() -> Seq<u8> {
    seq![0x52u8, 0x49u8, 0x46u8, 0x46u8]
}

/// The eight bytes "WAVEfmt ".
pub open spec fn wave_fmt_tag() -> Seq<u8> {
    seq![0x57u8, 0x41u8, 0x56u8, 0x45u8, 0x66u8, 0x6du8, 0x74u8, 0x20u8]
}

/// The four bytes "data".
pub open spec fn data_tag() -> Seq<u8> {
    seq![0x64u8, 0x61u8, 0x74u8, 0x61u8]
}

/// The number of bytes that one frame takes.
pub open spec fn block_align(channels: nat, width: nat) -> nat {
    channels * width
}

/// The number of bytes that one second of sound takes.
pub open spec fn byte_rate(sample_rate: nat, channels: nat, width: nat) -> nat {
    sample_rate * channels * width
}

/// The number of bytes that all the samples take.
pub open spec fn data_size(frame_count: nat, channels: nat, width: nat) -> nat {
    frame_count * channels * width
}

/// Whether every field of the header can hold its number: the header has
/// two bytes each for the channel count, the block align and the bits per
/// sample, and four bytes each for the sample rate, the byte rate and the
/// chunk size.
pub open spec fn fits_header(frame_count: nat, channels: nat, sample_rate: nat, width: nat) -> bool {
    &&& channels <= u16::MAX
    &&& sample_rate <= u32::MAX
    &&& width * 8 <= u16::MAX
    &&& block_align(channels, width) <= u16::MAX
    &&& byte_rate(sample_rate, channels, width) <= u32::MAX
    &&& 36 + data_size(frame_count, channels, width) <= u32::MAX
}

/// The header of a stream of `frame_count` frames of `channels` samples,
/// `width` bytes each, played at `sample_rate` frames a second.
pub open spec fn header(frame_count: nat, channels: nat, sample_rate: nat, width: nat) -> Seq<u8> {
    let size = data_size(frame_count, channels, width) as int;
    let rate = byte_rate(sample_rate, channels, width) as int;
    let align = block_align(channels, width) as int;
    let bits = width as int * 8;
    riff_tag() + le_bytes(36 + size, 4) + wave_fmt_tag() + le_bytes(16, 4) + le_bytes(1, 2)
        + le_bytes(channels as int, 2) + le_bytes(sample_rate as int, 4) + le_bytes(rate, 4)
        + le_bytes(align, 2) + le_bytes(bits, 2) + data_tag() + le_bytes(size, 4)
}

/// The bytes of one frame: its channels in order, `width` bytes each.
pub open spec fn frame_bytes(frame: Seq<int>, width: nat) -> Seq<u8>
    decreases frame.len(),
{
    if frame.len() == 0 {
        Seq::empty()
    } else {
        frame_bytes(frame.drop_last(), width) + le_bytes(frame.last(), width)
    }
}

/// The bytes of a run of frames, in order.
pub open spec fn stream_bytes(frames: Seq<Seq<int>>, width: nat) -> Seq<u8>
    decreases frames.len(),
{
    if frames.len() == 0 {
        Seq::empty()
    } else {
        stream_bytes(frames.drop_last(), width) + frame_bytes(frames.last(), width)
    }
}

/// The whole container: the header, then the samples.
pub open spec fn container(
    frames: Seq<Seq<int>>,
    channels: nat,
    sample_rate: nat,
    width: nat,
) -> Seq<u8> {
    header(frames.len(), channels, sample_rate, width) + stream_bytes(frames, width)
}

/// The header is 44 bytes long, and each of its fields reads back as the
/// number it was written from. So the data size that it announces is
/// `frame_count * channels * width`, and its byte rate is the sample rate
/// times its block align.
pub proof fn lemma_header_fields(frame_count: nat, channels: nat, sample_rate: nat, width: nat)
    requires
        fits_header(frame_count, channels, sample_rate, width),
    ensures
        ({
            let h = header(frame_count, channels, sample_rate, width);
            &&& h.len() == 44
            &&& h.subrange(0, 4) == riff_tag()
            &&& le_value(h.subrange(4, 8)) == 36 + frame_count * channels * width
            &&& h.subrange(8, 16) == wave_fmt_tag()
            &&& le_value(h.subrange(16, 20)) == 16
            &&& le_value(h.subrange(20, 22)) == 1
            &&& le_value(h.subrange(22, 24)) == channels
            &&& le_value(h.subrange(24, 28)) == sample_rate
            &&& le_value(h.subrange(28, 32)) == sample_rate * channels * width
            &&& le_value(h.subrange(32, 34)) == channels * width
            &&& le_value(h.subrange(34, 36)) == width * 8
            &&& h.subrange(36, 40) == data_tag()
            &&& le_value(h.subrange(40, 44)) == frame_count * channels * width
            &&& le_value(h.subrange(28, 32)) == sample_rate * le_value(h.subrange(32, 34))
        }),
{
    let size = data_size(frame_count, channels, width) as int;
    let rate = byte_rate(sample_rate, channels, width) as int;
    let align = block_align(channels, width) as int;
    let bits = width as int * 8;
    let h = header(frame_count, channels, sample_rate, width);
    assert(radix(2) == 0x1_0000 && radix(4) == 0x1_0000_0000) by {
        reveal_with_fuel(radix, 5);
    }
    assert(rate == sample_rate * align) by (nonlinear_arith)
        requires
            rate == sample_rate * channels * width,
            align == channels * width,
    ;
    lemma_le_bytes_len(36 + size, 4);
    lemma_le_bytes_len(16, 4);
    lemma_le_bytes_len(1, 2);
    lemma_le_bytes_len(channels as int, 2);
    lemma_le_bytes_len(sample_rate as int, 4);
    lemma_le_bytes_len(rate, 4);
    lemma_le_bytes_len(align, 2);
    lemma_le_bytes_len(bits, 2);
    lemma_le_bytes_len(size, 4);
    lemma_le_value_of_le_bytes(36 + size, 4);
    lemma_le_value_of_le_bytes(16, 4);
    lemma_le_value_of_le_bytes(1, 2);
    lemma_le_value_of_le_bytes(channels as int, 2);
    lemma_le_value_of_le_bytes(sample_rate as int, 4);
    lemma_le_value_of_le_bytes(rate, 4);
    lemma_le_value_of_le_bytes(align, 2);
    lemma_le_value_of_le_bytes(bits, 2);
    lemma_le_value_of_le_bytes(size, 4);
    assert(h.subrange(4, 8) =~= le_bytes(36 + size, 4));
    assert(h.subrange(16, 20) =~= le_bytes(16, 4));
    assert(h.subrange(20, 22) =~= le_bytes(1, 2));
    assert(h.subrange(22, 24) =~= le_bytes(channels as int, 2));
    assert(h.subrange(24, 28) =~= le_bytes(sample_rate as int, 4));
    assert(h.subrange(28, 32) =~= le_bytes(rate, 4));
    assert(h.subrange(32, 34) =~= le_bytes(align, 2));
    assert(h.subrange(34, 36) =~= le_bytes(bits, 2));
    assert(h.subrange(40, 44) =~= le_bytes(size, 4));
}

/// A frame takes `width` bytes for each of its channels.
pub proof fn lemma_frame_bytes_len(frame: Seq<int>, width: nat)
    ensures
        frame_bytes(frame, width).len() == frame.len() * width,
    decreases frame.len(),
{
    if frame.len() > 0 {
        lemma_frame_bytes_len(frame.drop_last(), width);
        lemma_le_bytes_len(frame.last(), width);
        assert((frame.len() - 1) * width + width == frame.len() * width) by (nonlinear_arith);
    }
}

/// A run of frames of `channels` channels each takes as many bytes as the
/// header announces as its data size.
pub proof fn lemma_stream_bytes_len(frames: Seq<Seq<int>>, channels: nat, width: nat)
    requires
        forall|i: int| 0 <= i < frames.len() ==> (#[trigger] frames[i]).len() == channels,
    ensures
        stream_bytes(frames, width).len() == data_size(frames.len(), channels, width),
    decreases frames.len(),
{
    if frames.len() > 0 {
        lemma_stream_bytes_len(frames.drop_last(), channels, width);
        lemma_frame_bytes_len(frames.last(), width);
        assert((frames.len() - 1) * channels * width + channels * width == frames.len() * channels
            * width) by (nonlinear_arith);
    } else {
        assert(frames.len() * channels * width == 0) by (nonlinear_arith)
            requires
                frames.len() == 0,
        ;
    }
}

/// A container is its header of 44 bytes and then the samples, and the
/// data size that the header announces is the number of bytes that follow
/// it.
pub proof fn lemma_container_layout(
    frames: Seq<Seq<int>>,
    channels: nat,
    sample_rate: nat,
    width: nat,
)
    requires
        fits_header(frames.len(), channels, sample_rate, width),
        forall|i: int| 0 <= i < frames.len() ==> (#[trigger] frames[i]).len() == channels,
    ensures
        ({
            let file = container(frames, channels, sample_rate, width);
            &&& file.len() == 44 + frames.len() * channels * width
            &&& file.subrange(0, 44) == header(frames.len(), channels, sample_rate, width)
            &&& file.subrange(44, file.len() as int) == stream_bytes(frames, width)
            &&& le_value(file.subrange(40, 44)) == stream_bytes(frames, width).len()
        }),
{
    let h = header(frames.len(), channels, sample_rate, width);
    let file = container(frames, channels, sample_rate, width);
    lemma_header_fields(frames.len(), channels, sample_rate, width);
    lemma_stream_bytes_len(frames, channels, width);
    assert(file.subrange(0, 44) =~= h);
    assert(file.subrange(44, file.len() as int) =~= stream_bytes(frames, width));
    assert(file.subrange(40, 44) =~= h.subrange(40, 44));
}

/// Tells whether the header can describe such a stream.
pub fn check_header(
    frame_count: usize,
    channels: usize,
    sample_rate: u32,
    width: usize,
) -> (ok: bool)
    ensures
        ok == fits_header(frame_count as nat, channels as nat, sample_rate as nat, width as nat),
{
    if channels > 0xffff || width > 0x1fff {
        return false;
    }
    assert(channels * width <= 0xffff * 0x1fff) by (nonlinear_arith)
        requires
            channels <= 0xffff,
            width <= 0x1fff,
    ;
    let block: u64 = channels as u64 * width as u64;
    if block > 0xffff {
        return false;
    }
    assert(sample_rate * channels * width == sample_rate * block) by (nonlinear_arith)
        requires
            block == channels * width,
    ;
    assert(frame_count * channels * width == frame_count * block) by (nonlinear_arith)
        requires
            block == channels * width,
    ;
    assert(sample_rate * block <= 0xffff_ffff * 0xffff) by (nonlinear_arith)
        requires
            sample_rate <= 0xffff_ffff,
            block <= 0xffff,
    ;
    if sample_rate as u64 * block > 0xffff_ffff {
        return false;
    }
    if block == 0 {
        assert(frame_count * block == 0) by (nonlinear_arith)
            requires
                block == 0,
        ;
        return true;
    }
    if frame_count > 0xffff_ffff {
        assert(frame_count * block > 0xffff_ffff) by (nonlinear_arith)
            requires
                frame_count > 0xffff_ffff,
                block >= 1,
        ;
        return false;
    }
    assert(frame_count * block <= 0xffff_ffff * 0xffff) by (nonlinear_arith)
        requires
            frame_count <= 0xffff_ffff,
            block <= 0xffff,
    ;
    36 + frame_count as u64 * block <= 0xffff_ffff
}

/// Writes the header of such a stream.
pub fn write_header(
    frame_count: usize,
    channels: usize,
    sample_rate: u32,
    width: usize,
) -> (out: Vec<u8>)
    requires
        fits_header(frame_count as nat, channels as nat, sample_rate as nat, width as nat),
    ensures
        out@ == header(frame_count as nat, channels as nat, sample_rate as nat, width as nat),
{
    let block: u64 = channels as u64 * width as u64;
    assert(sample_rate * channels * width == sample_rate * block) by (nonlinear_arith)
        requires
            block == channels * width,
    ;
    assert(frame_count * channels * width == frame_count * block) by (nonlinear_arith)
        requires
            block == channels * width,
    ;
    let rate: u64 = sample_rate as u64 * block;
    let size: u64 = frame_count as u64 * block;
    let mut out: Vec<u8> = Vec::new();
    // "RIFF", then the size of what follows these eight bytes
    out.push(0x52);
    out.push(0x49);
    out.push(0x46);
    out.push(0x46);
    push_le(&mut out, 36 + size, 4);
    // "WAVEfmt ", then the format chunk: 16 bytes of uncompressed PCM
    out.push(0x57);
    out.push(0x41);
    out.push(0x56);
    out.push(0x45);
    out.push(0x66);
    out.push(0x6d);
    out.push(0x74);
    out.push(0x20);
    push_le(&mut out, 16, 4);
    push_le(&mut out, 1, 2);
    push_le(&mut out, channels as u64, 2);
    push_le(&mut out, sample_rate as u64, 4);
    push_le(&mut out, rate, 4);
    push_le(&mut out, block, 2);
    push_le(&mut out, width as u64 * 8, 2);
    // "data", then the size of the samples
    out.push(0x64);
    out.push(0x61);
    out.push(0x74);
    out.push(0x61);
    push_le(&mut out, size, 4);
    out
}

/// Appends the bytes of one frame to `out`.
pub fn write_frame<T: AudioSample, const N: usize>(out: &mut Vec<u8>, frame: &[T; N])
    ensures
        final(out)@ == old(out)@ + frame_bytes(frame_values(*frame), size_of::<T>()),
{
    let ghost values = frame_values(*frame);
    let mut c: usize = 0;
    while c < N
        invariant
            c <= N,
            values == frame_values(*frame),
            out@ == old(out)@ + frame_bytes(values.take(c as int), size_of::<T>()),
        decreases N - c,
    {
        let mut bytes = frame[c].to_le_bytes();
        out.append(&mut bytes);
        assert(values.take(c + 1).drop_last() =~= values.take(c as int));
        c = c + 1;
    }
    assert(values.take(N as int) =~= values);
}

} // verus!

//! The numeric types a sample can be stored in.

use crate::bytes::{le_bytes, lemma_le_bytes_wrap, push_le, radix};
use vstd::layout::size_of;
use vstd::prelude::*;

verus! {

/// The sum of two amplitudes, held within `lo..=hi` instead of wrapping.
pub open spec fn saturating_sum(a: int, b: int, lo: int, hi: int) -> int {
    if a + b < lo {
        lo
    } else if a + b > hi {
        hi
    } else {
        a + b
    }
}

/// A saturating sum never leaves the range it is held in, and is the plain
/// sum wherever that lies in the range.
pub proof fn lemma_saturating_sum_in_range(a: int, b: int, lo: int, hi: int)
    requires
        lo <= hi,
    ensures
        lo <= saturating_sum(a, b, lo, hi) <= hi,
        lo <= a + b <= hi ==> saturating_sum(a, b, lo, hi) == a + b,
        a + b > hi ==> saturating_sum(a, b, lo, hi) == hi,
        a + b < lo ==> saturating_sum(a, b, lo, hi) == lo,
{
}

/// One of the primitive types that a sample of an audio stream can have.
/// The type decides the number of bits per sample.
pub trait AudioSample: Copy + Sized {
    /// The value that stands for no sound.
    const ZERO: Self;

    /// The lowest value of the type.
    const MIN: Self;

    /// The highest value of the type.
    const MAX: Self;

    /// The amplitude that a sample holds, as a number.
    spec fn value(self) -> int;

    /// Silence lies between the two extremes.
    proof fn lemma_sentinels()
        ensures
            Self::MIN.value() <= Self::ZERO.value() <= Self::MAX.value(),
    ;

    /// Every sample lies between the two extremes.
    proof fn lemma_in_range(self)
        ensures
            Self::MIN.value() <= self.value() <= Self::MAX.value(),
    ;

    /// Two samples of the same amplitude are the same sample.
    proof fn lemma_value_decides(self, other: Self)
        ensures
            self.value() == other.value() ==> self == other,
    ;

    /// Adds two samples. A sum beyond the type's range becomes the nearest
    /// extreme.
    fn saturating_add(self, other: Self) -> (sum: Self)
        ensures
            sum.value() == saturating_sum(
                self.value(),
                other.value(),
                Self::MIN.value(),
                Self::MAX.value(),
            ),
    ;

    /// The bytes of the sample, least significant first, as many as the type
    /// takes in memory.
    fn to_le_bytes(self) -> (bytes: Vec<u8>)
        ensures
            bytes@ == le_bytes(self.value(), size_of::<Self>()),
    ;
}

/// The saturating sum of any two samples of a type is an amplitude that the
/// type can hold: it never exceeds `MAX` nor falls below `MIN`, whatever the
/// plain sum would be.
pub proof fn lemma_saturating_add_in_range<T: AudioSample>(a: T, b: T)
    ensures
        T::MIN.value() <= saturating_sum(a.value(), b.value(), T::MIN.value(), T::MAX.value())
            <= T::MAX.value(),
{
    T::lemma_sentinels();
}

impl AudioSample for u8 {
    const ZERO: u8 = 128;

    const MIN: u8 = u8::MIN;

    const MAX: u8 = u8::MAX;

    open spec fn value(self) -> int {
        self as int
    }

    proof fn lemma_sentinels() {
    }

    proof fn lemma_in_range(self) {
    }

    proof fn lemma_value_decides(self, other: Self) {
    }

    fn saturating_add(self, other: Self) -> (sum: Self) {
        u8::saturating_add(self, other)
    }

    fn to_le_bytes(self) -> (bytes: Vec<u8>) {
        broadcast use vstd::layout::layout_of_primitives;

        let mut bytes: Vec<u8> = Vec::new();
        push_le(&mut bytes, self as u64, 1);
        bytes
    }
}

impl AudioSample for i16 {
    const ZERO: i16 = 0;

    const MIN: i16 = i16::MIN;

    const MAX: i16 = i16::MAX;

    open spec fn value(self) -> int {
        self as int
    }

    proof fn lemma_sentinels() {
    }

    proof fn lemma_in_range(self) {
    }

    proof fn lemma_value_decides(self, other: Self) {
    }

    fn saturating_add(self, other: Self) -> (sum: Self) {
        let wide: i32 = self as i32 + other as i32;
        if wide < i16::MIN as i32 {
            i16::MIN
        } else if wide > i16::MAX as i32 {
            i16::MAX
        } else {
            wide as i16
        }
    }

    fn to_le_bytes(self) -> (bytes: Vec<u8>) {
        broadcast use vstd::layout::layout_of_primitives;

        let wide: i64 = self as i64;
        let unsigned: u64 = if wide < 0 {
            (wide + 0x1_0000) as u64
        } else {
            wide as u64
        };
        let mut bytes: Vec<u8> = Vec::new();
        push_le(&mut bytes, unsigned, 2);
        proof {
            assert(radix(2) == 0x1_0000) by {
                reveal_with_fuel(radix, 3);
            }
            lemma_le_bytes_wrap(self as int, if wide < 0 { 1 } else { 0 }, 2);
        }
        bytes
    }
}

impl AudioSample for i32 {
    const ZERO: i32 = 0;

    const MIN: i32 = i32::MIN;

    const MAX: i32 = i32::MAX;

    open spec fn value(self) -> int {
        self as int
    }

    proof fn lemma_sentinels() {
    }

    proof fn lemma_in_range(self) {
    }

    proof fn lemma_value_decides(self, other: Self) {
    }

    fn saturating_add(self, other: Self) -> (sum: Self) {
        let wide: i64 = self as i64 + other as i64;
        if wide < i32::MIN as i64 {
            i32::MIN
        } else if wide > i32::MAX as i64 {
            i32::MAX
        } else {
            wide as i32
        }
    }

    fn to_le_bytes(self) -> (bytes: Vec<u8>) {
        broadcast use vstd::layout::layout_of_primitives;

        let wide: i64 = self as i64;
        let unsigned: u64 = if wide < 0 {
            (wide + 0x1_0000_0000) as u64
        } else {
            wide as u64
        };
        let mut bytes: Vec<u8> = Vec::new();
        push_le(&mut bytes, unsigned, 4);
        proof {
            assert(radix(4) == 0x1_0000_0000) by {
                reveal_with_fuel(radix, 5);
            }
            lemma_le_bytes_wrap(self as int, if wide < 0 { 1 } else { 0 }, 4);
        }
        bytes
    }
}

/// Unsigned 8-bit samples are silent at 128 and range over 0..=255.
pub proof fn lemma_sentinels_u8()
    ensures
        <u8 as AudioSample>::ZERO == 128,
        <u8 as AudioSample>::MIN == 0,
        <u8 as AudioSample>::MAX == 255,
{
}

/// Signed 16-bit samples are silent at 0 and range over -32768..=32767.
pub proof fn lemma_sentinels_i16()
    ensures
        <i16 as AudioSample>::ZERO == 0,
        <i16 as AudioSample>::MIN == -32768,
        <i16 as AudioSample>::MAX == 32767,
{
}

/// Signed 32-bit samples are silent at 0 and range over
/// -2147483648..=2147483647.
pub proof fn lemma_sentinels_i32()
    ensures
        <i32 as AudioSample>::ZERO == 0,
        <i32 as AudioSample>::MIN == -2147483648,
        <i32 as AudioSample>::MAX == 2147483647,
{
}

} // verus!

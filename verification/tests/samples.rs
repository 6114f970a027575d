use wavegen::bytes::push_le;
use wavegen::frame::{broadcast, filled, mix};
use wavegen::sample::AudioSample;

#[test]
fn sentinels_of_u8() {
    assert_eq!(<u8 as AudioSample>::ZERO, 128);
    assert_eq!(<u8 as AudioSample>::MIN, 0);
    assert_eq!(<u8 as AudioSample>::MAX, 255);
}

#[test]
fn sentinels_of_i16() {
    assert_eq!(<i16 as AudioSample>::ZERO, 0);
    assert_eq!(<i16 as AudioSample>::MIN, -32768);
    assert_eq!(<i16 as AudioSample>::MAX, 32767);
}

#[test]
fn sentinels_of_i32() {
    assert_eq!(<i32 as AudioSample>::ZERO, 0);
    assert_eq!(<i32 as AudioSample>::MIN, -2147483648);
    assert_eq!(<i32 as AudioSample>::MAX, 2147483647);
}

#[test]
fn silence_lies_between_the_extremes() {
    assert!(<u8 as AudioSample>::MIN <= <u8 as AudioSample>::ZERO);
    assert!(<u8 as AudioSample>::ZERO <= <u8 as AudioSample>::MAX);
    assert!(<i16 as AudioSample>::MIN <= <i16 as AudioSample>::ZERO);
    assert!(<i16 as AudioSample>::ZERO <= <i16 as AudioSample>::MAX);
    assert!(<i32 as AudioSample>::MIN <= <i32 as AudioSample>::ZERO);
    assert!(<i32 as AudioSample>::ZERO <= <i32 as AudioSample>::MAX);
}

#[test]
fn saturating_add_u8() {
    assert_eq!(AudioSample::saturating_add(100u8, 27u8), 127);
    assert_eq!(AudioSample::saturating_add(200u8, 55u8), 255);
    assert_eq!(AudioSample::saturating_add(200u8, 56u8), 255);
    assert_eq!(AudioSample::saturating_add(255u8, 255u8), 255);
    assert_eq!(AudioSample::saturating_add(0u8, 0u8), 0);
}

#[test]
fn saturating_add_i16() {
    assert_eq!(AudioSample::saturating_add(100i16, -150i16), -50);
    assert_eq!(AudioSample::saturating_add(32767i16, 0i16), 32767);
    assert_eq!(AudioSample::saturating_add(32767i16, 1i16), 32767);
    assert_eq!(AudioSample::saturating_add(32767i16, 32767i16), 32767);
    assert_eq!(AudioSample::saturating_add(-32768i16, -1i16), -32768);
    assert_eq!(AudioSample::saturating_add(-32768i16, -32768i16), -32768);
    assert_eq!(AudioSample::saturating_add(-32768i16, 32767i16), -1);
}

#[test]
fn saturating_add_i32() {
    assert_eq!(AudioSample::saturating_add(1_000_000i32, 2_000_000i32), 3_000_000);
    assert_eq!(AudioSample::saturating_add(i32::MAX, 1i32), i32::MAX);
    assert_eq!(AudioSample::saturating_add(i32::MAX, i32::MAX), i32::MAX);
    assert_eq!(AudioSample::saturating_add(i32::MIN, -1i32), i32::MIN);
    assert_eq!(AudioSample::saturating_add(i32::MIN, i32::MIN), i32::MIN);
    assert_eq!(AudioSample::saturating_add(i32::MIN, i32::MAX), -1);
}

#[test]
fn saturating_add_agrees_with_the_clamped_sum_on_every_pair_of_u8() {
    for a in 0u8..=255 {
        for b in 0u8..=255 {
            let exact = a as i32 + b as i32;
            let held = exact.clamp(0, 255) as u8;
            assert_eq!(AudioSample::saturating_add(a, b), held);
        }
    }
}

#[test]
fn saturating_add_agrees_with_the_clamped_sum_on_i16_near_the_extremes() {
    let picks: [i16; 9] = [-32768, -32767, -20000, -1, 0, 1, 20000, 32766, 32767];
    for a in picks {
        for b in picks {
            let exact = a as i32 + b as i32;
            let held = exact.clamp(-32768, 32767) as i16;
            let sum = AudioSample::saturating_add(a, b);
            assert_eq!(sum, held);
            assert!(sum >= <i16 as AudioSample>::MIN && sum <= <i16 as AudioSample>::MAX);
        }
    }
}

#[test]
fn le_bytes_of_u8() {
    assert_eq!(AudioSample::to_le_bytes(0u8), vec![0u8]);
    assert_eq!(AudioSample::to_le_bytes(128u8), vec![128u8]);
    assert_eq!(AudioSample::to_le_bytes(255u8), vec![255u8]);
}

#[test]
fn le_bytes_of_i16() {
    assert_eq!(AudioSample::to_le_bytes(100i16), vec![100u8, 0]);
    assert_eq!(AudioSample::to_le_bytes(-50i16), vec![0xce_u8, 0xff]);
    assert_eq!(AudioSample::to_le_bytes(200i16), vec![200u8, 0]);
    assert_eq!(AudioSample::to_le_bytes(0x1234i16), vec![0x34u8, 0x12]);
    assert_eq!(AudioSample::to_le_bytes(i16::MIN), vec![0u8, 0x80]);
    assert_eq!(AudioSample::to_le_bytes(i16::MAX), vec![0xffu8, 0x7f]);
    assert_eq!(AudioSample::to_le_bytes(-1i16), vec![0xffu8, 0xff]);
}

#[test]
fn le_bytes_of_i32() {
    assert_eq!(AudioSample::to_le_bytes(0x12345678i32), vec![0x78u8, 0x56, 0x34, 0x12]);
    assert_eq!(AudioSample::to_le_bytes(-2i32), vec![0xfeu8, 0xff, 0xff, 0xff]);
    assert_eq!(AudioSample::to_le_bytes(i32::MIN), vec![0u8, 0, 0, 0x80]);
    assert_eq!(AudioSample::to_le_bytes(i32::MAX), vec![0xffu8, 0xff, 0xff, 0x7f]);
    assert_eq!(AudioSample::to_le_bytes(0i32), vec![0u8, 0, 0, 0]);
}

#[test]
fn le_bytes_agree_with_the_primitive_encoding() {
    for v in [i16::MIN, -12345, -1, 0, 1, 255, 256, 12345, i16::MAX] {
        assert_eq!(AudioSample::to_le_bytes(v), i16::to_le_bytes(v).to_vec());
    }
    for v in [i32::MIN, -123456789, -65536, -1, 0, 1, 65535, 65536, 123456789, i32::MAX] {
        assert_eq!(AudioSample::to_le_bytes(v), i32::to_le_bytes(v).to_vec());
    }
    for v in 0u8..=255 {
        assert_eq!(AudioSample::to_le_bytes(v), u8::to_le_bytes(v).to_vec());
    }
}

#[test]
fn le_bytes_are_as_wide_as_the_type() {
    assert_eq!(AudioSample::to_le_bytes(7u8).len(), std::mem::size_of::<u8>());
    assert_eq!(AudioSample::to_le_bytes(7i16).len(), std::mem::size_of::<i16>());
    assert_eq!(AudioSample::to_le_bytes(7i32).len(), std::mem::size_of::<i32>());
}

#[test]
fn push_le_appends_the_low_bytes() {
    let mut out = vec![9u8];
    push_le(&mut out, 0x0102_0304_0506_0708, 4);
    assert_eq!(out, vec![9u8, 0x08, 0x07, 0x06, 0x05]);
    push_le(&mut out, 16000, 4);
    assert_eq!(out, vec![9u8, 0x08, 0x07, 0x06, 0x05, 0x80, 0x3e, 0, 0]);
    push_le(&mut out, 0xabcd, 0);
    assert_eq!(out.len(), 9);
    push_le(&mut out, 0xabcd, 2);
    assert_eq!(&out[9..], &[0xcdu8, 0xab]);
}

#[test]
fn push_le_pads_with_zeros_beyond_eight_bytes() {
    let mut out: Vec<u8> = Vec::new();
    push_le(&mut out, u64::MAX, 10);
    assert_eq!(out, vec![0xffu8, 0xff, 0xff, 0xff, 0xff, 0xff, 0xff, 0xff, 0, 0]);
}

#[test]
fn filled_frame_holds_the_sample_in_every_channel() {
    let frame: [i16; 4] = filled(-7i16);
    assert_eq!(frame, [-7i16, -7, -7, -7]);
    let silent: [u8; 2] = filled(<u8 as AudioSample>::ZERO);
    assert_eq!(silent, [128u8, 128]);
    let none: [i32; 0] = filled(5i32);
    assert_eq!(none.len(), 0);
}

#[test]
fn broadcast_spreads_a_mono_sample() {
    let frame: Option<[i32; 3]> = broadcast(Some(42i32));
    assert_eq!(frame, Some([42i32, 42, 42]));
}

#[test]
fn broadcast_of_an_exhausted_source_is_exhausted() {
    let frame: Option<[i32; 3]> = broadcast(None);
    assert_eq!(frame, None);
}

#[test]
fn mix_adds_channel_by_channel() {
    let sum = mix([100i16, -100, 32000, -32000], [50i16, -50, 1000, -1000]);
    assert_eq!(sum, [150i16, -150, 32767, -32768]);
}

#[test]
fn mix_of_u8_saturates_at_the_top() {
    let sum = mix([128u8, 200, 0], [128u8, 10, 0]);
    assert_eq!(sum, [255u8, 210, 0]);
}

use eqapo_gui::sample_decoder::{calculate_peak_from_buffer, float_bits_level, FULL_SCALE, LEVEL_CAP};

fn float_bytes(values: &[f32]) -> Vec<u8> {
    let mut out = Vec::new();
    for v in values {
        out.extend_from_slice(&v.to_le_bytes());
    }
    out
}

#[test]
fn zero_buffer_is_silent_for_every_format() {
    let zeros = vec![0u8; 64];
    for (bps, is_float) in [(2u16, false), (3, false), (4, false), (4, true), (2, true), (3, true)] {
        assert_eq!(calculate_peak_from_buffer(&zeros, 8, bps, is_float), 0);
    }
}

#[test]
fn pcm16_most_negative_sample_is_full_scale() {
    let buf = (-32768i16).to_le_bytes();
    assert_eq!(calculate_peak_from_buffer(&buf, 1, 2, false), FULL_SCALE);
}

#[test]
fn pcm24_most_negative_sample_is_full_scale() {
    let buf = [0x00u8, 0x00, 0x80];
    assert_eq!(calculate_peak_from_buffer(&buf, 1, 3, false), FULL_SCALE);
}

#[test]
fn float_minus_half_is_half_scale() {
    let buf = float_bytes(&[-0.5]);
    assert_eq!(calculate_peak_from_buffer(&buf, 1, 4, true), FULL_SCALE / 2);
}

#[test]
fn pcm16_peak_is_largest_magnitude() {
    let mut buf = Vec::new();
    for s in [100i16, -16384, 8000, 0] {
        buf.extend_from_slice(&s.to_le_bytes());
    }
    // 16384 / 32768 = 0.5
    assert_eq!(calculate_peak_from_buffer(&buf, 4, 2, false), FULL_SCALE / 2);
    // only the first sample counted
    assert_eq!(calculate_peak_from_buffer(&buf, 1, 2, false), 100 << 16);
}

#[test]
fn pcm24_positive_sample() {
    // 0x400000 = half of 2^23
    let buf = [0x00u8, 0x00, 0x40, 0xff, 0xff, 0xff];
    assert_eq!(calculate_peak_from_buffer(&buf, 2, 3, false), FULL_SCALE / 2);
    // -1 in 24 bits is 256 on the 2^31 scale
    assert_eq!(calculate_peak_from_buffer(&buf[3..], 1, 3, false), 256);
}

#[test]
fn pcm32_extremes() {
    let mut buf = Vec::new();
    buf.extend_from_slice(&i32::MAX.to_le_bytes());
    buf.extend_from_slice(&i32::MIN.to_le_bytes());
    assert_eq!(calculate_peak_from_buffer(&buf, 1, 4, false), i32::MAX as u64);
    assert_eq!(calculate_peak_from_buffer(&buf, 2, 4, false), FULL_SCALE);
}

#[test]
fn float_over_full_scale_and_nan() {
    let buf = float_bytes(&[0.25, f32::NAN, -1.25]);
    assert_eq!(calculate_peak_from_buffer(&buf, 3, 4, true), FULL_SCALE + FULL_SCALE / 4);
    let nan_only = float_bytes(&[f32::NAN]);
    assert_eq!(calculate_peak_from_buffer(&nan_only, 1, 4, true), 0);
}

#[test]
fn float_infinity_saturates() {
    let buf = float_bytes(&[f32::NEG_INFINITY]);
    assert_eq!(calculate_peak_from_buffer(&buf, 1, 4, true), LEVEL_CAP);
    assert_eq!(float_bits_level(f32::MAX.to_bits()), LEVEL_CAP);
}

#[test]
fn float_tiny_values_floor_to_zero() {
    assert_eq!(float_bits_level(f32::MIN_POSITIVE.to_bits()), 0);
    assert_eq!(float_bits_level((1.0f32 / 2147483648.0).to_bits()), 1);
    assert_eq!(float_bits_level(1.0f32.to_bits()), FULL_SCALE);
    assert_eq!(float_bits_level(0.75f32.to_bits()), 3 * FULL_SCALE / 4);
}

#[test]
fn unsupported_width_reads_as_silence() {
    let buf = vec![0xffu8; 16];
    assert_eq!(calculate_peak_from_buffer(&buf, 2, 8, false), 0);
    assert_eq!(calculate_peak_from_buffer(&buf, 16, 1, true), 0);
}

#[test]
fn float_flag_with_pcm_widths_reads_as_silence() {
    assert_eq!(calculate_peak_from_buffer(&[0x00, 0x80], 1, 2, true), 0);
    assert_eq!(calculate_peak_from_buffer(&[0x00, 0x00, 0x80], 1, 3, true), 0);
    // the same bytes without the float flag are full-scale PCM
    assert_eq!(calculate_peak_from_buffer(&[0x00, 0x80], 1, 2, false), FULL_SCALE);
}

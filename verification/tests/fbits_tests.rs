use printnanny_gst::fbits::{f32_bits_micros, f32_bits_trunc_i32};

/// Truncation matches Rust's own saturating float-to-integer cast on a
/// spread of values: zero, fractions, negatives, saturation, NaN.
#[test]
fn truncation_matches_cast() {
    let samples: [f32; 16] = [
        0.0,
        -0.0,
        0.5,
        0.999,
        1.0,
        2.9,
        -1.5,
        -2.999,
        4.0,
        123456.78,
        -99999.99,
        3.0e9,
        -3.0e9,
        f32::INFINITY,
        f32::NEG_INFINITY,
        f32::NAN,
    ];
    for v in samples {
        assert_eq!(f32_bits_trunc_i32(v.to_bits()), v as i32, "value {v}");
    }
}

/// Subnormals truncate to zero.
#[test]
fn truncation_subnormal() {
    let tiny = f32::from_bits(1);
    assert_eq!(f32_bits_trunc_i32(tiny.to_bits()), 0);
    assert_eq!(f32_bits_trunc_i32((-tiny).to_bits()), 0);
}

/// Scores in millionths: exact fixed-point readings of common values.
#[test]
fn micros_values() {
    assert_eq!(f32_bits_micros(0.0f32.to_bits()), 0);
    assert_eq!(f32_bits_micros(0.5f32.to_bits()), 500_000);
    assert_eq!(f32_bits_micros(0.25f32.to_bits()), 250_000);
    assert_eq!(f32_bits_micros(0.6f32.to_bits()), 600_000);
    assert_eq!(f32_bits_micros(0.8f32.to_bits()), 800_000);
    assert_eq!(f32_bits_micros(1.0f32.to_bits()), 1_000_000);
}

/// Millionths floor the value and clamp: negatives and NaN read zero,
/// values above one read the full million.
#[test]
fn micros_clamping() {
    assert_eq!(f32_bits_micros((-0.5f32).to_bits()), 0);
    assert_eq!(f32_bits_micros(f32::NAN.to_bits()), 0);
    assert_eq!(f32_bits_micros(2.5f32.to_bits()), 1_000_000);
    assert_eq!(f32_bits_micros(f32::INFINITY.to_bits()), 1_000_000);
    let below = f32::from_bits(0.5f32.to_bits() - 1);
    assert_eq!(f32_bits_micros(below.to_bits()), 499_999);
}

/// The floor agrees with a reference computation over a sweep of score
/// bit patterns.
#[test]
fn micros_matches_reference() {
    for k in 0..2000u32 {
        let v = (k as f32) / 1999.0;
        let expect = ((v as f64) * 1.0e6).floor() as u64;
        let expect = expect.min(1_000_000);
        assert_eq!(f32_bits_micros(v.to_bits()), expect, "value {v}");
    }
}

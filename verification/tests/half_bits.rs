use paint_type::half::{f16_bits_to_f32_bits, f32_bits_to_f16_bits};

fn f32_to_f16_bits(value: f32) -> u16 {
    f32_bits_to_f16_bits(value.to_bits())
}

fn f16_bits_to_f32(bits: u16) -> f32 {
    f32::from_bits(f16_bits_to_f32_bits(bits))
}

#[test]
fn test_f16_round_trip_one() {
    let bits = f32_to_f16_bits(1.0);
    assert_eq!(bits, 0x3C00);
    assert_eq!(f16_bits_to_f32(bits), 1.0_f32);
}

#[test]
fn test_f16_round_trip_zero() {
    assert_eq!(f32_to_f16_bits(0.0), 0x0000);
    assert_eq!(f16_bits_to_f32(0x0000), 0.0_f32);
}

#[test]
fn test_f16_round_trip_half() {
    assert_eq!(f32_to_f16_bits(0.5), 0x3800);
    assert_eq!(f16_bits_to_f32(0x3800), 0.5_f32);
}

#[test]
fn test_f16_round_trip_negative() {
    let bits = f32_to_f16_bits(-1.0);
    assert_eq!(bits, 0xBC00);
    assert_eq!(f16_bits_to_f32(bits), -1.0_f32);
}

#[test]
fn rounding_is_to_nearest_even() {
    // 1 + 2^-11 lies exactly between 1.0 and the next binary16 value: ties go to even.
    assert_eq!(f32_to_f16_bits(1.0 + f32::powi(2.0, -11)), 0x3C00);
    // 1 + 3 * 2^-11 lies between 0x3C01 and 0x3C02: ties go to even 0x3C02.
    assert_eq!(f32_to_f16_bits(1.0 + 3.0 * f32::powi(2.0, -11)), 0x3C02);
    assert_eq!(f32_to_f16_bits(65504.0), 0x7BFF);
}

#[test]
fn overflow_saturates_to_infinity() {
    assert_eq!(f32_to_f16_bits(1.0e6), 0x7C00);
    assert_eq!(f32_to_f16_bits(-1.0e6), 0xFC00);
    assert_eq!(f32_to_f16_bits(f32::INFINITY), 0x7C00);
    assert_eq!(f32_to_f16_bits(65520.0), 0x7C00);
}

#[test]
fn small_values_become_subnormal_or_zero() {
    assert_eq!(f32_to_f16_bits(f32::powi(2.0, -24)), 0x0001);
    assert_eq!(f32_to_f16_bits(f32::powi(2.0, -14)), 0x0400);
    assert_eq!(f32_to_f16_bits(1.0e-10), 0x0000);
    assert_eq!(f32_to_f16_bits(-1.0e-10), 0x8000);
}

#[test]
fn nan_stays_nan() {
    let bits = f32_to_f16_bits(f32::NAN);
    assert_eq!(bits & 0x7C00, 0x7C00);
    assert_ne!(bits & 0x03FF, 0);
    assert!(f16_bits_to_f32(0x7E00).is_nan());
    assert_eq!(f16_bits_to_f32(0x7C00), f32::INFINITY);
}

#[test]
fn normals_and_infinities_round_trip() {
    for h in [0x0000u16, 0x8000, 0x3C00, 0x0400, 0x7BFF, 0xFBFF, 0x7C00, 0xFC00, 0x1234] {
        assert_eq!(f32_to_f16_bits(f16_bits_to_f32(h)), h, "{h:#06x}");
    }
}

#[test]
fn subnormal_widening_gives_exact_values() {
    // 0x0001 is 2^-24, the smallest binary16 subnormal; 0x0200 is 2^-15.
    assert_eq!(f16_bits_to_f32_bits(0x0001), 0x3380_0000);
    assert_eq!(f16_bits_to_f32_bits(0x0200), 0x3800_0000);
    assert_eq!(f16_bits_to_f32(0x0001), f32::powi(2.0, -24));
    assert_eq!(f16_bits_to_f32(0x0200), f32::powi(2.0, -15));
    assert_eq!(f16_bits_to_f32(0x83FF), -1023.0 * f32::powi(2.0, -24));
}

#[test]
fn subnormals_and_quiet_nans_round_trip() {
    for h in [0x0001u16, 0x0200, 0x03FF, 0x8001, 0x0155, 0x7E00, 0xFE01, 0x7FFF] {
        assert_eq!(f32_bits_to_f16_bits(f16_bits_to_f32_bits(h)), h, "{h:#06x}");
    }
}

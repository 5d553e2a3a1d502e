use ray_tracer::scalar::{decode_float, Scalar, EPSILON_BITS, MAGNITUDE_MASK};

fn scalar_of(x: f32) -> Scalar {
    Scalar::from_bits(x.to_bits())
}

fn samples() -> Vec<f32> {
    vec![
        0.0,
        -0.0,
        1.0,
        -1.0,
        25.0,
        -25.0,
        0.00001,
        -0.00001,
        0.000009,
        0.000011,
        1.0e-45,
        -1.0e-45,
        f32::MIN_POSITIVE,
        f32::MAX,
        f32::MIN,
        f32::INFINITY,
        f32::NEG_INFINITY,
        f32::NAN,
        -f32::NAN,
        3.5,
        -4071.0,
    ]
}

#[test]
fn constants_are_the_patterns_of_the_format() {
    assert_eq!(MAGNITUDE_MASK, !(-0.0f32).to_bits());
    assert_eq!(EPSILON_BITS, 0.00001f32.to_bits());
}

#[test]
fn bits_go_in_and_come_out() {
    assert_eq!(Scalar::from_bits(0x3f80_0000).to_bits(), 0x3f80_0000);
    assert_eq!(f32::from_bits(Scalar::from_bits(1.0f32.to_bits()).to_bits()), 1.0);
    assert_eq!(Scalar::zero().to_bits(), 0);
}

#[test]
fn is_zero_is_comparison_with_zero() {
    for x in samples() {
        assert_eq!(scalar_of(x).is_zero(), x == 0.0, "{x}");
    }
    assert!(scalar_of(0.0).is_zero());
    assert!(scalar_of(-0.0).is_zero());
    assert!(!scalar_of(1.0e-45).is_zero());
    assert!(!scalar_of(f32::NAN).is_zero());
}

#[test]
fn abs_clears_the_sign() {
    for x in samples() {
        assert_eq!(scalar_of(x).abs().to_bits(), x.abs().to_bits(), "{x}");
    }
}

#[test]
fn within_tolerance_is_comparison_with_epsilon() {
    for x in samples() {
        assert_eq!(scalar_of(x).within_tolerance(), x.abs() <= 0.00001, "{x}");
    }
    assert!(Scalar::from_bits(EPSILON_BITS).within_tolerance());
    assert!(Scalar::from_bits(EPSILON_BITS | 0x8000_0000).within_tolerance());
    assert!(!Scalar::from_bits(EPSILON_BITS + 1).within_tolerance());
    assert!(Scalar::from_bits(EPSILON_BITS - 1).within_tolerance());
    assert!(!scalar_of(f32::NAN).within_tolerance());
    assert!(!scalar_of(f32::INFINITY).within_tolerance());
    assert!(scalar_of(-0.0).within_tolerance());
}

#[test]
fn from_i16_is_promotion_for_every_integer() {
    for v in i16::MIN..=i16::MAX {
        assert_eq!(Scalar::from_i16(v).to_bits(), f32::from(v).to_bits(), "{v}");
    }
}

#[test]
fn from_i16_edge_values() {
    assert_eq!(Scalar::from_i16(0).to_bits(), 0);
    assert_eq!(Scalar::from_i16(1).to_bits(), 0x3f80_0000);
    assert_eq!(Scalar::from_i16(-1).to_bits(), 0xbf80_0000);
    assert_eq!(Scalar::from_i16(25).to_bits(), 0x41c8_0000);
    assert_eq!(Scalar::from_i16(32767).to_bits(), 0x46ff_fe00);
    assert_eq!(Scalar::from_i16(-32768).to_bits(), 0xc700_0000);
}

#[test]
fn decode_float_prefers_the_float() {
    assert_eq!(decode_float(Some(scalar_of(2.5)), Some(7)), Some(scalar_of(2.5)));
    assert_eq!(decode_float(Some(scalar_of(2.5)), None), Some(scalar_of(2.5)));
}

#[test]
fn decode_float_falls_back_to_the_integer() {
    assert_eq!(decode_float(None, Some(7)), Some(scalar_of(7.0)));
    assert_eq!(decode_float(None, Some(-3)), Some(scalar_of(-3.0)));
}

#[test]
fn decode_float_fails_without_either() {
    assert_eq!(decode_float(None, None), None);
}

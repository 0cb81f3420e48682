use aurora::floatbits::{inter_of_s16, inter_to_s16, narrow_f64, widen_f32};

#[test]
fn s16_roundtrip_is_exact_across_the_range() {
    let mut v: i32 = -32768;
    while v <= 32767 {
        let s = v as i16;
        assert_eq!(inter_to_s16(inter_of_s16(s)), s);
        v += 1;
    }
}

#[test]
fn s16_scaling_matches_the_double_formula() {
    // The intermediate is the bit pattern of v / 32768 as a double.
    for &v in &[0i16, 1, -1, 42, -32768, 32767, 12345, -12345] {
        let expected = ((-(v as f64)) / (i16::MIN as f64)).to_bits();
        assert_eq!(inter_of_s16(v), expected);
    }
}

#[test]
fn s16_unscaling_matches_the_double_formula() {
    for &v in &[0i16, 1, -1, 42, -32768, 32767, 12345, -12345] {
        let w = ((v as f64) / 32768.0).to_bits();
        assert_eq!(inter_to_s16(w), v);
    }
    // Rounding is to nearest, ties away from zero.
    assert_eq!(inter_to_s16((0.5f64 / 32768.0).to_bits()), 1);
    assert_eq!(inter_to_s16((-0.5f64 / 32768.0).to_bits()), -1);
    assert_eq!(inter_to_s16((0.49f64 / 32768.0).to_bits()), 0);
    // Out-of-range values clamp; a NaN becomes zero.
    assert_eq!(inter_to_s16(2.0f64.to_bits()), 32767);
    assert_eq!(inter_to_s16((-2.0f64).to_bits()), -32768);
    assert_eq!(inter_to_s16(f64::NAN.to_bits()), 0);
}

#[test]
fn widen_matches_the_hardware_conversion() {
    for &x in &[
        0.0f32,
        -0.0,
        1.0,
        -1.0,
        0.5,
        1.5e-45,
        f32::MIN_POSITIVE,
        f32::MAX,
        f32::MIN,
        f32::INFINITY,
        f32::NEG_INFINITY,
        3.14159,
        -2.71828e-20,
    ] {
        assert_eq!(widen_f32(x.to_bits()), (x as f64).to_bits());
    }
}

#[test]
fn narrow_matches_the_hardware_conversion() {
    for &x in &[
        0.0f64,
        -0.0,
        1.0,
        -1.0,
        0.1,
        1.0e-40,
        1.0e40,
        -1.0e40,
        f64::INFINITY,
        f64::NEG_INFINITY,
        3.141592653589793,
        1.0000000000000002,
        6.0e-324,
        1.0e308,
    ] {
        assert_eq!(narrow_f64(x.to_bits()), (x as f32).to_bits());
    }
}

#[test]
fn f32_roundtrip_through_the_intermediate_is_exact() {
    for &x in &[0.0f32, -0.0, 1.0, -1.0, 0.1, 1.5e-45, f32::MAX, f32::MIN_POSITIVE, -7.25e-40] {
        let b = x.to_bits();
        assert_eq!(narrow_f64(widen_f32(b)), b);
    }
    assert_eq!(narrow_f64(widen_f32(f32::NAN.to_bits())), f32::NAN.to_bits());
}

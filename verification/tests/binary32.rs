use bird_boxes::binary32::{gt, integer_decode, nan, HALF, ONE, ZERO};

fn specimens() -> Vec<f32> {
    vec![
        0.0,
        -0.0,
        0.5,
        -0.5,
        1.0,
        -1.0,
        0.99999994,
        1.0000001,
        3.25,
        -3.25,
        1.0e10,
        -1.0e10,
        f32::MIN_POSITIVE,
        -f32::MIN_POSITIVE,
        f32::from_bits(1),
        f32::from_bits(0x8000_0001),
        f32::from_bits(0x007f_ffff),
        f32::MAX,
        f32::MIN,
        f32::INFINITY,
        f32::NEG_INFINITY,
        f32::NAN,
        -f32::NAN,
        f32::from_bits(0x7f80_0001),
        f32::from_bits(0xffff_ffff),
    ]
}

#[test]
fn constants_are_the_patterns_of_zero_half_and_one() {
    assert_eq!(ZERO, 0.0f32.to_bits());
    assert_eq!(HALF, 0.5f32.to_bits());
    assert_eq!(ONE, 1.0f32.to_bits());
}

#[test]
fn gt_agrees_with_the_machine_on_every_pair() {
    for a in specimens() {
        for b in specimens() {
            assert_eq!(gt(a.to_bits(), b.to_bits()), a > b, "{a:?} > {b:?}");
        }
    }
}

#[test]
fn gt_is_strict() {
    assert!(!gt(ONE, ONE));
    assert!(!gt(HALF, HALF));
    assert!(gt(ONE, HALF));
    assert!(!gt(HALF, ONE));
}

#[test]
fn gt_takes_both_zeros_for_equal() {
    let minus_zero: u32 = (-0.0f32).to_bits();
    assert!(!gt(ZERO, minus_zero));
    assert!(!gt(minus_zero, ZERO));
    assert!(gt(f32::from_bits(1).to_bits(), minus_zero));
    assert!(gt(ZERO, 0x8000_0001));
}

#[test]
fn gt_orders_negative_numbers() {
    assert!(gt((-1.0f32).to_bits(), (-2.0f32).to_bits()));
    assert!(!gt((-2.0f32).to_bits(), (-1.0f32).to_bits()));
    assert!(gt(HALF, (-3.0f32).to_bits()));
    assert!(!gt((-3.0f32).to_bits(), HALF));
}

#[test]
fn gt_is_false_beside_what_is_not_a_number() {
    let not_a_number: u32 = f32::NAN.to_bits();
    assert!(!gt(not_a_number, ZERO));
    assert!(!gt(ZERO, not_a_number));
    assert!(!gt(not_a_number, not_a_number));
    assert!(!gt(not_a_number, f32::NEG_INFINITY.to_bits()));
    assert!(!gt(f32::INFINITY.to_bits(), not_a_number));
}

#[test]
fn nan_agrees_with_the_machine() {
    for a in specimens() {
        assert_eq!(nan(a.to_bits()), a.is_nan(), "{a:?}");
    }
    assert!(!nan(0x7f80_0000));
    assert!(nan(0x7f80_0001));
    assert!(!nan(0xff80_0000));
    assert!(nan(0xffc0_0000));
}

#[test]
fn integer_decode_of_one_half_and_zero() {
    assert_eq!(integer_decode(ONE), (0x80_0000, -23, 1));
    assert_eq!(integer_decode(HALF), (0x80_0000, -24, 1));
    assert_eq!(integer_decode(ZERO), (0, -150, 1));
    assert_eq!(integer_decode((-1.0f32).to_bits()), (0x80_0000, -23, -1));
    assert_eq!(integer_decode(3.25f32.to_bits()), (0xd0_0000, -22, 1));
}

#[test]
fn integer_decode_of_the_smallest_and_the_largest() {
    assert_eq!(integer_decode(1), (2, -150, 1));
    assert_eq!(integer_decode(0x007f_ffff), (0x00ff_fffe, -150, 1));
    assert_eq!(integer_decode(0x0080_0000), (0x0080_0000, -149, 1));
    assert_eq!(integer_decode(f32::MAX.to_bits()), (0x00ff_ffff, 104, 1));
    assert_eq!(integer_decode(f32::INFINITY.to_bits()), (0x0080_0000, 105, 1));
    assert_eq!(integer_decode(0xffff_ffff), (0x00ff_ffff, 105, -1));
}

#[test]
fn integer_decode_tells_the_two_zeros_apart() {
    assert_eq!(integer_decode((-0.0f32).to_bits()), (0, -150, -1));
    assert_ne!(integer_decode(ZERO), integer_decode((-0.0f32).to_bits()));
}

#[test]
fn integer_decode_gives_back_the_value() {
    for a in specimens() {
        if a.is_finite() {
            let (mantissa, exponent, sign) = integer_decode(a.to_bits());
            let value: f64 = f64::from(sign) * f64::from(mantissa) * 2.0f64.powi(i32::from(exponent));
            assert_eq!(value, f64::from(a), "{a:?}");
        }
    }
}

#[test]
fn integer_decode_is_different_for_different_patterns() {
    let patterns: Vec<u32> = specimens().iter().map(|a| a.to_bits()).collect();
    for a in &patterns {
        for b in &patterns {
            assert_eq!(integer_decode(*a) == integer_decode(*b), a == b);
        }
    }
}

use raycaster::scalar::Scalar;

fn s(v: f32) -> Scalar {
    Scalar::from_bits(v.to_bits())
}

fn samples() -> Vec<f32> {
    vec![
        0.0,
        -0.0,
        1.0,
        -1.0,
        0.5,
        -0.5,
        0.99999994,
        1.0000001,
        1.9,
        -1.9,
        2.0,
        5.0,
        6.0,
        255.0,
        1.0e-40,
        -1.0e-40,
        f32::MIN_POSITIVE,
        8388608.0,
        16777216.0,
        16777217.0,
        123456.79,
        -123456.79,
        2147483520.0,
        2147483648.0,
        -2147483648.0,
        -2147483904.0,
        3.0e9,
        -3.0e9,
        f32::MAX,
        f32::MIN,
        f32::INFINITY,
        f32::NEG_INFINITY,
        f32::NAN,
        -f32::NAN,
        f32::EPSILON,
    ]
}

#[test]
fn order_is_that_of_the_numbers() {
    let all = samples();
    for &a in &all {
        for &b in &all {
            assert_eq!(s(a).lt(s(b)), a < b, "{} < {}", a, b);
            assert_eq!(s(a).le(s(b)), a <= b, "{} <= {}", a, b);
            assert_eq!(s(a).gt(s(b)), a > b, "{} > {}", a, b);
            assert_eq!(s(a).ge(s(b)), a >= b, "{} >= {}", a, b);
        }
    }
}

#[test]
fn both_zeros_are_equal_in_order_but_not_in_bits() {
    assert!(s(0.0).le(s(-0.0)));
    assert!(s(-0.0).le(s(0.0)));
    assert!(!s(0.0).lt(s(-0.0)));
    assert!(!s(-0.0).lt(s(0.0)));
    assert_ne!(s(0.0), s(-0.0));
}

#[test]
fn what_is_not_a_number_compares_with_nothing() {
    let nan = s(f32::NAN);
    assert!(nan.is_not_a_number());
    assert!(!nan.lt(nan));
    assert!(!nan.le(nan));
    assert!(!nan.ge(s(0.0)));
    assert!(!s(0.0).le(nan));
    assert!(!s(f32::INFINITY).is_not_a_number());
    assert!(!s(1.0).is_not_a_number());
    assert!(Scalar::from_bits(0x7f80_0001).is_not_a_number());
    assert!(Scalar::from_bits(0xffff_ffff).is_not_a_number());
    assert!(!Scalar::from_bits(0xff80_0000).is_not_a_number());
}

#[test]
fn trunc_is_the_cast_to_i32() {
    for a in samples() {
        assert_eq!(s(a).trunc(), a as i32, "{}", a);
    }
    assert_eq!(s(5.0).trunc(), 5);
    assert_eq!(s(-1.9).trunc(), -1);
    assert_eq!(s(0.99999994).trunc(), 0);
    assert_eq!(s(3.0e9).trunc(), i32::MAX);
    assert_eq!(s(-3.0e9).trunc(), i32::MIN);
    assert_eq!(s(f32::NAN).trunc(), 0);
    assert_eq!(s(f32::INFINITY).trunc(), i32::MAX);
    assert_eq!(s(f32::NEG_INFINITY).trunc(), i32::MIN);
    assert_eq!(s(-2147483648.0).trunc(), i32::MIN);
    assert_eq!(s(2147483520.0).trunc(), 2147483520);
}

#[test]
fn floor_is_the_greatest_integer_not_above() {
    for a in samples() {
        assert_eq!(s(a).floor(), a.floor() as i32, "{}", a);
        assert_eq!(s(a).is_fractional(), a.is_finite() && a.fract() != 0.0, "{}", a);
    }
    assert_eq!(s(-0.5).floor(), -1);
    assert_eq!(s(-0.6).floor(), -1);
    assert_eq!(s(-1.0).floor(), -1);
    assert_eq!(s(-1.0000001).floor(), -2);
    assert_eq!(s(-1.0e-40).floor(), -1);
    assert_eq!(s(-0.0).floor(), 0);
    assert_eq!(s(0.0).floor(), 0);
    assert_eq!(s(0.99999994).floor(), 0);
    assert_eq!(s(5.75).floor(), 5);
    assert_eq!(s(-8388607.5).floor(), -8388608);
    assert_eq!(s(-16777216.0).floor(), -16777216);
    assert_eq!(s(-3.0e9).floor(), i32::MIN);
    assert_eq!(s(3.0e9).floor(), i32::MAX);
    assert_eq!(s(f32::NAN).floor(), 0);
    assert_eq!(s(f32::NEG_INFINITY).floor(), i32::MIN);
    let mut bits: u32 = 0;
    loop {
        let v = f32::from_bits(bits);
        assert_eq!(Scalar::from_bits(bits).floor(), v.floor() as i32, "{:#x}", bits);
        match bits.checked_add(30_011) {
            Some(next) => bits = next,
            None => break,
        }
    }
}

#[test]
fn trunc_and_order_hold_across_the_bit_patterns() {
    let mut bits: u32 = 0;
    let mut last: Option<f32> = None;
    loop {
        let v = f32::from_bits(bits);
        assert_eq!(Scalar::from_bits(bits).trunc(), v as i32, "{:#x}", bits);
        assert_eq!(Scalar::from_bits(bits).is_not_a_number(), v.is_nan(), "{:#x}", bits);
        if let Some(prev) = last {
            assert_eq!(s(prev).lt(Scalar::from_bits(bits)), prev < v, "{:#x}", bits);
            assert_eq!(Scalar::from_bits(bits).le(s(prev)), v <= prev, "{:#x}", bits);
        }
        last = Some(v);
        match bits.checked_add(40_507) {
            Some(next) => bits = next,
            None => break,
        }
    }
}

#[test]
fn integers_become_the_nearest_numbers() {
    let edges = [
        0,
        1,
        -1,
        2,
        3,
        7,
        9,
        255,
        -256,
        8_388_607,
        8_388_608,
        16_777_215,
        16_777_216,
        16_777_217,
        16_777_218,
        16_777_219,
        -16_777_217,
        -16_777_219,
        33_554_430,
        33_554_434,
        33_554_438,
        2_147_483_520,
        2_147_483_583,
        2_147_483_584,
        2_147_483_585,
        i32::MAX,
        i32::MIN,
        i32::MIN + 1,
        i32::MIN + 127,
        i32::MIN + 128,
        i32::MIN + 129,
    ];
    for n in edges {
        assert_eq!(Scalar::from_i32(n).to_bits(), (n as f32).to_bits(), "{}", n);
    }
    let mut n: i32 = i32::MIN;
    loop {
        assert_eq!(Scalar::from_i32(n).to_bits(), (n as f32).to_bits(), "{}", n);
        match n.checked_add(65_521) {
            Some(next) => n = next,
            None => break,
        }
    }
    for n in -70_000..70_000 {
        assert_eq!(Scalar::from_i32(n).to_bits(), (n as f32).to_bits(), "{}", n);
        assert_eq!(Scalar::from_i32(n).trunc(), n);
    }
    for k in 0..31 {
        for d in -3..4 {
            let n = (1i32 << k).wrapping_add(d);
            assert_eq!(Scalar::from_i32(n).to_bits(), (n as f32).to_bits(), "{}", n);
            let n = (3i32 << k.min(29)).wrapping_add(d);
            assert_eq!(Scalar::from_i32(n).to_bits(), (n as f32).to_bits(), "{}", n);
        }
    }
}

#[test]
fn neg_turns_the_sign() {
    for a in samples() {
        assert_eq!(s(a).neg().to_bits(), (-a).to_bits(), "{}", a);
        assert_eq!(s(a).neg().neg(), s(a));
    }
    assert_eq!(s(0.0).neg(), s(-0.0));
    assert_eq!(s(2.5).neg(), s(-2.5));
}

#[test]
fn named_numbers_have_their_bits() {
    assert_eq!(Scalar::zero().to_bits(), 0.0f32.to_bits());
    assert_eq!(Scalar::one().to_bits(), 1.0f32.to_bits());
    assert_eq!(Scalar::max_value().to_bits(), f32::MAX.to_bits());
    assert_eq!(Scalar::from_bits(0x40a0_0000).to_bits(), 5.0f32.to_bits());
    assert_eq!(raycaster::scalar::SIGN_BIT, (-0.0f32).to_bits());
    assert_eq!(raycaster::scalar::INFINITY_BITS, f32::INFINITY.to_bits());
    assert_eq!(raycaster::scalar::ONE_BITS, 1.0f32.to_bits());
    assert_eq!(raycaster::scalar::MAX_BITS, f32::MAX.to_bits());
}

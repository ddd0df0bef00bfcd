use tlms::binary64::{Binary64, INFINITY_BITS, SIGN_BIT};

fn b(x: f64) -> Binary64 {
    Binary64::from_bits(x.to_bits())
}

fn samples() -> Vec<f64> {
    vec![
        0.0,
        -0.0,
        1.0,
        -1.0,
        49.999,
        50.0,
        50.00000000000001,
        -50.0,
        f64::MIN_POSITIVE,
        -f64::MIN_POSITIVE,
        5e-324,
        -5e-324,
        f64::MAX,
        f64::MIN,
        f64::INFINITY,
        f64::NEG_INFINITY,
        f64::NAN,
        -f64::NAN,
        f64::from_bits(0x7FF0_0000_0000_0001),
        f64::from_bits(0xFFFF_FFFF_FFFF_FFFF),
        1e-310,
        6_371_000.0,
        1.5e300,
        -1.5e300,
    ]
}

#[test]
fn bits_round_trip() {
    for x in samples() {
        assert_eq!(b(x).to_bits(), x.to_bits());
        assert_eq!(b(x).bits, x.to_bits());
    }
}

#[test]
fn constants_are_the_patterns_of_std() {
    assert_eq!(INFINITY_BITS, f64::INFINITY.to_bits());
    assert_eq!(SIGN_BIT, (-0.0f64).to_bits());
}

#[test]
fn lt_agrees_with_the_float_comparison() {
    for x in samples() {
        for y in samples() {
            assert_eq!(b(x).lt(b(y)), x < y, "{x:?} < {y:?}");
        }
    }
}

#[test]
fn is_nan_agrees_with_std() {
    for x in samples() {
        assert_eq!(b(x).is_nan(), x.is_nan(), "{x:?}");
    }
}

#[test]
fn negative_zero_is_not_below_zero() {
    assert!(!b(-0.0).lt(b(0.0)));
    assert!(!b(0.0).lt(b(-0.0)));
}

#[test]
fn nan_is_below_nothing_and_nothing_is_below_nan() {
    for x in samples() {
        assert!(!b(f64::NAN).lt(b(x)));
        assert!(!b(x).lt(b(f64::NAN)));
    }
}

#[test]
fn pattern_equality_is_not_numeric_equality() {
    assert_ne!(b(0.0), b(-0.0));
    assert_eq!(b(f64::NAN), b(f64::NAN));
}

#[test]
fn from_i32_is_the_conversion_of_std() {
    let mut numbers = vec![
        0,
        1,
        -1,
        2,
        3,
        50,
        -50,
        255,
        256,
        6_371_000,
        6_378_137,
        i32::MAX,
        i32::MAX - 1,
        i32::MIN,
        i32::MIN + 1,
    ];
    for shift in 0..31 {
        numbers.push(1 << shift);
        numbers.push((1 << shift) - 1);
        numbers.push(-(1 << shift));
        numbers.push((1 << shift) | 1);
    }
    let mut n: i32 = 7;
    for _ in 0..10_000 {
        n = n.wrapping_mul(1_103_515_245).wrapping_add(12_345);
        numbers.push(n);
    }
    for n in numbers {
        assert_eq!(Binary64::from_i32(n), b(n as f64), "{n}");
    }
}

#[test]
fn from_i32_gives_positive_zero() {
    assert_eq!(Binary64::from_i32(0).to_bits(), 0);
}

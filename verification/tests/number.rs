//! Numbers by their bit patterns, held against floating point.

use nomopractic::number::{
    Real, HUNDRED, HUNDRED_EIGHTY, INFINITY_BITS, MINUS_HUNDRED, ONE, ONE_HALF, SEVEN_TENTHS,
    SIGN_BIT, SIXTY, THIRTY, TWENTY, TWENTY_FIVE, TWO, ZERO,
};

fn samples() -> Vec<f64> {
    vec![
        0.0,
        -0.0,
        f64::MIN_POSITIVE,
        5e-324,
        -5e-324,
        0.5,
        1.0,
        -1.0,
        1.0 + f64::EPSILON,
        99.999999,
        100.0,
        100.00000000000001,
        -100.0,
        1e300,
        -1e300,
        f64::INFINITY,
        f64::NEG_INFINITY,
        f64::NAN,
        -f64::NAN,
    ]
}

#[test]
fn constants_are_what_their_names_say() {
    for (bits, value) in [
        (ZERO, 0.0),
        (ONE_HALF, 0.5),
        (SEVEN_TENTHS, 0.7),
        (ONE, 1.0),
        (TWO, 2.0),
        (TWENTY, 20.0),
        (TWENTY_FIVE, 25.0),
        (THIRTY, 30.0),
        (SIXTY, 60.0),
        (HUNDRED, 100.0),
        (MINUS_HUNDRED, -100.0),
        (HUNDRED_EIGHTY, 180.0),
        (INFINITY_BITS, f64::INFINITY),
        (SIGN_BIT, -0.0),
    ] {
        assert_eq!(bits, f64::to_bits(value));
    }
}

#[test]
fn comparing_is_that_of_floating_point() {
    for a in samples() {
        for b in samples() {
            let (x, y) = (Real::from_bits(a.to_bits()), Real::from_bits(b.to_bits()));
            assert_eq!(x.is_at_most(y), a <= b, "{a} {b}");
        }
        assert_eq!(Real::from_bits(a.to_bits()).is_positive(), a > 0.0, "{a}");
    }
}

#[test]
fn ranges_are_those_of_floating_point() {
    for a in samples() {
        let x = Real::from_bits(a.to_bits());
        assert_eq!(x.is_within(MINUS_HUNDRED, HUNDRED), (-100.0..=100.0).contains(&a), "{a}");
        assert_eq!(x.is_within(ZERO, ONE), (0.0..=1.0).contains(&a), "{a}");
    }
}

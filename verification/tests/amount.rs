use novamind::amount::{
    Amount, FIFTEEN, HUNDREDTH, NINETEEN_MILLION, ONE, THOUSAND, TWENTIETH, TWO, ZERO,
};

fn amount(x: f64) -> Amount {
    Amount { bits: x.to_bits() }
}

#[test]
fn named_patterns() {
    assert_eq!(f64::from_bits(ZERO), 0.0);
    assert_eq!(f64::from_bits(HUNDREDTH), 0.01);
    assert_eq!(f64::from_bits(TWENTIETH), 0.05);
    assert_eq!(f64::from_bits(ONE), 1.0);
    assert_eq!(f64::from_bits(TWO), 2.0);
    assert_eq!(f64::from_bits(FIFTEEN), 15.0);
    assert_eq!(f64::from_bits(THOUSAND), 1000.0);
    assert_eq!(f64::from_bits(NINETEEN_MILLION), 19_000_000.0);
}

#[test]
fn amounts_compare_as_std_compares_them() {
    let values = [
        0.0,
        -0.0,
        f64::from_bits(1),
        -f64::from_bits(1),
        f64::MIN_POSITIVE,
        -f64::MIN_POSITIVE,
        f64::from_bits(0x000f_ffff_ffff_ffff),
        0.05,
        0.5,
        1.0,
        -1.0,
        1.0 + f64::EPSILON,
        1.9999999999999998,
        2.0,
        15.0,
        15.000000000000002,
        1000.0,
        -1000.0,
        19_000_000.0,
        18_999_999.999999996,
        f64::MAX,
        f64::MIN,
        f64::INFINITY,
        f64::NEG_INFINITY,
        f64::NAN,
        -f64::NAN,
    ];
    for &x in &values {
        for &y in &values {
            assert_eq!(amount(x).is_below(amount(y)), x < y, "{} < {}", x, y);
            assert_eq!(amount(x).is_at_most(amount(y)), x <= y, "{} <= {}", x, y);
        }
    }
}

use lox::number::{
    is_equal_number, is_less, is_less_equal, negate, not_a_number, INFINITY, SIGN_BIT,
};
use lox::text::decimal_text;

fn samples() -> Vec<f64> {
    vec![
        0.0,
        -0.0,
        1.0,
        -1.0,
        0.5,
        -0.5,
        3.0,
        1.0 / 3.0,
        -2.5e300,
        2.5e300,
        5e-324,
        -5e-324,
        f64::MAX,
        f64::MIN,
        f64::MIN_POSITIVE,
        f64::INFINITY,
        f64::NEG_INFINITY,
        f64::NAN,
        -f64::NAN,
        f64::from_bits(0x7ff0_0000_0000_0001),
        f64::from_bits(0xfff8_0000_0000_0000),
    ]
}

#[test]
fn constants_are_the_patterns_of_minus_zero_and_infinity() {
    assert_eq!(SIGN_BIT, (-0.0f64).to_bits());
    assert_eq!(INFINITY, f64::INFINITY.to_bits());
}

#[test]
fn not_a_number_agrees_with_the_hardware() {
    for x in samples() {
        assert_eq!(not_a_number(x.to_bits()), x.is_nan(), "{x:?}");
    }
}

#[test]
fn negate_agrees_with_the_hardware() {
    for x in samples() {
        assert_eq!(negate(x.to_bits()), (-x).to_bits(), "{x:?}");
    }
    assert_eq!(negate(4.0f64.to_bits()), (-4.0f64).to_bits());
}

#[test]
fn equality_agrees_with_the_hardware() {
    for x in samples() {
        for y in samples() {
            assert_eq!(is_equal_number(x.to_bits(), y.to_bits()), x == y, "{x:?} == {y:?}");
        }
    }
}

#[test]
fn order_agrees_with_the_hardware() {
    for x in samples() {
        for y in samples() {
            assert_eq!(is_less(x.to_bits(), y.to_bits()), x < y, "{x:?} < {y:?}");
            assert_eq!(is_less_equal(x.to_bits(), y.to_bits()), x <= y, "{x:?} <= {y:?}");
        }
    }
}

#[test]
fn zeros_are_equal_and_nan_is_not_itself() {
    assert!(is_equal_number(0.0f64.to_bits(), (-0.0f64).to_bits()));
    assert!(!is_less((-0.0f64).to_bits(), 0.0f64.to_bits()));
    assert!(is_less_equal((-0.0f64).to_bits(), 0.0f64.to_bits()));
    assert!(!is_equal_number(f64::NAN.to_bits(), f64::NAN.to_bits()));
    assert!(!is_less_equal(f64::NAN.to_bits(), f64::NAN.to_bits()));
}

#[test]
fn decimal_text_of_integers() {
    assert_eq!(decimal_text(0), "0");
    assert_eq!(decimal_text(7), "7");
    assert_eq!(decimal_text(10), "10");
    assert_eq!(decimal_text(123), "123");
    assert_eq!(decimal_text(-5), "-5");
    assert_eq!(decimal_text(1000000), "1000000");
    assert_eq!(decimal_text(i32::MAX), "2147483647");
    assert_eq!(decimal_text(i32::MIN), "-2147483648");
}

#[test]
fn decimal_text_agrees_with_the_standard_library() {
    let mut n: i32 = -100_000;
    while n < 100_000 {
        assert_eq!(decimal_text(n), n.to_string());
        n += 37;
    }
}

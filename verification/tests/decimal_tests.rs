use polybot::decimal::{add, div, lt, mul, sub, try_add, try_div, try_mul, try_sub, Decimal};
use polybot::feeds::parse_price;

fn d(m: i128, s: u32) -> Decimal {
    Decimal { mantissa: m, scale: s }
}

#[test]
fn zero_one_and_integers() {
    assert_eq!(Decimal::zero(), d(0, 0));
    assert_eq!(Decimal::one(), d(1, 0));
    assert_eq!(Decimal::from_i64(-2), d(-2, 0));
}

#[test]
fn new_checks_the_range() {
    assert_eq!(Decimal::from_mantissa_scale(5, 1), Some(d(5, 1)));
    assert_eq!(Decimal::from_mantissa_scale(1, 29), None);
    assert_eq!(Decimal::from_mantissa_scale(79228162514264337593543950336, 0), None);
    assert_eq!(Decimal::from_mantissa_scale(-79228162514264337593543950335, 0), Some(d(-79228162514264337593543950335, 0)));
}

#[test]
fn neg_and_abs_keep_the_scale() {
    assert_eq!(d(150, 2).neg(), d(-150, 2));
    assert_eq!(d(-150, 2).abs(), d(150, 2));
    assert_eq!(d(150, 2).abs(), d(150, 2));
}

#[test]
fn sign_tests() {
    assert!(d(1, 28).gt_zero());
    assert!(!d(0, 3).gt_zero());
    assert!(d(-1, 0).lt_zero());
    assert!(!d(0, 0).lt_zero());
}

#[test]
fn comparison_is_by_value() {
    assert!(lt(d(5, 1), Decimal::one()));
    assert!(!lt(d(10, 1), Decimal::one()));
    assert!(!lt(Decimal::one(), d(10, 1)));
    assert!(lt(d(-3, 0), d(-25, 1)));
}

#[test]
fn addition_and_subtraction() {
    assert_eq!(add(d(15, 1), d(225, 2)), d(375, 2));
    assert_eq!(sub(d(15, 1), d(225, 2)), d(-75, 2));
}

#[test]
fn multiplication_and_division() {
    assert_eq!(mul(d(15, 1), d(2, 0)), d(30, 1));
    assert_eq!(div(d(1, 0), d(4, 0)), d(25, 2));
    assert_eq!(div(d(1, 0), d(3, 0)), d(3333333333333333333333333333, 28));
}

#[test]
fn parsing_prices() {
    assert_eq!(parse_price("123.45"), Some(d(12345, 2)));
    assert_eq!(parse_price("-0.5"), Some(d(-5, 1)));
    assert_eq!(parse_price("abc"), None);
    assert_eq!(parse_price(""), None);
}

#[test]
fn checked_operations() {
    let max = Decimal { mantissa: 79228162514264337593543950335, scale: 0 };
    assert_eq!(try_add(d(1, 0), d(1, 0)), Some(d(2, 0)));
    assert_eq!(try_add(max, d(1, 0)), None);
    assert_eq!(try_sub(d(0, 0), d(25, 1)), Some(d(-25, 1)));
    assert_eq!(try_sub(d(0, 0) , max).map(|x| x.mantissa), Some(-max.mantissa));
    assert_eq!(try_mul(d(15, 1), d(2, 0)), Some(d(30, 1)));
    assert_eq!(try_mul(d(0, 5), d(2, 3)), Some(d(0, 0)));
    assert_eq!(try_mul(max, d(2, 0)), None);
    assert_eq!(try_div(d(1, 0), d(0, 0)), None);
    assert_eq!(try_div(d(0, 3), d(7, 0)), Some(d(0, 0)));
}

#[test]
fn zeros_at_different_scales() {
    assert_eq!(try_add(d(0, 0), d(0, 1)), Some(d(0, 1)));
    assert_eq!(try_add(d(0, 3), d(0, 1)), Some(d(0, 1)));
    assert_eq!(try_add(d(5, 0), d(0, 3)), Some(d(5, 0)));
    assert_eq!(try_sub(d(0, 0), d(0, 1)), Some(d(0, 1)));
    assert_eq!(try_sub(d(0, 2), d(7, 1)), Some(d(-7, 1)));
    assert_eq!(try_sub(d(5, 2), d(0, 4)), Some(d(5, 2)));
}

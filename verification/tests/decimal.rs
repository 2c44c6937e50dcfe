use kero_engine::decimal::Dec;
use rust_decimal::Decimal;
use std::str::FromStr;

fn d(text: &str) -> Dec {
    Dec::parse(text).ok().unwrap()
}

fn value(x: Dec) -> Decimal {
    Decimal::from_i128_with_scale(x.mantissa, x.scale)
}

#[test]
fn parse_keeps_mantissa_and_scale() {
    let x = d("4.60");
    assert_eq!(x.mantissa, 460);
    assert_eq!(x.scale, 2);
    let y = d("-30000.00");
    assert_eq!(y.mantissa, -3000000);
    assert_eq!(y.scale, 2);
    assert!(Dec::parse("abc").is_err());
    assert!(Dec::parse("1,5").is_err());
}

#[test]
fn addition_aligns_scales() {
    let r = d("1.5").checked_add(&d("2.25")).unwrap();
    assert_eq!((r.mantissa, r.scale), (375, 2));
    let z = Dec::zero().checked_add(&d("2.250")).unwrap();
    assert_eq!((z.mantissa, z.scale), (2250, 3));
}

#[test]
fn subtraction_exact() {
    let r = d("1").checked_sub(&d("0.005")).unwrap();
    assert_eq!((r.mantissa, r.scale), (995, 3));
    let n = d("2").checked_sub(&d("5.5")).unwrap();
    assert_eq!(value(n), Decimal::from_str("-3.5").unwrap());
}

#[test]
fn multiplication_adds_scales() {
    let r = d("4.5").checked_mul(&d("4.80")).unwrap();
    assert_eq!((r.mantissa, r.scale), (21600, 3));
    let z = d("0.00").checked_mul(&d("7.5")).unwrap();
    assert_eq!((z.mantissa, z.scale), (0, 0));
}

#[test]
fn multiplication_overflow_is_none() {
    let big = Dec::from_parts(79228162514264337593543950335, 0).unwrap();
    assert!(big.checked_mul(&d("2")).is_none());
    assert!(big.checked_add(&big).is_none());
}

#[test]
fn division_rounds_and_rejects_zero() {
    let r = d("500.00").checked_div(&d("0.8")).unwrap();
    assert_eq!(value(r), Decimal::from_str("625").unwrap());
    let third = d("1").checked_div(&d("3")).unwrap();
    assert_eq!(value(third), Decimal::from_str("0.3333333333333333333333333333").unwrap());
    assert!(d("1").checked_div(&Dec::zero()).is_none());
}

#[test]
fn comparison_is_numeric() {
    assert!(d("1.5").lt(&d("1.51")));
    assert!(!d("1.50").lt(&d("1.5")));
    assert!(d("-2").lt(&d("0.001")));
}

#[test]
fn min_and_max_follow_rust_decimal() {
    let a = d("2.0");
    let b = d("2.00");
    // equal values: min keeps the receiver, max keeps the receiver
    assert_eq!(a.min(&b), a);
    assert_eq!(a.max(&b), a);
    assert_eq!(d("3").min(&d("1.5")), d("1.5"));
    assert_eq!(d("3").max(&d("4.25")), d("4.25"));
}

#[test]
fn round_dp_half_to_even() {
    assert_eq!(d("2.345").round_dp(2), d("2.34"));
    assert_eq!(d("2.355").round_dp(2), d("2.36"));
    assert_eq!(d("2.3451").round_dp(2), d("2.35"));
    assert_eq!(d("-2.345").round_dp(2), d("-2.34"));
    assert_eq!(d("1.5").round_dp(2), d("1.5"));
    assert_eq!(d("0.004").round_dp(2).mantissa, 0);
}

#[test]
fn negation_and_validity() {
    let x = d("30000.00").neg();
    assert_eq!((x.mantissa, x.scale), (-3000000, 2));
    assert!(Dec::from_parts(1, 29).is_none());
    assert!(Dec::from_parts(79228162514264337593543950336, 0).is_none());
    assert!(Dec { mantissa: 1, scale: 30, negative: false }.is_valid() == false);
    assert!(Dec::from_u32(25).is_valid());
}

#[test]
fn negative_zero_is_kept_apart() {
    let z = Dec::zero().neg();
    assert_eq!((z.mantissa, z.scale, z.negative), (0, 0, true));
    // a negative product that rounds to zero keeps its sign, and rounding keeps it too
    let tiny = Dec::from_parts(-8589934592, 20).unwrap();
    let p = tiny.checked_mul(&Dec::from_parts(1, 20).unwrap()).unwrap();
    assert_eq!((p.mantissa, p.scale, p.negative), (0, 28, true));
    let r = p.round_dp(2);
    assert_eq!((r.mantissa, r.scale, r.negative), (0, 2, true));
    // a nonzero value that rounds to zero is a positive zero
    let q = d("-0.001").round_dp(2);
    assert_eq!((q.mantissa, q.scale, q.negative), (0, 2, false));
    // an exact zero difference is positive, a parsed "-0" too
    let e = d("-1.5").checked_add(&d("1.5")).unwrap();
    assert!(!e.negative);
    assert!(!d("-0.00").negative);
}

#[test]
fn bad_text_is_rejected() {
    assert!(Dec::parse("").is_err());
    assert!(Dec::parse("12x").is_err());
    assert!(Dec::parse("4.6 ").is_err());
    assert!(Dec::parse("1e2").is_ok());
}

#[test]
fn rounded_product_keeps_sign_and_nearest_value() {
    let a = d("1.0000000000000000000000000001");
    let p = a.checked_mul(&a).unwrap();
    assert_eq!((p.mantissa, p.scale, p.negative), (10000000000000000000000000002, 28, false));
    let n = a.neg().checked_mul(&a).unwrap();
    assert_eq!((n.mantissa, n.scale, n.negative), (-10000000000000000000000000002, 28, true));
    let small = d("0.0000000000000001");
    let tiny = small.checked_mul(&small.neg()).unwrap();
    assert_eq!(tiny.mantissa, 0);
}

#[test]
fn rounded_quotient_keeps_sign_and_nearest_value() {
    let third = d("-1").checked_div(&d("3")).unwrap();
    assert_eq!((third.mantissa, third.scale, third.negative), (-3333333333333333333333333333, 28, true));
    let two_thirds = d("2").checked_div(&d("-3")).unwrap();
    assert_eq!(two_thirds.mantissa, -6666666666666666666666666667);
    let least = d("0.0000000000000000000000000003").checked_div(&d("3")).unwrap();
    assert_eq!((least.mantissa, least.scale), (1, 28));
}

#[test]
fn rounding_keeps_order() {
    let values = ["-0.135", "-0.125", "-0.12", "0", "0.115", "0.125", "0.126", "0.135", "1"];
    for w in values.windows(2) {
        let (x, y) = (d(w[0]).round_dp(2), d(w[1]).round_dp(2));
        assert!(value(x) <= value(y));
    }
    assert_eq!(value(d("0.125").round_dp(2)), Decimal::new(12, 2));
    assert_eq!(value(d("0.135").round_dp(2)), Decimal::new(14, 2));
}

use std::str::FromStr;

use rust_decimal::Decimal as RustDecimal;
use tiered_io::decimal::Decimal128;

#[test]
fn test_common_decimal() {
    let decimal = Decimal128::new(123456789, 9, 0);
    assert_eq!(decimal.to_string(), "123456789");

    let decimal = Decimal128::new(123456789, 9, 2);
    assert_eq!(decimal.to_string(), "1234567.89");

    let decimal = Decimal128::new(123, 3, -2);
    assert_eq!(decimal.to_string(), "12300");
}

#[test]
fn test_from_rust_decimal() {
    let rd = RustDecimal::new(123456789, 9);
    let decimal = Decimal128::from_rust_decimal(&rd);
    assert_eq!(decimal.to_string(), "0.123456789");

    // Max RustDecimal
    let rd = RustDecimal::MAX;
    let decimal = Decimal128::from_rust_decimal(&rd);
    assert_eq!(decimal.to_string(), "79228162514264337593543950335");

    // Min RustDecimal
    let rd = RustDecimal::MIN;
    let decimal = Decimal128::from_rust_decimal(&rd);
    assert_eq!(decimal.to_string(), "-79228162514264337593543950335");
}

#[test]
fn test_decimal_accessors() {
    let d = Decimal128::new(-5, 4, 1);
    assert_eq!(d.val(), -5);
    assert_eq!(d.precision(), 4);
    assert_eq!(d.scale(), 1);
    assert_eq!(d.to_scalar_value(), (Some(-5), 4, 1));
    let z = Decimal128::zero();
    assert_eq!(z.val(), 0);
    assert_eq!(z.precision(), 0);
    assert_eq!(z.scale(), 0);
}

#[test]
fn test_decimal_compare_by_value() {
    let a = Decimal128::new(100, 5, 2);
    let b = Decimal128::new(100, 9, 4);
    let c = Decimal128::new(101, 5, 2);
    assert_eq!(a, b);
    assert!(a < c);
    assert!(c > b);
}

#[test]
fn test_decimal_pb_value() {
    let d = Decimal128::new(1, 38, 10);
    let (hi, lo, ps) = d.to_pb_value();
    assert_eq!(hi, 0);
    assert_eq!(lo, 1);
    assert_eq!(ps, (38 << 8) | 10);

    let d = Decimal128::new(-1, 38, 10);
    let (hi, lo, _) = d.to_pb_value();
    assert_eq!(hi, -1);
    assert_eq!(lo, -1);
}

#[test]
fn test_decimal_from_str_via_rust_decimal() {
    let rd = RustDecimal::from_str("1234567.89").unwrap();
    let d = Decimal128::from_rust_decimal(&rd);
    assert_eq!(d.val(), 123456789);
    assert_eq!(d.scale(), 2);
    assert_eq!(d.precision(), 9);
    assert_eq!(d.to_string(), "1234567.89");
}

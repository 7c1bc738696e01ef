use std::str::FromStr;

use rust_fixed_decimal::{FixedDecimal, FixedDecimalI128, FixedDecimalU128};

// Consts
#[test]
fn it_consts_bounds() {
    assert_eq!(FixedDecimal::<i128, 0>::max_value().mantissa(), i128::MAX);
    assert_eq!(FixedDecimal::<i128, 0>::min_value().mantissa(), i128::MIN);
    assert_eq!(FixedDecimal::<u128, 0>::max_value().mantissa(), u128::MAX);
    assert_eq!(FixedDecimal::<u128, 0>::min_value().mantissa(), u128::MIN);
}

#[test]
fn it_consts_one() {
    assert_eq!(
        FixedDecimalI128::<0>::one(),
        FixedDecimalI128::from_str("1").unwrap()
    );
    assert_eq!(
        FixedDecimalI128::<7>::one(),
        FixedDecimalI128::from_str("1").unwrap()
    );
}

// Formatting

#[test]
fn it_formats() {
    let a = FixedDecimalI128::<6>::from_str("233.323223").unwrap();
    assert_eq!(a.to_text(), "233.323223");
    assert_eq!(a.to_text_precision(9), "233.323223000");
    assert_eq!(a.to_text_precision(0), "233");
    assert_eq!(a.to_text_precision(2), "233.32");
    assert_eq!(a.to_text_precision(300), "233.323223000000000000000000000000000000000000000000000000000000000000000000000000000000000000000000000000000000000000000000000000000000000000000000000000000000000000000000000000000000000000000000000000000000000000000000000000000000000000000000000000000000000000000000000000000000000000000000000000000000");
}

#[test]
fn it_formats_neg() {
    let a = FixedDecimalI128::<6>::from_str("-233.323223").unwrap();
    assert_eq!(a.to_text(), "-233.323223");
    assert_eq!(a.to_text_precision(9), "-233.323223000");
    assert_eq!(a.to_text_precision(0), "-233");
    assert_eq!(a.to_text_precision(2), "-233.32");
}

#[test]
fn it_formats_small() {
    let a = FixedDecimalI128::<4>::from_str("0.2223").unwrap();
    assert_eq!(a.to_text(), "0.2223");
    assert_eq!(a.to_text_precision(9), "0.222300000");
    assert_eq!(a.to_text_precision(0), "0");
    assert_eq!(a.to_text_precision(2), "0.22");
}

#[test]
fn it_formats_small_leading_zeros() {
    let a = FixedDecimalI128::<16>::from_str("0.0023554701772169").unwrap();
    assert_eq!(a.to_text(), "0.0023554701772169");
    assert_eq!(a.to_text_precision(9), "0.002355470");
    assert_eq!(a.to_text_precision(0), "0");
    assert_eq!(a.to_text_precision(2), "0.00");
}

#[test]
fn it_formats_small_neg() {
    let a = FixedDecimalI128::<4>::from_str("-0.2223").unwrap();
    assert_eq!(a.to_text(), "-0.2223");
    assert_eq!(a.to_text_precision(9), "-0.222300000");
    assert_eq!(a.to_text_precision(0), "-0");
    assert_eq!(a.to_text_precision(2), "-0.22");
}

#[test]
fn it_formats_zero() {
    let a = FixedDecimalI128::<0>::from_str("0").unwrap();
    assert_eq!(a.to_text(), "0");
    assert_eq!(a.to_text_precision(9), "0.000000000");
    assert_eq!(a.to_text_precision(0), "0");
    assert_eq!(a.to_text_precision(2), "0.00");
}

#[test]
fn it_formats_int() {
    let a = FixedDecimalI128::<0>::from_str("5").unwrap();
    assert_eq!(a.to_text(), "5");
    assert_eq!(a.to_text_precision(9), "5.000000000");
    assert_eq!(a.to_text_precision(0), "5");
    assert_eq!(a.to_text_precision(2), "5.00");
}

#[test]
fn it_formats_big_scale() {
    let a = FixedDecimalI128::<{ u8::MAX }>::new(1);
    assert_eq!(a.to_text(), "0.000000000000000000000000000000000000000000000000000000000000000000000000000000000000000000000000000000000000000000000000000000000000000000000000000000000000000000000000000000000000000000000000000000000000000000000000000000000000000000000000000000000000001");
    let a = FixedDecimalI128::<{ u8::MAX }>::new(i128::MAX);
    assert_eq!(a.to_text(), "0.000000000000000000000000000000000000000000000000000000000000000000000000000000000000000000000000000000000000000000000000000000000000000000000000000000000000000000000000000000000000000000000000000000000000000000000000170141183460469231731687303715884105727");
    let a = FixedDecimalI128::<{ u8::MAX }>::new(i128::MIN);
    assert_eq!(a.to_text(), "-0.000000000000000000000000000000000000000000000000000000000000000000000000000000000000000000000000000000000000000000000000000000000000000000000000000000000000000000000000000000000000000000000000000000000000000000000000170141183460469231731687303715884105728");
    let a = FixedDecimalU128::<{ u8::MAX }>::new(u128::MAX);
    assert_eq!(a.to_text(), "0.000000000000000000000000000000000000000000000000000000000000000000000000000000000000000000000000000000000000000000000000000000000000000000000000000000000000000000000000000000000000000000000000000000000000000000000000340282366920938463463374607431768211455");
}

#[test]
fn it_formats_big_int() {
    let a = FixedDecimalI128::<0>::new(i128::MAX);
    assert_eq!(a.to_text(), i128::MAX.to_string());
    let a = FixedDecimalI128::<0>::new(i128::MIN);
    assert_eq!(a.to_text(), i128::MIN.to_string());
    let a = FixedDecimalU128::<0>::new(u128::MAX);
    assert_eq!(a.to_text(), u128::MAX.to_string());
}

// Parsing

#[test]
fn it_parses_empty_string() {
    assert!(FixedDecimalI128::<3>::from_str("").is_err());
    assert!(FixedDecimalI128::<3>::from_str(" ").is_err());
}

#[test]
fn it_parses_positive_int_string() {
    let a = FixedDecimalI128::<0>::from_str("233").unwrap();
    assert!(a.is_positive());
    assert_eq!(233, a.mantissa());
    assert_eq!("233", a.to_text());
}

#[test]
fn it_parses_negative_int_string() {
    let a = FixedDecimalI128::<0>::from_str("-233").unwrap();
    assert!(a.is_negative());
    assert_eq!(-233, a.mantissa());
    assert_eq!("-233", a.to_text());
}

#[test]
fn it_parses_positive_float_string() {
    let a = FixedDecimalI128::<6>::from_str("233.323223").unwrap();
    assert!(a.is_positive());
    assert_eq!(233323223, a.mantissa());
    assert_eq!("233.323223", a.to_text());
}

#[test]
fn it_parses_negative_float_string() {
    let a = FixedDecimalI128::<5>::from_str("-233.32322").unwrap();
    assert!(a.is_negative());
    assert_eq!(-23332322, a.mantissa());
    assert_eq!("-233.32322", a.to_text());
}

#[test]
fn it_parses_positive_tiny_float_string() {
    let a = FixedDecimalI128::<6>::from_str(".000001").unwrap();
    assert!(a.is_positive());
    assert_eq!(1, a.mantissa());
    assert_eq!("0.000001", a.to_text());
}

#[test]
fn it_parses_negative_tiny_float_string() {
    let a = FixedDecimalI128::<6>::from_str("-0.000001").unwrap();
    assert!(a.is_negative());
    assert_eq!(-1, a.mantissa());
    assert_eq!("-0.000001", a.to_text());
}

#[test]
fn it_parses_big_integer_string() {
    let a = FixedDecimalI128::<0>::from_str("170141183460469231731687303715884105727").unwrap();
    assert_eq!(FixedDecimalI128::<0>::max_value(), a);
    assert_eq!(i128::MAX.to_string(), a.to_text());

    let a = FixedDecimalI128::<0>::from_str("-170141183460469231731687303715884105728").unwrap();
    assert_eq!(FixedDecimalI128::<0>::min_value(), a);
    assert_eq!(i128::MIN.to_string(), a.to_text());
}

#[test]
fn it_parses_big_float_string() {
    let a = FixedDecimalI128::<37>::from_str("17.0141183460469231731687303715884105727").unwrap();
    assert_eq!("17.0141183460469231731687303715884105727", a.to_text());
}

#[test]
fn it_parses_big_scale() {
    let s = "0.000000000000000000000000000000000000000000000000000000000000000000000000000000000000000000000000000000000000000000000000000000000000000000000000000000000000000000000000000000000000000000000000000000000000000000000000000000000000000000000000000000000000001";
    let a = FixedDecimalI128::<{ u8::MAX }>::from_str(s).expect("1");
    assert_eq!(s, a.to_text());

    let s = "0.000000000000000000000000000000000000000000000000000000000000000000000000000000000000000000000000000000000000000000000000000000000000000000000000000000000000000000000000000000000000000000000000000000000000000000000000170141183460469231731687303715884105727";
    let a = FixedDecimalI128::<{ u8::MAX }>::from_str(s).expect("i128::MAX");
    assert_eq!(s, a.to_text());

    let s = "0.000000000000000000000000000000000000000000000000000000000000000000000000000000000000000000000000000000000000000000000000000000000000000000000000000000000000000000000000000000000000000000000000000000000000000000000000340282366920938463463374607431768211455";
    let a = FixedDecimalU128::<{ u8::MAX }>::from_str(s).expect("u128::MAX");
    assert_eq!(s, a.to_text());
}

// Negation
#[test]
fn it_negates_decimals() {
    let a = FixedDecimalI128::<8>::from_str("11.81512605").unwrap();
    let b = FixedDecimalI128::<8>::from_str("-11.81512605").unwrap();

    assert_eq!(a.neg(), b);
    assert_eq!(b.neg(), a);
}

// Addition

#[test]
fn it_can_add_simple() {
    // This is the most basic test for addition, intended largely for micro-optimization.
    let two = FixedDecimalI128::<2>::one().add(FixedDecimalI128::<2>::one());
    assert_eq!(two, FixedDecimalI128::<2>::new(200));
}

#[test]
fn it_can_addassign() {
    let mut a = FixedDecimalI128::<2>::from_str("1.01").unwrap();
    let b = FixedDecimalI128::<2>::from_str("0.99").unwrap();
    a = a.add(b);
    assert_eq!("2.00", a.to_text());

    a = a.add(b);
    assert_eq!("2.99", a.to_text());

    a = a.add(b);
    assert_eq!("3.98", a.to_text());

    a = a.add(b);
    assert_eq!("4.97", a.to_text());
}

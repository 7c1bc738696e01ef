use std::str::FromStr;

use rust_fixed_decimal::parse::{parse_str_radix_10_exact, ParseError};
use rust_fixed_decimal::{FixedDecimal, FixedDecimalI128, FixedDecimalU128};

fn round_trips_i128<const E: u8>(v: i128) {
    let d = FixedDecimalI128::<E>::new(v);
    assert_eq!(FixedDecimalI128::<E>::from_str(&d.to_text()), Ok(d));
}

fn round_trips_u128<const E: u8>(v: u128) {
    let d = FixedDecimalU128::<E>::new(v);
    assert_eq!(FixedDecimalU128::<E>::from_str(&d.to_text()), Ok(d));
}

#[test]
fn round_trips_all_scales_i128() {
    for v in [i128::MIN, -1, 0, 1, 7, -233323223, i128::MAX] {
        round_trips_i128::<0>(v);
        round_trips_i128::<27>(v);
        round_trips_i128::<57>(v);
        round_trips_i128::<173>(v);
        round_trips_i128::<{ u8::MAX }>(v);
    }
}

#[test]
fn round_trips_all_scales_u128() {
    for v in [0, 1, 7, 233323223, u128::MAX] {
        round_trips_u128::<0>(v);
        round_trips_u128::<27>(v);
        round_trips_u128::<57>(v);
        round_trips_u128::<173>(v);
        round_trips_u128::<{ u8::MAX }>(v);
    }
}

#[test]
fn round_trips_every_kind() {
    let d = FixedDecimal::<i8, 1>::new(i8::MIN);
    assert_eq!(FixedDecimal::<i8, 1>::from_str(&d.to_text()), Ok(d));
    let d = FixedDecimal::<u8, 1>::new(u8::MAX);
    assert_eq!(FixedDecimal::<u8, 1>::from_str(&d.to_text()), Ok(d));
    let d = FixedDecimal::<i16, 2>::new(i16::MIN);
    assert_eq!(FixedDecimal::<i16, 2>::from_str(&d.to_text()), Ok(d));
    let d = FixedDecimal::<u16, 2>::new(u16::MAX);
    assert_eq!(FixedDecimal::<u16, 2>::from_str(&d.to_text()), Ok(d));
    let d = FixedDecimal::<i32, 3>::new(i32::MIN);
    assert_eq!(FixedDecimal::<i32, 3>::from_str(&d.to_text()), Ok(d));
    let d = FixedDecimal::<u32, 3>::new(u32::MAX);
    assert_eq!(FixedDecimal::<u32, 3>::from_str(&d.to_text()), Ok(d));
    let d = FixedDecimal::<i64, 5>::new(i64::MIN);
    assert_eq!(FixedDecimal::<i64, 5>::from_str(&d.to_text()), Ok(d));
    let d = FixedDecimal::<u64, 5>::new(u64::MAX);
    assert_eq!(FixedDecimal::<u64, 5>::from_str(&d.to_text()), Ok(d));
}

#[test]
fn overflow_with_scale_is_signed() {
    assert_eq!(
        parse_str_radix_10_exact::<i128, 57>("-1"),
        Err(ParseError::NegOverflow)
    );
    assert_eq!(
        parse_str_radix_10_exact::<i128, 57>("1"),
        Err(ParseError::PosOverflow)
    );
}

#[test]
fn overflow_in_integer_digits_is_signed() {
    assert_eq!(
        parse_str_radix_10_exact::<i128, 0>("170141183460469231731687303715884105728"),
        Err(ParseError::PosOverflow)
    );
    assert_eq!(
        parse_str_radix_10_exact::<i128, 0>("-170141183460469231731687303715884105729"),
        Err(ParseError::NegOverflow)
    );
    assert_eq!(
        parse_str_radix_10_exact::<u8, 0>("256"),
        Err(ParseError::PosOverflow)
    );
}

#[test]
fn underflow_only_for_nonzero_excess() {
    assert_eq!(
        parse_str_radix_10_exact::<i128, 2>("1234.567"),
        Err(ParseError::Underflow)
    );
    assert_eq!(
        parse_str_radix_10_exact::<i128, 2>("1234.500").map(|d| d.mantissa()),
        Ok(123450)
    );
    assert_eq!(
        parse_str_radix_10_exact::<i128, 2>("1234.5000000").map(|d| d.mantissa()),
        Ok(123450)
    );
}

#[test]
fn minimum_value_exact_text() {
    let min = FixedDecimalI128::<0>::min_value();
    assert_eq!(min.to_text(), "-170141183460469231731687303715884105728");
    assert_eq!(
        FixedDecimalI128::<0>::from_str("-170141183460469231731687303715884105728"),
        Ok(min)
    );
}

#[test]
fn precision_expansion_appends_zeros() {
    let a = FixedDecimalI128::<6>::from_str("233.323223").unwrap();
    let text = a.to_text_precision(300);
    assert_eq!(&text[..10], "233.323223");
    assert_eq!(text.len(), "233.".len() + 300);
    assert!(text[10..].bytes().all(|b| b == b'0'));
}

#[test]
fn addition_is_exact_and_checked() {
    let a = FixedDecimalI128::<7>::new(123_4567890);
    let b = FixedDecimalI128::<7>::new(876_5432110);
    assert_eq!(a.add(b), FixedDecimalI128::<7>::new(1000_0000000));
    assert_eq!(
        a.checked_add(&b),
        Some(FixedDecimalI128::<7>::new(1000_0000000))
    );
    let max = FixedDecimalI128::<7>::max_value();
    let one_ulp = FixedDecimalI128::<7>::new(1);
    assert_eq!(max.checked_add(&one_ulp), None);
    assert_eq!(
        FixedDecimalI128::<7>::min_value().checked_add(&FixedDecimalI128::<7>::new(-1)),
        None
    );
}

#[test]
fn parse_rejects_bad_shapes() {
    assert_eq!(
        parse_str_radix_10_exact::<i128, 2>(""),
        Err(ParseError::Empty)
    );
    assert_eq!(
        parse_str_radix_10_exact::<i128, 2>(" \t"),
        Err(ParseError::Empty)
    );
    assert_eq!(
        parse_str_radix_10_exact::<i128, 2>("-"),
        Err(ParseError::Empty)
    );
    assert_eq!(
        parse_str_radix_10_exact::<i128, 2>("+"),
        Err(ParseError::Empty)
    );
    assert_eq!(
        parse_str_radix_10_exact::<i128, 2>("."),
        Err(ParseError::Empty)
    );
    assert_eq!(
        parse_str_radix_10_exact::<i128, 2>("-."),
        Err(ParseError::Empty)
    );
    assert_eq!(
        parse_str_radix_10_exact::<i128, 2>("12a"),
        Err(ParseError::InvalidDigit)
    );
    assert_eq!(
        parse_str_radix_10_exact::<i128, 2>("1.2.3"),
        Err(ParseError::InvalidDigit)
    );
    assert_eq!(
        parse_str_radix_10_exact::<u128, 2>("-1"),
        Err(ParseError::InvalidDigit)
    );
    assert_eq!(
        parse_str_radix_10_exact::<i128, 2>("1.23x"),
        Err(ParseError::InvalidDigit)
    );
}

#[test]
fn parse_accepts_plus_and_bare_point() {
    assert_eq!(
        parse_str_radix_10_exact::<i128, 2>("+12.34").map(|d| d.mantissa()),
        Ok(1234)
    );
    assert_eq!(
        parse_str_radix_10_exact::<i128, 2>("5.").map(|d| d.mantissa()),
        Ok(500)
    );
    assert_eq!(
        parse_str_radix_10_exact::<i128, 2>(".5").map(|d| d.mantissa()),
        Ok(50)
    );
}

#[test]
fn with_scale_keeps_the_mantissa() {
    type Pennie = FixedDecimalI128<0>;

    let amount_cents = Pennie::new(123_45);
    let amount = amount_cents.with_scale::<2>();
    assert_eq!(amount.to_text(), "123.45");
    assert_eq!(amount.mantissa(), 123_45);
}

#[test]
fn constructors_and_accessors() {
    let pi = FixedDecimalI128::<4>::new(31415);
    assert_eq!(pi.to_text(), "3.1415");
    assert_eq!(pi.mantissa(), 31415);

    let num = FixedDecimalI128::<7>::from_str("-1.2345678").unwrap();
    assert_eq!(num.mantissa(), -12345678i128);

    assert!(FixedDecimalI128::<3>::zero().is_zero());
    assert_eq!(FixedDecimalI128::<3>::zero().to_text(), "0.000");
    assert_eq!(FixedDecimalI128::<2>::one().mantissa(), 100);
}

#[test]
fn arithmetic_forwards_to_the_mantissa() {
    let a = FixedDecimalI128::<2>::new(700);
    let b = FixedDecimalI128::<2>::new(300);
    assert_eq!(a.sub(b).mantissa(), 400);
    assert_eq!(a.mul(b).mantissa(), 210000);
    assert_eq!(a.div(b).mantissa(), 2);
    assert_eq!(a.rem(b).mantissa(), 100);
    assert_eq!(a.neg().mantissa(), -700);
    let c = FixedDecimalI128::<2>::new(-700);
    assert_eq!(c.div(b).mantissa(), -2);
    assert_eq!(c.rem(b).mantissa(), -100);
    assert!(b.lt(&a));
    assert!(a.eq_value(&a));
    assert!(!a.eq_value(&b));
}

#[test]
fn never_panics_on_adversarial_text() {
    let texts = [
        "",
        " ",
        "++1",
        "--1",
        "0..0",
        ".",
        "..",
        "-.",
        "+.",
        "9999999999999999999999999999999999999999999999999",
        "-9999999999999999999999999999999999999999999999999",
        "1e10",
        "0x10",
        "٣٤",
        "1\u{0}2",
        "184467440737095516150.18446744073709551615",
    ];
    for t in texts {
        let _ = parse_str_radix_10_exact::<i128, 0>(t);
        let _ = parse_str_radix_10_exact::<i128, 28>(t);
        let _ = parse_str_radix_10_exact::<u128, 255>(t);
        let _ = parse_str_radix_10_exact::<i8, 3>(t);
        let _ = parse_str_radix_10_exact::<u8, 0>(t);
    }
}

#[test]
fn never_panics_formatting_extremes() {
    for v in [i128::MIN, -1, 0, 1, i128::MAX] {
        let _ = FixedDecimalI128::<0>::new(v).to_text();
        let _ = FixedDecimalI128::<{ u8::MAX }>::new(v).to_text();
        let _ = FixedDecimalI128::<0>::new(v).to_text_precision(0);
        let _ = FixedDecimalI128::<0>::new(v).to_text_precision(255);
        let _ = FixedDecimalI128::<0>::new(v).to_text_precision(1000);
        let _ = FixedDecimalI128::<{ u8::MAX }>::new(v).to_text_precision(1000);
    }
    let _ = FixedDecimal::<u8, 200>::new(u8::MAX).to_text();
    let _ = FixedDecimal::<i8, 200>::new(i8::MIN).to_text();
}

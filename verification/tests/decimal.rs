use mqtt_publisher::decimal::{decimal_string, parse_decimal, parse_short, push_decimal, push_signed};

#[test]
fn decimal_of_zero_is_a_single_digit() {
    assert_eq!(decimal_string(0), "0");
}

#[test]
fn decimal_of_small_numbers() {
    assert_eq!(decimal_string(7), "7");
    assert_eq!(decimal_string(10), "10");
    assert_eq!(decimal_string(1234567890), "1234567890");
}

#[test]
fn decimal_of_largest_value_has_all_digits() {
    assert_eq!(decimal_string(u128::MAX), "340282366920938463463374607431768211455");
}

#[test]
fn decimal_beyond_64_bits_keeps_every_digit() {
    assert_eq!(decimal_string(18446744073709551616), "18446744073709551616");
    assert_eq!(parse_decimal("18446744073709551616"), Some(18446744073709551616));
}

#[test]
fn push_decimal_appends() {
    let mut s = String::from("n=");
    push_decimal(&mut s, 42);
    assert_eq!(s, "n=42");
}

#[test]
fn push_signed_writes_a_minus_sign() {
    let mut s = String::new();
    push_signed(&mut s, -9_223_372_036_854_775_808);
    assert_eq!(s, "-9223372036854775808");
    let mut t = String::new();
    push_signed(&mut t, 10);
    assert_eq!(t, "10");
    let mut z = String::new();
    push_signed(&mut z, 0);
    assert_eq!(z, "0");
}

#[test]
fn parse_decimal_reads_back_the_largest_value() {
    assert_eq!(parse_decimal("340282366920938463463374607431768211455"), Some(u128::MAX));
    assert_eq!(parse_decimal("340282366920938463463374607431768211456"), None);
    assert_eq!(parse_decimal("1000000000000000000000000000000000000000"), None);
}

#[test]
fn parse_decimal_refuses_what_is_not_canonical() {
    assert_eq!(parse_decimal(""), None);
    assert_eq!(parse_decimal("007"), None);
    assert_eq!(parse_decimal("00"), None);
    assert_eq!(parse_decimal("+7"), None);
    assert_eq!(parse_decimal("-0"), None);
    assert_eq!(parse_decimal("1.0"), None);
    assert_eq!(parse_decimal("1e3"), None);
    assert_eq!(parse_decimal("12a"), None);
    assert_eq!(parse_decimal("١٢"), None);
    assert_eq!(parse_decimal("0"), Some(0));
    assert_eq!(parse_decimal("10"), Some(10));
}

#[test]
fn parse_decimal_inverts_decimal_string() {
    for n in [0u128, 1, 9, 10, 99, 100, 65535, u64::MAX as u128, u128::MAX - 1] {
        assert_eq!(parse_decimal(&decimal_string(n)), Some(n));
    }
}

#[test]
fn parse_short_reads_signed_numbers() {
    assert_eq!(parse_short("-32768"), Some(i16::MIN));
    assert_eq!(parse_short("32767"), Some(i16::MAX));
    assert_eq!(parse_short("32768"), None);
    assert_eq!(parse_short("-32769"), None);
    assert_eq!(parse_short("-0"), None);
    assert_eq!(parse_short("-"), None);
    assert_eq!(parse_short("--1"), None);
    assert_eq!(parse_short("-01"), None);
    assert_eq!(parse_short("-7"), Some(-7));
    assert_eq!(parse_short("0"), Some(0));
}

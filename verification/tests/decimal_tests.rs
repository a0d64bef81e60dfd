use rust_predictions::decimal::{parse_decimal, Decimal, SCALE};

fn mantissa_of(text: &str) -> i64 {
    let d: Decimal = parse_decimal(text).expect("should parse");
    d.mantissa
}

#[test]
fn parses_plain_integers() {
    assert_eq!(mantissa_of("0"), 0);
    assert_eq!(mantissa_of("300"), 300 * SCALE);
    assert_eq!(mantissa_of("42"), 42 * SCALE);
}

#[test]
fn parses_fractions_exactly() {
    assert_eq!(mantissa_of("1.2"), 1_200_000);
    assert_eq!(mantissa_of("25.0"), 25_000_000);
    assert_eq!(mantissa_of("0.000001"), 1);
    assert_eq!(mantissa_of("0.123456"), 123_456);
}

#[test]
fn parses_signs() {
    assert_eq!(mantissa_of("-0.5"), -500_000);
    assert_eq!(mantissa_of("+2.25"), 2_250_000);
    assert_eq!(mantissa_of("-300"), -300 * SCALE);
}

#[test]
fn parses_bare_point_forms() {
    assert_eq!(mantissa_of(".5"), 500_000);
    assert_eq!(mantissa_of("5."), 5_000_000);
}

#[test]
fn rejects_non_numerals() {
    assert!(parse_decimal("").is_none());
    assert!(parse_decimal(".").is_none());
    assert!(parse_decimal("-").is_none());
    assert!(parse_decimal("abc").is_none());
    assert!(parse_decimal("1.2.3").is_none());
    assert!(parse_decimal("--5").is_none());
    assert!(parse_decimal(" 1").is_none());
    assert!(parse_decimal("1 ").is_none());
    assert!(parse_decimal("1e5").is_none());
    assert!(parse_decimal("NaN").is_none());
    assert!(parse_decimal("inf").is_none());
}

#[test]
fn rejects_excess_precision() {
    assert!(parse_decimal("1.1234567").is_none());
    assert_eq!(mantissa_of("1.123456"), 1_123_456);
}

#[test]
fn handles_the_mantissa_range_exactly() {
    assert_eq!(mantissa_of("9223372036854.775807"), i64::MAX);
    assert_eq!(mantissa_of("-9223372036854.775807"), -i64::MAX);
    assert!(parse_decimal("9223372036854.775808").is_none());
    assert!(parse_decimal("-9223372036854.775808").is_none());
    assert!(parse_decimal("99999999999999999999").is_none());
}

#[test]
fn leading_zeroes_do_not_matter() {
    assert_eq!(mantissa_of("007"), 7 * SCALE);
    assert_eq!(mantissa_of("000.5"), 500_000);
}

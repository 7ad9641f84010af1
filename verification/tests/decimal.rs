use game_night::decimal::{digits_of, parse_decimal, to_decimal};

#[test]
fn decimal_text_of_small_numbers() {
    assert_eq!(to_decimal(0), "0");
    assert_eq!(to_decimal(7), "7");
    assert_eq!(to_decimal(10), "10");
    assert_eq!(to_decimal(-1), "-1");
    assert_eq!(to_decimal(-120), "-120");
    assert_eq!(to_decimal(1234567890), "1234567890");
}

#[test]
fn decimal_text_of_the_ends_of_the_range() {
    assert_eq!(to_decimal(i64::MAX), "9223372036854775807");
    assert_eq!(to_decimal(i64::MIN), "-9223372036854775808");
}

#[test]
fn digits_of_unsigned_numbers() {
    assert_eq!(digits_of(0), "0");
    assert_eq!(digits_of(u64::MAX), "18446744073709551615");
    assert_eq!(digits_of(1000), "1000");
}

#[test]
fn decimal_text_agrees_with_std() {
    let samples = [0i64, 1, -1, 9, 10, 99, 100, 101, -999, 4711, i64::MAX, i64::MIN, i64::MIN + 1];
    for n in samples.iter() {
        assert_eq!(to_decimal(*n), n.to_string());
    }
}

#[test]
fn parse_reads_plain_and_signed_numbers() {
    assert_eq!(parse_decimal("0"), Some(0));
    assert_eq!(parse_decimal("42"), Some(42));
    assert_eq!(parse_decimal("+42"), Some(42));
    assert_eq!(parse_decimal("-42"), Some(-42));
    assert_eq!(parse_decimal("-0"), Some(0));
    assert_eq!(parse_decimal("007"), Some(7));
}

#[test]
fn parse_reads_the_ends_of_the_range() {
    assert_eq!(parse_decimal("9223372036854775807"), Some(i64::MAX));
    assert_eq!(parse_decimal("-9223372036854775808"), Some(i64::MIN));
    assert_eq!(parse_decimal("0000000000000000000000009223372036854775807"), Some(i64::MAX));
}

#[test]
fn parse_rejects_numbers_outside_the_range() {
    assert_eq!(parse_decimal("9223372036854775808"), None);
    assert_eq!(parse_decimal("-9223372036854775809"), None);
    assert_eq!(parse_decimal("99999999999999999999999999"), None);
    assert_eq!(parse_decimal("18446744073709551616"), None);
}

#[test]
fn parse_rejects_what_is_no_number() {
    assert_eq!(parse_decimal(""), None);
    assert_eq!(parse_decimal("+"), None);
    assert_eq!(parse_decimal("-"), None);
    assert_eq!(parse_decimal("1a"), None);
    assert_eq!(parse_decimal("a1"), None);
    assert_eq!(parse_decimal(" 1"), None);
    assert_eq!(parse_decimal("1 "), None);
    assert_eq!(parse_decimal("--1"), None);
    assert_eq!(parse_decimal("+-1"), None);
    assert_eq!(parse_decimal("1.0"), None);
    assert_eq!(parse_decimal("\u{0661}"), None);
    assert_eq!(parse_decimal("99999999999999999999x"), None);
}

#[test]
fn parse_agrees_with_std() {
    let samples = [
        "", "0", "-0", "+0", "12", "-12", "+12", "0012", "9223372036854775807",
        "9223372036854775808", "-9223372036854775808", "-9223372036854775809", "x", "1x", "+", "-",
        "1-", "++1", "123456789012345678901234567890",
    ];
    for s in samples.iter() {
        assert_eq!(parse_decimal(s), s.parse::<i64>().ok());
    }
}

#[test]
fn reading_the_decimal_text_gives_the_number_back() {
    let samples = [0i64, 1, -1, 10, -10, 123456789, i64::MAX, i64::MIN];
    for n in samples.iter() {
        assert_eq!(parse_decimal(&to_decimal(*n)), Some(*n));
    }
}

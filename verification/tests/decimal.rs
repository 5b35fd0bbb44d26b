use andino::decimal::format_i64;
use andino::decimal::format_u64;
use andino::decimal::parse_i64;
use andino::decimal::IntParseError;

#[test]
fn test_format_u64_values() {
    assert_eq!(format_u64(0), "0");
    assert_eq!(format_u64(7), "7");
    assert_eq!(format_u64(10), "10");
    assert_eq!(format_u64(1234567890), "1234567890");
    assert_eq!(format_u64(u64::MAX), "18446744073709551615");
}

#[test]
fn test_format_i64_values() {
    assert_eq!(format_i64(0), "0");
    assert_eq!(format_i64(100), "100");
    assert_eq!(format_i64(-1), "-1");
    assert_eq!(format_i64(i64::MAX), "9223372036854775807");
    assert_eq!(format_i64(i64::MIN), "-9223372036854775808");
}

#[test]
fn test_format_matches_std_display() {
    for v in [0i64, 1, -1, 42, -42, 1000, i64::MAX, i64::MIN] {
        assert_eq!(format_i64(v), format!("{}", v));
    }
}

#[test]
fn test_parse_i64_values() {
    assert_eq!(parse_i64("0"), Ok(0));
    assert_eq!(parse_i64("123"), Ok(123));
    assert_eq!(parse_i64("+123"), Ok(123));
    assert_eq!(parse_i64("-123"), Ok(-123));
    assert_eq!(parse_i64("007"), Ok(7));
    assert_eq!(parse_i64("9223372036854775807"), Ok(i64::MAX));
    assert_eq!(parse_i64("-9223372036854775808"), Ok(i64::MIN));
}

#[test]
fn test_parse_i64_empty() {
    assert_eq!(parse_i64(""), Err(IntParseError::Empty));
}

#[test]
fn test_parse_i64_invalid_digit() {
    assert_eq!(parse_i64("+"), Err(IntParseError::InvalidDigit));
    assert_eq!(parse_i64("-"), Err(IntParseError::InvalidDigit));
    assert_eq!(parse_i64("12x"), Err(IntParseError::InvalidDigit));
    assert_eq!(parse_i64("x12"), Err(IntParseError::InvalidDigit));
    assert_eq!(parse_i64(" 12"), Err(IntParseError::InvalidDigit));
    assert_eq!(parse_i64("1 2"), Err(IntParseError::InvalidDigit));
    assert_eq!(parse_i64("--1"), Err(IntParseError::InvalidDigit));
}

#[test]
fn test_parse_i64_out_of_range() {
    assert_eq!(parse_i64("9223372036854775808"), Err(IntParseError::TooLarge));
    assert_eq!(parse_i64("-9223372036854775809"), Err(IntParseError::TooSmall));
    assert_eq!(parse_i64("99999999999999999999999999"), Err(IntParseError::TooLarge));
    assert_eq!(parse_i64("-99999999999999999999999999"), Err(IntParseError::TooSmall));
}

#[test]
fn test_parse_i64_agrees_with_std() {
    for s in ["0", "42", "-42", "+42", "007", "9223372036854775807", "-9223372036854775808"] {
        assert_eq!(parse_i64(s).ok(), s.parse::<i64>().ok());
    }
    for s in ["", "+", "-", "1.5", "0x10", "9223372036854775808", "-9223372036854775809"] {
        assert!(parse_i64(s).is_err() && s.parse::<i64>().is_err());
    }
}

#[test]
fn test_parse_format_round_trip() {
    for v in [0i64, 5, -5, 159, 1000, i64::MAX, i64::MIN] {
        assert_eq!(parse_i64(format_i64(v).as_str()), Ok(v));
    }
}

use globchat::decimal::{format_i64, parse_i64, ParseFault};

#[test]
fn formats_plain_numbers() {
    assert_eq!(format_i64(0), "0");
    assert_eq!(format_i64(7), "7");
    assert_eq!(format_i64(10), "10");
    assert_eq!(format_i64(-1), "-1");
    assert_eq!(format_i64(1234567890123), "1234567890123");
}

#[test]
fn formats_the_two_ends_of_the_range() {
    assert_eq!(format_i64(i64::MAX), "9223372036854775807");
    assert_eq!(format_i64(i64::MIN), "-9223372036854775808");
}

#[test]
fn formats_as_std_does() {
    let samples: Vec<i64> = vec![0, 1, -1, 9, 10, 99, 100, -100, 4096, 4194304, i64::MAX, i64::MIN, i64::MAX - 1, i64::MIN + 1];
    for v in samples {
        assert_eq!(format_i64(v), v.to_string());
    }
}

#[test]
fn parses_plain_numbers() {
    assert_eq!(parse_i64("0"), Ok(0));
    assert_eq!(parse_i64("42"), Ok(42));
    assert_eq!(parse_i64("-42"), Ok(-42));
    assert_eq!(parse_i64("+42"), Ok(42));
    assert_eq!(parse_i64("-0"), Ok(0));
    assert_eq!(parse_i64("0007"), Ok(7));
    assert_eq!(parse_i64("00000000000000000000000000000000000012"), Ok(12));
}

#[test]
fn parses_the_two_ends_of_the_range() {
    assert_eq!(parse_i64("9223372036854775807"), Ok(i64::MAX));
    assert_eq!(parse_i64("-9223372036854775808"), Ok(i64::MIN));
}

#[test]
fn empty_text_is_empty() {
    assert_eq!(parse_i64(""), Err(ParseFault::Empty));
}

#[test]
fn a_sign_alone_is_an_invalid_digit() {
    assert_eq!(parse_i64("-"), Err(ParseFault::InvalidDigit));
    assert_eq!(parse_i64("+"), Err(ParseFault::InvalidDigit));
}

#[test]
fn foreign_characters_are_invalid_digits() {
    assert_eq!(parse_i64("12a"), Err(ParseFault::InvalidDigit));
    assert_eq!(parse_i64(" 12"), Err(ParseFault::InvalidDigit));
    assert_eq!(parse_i64("12 "), Err(ParseFault::InvalidDigit));
    assert_eq!(parse_i64("1_000"), Err(ParseFault::InvalidDigit));
    assert_eq!(parse_i64("--1"), Err(ParseFault::InvalidDigit));
    assert_eq!(parse_i64("1.5"), Err(ParseFault::InvalidDigit));
    assert_eq!(parse_i64("١٢"), Err(ParseFault::InvalidDigit));
    assert_eq!(parse_i64("-é"), Err(ParseFault::InvalidDigit));
}

#[test]
fn one_above_the_largest_overflows() {
    assert_eq!(parse_i64("9223372036854775808"), Err(ParseFault::PosOverflow));
    assert_eq!(parse_i64("+9223372036854775808"), Err(ParseFault::PosOverflow));
    assert_eq!(parse_i64("99999999999999999999999999"), Err(ParseFault::PosOverflow));
}

#[test]
fn one_below_the_smallest_overflows() {
    assert_eq!(parse_i64("-9223372036854775809"), Err(ParseFault::NegOverflow));
    assert_eq!(parse_i64("-99999999999999999999999999"), Err(ParseFault::NegOverflow));
}

#[test]
fn a_foreign_character_outweighs_an_overflow() {
    assert_eq!(parse_i64("99999999999999999999999999x"), Err(ParseFault::InvalidDigit));
}

#[test]
fn parsing_undoes_formatting() {
    let samples: Vec<i64> = vec![0, 1, -1, 135168, 4329472, 7230000000000000001, i64::MAX, i64::MIN];
    for v in samples {
        assert_eq!(parse_i64(&format_i64(v)), Ok(v));
    }
}

#[test]
fn accepts_what_std_accepts() {
    let samples = vec!["0", "-0", "+0", "17", "-17", "+17", "007", "", "-", "+", "a", "1a", "9223372036854775807", "9223372036854775808", "-9223372036854775808", "-9223372036854775809", " 1", "1 ", "0x10"];
    for text in samples {
        let ours = parse_i64(text).ok();
        let theirs = text.parse::<i64>().ok();
        assert_eq!(ours, theirs, "on {:?}", text);
    }
}

use time_convert::digits::{check_digits, parse_decimal, u32_to_string};

#[test]
fn parse_plain_numerals() {
    assert_eq!(parse_decimal("0"), Some(0));
    assert_eq!(parse_decimal("9"), Some(9));
    assert_eq!(parse_decimal("0012"), Some(12));
    assert_eq!(parse_decimal("4294967295"), Some(4294967295));
}

#[test]
fn parse_rejects_bad_numerals() {
    assert_eq!(parse_decimal(""), None);
    assert_eq!(parse_decimal("1a"), None);
    assert_eq!(parse_decimal("-3"), None);
    assert_eq!(parse_decimal(" 3"), None);
    assert_eq!(parse_decimal("4294967296"), None);
    assert_eq!(parse_decimal("99999999999999999999"), None);
}

#[test]
fn print_numerals() {
    assert_eq!(u32_to_string(0), "0");
    assert_eq!(u32_to_string(7), "7");
    assert_eq!(u32_to_string(25), "25");
    assert_eq!(u32_to_string(4294967295), "4294967295");
}

#[test]
fn digit_checks() {
    assert!(check_digits("007"));
    assert!(!check_digits(""));
    assert!(!check_digits("12:00"));
}

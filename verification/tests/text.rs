use strikes::errors::{ErrorKind, StrikeError};
use strikes::text::{parse_count, str_eq, u64_to_string};

#[test]
fn numbers_are_written_in_decimal() {
    assert_eq!(u64_to_string(0), "0");
    assert_eq!(u64_to_string(7), "7");
    assert_eq!(u64_to_string(42), "42");
    assert_eq!(u64_to_string(255), "255");
    assert_eq!(u64_to_string(1000), "1000");
}

#[test]
fn counts_are_parsed_from_digit_strings() {
    assert_eq!(parse_count("0"), Some(0));
    assert_eq!(parse_count("3"), Some(3));
    assert_eq!(parse_count("255"), Some(255));
    assert_eq!(parse_count("007"), Some(7));
}

#[test]
fn what_is_not_a_count_is_rejected() {
    assert_eq!(parse_count(""), None);
    assert_eq!(parse_count("256"), None);
    assert_eq!(parse_count("99999999999999999999"), None);
    assert_eq!(parse_count("12a"), None);
    assert_eq!(parse_count("-1"), None);
    assert_eq!(parse_count("+1"), None);
}

#[test]
fn strings_compare_by_their_characters() {
    assert!(str_eq("guenther", "guenther"));
    assert!(!str_eq("guenther", "heinz"));
    assert!(!str_eq("guenther", "guenthe"));
    assert!(str_eq("", ""));
}

#[test]
fn every_error_kind_carries_its_message() {
    let e = StrikeError::not_found("no such row".to_string());
    assert_eq!(e.kind, ErrorKind::NotFound);
    assert_eq!(e.message(), "no such row");

    let e = StrikeError::io("permission denied".to_string());
    assert_eq!(e.kind, ErrorKind::Io);
    assert_eq!(e.message(), "permission denied");
}

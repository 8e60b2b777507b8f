use pn::descriptor::{find_sep, parse_number, split_once_at};

#[test]
fn parse_number_reads_decimal_digits() {
    assert_eq!(parse_number("0"), Some(0));
    assert_eq!(parse_number("42"), Some(42));
    assert_eq!(parse_number("007"), Some(7));
    assert_eq!(parse_number("18446744073709551615"), Some(u64::MAX));
}

#[test]
fn parse_number_rejects_junk_and_overflow() {
    assert_eq!(parse_number(""), None);
    assert_eq!(parse_number("12a"), None);
    assert_eq!(parse_number("-3"), None);
    assert_eq!(parse_number("4 2"), None);
    // One past the largest representable number.
    assert_eq!(parse_number("18446744073709551616"), None);
    assert_eq!(parse_number("99999999999999999999999"), None);
}

#[test]
fn split_once_at_splits_at_the_first_separator() {
    assert_eq!(
        split_once_at("white:62", ':'),
        Some(("white".to_string(), "62".to_string()))
    );
    assert_eq!(
        split_once_at("starter:10:100", ':'),
        Some(("starter".to_string(), "10:100".to_string()))
    );
    assert_eq!(split_once_at(":x", ':'), Some(("".to_string(), "x".to_string())));
    assert_eq!(split_once_at("plain", ':'), None);
}

#[test]
fn find_sep_finds_the_first_occurrence() {
    assert_eq!(find_sep("a%b%c", '%'), Some(1));
    assert_eq!(find_sep("abc", '%'), None);
}

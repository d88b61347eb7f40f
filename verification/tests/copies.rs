use cupsbackend::copies::{parse_copies, parse_u32};

#[test]
fn copies_of_non_numeric_text_is_one() {
    assert_eq!(parse_copies("abc"), 1);
}

#[test]
fn copies_of_plain_number() {
    assert_eq!(parse_copies("5"), 5);
}

#[test]
fn copies_of_negative_number_is_one() {
    assert_eq!(parse_copies("-3"), 1);
}

#[test]
fn copies_of_empty_text_is_one() {
    assert_eq!(parse_copies(""), 1);
}

#[test]
fn copies_of_overflowing_number_is_one() {
    assert_eq!(parse_copies("4294967295"), 4294967295);
    assert_eq!(parse_copies("4294967296"), 1);
    assert_eq!(parse_copies("99999999999999999999999999"), 1);
}

#[test]
fn copies_accepts_a_plus_sign_and_leading_zeros() {
    assert_eq!(parse_copies("+7"), 7);
    assert_eq!(parse_copies("007"), 7);
    assert_eq!(parse_copies("+"), 1);
    assert_eq!(parse_copies("++7"), 1);
    assert_eq!(parse_copies("7+"), 1);
}

#[test]
fn copies_of_zero_is_taken_as_written() {
    assert_eq!(parse_copies("0"), 0);
}

#[test]
fn copies_rejects_blanks_and_foreign_digits() {
    assert_eq!(parse_copies(" 5"), 1);
    assert_eq!(parse_copies("5 "), 1);
    assert_eq!(parse_copies("1.5"), 1);
    assert_eq!(parse_copies("\u{0665}"), 1);
    assert_eq!(parse_copies("\u{ff15}"), 1);
}

#[test]
fn parse_u32_agrees_with_the_standard_parser() {
    let samples = [
        "", "0", "1", "5", "-3", "-0", "+0", "+", "-", "abc", "12a", "a12", "0000000000000012",
        "4294967295", "4294967296", "4294967300", "42949672950", "+4294967295", "+4294967296",
        " 1", "1 ", "1_000", "0x10", "１２", "٣", "18446744073709551616", "+-1", "1e3", "3.0",
    ];
    for s in samples.iter() {
        assert_eq!(parse_u32(s), s.parse::<u32>().ok(), "input {:?}", s);
    }
}

use tournament_management::decimal::parse_u32;

#[test]
fn parses_plain_digits() {
    assert_eq!(parse_u32("118"), Some(118));
    assert_eq!(parse_u32("0"), Some(0));
    assert_eq!(parse_u32("7"), Some(7));
}

#[test]
fn accepts_leading_zeros() {
    assert_eq!(parse_u32("007"), Some(7));
    assert_eq!(parse_u32("00000000000000000000000001"), Some(1));
    assert_eq!(parse_u32("0000000000"), Some(0));
}

#[test]
fn accepts_one_leading_plus() {
    assert_eq!(parse_u32("+118"), Some(118));
    assert_eq!(parse_u32("+0"), Some(0));
    assert_eq!(parse_u32("++1"), None);
    assert_eq!(parse_u32("1+"), None);
    assert_eq!(parse_u32("1+1"), None);
}

#[test]
fn refuses_text_without_digits() {
    assert_eq!(parse_u32(""), None);
    assert_eq!(parse_u32("+"), None);
    assert_eq!(parse_u32("-"), None);
    assert_eq!(parse_u32("abc"), None);
}

#[test]
fn refuses_a_minus_sign() {
    assert_eq!(parse_u32("-1"), None);
    assert_eq!(parse_u32("-0"), None);
}

#[test]
fn refuses_blanks_and_separators() {
    assert_eq!(parse_u32(" 12"), None);
    assert_eq!(parse_u32("12 "), None);
    assert_eq!(parse_u32("1 2"), None);
    assert_eq!(parse_u32("1_000"), None);
    assert_eq!(parse_u32("1,000"), None);
    assert_eq!(parse_u32("12\n"), None);
}

#[test]
fn refuses_other_characters_among_digits() {
    assert_eq!(parse_u32("12a"), None);
    assert_eq!(parse_u32("a12"), None);
    assert_eq!(parse_u32("1.5"), None);
    assert_eq!(parse_u32("0x10"), None);
    assert_eq!(parse_u32("1e3"), None);
}

#[test]
fn refuses_digits_outside_ascii() {
    // Arabic-Indic and full-width digits are digits to Unicode, not here.
    assert_eq!(parse_u32("\u{0661}\u{0662}"), None);
    assert_eq!(parse_u32("\u{ff11}\u{ff12}"), None);
    assert_eq!(parse_u32("1\u{0662}"), None);
}

#[test]
fn keeps_to_the_range_of_u32() {
    assert_eq!(parse_u32("4294967295"), Some(4294967295));
    assert_eq!(parse_u32("+4294967295"), Some(u32::MAX));
    assert_eq!(parse_u32("4294967296"), None);
    assert_eq!(parse_u32("4294967300"), None);
    assert_eq!(parse_u32("42949672950"), None);
    assert_eq!(parse_u32("99999999999999999999999999999999999999"), None);
    assert_eq!(parse_u32("18446744073709551616"), None);
    assert_eq!(parse_u32("0004294967295"), Some(u32::MAX));
    assert_eq!(parse_u32("0004294967296"), None);
}

#[test]
fn agrees_with_the_standard_parser() {
    let samples = [
        "", "+", "-", "0", "+0", "-0", "1", "01", "118", "+118", "-118", "2147483647",
        "2147483648", "4294967294", "4294967295", "4294967296", "9999999999", " 1", "1 ", "1a",
        "a1", "++1", "+-1", "1_0", "١٢", "１２", "0000000000000000000000000000000000000005",
        "429496729500000000000000000", "\t5", "5\r\n", "٣", "+٣",
    ];
    for sample in samples {
        assert_eq!(parse_u32(sample), sample.parse::<u32>().ok(), "on {:?}", sample);
    }
    for number in [0u32, 1, 9, 10, 99, 100, 65535, 65536, 1 << 31, u32::MAX - 1, u32::MAX] {
        assert_eq!(parse_u32(&number.to_string()), Some(number));
    }
}

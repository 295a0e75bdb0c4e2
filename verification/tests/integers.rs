use stripper_xml::integer::{i32_to_string, parse_i32};

#[test]
fn parse_i32_reads_signed_literals() {
    assert_eq!(parse_i32("0"), Some(0));
    assert_eq!(parse_i32("-6"), Some(-6));
    assert_eq!(parse_i32("+21"), Some(21));
    assert_eq!(parse_i32("007"), Some(7));
    assert_eq!(parse_i32("2147483647"), Some(i32::MAX));
    assert_eq!(parse_i32("-2147483648"), Some(i32::MIN));
}

#[test]
fn parse_i32_rejects_what_is_no_literal() {
    for token in ["", "+", "-", " 1", "1 ", "1.0", "1e3", "0x10", "1_000", "--1", "2147483648", "-2147483649", "99999999999999999999999"] {
        assert_eq!(parse_i32(token), None, "{token:?}");
        assert!(token.parse::<i32>().is_err());
    }
}

#[test]
fn i32_to_string_is_canonical() {
    for n in [0, 1, -1, 9, 10, -10, 2212, -2212, i32::MAX, i32::MIN] {
        assert_eq!(i32_to_string(n), n.to_string());
        assert_eq!(parse_i32(&i32_to_string(n)), Some(n));
    }
}

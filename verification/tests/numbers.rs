use blockledger::numfmt::{parse_u64, u64_to_dec};

#[test]
fn renders_zero() {
    assert_eq!(u64_to_dec(0), "0");
}

#[test]
fn renders_single_digit() {
    assert_eq!(u64_to_dec(7), "7");
}

#[test]
fn renders_round_number() {
    assert_eq!(u64_to_dec(1000), "1000");
}

#[test]
fn renders_large_number() {
    assert_eq!(u64_to_dec(12345), "12345");
}

#[test]
fn renders_max() {
    assert_eq!(u64_to_dec(u64::MAX), "18446744073709551615");
}

#[test]
fn parses_plain_number() {
    assert_eq!(parse_u64("40"), Some(40));
}

#[test]
fn parses_zero() {
    assert_eq!(parse_u64("0"), Some(0));
}

#[test]
fn parses_leading_plus() {
    assert_eq!(parse_u64("+40"), Some(40));
}

#[test]
fn parses_leading_zeros() {
    assert_eq!(parse_u64("0040"), Some(40));
}

#[test]
fn parses_max() {
    assert_eq!(parse_u64("18446744073709551615"), Some(u64::MAX));
}

#[test]
fn rejects_overflow() {
    assert_eq!(parse_u64("18446744073709551616"), None);
}

#[test]
fn rejects_empty() {
    assert_eq!(parse_u64(""), None);
}

#[test]
fn rejects_bare_plus() {
    assert_eq!(parse_u64("+"), None);
}

#[test]
fn rejects_letters() {
    assert_eq!(parse_u64("abc"), None);
}

#[test]
fn rejects_trailing_garbage() {
    assert_eq!(parse_u64("40x"), None);
}

#[test]
fn rejects_negative() {
    assert_eq!(parse_u64("-40"), None);
}

#[test]
fn matches_std_parse() {
    for text in ["", "+", "0", "17", "+17", "00123", "99999999999999999999", "1a", " 1"] {
        assert_eq!(parse_u64(text), text.parse::<u64>().ok(), "input {:?}", text);
    }
}

use wg_conf::text::{parse_u8, split_char, split_words, trim, IntParseError};

#[test]
fn trim_removes_unicode_white_space() {
    assert_eq!(trim("  a b \t\n"), "a b");
    assert_eq!(trim("\u{3000}x\u{A0}"), "x");
    assert_eq!(trim("   "), "");
}

#[test]
fn split_keeps_empty_pieces() {
    assert_eq!(split_char("a,b", ','), vec!["a", "b"]);
    assert_eq!(split_char("", ','), vec![""]);
    assert_eq!(split_char(",x,", ','), vec!["", "x", ""]);
}

#[test]
fn words_drop_white_space() {
    assert_eq!(split_words("  Bearer   abc \n"), vec!["Bearer", "abc"]);
    assert!(split_words(" \t ").is_empty());
}

#[test]
fn bytes_are_read_as_std_reads_them() {
    assert_eq!(parse_u8("16"), Ok(16));
    assert_eq!(parse_u8("+7"), Ok(7));
    assert_eq!(parse_u8("007"), Ok(7));
    assert_eq!(parse_u8("255"), Ok(255));
    assert_eq!(parse_u8(""), Err(IntParseError::Empty));
    assert_eq!(parse_u8("+"), Err(IntParseError::InvalidDigit));
    assert_eq!(parse_u8("-1"), Err(IntParseError::InvalidDigit));
    assert_eq!(parse_u8("256"), Err(IntParseError::PosOverflow));
    assert_eq!(parse_u8("999a"), Err(IntParseError::PosOverflow));
    assert_eq!(parse_u8("99a"), Err(IntParseError::InvalidDigit));
    for s in ["0", "12", "+3", "255", "256", "", "+", "-", "-0", "a", " 1"] {
        let ours = parse_u8(s).ok();
        assert_eq!(ours, s.parse::<u8>().ok());
    }
}

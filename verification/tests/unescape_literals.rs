use escape_core::unescape;
use escape_core::ErrorKind;

#[test]
fn test_unescape() {
    assert_eq!(unescape(r"foo\u2603bar").unwrap(), "foo\u{2603}bar");
    assert_eq!(unescape(r"\t\b\f\r\n\\\/").unwrap(), "\t\x08\x0c\r\n\\/");
    assert_eq!(unescape("foobarbaz").unwrap(), "foobarbaz");
    assert_eq!(unescape(r"\ud83d\udca9").unwrap(), "\u{1f4a9}");
}

#[test]
fn unescape_empty() {
    assert_eq!(unescape("").unwrap(), "");
}

#[test]
fn unescape_short_escapes_map_to_themselves() {
    assert_eq!(unescape(r#"\""#).unwrap(), "\"");
    assert_eq!(unescape(r"\/").unwrap(), "/");
    assert_eq!(unescape(r"\\").unwrap(), "\\");
}

#[test]
fn unescape_standalone_unit() {
    assert_eq!(unescape(r"\u0041").unwrap(), "A");
    assert_eq!(unescape(r"\u00e9").unwrap(), "\u{e9}");
    assert_eq!(unescape(r"\ufffd").unwrap(), "\u{fffd}");
}

#[test]
fn unescape_surrogate_pair_in_context() {
    assert_eq!(unescape(r"x\ud83d\udca9y").unwrap(), "x\u{1f4a9}y");
}

#[test]
fn unescape_unknown_escape_letter_fails() {
    assert_eq!(unescape(r"\q").unwrap_err().kind(), ErrorKind::BadEscape);
}

#[test]
fn unescape_trailing_backslash_fails() {
    assert_eq!(unescape("\\").unwrap_err().kind(), ErrorKind::BadEscape);
    assert_eq!(unescape("abc\\").unwrap_err().kind(), ErrorKind::BadEscape);
}

#[test]
fn unescape_pending_surrogate_at_end_fails() {
    assert_eq!(unescape(r"\ud83d").unwrap_err().kind(), ErrorKind::BadEscape);
}

#[test]
fn unescape_two_low_surrogates_fail() {
    assert_eq!(unescape(r"\udca9\udca9").unwrap_err().kind(), ErrorKind::BadEscape);
}

#[test]
fn unescape_two_high_surrogates_fail() {
    assert_eq!(unescape(r"\ud83d\ud83d").unwrap_err().kind(), ErrorKind::BadEscape);
}

#[test]
fn unescape_literal_after_pending_surrogate_fails() {
    assert_eq!(unescape(r"\ud83dx").unwrap_err().kind(), ErrorKind::BadEscape);
}

#[test]
fn unescape_non_surrogate_unit_after_pending_fails() {
    assert_eq!(unescape(r"\ud83dA").unwrap_err().kind(), ErrorKind::BadEscape);
}

#[test]
fn unescape_short_hex_fails() {
    assert_eq!(unescape(r"\u26").unwrap_err().kind(), ErrorKind::BadEscape);
    assert_eq!(unescape(r"\u260").unwrap_err().kind(), ErrorKind::BadEscape);
}

#[test]
fn unescape_bad_hex_digit_fails() {
    assert_eq!(unescape(r"\uzzzz").unwrap_err().kind(), ErrorKind::BadEscape);
    assert_eq!(unescape(r"\u12g4").unwrap_err().kind(), ErrorKind::BadEscape);
    assert_eq!(unescape(r"\u+123").unwrap_err().kind(), ErrorKind::BadEscape);
}

#[test]
fn unescape_single_quote_escape_is_rejected() {
    assert_eq!(unescape(r"\'").unwrap_err().kind(), ErrorKind::BadEscape);
}

#[test]
fn unescape_uppercase_hex_accepted() {
    assert_eq!(unescape(r"\u26AB").unwrap(), "\u{26ab}");
}

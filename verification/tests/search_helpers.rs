use escape_core::memchr;
use escape_core::memstr;

#[test]
fn memchr_finds_first_occurrence() {
    assert_eq!(memchr(b"abcabc", b'b'), Some(1));
    assert_eq!(memchr(b"abcabc", b'a'), Some(0));
    assert_eq!(memchr(b"abcabc", b'c'), Some(2));
}

#[test]
fn memchr_reports_absence() {
    assert_eq!(memchr(b"abc", b'z'), None);
    assert_eq!(memchr(b"", b'a'), None);
}

#[test]
fn memstr_finds_first_window() {
    assert_eq!(memstr(b"{{ var }}", b"{{"), Some(0));
    assert_eq!(memstr(b"a {% if %}", b"{%"), Some(2));
    assert_eq!(memstr(b"aaab", b"aab"), Some(1));
}

#[test]
fn memstr_empty_needle_matches_at_start() {
    assert_eq!(memstr(b"abc", b""), Some(0));
    assert_eq!(memstr(b"", b""), Some(0));
}

#[test]
fn memstr_reports_absence() {
    assert_eq!(memstr(b"abc", b"cd"), None);
    assert_eq!(memstr(b"ab", b"abc"), None);
}

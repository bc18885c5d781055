use escape_core::HtmlEscape;

#[test]
fn test_html_escape() {
    let input = "<>&\"'/";
    let output = HtmlEscape(input).to_string();
    assert_eq!(output, "&lt;&gt;&amp;&quot;&#x27;&#x2f;");
}

#[test]
fn html_escape_identity_on_safe_text() {
    let input = "hello there, general template";
    assert_eq!(HtmlEscape(input).to_string(), input);
}

#[test]
fn html_escape_empty() {
    assert_eq!(HtmlEscape("").to_string(), "");
}

#[test]
fn html_escape_mixed_runs() {
    assert_eq!(HtmlEscape("a<b&c>d").to_string(), "a&lt;b&amp;c&gt;d");
}

#[test]
fn html_escape_keeps_multibyte_text() {
    assert_eq!(
        HtmlEscape("sn\u{f6}wman \u{2603} <tag>").to_string(),
        "sn\u{f6}wman \u{2603} &lt;tag&gt;"
    );
}

#[test]
fn html_escape_adjacent_reserved() {
    assert_eq!(HtmlEscape("<<").to_string(), "&lt;&lt;");
}

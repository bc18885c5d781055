use escape_core::invalid_autoescape;
use escape_core::write_escaped;
use escape_core::write_with_html_escaping;
use escape_core::AutoEscape;
use escape_core::ErrorKind;
use escape_core::Output;
use escape_core::SerializationFailed;
use escape_core::StringType;
use escape_core::Value;
use escape_core::ValueKind;

fn rendered(mode: AutoEscape, value: &Value) -> String {
    let mut out = Output::new();
    write_escaped(&mut out, mode, value).unwrap();
    out.into_string()
}

#[test]
fn escaping_off_passes_strings_raw() {
    let v = Value::Str("<b>&co".to_string(), StringType::Normal);
    assert_eq!(rendered(AutoEscape::Off, &v), "<b>&co");
}

#[test]
fn escaping_off_prints_other_kinds_plainly() {
    assert_eq!(rendered(AutoEscape::Off, &Value::Undefined), "");
    assert_eq!(rendered(AutoEscape::Off, &Value::Null), "none");
    assert_eq!(rendered(AutoEscape::Off, &Value::Bool(true)), "true");
    assert_eq!(rendered(AutoEscape::Off, &Value::Bool(false)), "false");
    assert_eq!(rendered(AutoEscape::Off, &Value::Number(42)), "42");
    assert_eq!(rendered(AutoEscape::Off, &Value::Number(-7)), "-7");
}

#[test]
fn number_rendering_covers_extremes() {
    assert_eq!(rendered(AutoEscape::Off, &Value::Number(i64::MIN)), "-9223372036854775808");
    assert_eq!(rendered(AutoEscape::Off, &Value::Number(i64::MAX)), "9223372036854775807");
    assert_eq!(rendered(AutoEscape::Off, &Value::Number(0)), "0");
}

#[test]
fn html_mode_escapes_plain_strings() {
    let v = Value::Str("<script>alert('x')</script>".to_string(), StringType::Normal);
    assert_eq!(
        rendered(AutoEscape::Html, &v),
        "&lt;script&gt;alert(&#x27;x&#x27;)&lt;&#x2f;script&gt;"
    );
}

#[test]
fn html_mode_writes_safe_strings_unmodified() {
    let v = Value::Str("<em>already marked</em>".to_string(), StringType::Safe);
    assert_eq!(rendered(AutoEscape::Html, &v), "<em>already marked</em>");
}

#[test]
fn html_mode_prints_simple_kinds_without_escaping() {
    assert_eq!(rendered(AutoEscape::Html, &Value::Undefined), "");
    assert_eq!(rendered(AutoEscape::Html, &Value::Null), "none");
    assert_eq!(rendered(AutoEscape::Html, &Value::Bool(true)), "true");
    assert_eq!(rendered(AutoEscape::Html, &Value::Number(12)), "12");
}

#[test]
fn html_mode_escapes_opaque_values_through_their_text() {
    let v = Value::Other("[1, \"a<b\"]".to_string());
    assert_eq!(rendered(AutoEscape::Html, &v), "[1, &quot;a&lt;b&quot;]");
}

#[test]
fn write_with_html_escaping_appends_to_sink() {
    let mut out = Output::new();
    out.write_str("pre|");
    let v = Value::Str("a&b".to_string(), StringType::Normal);
    write_with_html_escaping(&mut out, &v);
    assert_eq!(out.as_str(), "pre|a&amp;b");
}

#[test]
fn json_mode_quotes_plain_strings() {
    let v = Value::Str("a\"b\\c".to_string(), StringType::Normal);
    assert_eq!(rendered(AutoEscape::Json, &v), "\"a\\\"b\\\\c\"");
}

#[test]
fn json_mode_keeps_angle_brackets() {
    let v = Value::Str("<tag>".to_string(), StringType::Normal);
    assert_eq!(rendered(AutoEscape::Json, &v), "\"<tag>\"");
}

#[test]
fn json_mode_writes_safe_strings_unmodified() {
    let v = Value::Str("not json at all".to_string(), StringType::Safe);
    assert_eq!(rendered(AutoEscape::Json, &v), "not json at all");
}

#[test]
fn json_mode_serializes_simple_kinds() {
    assert_eq!(rendered(AutoEscape::Json, &Value::Undefined), "null");
    assert_eq!(rendered(AutoEscape::Json, &Value::Null), "null");
    assert_eq!(rendered(AutoEscape::Json, &Value::Bool(true)), "true");
    assert_eq!(rendered(AutoEscape::Json, &Value::Number(-3)), "-3");
}

#[test]
fn custom_mode_fails_with_invalid_operation() {
    let mut out = Output::new();
    let v = Value::Str("x".to_string(), StringType::Normal);
    let err = write_escaped(&mut out, AutoEscape::Custom("foo"), &v).unwrap_err();
    assert_eq!(err.kind(), ErrorKind::InvalidOperation);
    assert!(err.message().contains("foo"));
    assert_eq!(out.as_str(), "");
}

#[test]
fn custom_mode_fails_for_every_unsafe_kind() {
    for v in [Value::Undefined, Value::Null, Value::Bool(false), Value::Number(9)] {
        let mut out = Output::new();
        let err = write_escaped(&mut out, AutoEscape::Custom("weird"), &v).unwrap_err();
        assert_eq!(err.kind(), ErrorKind::InvalidOperation);
        assert!(err.message().contains("weird"));
    }
}

#[test]
fn custom_mode_still_passes_safe_strings() {
    let v = Value::Str("<raw>".to_string(), StringType::Safe);
    assert_eq!(rendered(AutoEscape::Custom("foo"), &v), "<raw>");
}

#[test]
fn invalid_autoescape_names_the_format() {
    let err = invalid_autoescape("mystyle").unwrap_err();
    assert_eq!(err.kind(), ErrorKind::InvalidOperation);
    assert_eq!(
        err.message(),
        "Default formatter does not know how to format to custom format 'mystyle'"
    );
}

#[test]
fn value_accessors_report_kind_and_text() {
    let v = Value::Str("abc".to_string(), StringType::Normal);
    assert_eq!(v.kind(), ValueKind::Str);
    assert_eq!(v.as_str(), Some("abc"));
    assert_eq!(Value::Bool(true).kind(), ValueKind::Bool);
    assert_eq!(Value::Number(1).as_str(), None);
    assert_eq!(Value::Other("o".to_string()).kind(), ValueKind::Other);
}

#[test]
fn serialization_failed_has_fixed_description() {
    assert_eq!(SerializationFailed.message(), "serialization failed");
}

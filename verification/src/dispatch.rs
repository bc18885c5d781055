//! Escape-mode dispatch: deciding, once per value-to-text conversion,
//! whether the value is written raw, HTML-escaped, serialized to JSON,
//! or rejected as an unsupported custom format.

use vstd::prelude::*;
use vstd::string::StringExecFns;

use crate::error::Error;
use crate::error::ErrorKind;
use crate::htmlescape::html_escape_into;
use crate::htmlescape::html_escaped;
use crate::output::Output;
use crate::value::display_of;
use crate::value::is_safe_string;
use crate::value::StringType;
use crate::value::Value;
use crate::value::ValueKind;

verus! {

/// Internal dummy error type for the engine's structured-serialization
/// plumbing.  It carries no data and has a fixed description.
#[derive(Clone, Copy, Debug)]
pub struct SerializationFailed;

impl SerializationFailed {
    /// The fixed description of this error.
    pub fn message(&self) -> (r: &'static str)
        ensures
            r@ == "serialization failed"@,
    {
        "serialization failed"
    }
}

/// Controls the autoescaping behavior selected by the environment for
/// a render call.
#[derive(Debug, Copy, Clone, PartialEq, Eq)]
#[non_exhaustive]
pub enum AutoEscape {
    /// Do not apply auto escaping.
    Off,
    /// Use HTML auto escaping rules: `<`, `>`, `&`, `"`, `'` and `/`
    /// are replaced by entities in any value converted to a string.
    Html,
    /// Use escaping rules suitable for JSON/JavaScript or YAML: values
    /// are serialized to JSON upon printing.
    Json,
    /// A custom auto escape format.  The default dispatcher does not
    /// know how to deal with it and errors; a custom formatter must
    /// intercept it beforehand.
    Custom(&'static str),
}

/// The JSON string literal that serializes the text `s`; it depends on
/// the characters of `s` alone.
pub uninterp spec fn json_quoted(s: Seq<char>) -> Seq<char>;

/// Relies on serde_json::to_string: a string slice serializes to the
/// JSON string literal encoding its text.
#[verifier::external_body]
fn json_quote(s: &str) -> (r: Result<String, serde_json::Error>)
    ensures
        r matches Ok(t) ==> t@ == json_quoted(s@),
{
    serde_json::to_string(s)
}

/// Relies on the Display implementation of serde_json::Error for the
/// text describing a serialization failure.
#[verifier::external_body]
fn json_error_text(e: &serde_json::Error) -> String {
    e.to_string()
}

/// The JSON rendering of a value: `null` for the absent kinds, the
/// plain rendering for booleans and numbers, and a JSON string literal
/// for text.
pub open spec fn json_of(v: Value) -> Seq<char> {
    match v {
        Value::Undefined => "null"@,
        Value::Null => "null"@,
        Value::Bool(_) => display_of(v),
        Value::Number(_) => display_of(v),
        Value::Str(s, _) => json_quoted(s@),
        Value::Other(repr) => json_quoted(repr@),
    }
}

/// The HTML-mode rendering of a value: kinds whose text cannot contain
/// reserved characters print plainly, anything else is entity-escaped.
pub open spec fn html_of(v: Value) -> Seq<char> {
    match v {
        Value::Undefined => display_of(v),
        Value::Null => display_of(v),
        Value::Bool(_) => display_of(v),
        Value::Number(_) => display_of(v),
        Value::Str(s, _) => html_escaped(s@),
        Value::Other(repr) => html_escaped(repr@),
    }
}

/// The message reported for an unsupported custom escape format.
pub open spec fn invalid_custom_msg(name: Seq<char>) -> Seq<char> {
    "Default formatter does not know how to format to custom format '"@ + name + "'"@
}

/// What dispatch writes for `v` under `mode`, or the kind of error it
/// reports: strings marked safe and all values under disabled escaping
/// pass through raw, HTML mode escapes entities, JSON mode serializes,
/// and a custom format is rejected here.
pub open spec fn dispatch_spec(mode: AutoEscape, v: Value) -> Result<Seq<char>, ErrorKind> {
    if is_safe_string(v) || (mode matches AutoEscape::Off) {
        Ok(display_of(v))
    } else {
        match mode {
            AutoEscape::Off => Ok(display_of(v)),
            AutoEscape::Html => Ok(html_of(v)),
            AutoEscape::Json => Ok(json_of(v)),
            AutoEscape::Custom(_) => Err(ErrorKind::InvalidOperation),
        }
    }
}

/// Whether dispatch under `mode` hands the text of `v` to the external
/// JSON serializer, the one step whose success this core cannot
/// promise itself.
pub open spec fn uses_serializer(mode: AutoEscape, v: Value) -> bool {
    &&& !is_safe_string(v)
    &&& mode matches AutoEscape::Json
    &&& (v matches Value::Str(_, _) || v matches Value::Other(_))
}

/// Law: a string its producer marked safe is passed through unmodified
/// under every escape mode, whatever characters it contains.
pub proof fn lemma_safe_string_written_raw(mode: AutoEscape, s: String)
    ensures
        dispatch_spec(mode, Value::Str(s, StringType::Safe)) == Ok::<Seq<char>, ErrorKind>(s@),
{
}

/// Law: a value that is not a safe string is rejected under a custom
/// escape format, whatever the format's name and whatever the value.
pub proof fn lemma_custom_mode_rejected(name: &'static str, v: Value)
    requires
        !is_safe_string(v),
    ensures
        dispatch_spec(AutoEscape::Custom(name), v) == Err::<Seq<char>, ErrorKind>(
            ErrorKind::InvalidOperation,
        ),
{
}

/// Law: the message reported for an unsupported custom format mentions
/// the format's name.
pub proof fn lemma_custom_msg_mentions_name(name: Seq<char>)
    ensures
        exists|k: int|
            0 <= k && k + name.len() <= invalid_custom_msg(name).len() && #[trigger] invalid_custom_msg(
                name,
            ).subrange(k, k + name.len() as int) == name,
{
    let prefix = "Default formatter does not know how to format to custom format '"@;
    let msg = invalid_custom_msg(name);
    assert(msg.subrange(prefix.len() as int, prefix.len() + name.len() as int) =~= name);
}

/// Reports that the default dispatcher cannot format to the custom
/// format `name`.
pub fn invalid_autoescape(name: &str) -> (r: Result<(), Error>)
    ensures
        r matches Err(e) && e.kind == ErrorKind::InvalidOperation && e.msg@ == invalid_custom_msg(
            name@,
        ),
{
    let mut msg = String::from_str(
        "Default formatter does not know how to format to custom format '",
    );
    msg.append(name);
    msg.append("'");
    proof {
        assert(msg@ =~= invalid_custom_msg(name@));
    }
    Err(Error::new(ErrorKind::InvalidOperation, msg))
}

/// Writes the JSON string form of `s`, reporting a serialization
/// failure with its cause attached when the external serializer fails.
fn write_json_quoted(out: &mut Output, s: &str) -> (r: Result<(), Error>)
    ensures
        match r {
            Ok(_) => final(out)@ == old(out)@ + json_quoted(s@),
            Err(e) => final(out)@ == old(out)@ && e.kind == ErrorKind::BadSerialization,
        },
{
    match json_quote(s) {
        Ok(t) => {
            out.write_str(t.as_str());
            Ok(())
        },
        Err(err) => {
            let mut msg = String::from_str("unable to format to JSON: ");
            let cause = json_error_text(&err);
            msg.append(cause.as_str());
            Err(Error::new(ErrorKind::BadSerialization, msg))
        },
    }
}

/// Writes `value` for HTML mode: kinds whose text cannot contain
/// reserved characters print plainly; anything else is converted to a
/// string if needed and entity-escaped.
pub fn write_with_html_escaping(out: &mut Output, value: &Value)
    ensures
        final(out)@ == old(out)@ + html_of(*value),
{
    let kind = value.kind();
    if matches!(
        kind,
        ValueKind::Undefined | ValueKind::Null | ValueKind::Bool | ValueKind::Number,
    ) {
        let text = value.to_display_string();
        out.write_str(text.as_str());
    } else if let Some(s) = value.as_str() {
        let mut escaped = String::new();
        html_escape_into(&mut escaped, s);
        out.write_str(escaped.as_str());
    } else {
        let text = value.to_display_string();
        let mut escaped = String::new();
        html_escape_into(&mut escaped, text.as_str());
        out.write_str(escaped.as_str());
    }
}

/// Converts one value to output text under the selected escape mode
/// and appends it to the sink.  Strings marked safe, and every value
/// when escaping is off, pass through raw without re-escaping; HTML
/// mode escapes entities; JSON mode serializes; a custom format is
/// rejected with an error naming it.
pub fn write_escaped(out: &mut Output, auto_escape: AutoEscape, value: &Value) -> (r: Result<
    (),
    Error,
>)
    ensures
        match r {
            Ok(_) => {
                &&& dispatch_spec(auto_escape, *value) matches Ok(t)
                &&& final(out)@ == old(out)@ + t
            },
            Err(e) => {
                &&& final(out)@ == old(out)@
                &&& match dispatch_spec(auto_escape, *value) {
                    Ok(_) => uses_serializer(auto_escape, *value) && e.kind
                        == ErrorKind::BadSerialization,
                    Err(k) => e.kind == k,
                }
            },
        },
        dispatch_spec(auto_escape, *value) is Ok && !uses_serializer(auto_escape, *value) ==> r
            is Ok,
        dispatch_spec(auto_escape, *value) is Err ==> r is Err,
        match auto_escape {
            AutoEscape::Custom(name) => !is_safe_string(*value) ==> (r matches Err(e) && e.msg@
                == invalid_custom_msg(name@)),
            _ => true,
        },
{
    if let Value::Str(s, ty) = value {
        if matches!(ty, StringType::Safe) || matches!(auto_escape, AutoEscape::Off) {
            out.write_str(s.as_str());
            return Ok(());
        }
    }
    match auto_escape {
        AutoEscape::Off => {
            let text = value.to_display_string();
            out.write_str(text.as_str());
            Ok(())
        },
        AutoEscape::Html => {
            write_with_html_escaping(out, value);
            Ok(())
        },
        AutoEscape::Json => match value {
            Value::Str(s, _) => write_json_quoted(out, s.as_str()),
            Value::Other(repr) => write_json_quoted(out, repr.as_str()),
            Value::Undefined => {
                out.write_str("null");
                Ok(())
            },
            Value::Null => {
                out.write_str("null");
                Ok(())
            },
            Value::Bool(_) => {
                let text = value.to_display_string();
                out.write_str(text.as_str());
                Ok(())
            },
            Value::Number(_) => {
                let text = value.to_display_string();
                out.write_str(text.as_str());
                Ok(())
            },
        },
        AutoEscape::Custom(name) => invalid_autoescape(name),
    }
}

} // verus!

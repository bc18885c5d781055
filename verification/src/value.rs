//! Model of the engine values this core reads: their kind, their
//! safe-string marking, and their default textual representation.
//!
//! The wider engine owns the real value representation; this core only
//! reads a value's kind, its text if it is a string, and a default
//! stringification, so that is what the model carries.

use vstd::prelude::*;
use vstd::string::StringExecFns;

verus! {

/// Internal marker to seal up some trait methods.
pub struct SealedMarker;

/// How a string value was classified by its producer.  A safe string is
/// asserted to need no further escaping; the tag is set once at
/// construction and never mutated by this core.
#[derive(Clone, Copy, Debug, PartialEq, Eq, Structural)]
pub enum StringType {
    Normal,
    Safe,
}

/// The classification of a value that escaping dispatch reads.
#[derive(Clone, Copy, Debug, PartialEq, Eq, Structural)]
pub enum ValueKind {
    Undefined,
    Null,
    Bool,
    Number,
    Str,
    Other,
}

/// An engine value as this core sees it.  Values whose structure the
/// core never inspects are carried as `Other` together with their
/// default textual representation.
#[derive(Clone, Debug)]
pub enum Value {
    Undefined,
    Null,
    Bool(bool),
    Number(i64),
    Str(String, StringType),
    Other(String),
}

/// The decimal digit character for `d`.
pub open spec fn dec_digit(d: int) -> char {
    if d == 0 {
        '0'
    } else if d == 1 {
        '1'
    } else if d == 2 {
        '2'
    } else if d == 3 {
        '3'
    } else if d == 4 {
        '4'
    } else if d == 5 {
        '5'
    } else if d == 6 {
        '6'
    } else if d == 7 {
        '7'
    } else if d == 8 {
        '8'
    } else {
        '9'
    }
}

/// The decimal digits of the non-negative integer `n`, most significant
/// first.
pub open spec fn dec_str(n: int) -> Seq<char>
    decreases n,
{
    if n < 10 {
        seq![dec_digit(n)]
    } else {
        dec_str(n / 10).push(dec_digit(n % 10))
    }
}

/// The decimal rendering of the integer `n`, with a leading minus sign
/// when it is negative.
pub open spec fn int_str(n: int) -> Seq<char> {
    if n < 0 {
        seq!['-'] + dec_str(-n)
    } else {
        dec_str(n)
    }
}

/// The default textual representation of a value: the text the engine
/// prints when no escaping applies.  An undefined value prints as
/// nothing.
pub open spec fn display_of(v: Value) -> Seq<char> {
    match v {
        Value::Undefined => Seq::<char>::empty(),
        Value::Null => "none"@,
        Value::Bool(b) => if b {
            "true"@
        } else {
            "false"@
        },
        Value::Number(n) => int_str(n as int),
        Value::Str(s, _) => s@,
        Value::Other(repr) => repr@,
    }
}

/// Whether the value is a string its producer marked safe.
pub open spec fn is_safe_string(v: Value) -> bool {
    v matches Value::Str(_, StringType::Safe)
}

/// The decimal digit character for `d`.
fn dec_digit_char(d: u64) -> (c: char)
    requires
        d < 10,
    ensures
        c == dec_digit(d as int),
{
    if d == 0 {
        '0'
    } else if d == 1 {
        '1'
    } else if d == 2 {
        '2'
    } else if d == 3 {
        '3'
    } else if d == 4 {
        '4'
    } else if d == 5 {
        '5'
    } else if d == 6 {
        '6'
    } else if d == 7 {
        '7'
    } else if d == 8 {
        '8'
    } else {
        '9'
    }
}

/// Appends the decimal digits of `n` to `out`.
fn push_decimal(out: &mut String, n: u64)
    ensures
        final(out)@ == old(out)@ + dec_str(n as int),
    decreases n,
{
    if n >= 10 {
        push_decimal(out, n / 10);
    }
    out.push(dec_digit_char(n % 10));
}

/// The decimal rendering of `n`.
pub fn int_to_string(n: i64) -> (r: String)
    ensures
        r@ == int_str(n as int),
{
    let mut out = String::new();
    if n < 0 {
        out.push('-');
        let m: u64 = (-(n as i128)) as u64;
        assert(m as int == -(n as int));
        push_decimal(&mut out, m);
        assert(out@ =~= seq!['-'] + dec_str(-(n as int)));
    } else {
        push_decimal(&mut out, n as u64);
        assert(out@ =~= dec_str(n as int));
    }
    out
}

impl Value {
    /// The classification of this value.
    pub open spec fn kind_spec(&self) -> ValueKind {
        match *self {
            Value::Undefined => ValueKind::Undefined,
            Value::Null => ValueKind::Null,
            Value::Bool(_) => ValueKind::Bool,
            Value::Number(_) => ValueKind::Number,
            Value::Str(_, _) => ValueKind::Str,
            Value::Other(_) => ValueKind::Other,
        }
    }

    /// The classification of this value.
    pub fn kind(&self) -> (k: ValueKind)
        ensures
            k == self.kind_spec(),
    {
        match *self {
            Value::Undefined => ValueKind::Undefined,
            Value::Null => ValueKind::Null,
            Value::Bool(_) => ValueKind::Bool,
            Value::Number(_) => ValueKind::Number,
            Value::Str(_, _) => ValueKind::Str,
            Value::Other(_) => ValueKind::Other,
        }
    }

    /// The underlying text, when this value is a string.
    pub fn as_str(&self) -> (r: Option<&str>)
        ensures
            match *self {
                Value::Str(s, _) => r matches Some(t) && t@ == s@,
                _ => r is None,
            },
    {
        match self {
            Value::Str(s, _) => Some(s.as_str()),
            _ => None,
        }
    }

    /// The default textual representation of this value.
    pub fn to_display_string(&self) -> (r: String)
        ensures
            r@ == display_of(*self),
    {
        match self {
            Value::Undefined => String::new(),
            Value::Null => String::from_str("none"),
            Value::Bool(b) => if *b {
                String::from_str("true")
            } else {
                String::from_str("false")
            },
            Value::Number(n) => int_to_string(*n),
            Value::Str(s, _) => s.clone(),
            Value::Other(repr) => repr.clone(),
        }
    }
}

} // verus!

//! Error type shared by the escaping and decoding routines.

use vstd::prelude::*;

verus! {

/// What went wrong.  The wider engine owns further kinds; these are the
/// ones this core can produce.
#[derive(Clone, Copy, Debug, PartialEq, Eq, Structural)]
pub enum ErrorKind {
    /// A string literal held a malformed backslash escape.
    BadEscape,
    /// An operation was asked of a component that cannot perform it,
    /// such as formatting to an unknown custom escape format.
    InvalidOperation,
    /// Structured serialization of a value failed.
    BadSerialization,
}

/// An error carrying its kind and a human-readable message.
#[derive(Debug)]
pub struct Error {
    pub kind: ErrorKind,
    pub msg: String,
}

impl Error {
    /// An error of the given kind with the given message.
    pub fn new(kind: ErrorKind, msg: String) -> (r: Error)
        ensures
            r.kind == kind,
            r.msg@ == msg@,
    {
        Error { kind, msg }
    }

    /// An error of the given kind with an empty message.
    pub fn from_kind(kind: ErrorKind) -> (r: Error)
        ensures
            r.kind == kind,
            r.msg@ == Seq::<char>::empty(),
    {
        Error { kind, msg: String::new() }
    }

    /// The kind of this error.
    pub fn kind(&self) -> (k: ErrorKind)
        ensures
            k == self.kind,
    {
        self.kind
    }

    /// The message of this error.
    pub fn message(&self) -> (m: &str)
        ensures
            m@ == self.msg@,
    {
        self.msg.as_str()
    }
}

} // verus!

//! In-memory output sink that rendering writes into.
//!
//! The sink is append-only: every write extends the text seen so far,
//! and nothing written is ever rolled back.

use vstd::prelude::*;
use vstd::string::StringExecFns;

verus! {

/// An append-only text sink backed by an owned string.
pub struct Output {
    buf: String,
}

impl View for Output {
    type V = Seq<char>;

    closed spec fn view(&self) -> Seq<char> {
        self.buf@
    }
}

impl Output {
    /// An empty sink.
    pub fn new() -> (r: Output)
        ensures
            r@ == Seq::<char>::empty(),
    {
        Output { buf: String::new() }
    }

    /// Appends `s` to the text written so far.
    pub fn write_str(&mut self, s: &str)
        ensures
            final(self)@ == old(self)@ + s@,
    {
        self.buf.append(s);
    }

    /// The text written so far.
    pub fn as_str(&self) -> (r: &str)
        ensures
            r@ == self@,
    {
        self.buf.as_str()
    }

    /// Consumes the sink and hands back the text written.
    pub fn into_string(self) -> (r: String)
        ensures
            r@ == self@,
    {
        self.buf
    }
}

} // verus!

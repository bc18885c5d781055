//! Character and string primitives from std that vstd does not specify.

use vstd::prelude::*;

verus! {

/// Relies on char::from_u32: it returns the character with scalar value
/// `i` exactly when `i` is a Unicode scalar value, that is, neither a
/// surrogate code point nor a value above the Unicode maximum.
pub assume_specification[ char::from_u32 ](i: u32) -> (r: Option<char>)
    ensures
        r is Some <==> (i < 0xD800 || (0xE000 <= i && i <= 0x10FFFF)),
        r matches Some(c) ==> c as u32 == i,
;

/// Relies on String::push: it appends the given character to the end of
/// the string.
pub assume_specification[ String::push ](s: &mut String, c: char)
    ensures
        final(s)@ == old(s)@.push(c),
;

} // verus!

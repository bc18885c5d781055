//! Decoding of JSON-style backslash escapes in string literals,
//! including UTF-16 surrogate pairs written as two `\u` escapes.

use vstd::pervasive::unreached;
use vstd::prelude::*;
use vstd::string::StrSliceExecFns;

use crate::error::Error;
use crate::error::ErrorKind;

verus! {

/// Whether `v` lies in the UTF-16 surrogate range.
pub open spec fn is_surrogate(v: u16) -> bool {
    0xD800 <= v <= 0xDFFF
}

/// Whether `v` is a UTF-16 high (leading) surrogate.
pub open spec fn is_high_surrogate(v: u16) -> bool {
    0xD800 <= v <= 0xDBFF
}

/// Whether `v` is a UTF-16 low (trailing) surrogate.
pub open spec fn is_low_surrogate(v: u16) -> bool {
    0xDC00 <= v <= 0xDFFF
}

/// The scalar value encoded by the surrogate pair `hi`, `lo`.
pub open spec fn combined_scalar(hi: u16, lo: u16) -> u32 {
    (0x10000 + (hi - 0xD800) * 0x400 + (lo - 0xDC00)) as u32
}

/// Whether `c` is an ASCII hexadecimal digit.
pub open spec fn is_hex_digit(c: char) -> bool {
    (('0' as u32) <= (c as u32) && (c as u32) <= ('9' as u32)) || (('a' as u32) <= (c as u32) && (
    c as u32) <= ('f' as u32)) || (('A' as u32) <= (c as u32) && (c as u32) <= ('F' as u32))
}

/// The value of the hexadecimal digit `c`.
pub open spec fn hex_digit_val(c: char) -> u16 {
    if ('0' as u32) <= (c as u32) && (c as u32) <= ('9' as u32) {
        ((c as u32) - ('0' as u32)) as u16
    } else if ('a' as u32) <= (c as u32) && (c as u32) <= ('f' as u32) {
        ((c as u32) - ('a' as u32) + 10) as u16
    } else {
        ((c as u32) - ('A' as u32) + 10) as u16
    }
}

/// The character of `s` at offset `k`, padded with a NUL sentinel past
/// the end of the input.
pub open spec fn padded_at(s: Seq<char>, k: int) -> char {
    if k < s.len() {
        s[k]
    } else {
        '\u{0}'
    }
}

/// Whether the four characters after a `\u` escape (padded with the
/// sentinel when the input runs out) are all hexadecimal digits.
pub open spec fn hex4_ok(s: Seq<char>) -> bool {
    &&& is_hex_digit(padded_at(s, 0))
    &&& is_hex_digit(padded_at(s, 1))
    &&& is_hex_digit(padded_at(s, 2))
    &&& is_hex_digit(padded_at(s, 3))
}

/// The code unit written by a `\u` escape whose four digits start `s`.
pub open spec fn hex4_val(s: Seq<char>) -> u16 {
    (4096 * hex_digit_val(padded_at(s, 0)) + 256 * hex_digit_val(padded_at(s, 1)) + 16
        * hex_digit_val(padded_at(s, 2)) + hex_digit_val(padded_at(s, 3))) as u16
}

/// The character written by a short escape `\d`, when `d` is one of the
/// recognised escape letters.
pub open spec fn short_unescape(d: char) -> Option<char> {
    if d == '"' {
        Some('"')
    } else if d == '\\' {
        Some('\\')
    } else if d == '/' {
        Some('/')
    } else if d == 'b' {
        Some('\u{8}')
    } else if d == 'f' {
        Some('\u{c}')
    } else if d == 'n' {
        Some('\n')
    } else if d == 'r' {
        Some('\r')
    } else if d == 't' {
        Some('\t')
    } else {
        None
    }
}

/// The decoded form of the input `s` when a surrogate with code unit
/// `pending` is waiting for its other half (`pending == 0` when none
/// is), or `None` when decoding fails.
pub open spec fn unescape_rec(s: Seq<char>, pending: u16) -> Option<Seq<char>>
    decreases s.len(),
{
    if s.len() == 0 {
        if pending == 0 {
            Some(Seq::<char>::empty())
        } else {
            None
        }
    } else if s[0] != '\\' {
        if pending != 0 {
            None
        } else {
            match unescape_rec(s.skip(1), 0) {
                Some(t) => Some(seq![s[0]] + t),
                None => None,
            }
        }
    } else if s.len() == 1 {
        None
    } else if s[1] == 'u' {
        if s.len() < 6 || !hex4_ok(s.skip(2)) {
            None
        } else {
            let v = hex4_val(s.skip(2));
            if pending == 0 {
                if !is_surrogate(v) {
                    match unescape_rec(s.skip(6), 0) {
                        Some(t) => Some(seq![(v as u32) as char] + t),
                        None => None,
                    }
                } else {
                    unescape_rec(s.skip(6), v)
                }
            } else {
                if is_high_surrogate(pending) && is_low_surrogate(v) {
                    match unescape_rec(s.skip(6), 0) {
                        Some(t) => Some(seq![combined_scalar(pending, v) as char] + t),
                        None => None,
                    }
                } else {
                    None
                }
            }
        }
    } else {
        match short_unescape(s[1]) {
            Some(c) => if pending != 0 {
                None
            } else {
                match unescape_rec(s.skip(2), 0) {
                    Some(t) => Some(seq![c] + t),
                    None => None,
                }
            },
            None => None,
        }
    }
}

/// The decoded form of `s` under JSON escape rules, or `None` when `s`
/// holds a malformed escape or ends with a surrogate still pending.
pub open spec fn unescape_spec(s: Seq<char>) -> Option<Seq<char>> {
    unescape_rec(s, 0)
}

/// Law: a string without backslashes decodes to itself.
pub proof fn lemma_unescape_no_backslash(s: Seq<char>)
    requires
        forall|i: int| 0 <= i < s.len() ==> s[i] != '\\',
    ensures
        unescape_spec(s) == Some(s),
    decreases s.len(),
{
    if s.len() == 0 {
        assert(unescape_rec(s, 0) == Some(Seq::<char>::empty()));
        assert(Seq::<char>::empty() =~= s);
    } else {
        assert(s[0] != '\\');
        assert(forall|i: int| 0 <= i < s.skip(1).len() ==> #[trigger] s.skip(1)[i] != '\\') by {
            assert(forall|i: int| 0 <= i < s.skip(1).len() ==> s.skip(1)[i] == s[i + 1]);
        }
        lemma_unescape_no_backslash(s.skip(1));
        assert(seq![s[0]] + s.skip(1) =~= s);
    }
}

/// How a partially decoded literal relates to the whole decode: what
/// the rest of the input and the pending slot yield, appended to the
/// text decoded so far, is the result for the whole input.
pub open spec fn decode_continues(
    whole: Seq<char>,
    rest: Seq<char>,
    pending: u16,
    done: Seq<char>,
) -> bool {
    match unescape_rec(rest, pending) {
        Some(t) => unescape_spec(whole) == Some(done + t),
        None => unescape_spec(whole) is None,
    }
}

/// Decoding state for one string literal: the output built so far and
/// the pending high-surrogate slot, zero meaning none is pending.  The
/// slot must be empty again when the input ends, or the decode fails.
pub struct Unescaper {
    pub out: String,
    pub pending_surrogate: u16,
}

impl Unescaper {
    /// Appends a literal (not escaped) character, which is malformed
    /// while a surrogate is pending.
    pub fn push_char(&mut self, c: char) -> (r: Result<(), Error>)
        ensures
            match r {
                Ok(_) => {
                    &&& old(self).pending_surrogate == 0
                    &&& final(self).pending_surrogate == 0
                    &&& final(self).out@ == old(self).out@.push(c)
                },
                Err(e) => {
                    &&& old(self).pending_surrogate != 0
                    &&& *final(self) == *old(self)
                    &&& e.kind == ErrorKind::BadEscape
                },
            },
    {
        if self.pending_surrogate != 0 {
            Err(Error::from_kind(ErrorKind::BadEscape))
        } else {
            self.out.push(c);
            Ok(())
        }
    }

    /// Feeds one UTF-16 code unit read from a `\u` escape: a
    /// non-surrogate unit becomes a character, a first surrogate waits
    /// in the pending slot, and a pending high surrogate combines with
    /// the low surrogate that follows it.
    pub fn push_u16(&mut self, c: u16) -> (r: Result<(), Error>)
        ensures
            match r {
                Ok(_) => {
                    if old(self).pending_surrogate == 0 {
                        if !is_surrogate(c) {
                            &&& final(self).pending_surrogate == 0
                            &&& final(self).out@ == old(self).out@.push((c as u32) as char)
                        } else {
                            &&& final(self).pending_surrogate == c
                            &&& final(self).out@ == old(self).out@
                        }
                    } else {
                        &&& is_high_surrogate(old(self).pending_surrogate)
                        &&& is_low_surrogate(c)
                        &&& final(self).pending_surrogate == 0
                        &&& final(self).out@ == old(self).out@.push(
                            combined_scalar(old(self).pending_surrogate, c) as char,
                        )
                    }
                },
                Err(e) => {
                    &&& old(self).pending_surrogate != 0
                    &&& !(is_high_surrogate(old(self).pending_surrogate) && is_low_surrogate(c))
                    &&& *final(self) == *old(self)
                    &&& e.kind == ErrorKind::BadEscape
                },
            },
    {
        if self.pending_surrogate == 0 {
            if !(0xD800 <= c && c <= 0xDFFF) {
                match char::from_u32(c as u32) {
                    Some(ch) => {
                        proof {
                            vstd::utf8::char_u32_cast(ch, c as u32);
                        }
                        self.out.push(ch);
                        Ok(())
                    },
                    None => unreached(),
                }
            } else {
                self.pending_surrogate = c;
                Ok(())
            }
        } else {
            if 0xD800 <= self.pending_surrogate && self.pending_surrogate <= 0xDBFF && 0xDC00 <= c
                && c <= 0xDFFF {
                let hi = self.pending_surrogate as u32;
                let lo = c as u32;
                let scalar: u32 = 0x10000 + (hi - 0xD800) * 0x400 + (lo - 0xDC00);
                match char::from_u32(scalar) {
                    Some(ch) => {
                        proof {
                            vstd::utf8::char_u32_cast(ch, scalar);
                        }
                        self.out.push(ch);
                        self.pending_surrogate = 0;
                        Ok(())
                    },
                    None => unreached(),
                }
            } else {
                Err(Error::from_kind(ErrorKind::BadEscape))
            }
        }
    }

    /// The value of the hexadecimal digit `c`, if it is one.
    fn hex_digit(c: char) -> (r: Option<u16>)
        ensures
            match r {
                Some(v) => is_hex_digit(c) && v == hex_digit_val(c),
                None => !is_hex_digit(c),
            },
    {
        let u = c as u32;
        if 48 <= u && u <= 57 {
            Some((u - 48) as u16)
        } else if 97 <= u && u <= 102 {
            Some((u - 97 + 10) as u16)
        } else if 65 <= u && u <= 70 {
            Some((u - 65 + 10) as u16)
        } else {
            None
        }
    }

    /// Reads the four hexadecimal digits of a `\u` escape starting at
    /// character offset `i`, padding with the sentinel when the input
    /// runs out, and parses them as a base-16 code unit.
    #[verifier::rlimit(50)]
    pub fn parse_u16(&self, s: &str, i: usize) -> (r: Result<u16, Error>)
        requires
            i <= s@.len(),
        ensures
            match r {
                Ok(v) => hex4_ok(s@.skip(i as int)) && v == hex4_val(s@.skip(i as int)),
                Err(e) => !hex4_ok(s@.skip(i as int)) && e.kind == ErrorKind::BadEscape,
            },
    {
        let n = s.unicode_len();
        let c0 = if n - i > 0 {
            s.get_char(i)
        } else {
            '\u{0}'
        };
        let c1 = if n - i > 1 {
            s.get_char(i + 1)
        } else {
            '\u{0}'
        };
        let c2 = if n - i > 2 {
            s.get_char(i + 2)
        } else {
            '\u{0}'
        };
        let c3 = if n - i > 3 {
            s.get_char(i + 3)
        } else {
            '\u{0}'
        };
        proof {
            let rest = s@.skip(i as int);
            assert(rest.len() == n - i);
            assert(padded_at(rest, 0) == c0);
            assert(padded_at(rest, 1) == c1);
            assert(padded_at(rest, 2) == c2);
            assert(padded_at(rest, 3) == c3);
        }
        let d0 = Self::hex_digit(c0);
        let d1 = Self::hex_digit(c1);
        let d2 = Self::hex_digit(c2);
        let d3 = Self::hex_digit(c3);
        match (d0, d1, d2, d3) {
            (Some(a), Some(b), Some(c), Some(d)) => Ok(4096 * a + 256 * b + 16 * c + d),
            _ => Err(Error::from_kind(ErrorKind::BadEscape)),
        }
    }

    /// The character written by a short escape `\d`, if `d` is one of
    /// the recognised escape letters.
    fn short_escape(d: char) -> (r: Option<char>)
        ensures
            r == short_unescape(d),
    {
        if d == '"' {
            Some('"')
        } else if d == '\\' {
            Some('\\')
        } else if d == '/' {
            Some('/')
        } else if d == 'b' {
            Some('\u{8}')
        } else if d == 'f' {
            Some('\u{c}')
        } else if d == 'n' {
            Some('\n')
        } else if d == 'r' {
            Some('\r')
        } else if d == 't' {
            Some('\t')
        } else {
            None
        }
    }

    /// Decodes the whole literal `s`, consuming this fresh decoder.
    #[verifier::rlimit(100)]
    #[verifier::spinoff_prover]
    pub fn unescape(self, s: &str) -> (r: Result<String, Error>)
        requires
            self.out@ == Seq::<char>::empty(),
            self.pending_surrogate == 0,
        ensures
            match r {
                Ok(t) => unescape_spec(s@) == Some(t@),
                Err(e) => unescape_spec(s@) is None && e.kind == ErrorKind::BadEscape,
            },
    {
        let mut this = self;
        let n = s.unicode_len();
        let mut i: usize = 0;
        proof {
            assert(s@.skip(0) =~= s@);
            match unescape_rec(s@, 0u16) {
                Some(t) => {
                    assert(this.out@ + t =~= t);
                },
                None => {},
            }
        }
        while i < n
            invariant
                n == s@.len(),
                i <= n,
                decode_continues(s@, s@.skip(i as int), this.pending_surrogate, this.out@),
            decreases n - i,
        {
            let ghost rest = s@.skip(i as int);
            let ghost pending0 = this.pending_surrogate;
            let ghost out0 = this.out@;
            let c = s.get_char(i);
            assert(rest[0] == c);
            if c == '\\' {
                if i + 1 >= n {
                    proof {
                        assert(rest.len() == 1);
                    }
                    return Err(Error::from_kind(ErrorKind::BadEscape));
                }
                let d = s.get_char(i + 1);
                assert(rest[1] == d);
                if d == 'u' {
                    let val = match this.parse_u16(s, i + 2) {
                        Ok(v) => v,
                        Err(e) => {
                            proof {
                                assert(rest.skip(2) =~= s@.skip(i + 2));
                            }
                            return Err(e);
                        },
                    };
                    proof {
                        assert(rest.skip(2) =~= s@.skip(i + 2));
                        assert(n >= i + 6) by {
                            if n < i + 6 {
                                assert(padded_at(s@.skip(i + 2), 3) == '\u{0}');
                            }
                        }
                        assert(rest.skip(6) =~= s@.skip(i + 6));
                    }
                    match this.push_u16(val) {
                        Ok(_) => (),
                        Err(e) => {
                            return Err(e);
                        },
                    }
                    i = i + 6;
                    proof {
                        if pending0 == 0 && !is_surrogate(val) {
                            assert(unescape_rec(rest, pending0) == (match unescape_rec(
                                s@.skip(i as int),
                                0,
                            ) {
                                Some(t) => Some(seq![(val as u32) as char] + t),
                                None => None::<Seq<char>>,
                            }));
                            assert(this.out@ =~= out0 + seq![(val as u32) as char]);
                            if unescape_rec(s@.skip(i as int), 0) is Some {
                                let t = unescape_rec(s@.skip(i as int), 0)->Some_0;
                                assert(out0 + (seq![(val as u32) as char] + t) =~= this.out@ + t);
                            }
                        } else if pending0 == 0 {
                            assert(unescape_rec(rest, pending0) == unescape_rec(
                                s@.skip(i as int),
                                val,
                            ));
                        } else {
                            assert(unescape_rec(rest, pending0) == (match unescape_rec(
                                s@.skip(i as int),
                                0,
                            ) {
                                Some(t) => Some(seq![combined_scalar(pending0, val) as char] + t),
                                None => None::<Seq<char>>,
                            }));
                            assert(this.out@ =~= out0 + seq![combined_scalar(pending0, val) as char]);
                            if unescape_rec(s@.skip(i as int), 0) is Some {
                                let t = unescape_rec(s@.skip(i as int), 0)->Some_0;
                                assert(out0 + (seq![combined_scalar(pending0, val) as char] + t)
                                    =~= this.out@ + t);
                            }
                        }
                    }
                } else {
                    let decoded = match Self::short_escape(d) {
                        Some(ch) => ch,
                        None => {
                            return Err(Error::from_kind(ErrorKind::BadEscape));
                        },
                    };
                    match this.push_char(decoded) {
                        Ok(_) => (),
                        Err(e) => {
                            return Err(e);
                        },
                    }
                    i = i + 2;
                    proof {
                        assert(rest.skip(2) =~= s@.skip(i as int));
                        assert(unescape_rec(rest, pending0) == (match unescape_rec(
                            s@.skip(i as int),
                            0,
                        ) {
                            Some(t) => Some(seq![decoded] + t),
                            None => None::<Seq<char>>,
                        }));
                        assert(this.out@ =~= out0 + seq![decoded]);
                        if unescape_rec(s@.skip(i as int), 0) is Some {
                            let t = unescape_rec(s@.skip(i as int), 0)->Some_0;
                            assert(out0 + (seq![decoded] + t) =~= this.out@ + t);
                        }
                    }
                }
            } else {
                match this.push_char(c) {
                    Ok(_) => (),
                    Err(e) => {
                        return Err(e);
                    },
                }
                i = i + 1;
                proof {
                    assert(rest.skip(1) =~= s@.skip(i as int));
                    assert(unescape_rec(rest, pending0) == (match unescape_rec(
                        s@.skip(i as int),
                        0,
                    ) {
                        Some(t) => Some(seq![c] + t),
                        None => None::<Seq<char>>,
                    }));
                    assert(this.out@ =~= out0 + seq![c]);
                    if unescape_rec(s@.skip(i as int), 0) is Some {
                        let t = unescape_rec(s@.skip(i as int), 0)->Some_0;
                        assert(out0 + (seq![c] + t) =~= this.out@ + t);
                    }
                }
            }
        }
        proof {
            assert(s@.skip(n as int) =~= Seq::<char>::empty());
        }
        if this.pending_surrogate != 0 {
            Err(Error::from_kind(ErrorKind::BadEscape))
        } else {
            proof {
                assert(this.out@ + Seq::<char>::empty() =~= this.out@);
            }
            Ok(this.out)
        }
    }
}

/// Decodes a string literal's JSON-style backslash escapes: short
/// escapes, `\u` code units, and surrogate pairs spelled as two `\u`
/// escapes.
pub fn unescape(s: &str) -> (r: Result<String, Error>)
    ensures
        match r {
            Ok(t) => unescape_spec(s@) == Some(t@),
            Err(e) => unescape_spec(s@) is None && e.kind == ErrorKind::BadEscape,
        },
{
    Unescaper { out: String::new(), pending_surrogate: 0 }.unescape(s)
}

} // verus!

//! HTML entity escaping: six reserved characters are replaced by
//! entities, every other character is kept, and unescaped runs are
//! copied in one piece rather than character by character.

use vstd::prelude::*;
use vstd::string::StrSliceExecFns;
use vstd::string::StringExecFns;

verus! {

/// Whether HTML escaping replaces `c`.
pub open spec fn is_reserved(c: char) -> bool {
    c == '<' || c == '>' || c == '&' || c == '"' || c == '\'' || c == '/'
}

/// What HTML escaping emits for the single character `c`.
pub open spec fn escape_char(c: char) -> Seq<char> {
    if c == '<' {
        seq!['&', 'l', 't', ';']
    } else if c == '>' {
        seq!['&', 'g', 't', ';']
    } else if c == '&' {
        seq!['&', 'a', 'm', 'p', ';']
    } else if c == '"' {
        seq!['&', 'q', 'u', 'o', 't', ';']
    } else if c == '\'' {
        seq!['&', '#', 'x', '2', '7', ';']
    } else if c == '/' {
        seq!['&', '#', 'x', '2', 'f', ';']
    } else {
        seq![c]
    }
}

/// The HTML-escaped form of `s`: every reserved character replaced by
/// its entity, every other character kept, order preserved.
pub open spec fn html_escaped(s: Seq<char>) -> Seq<char>
    decreases s.len(),
{
    if s.len() == 0 {
        Seq::<char>::empty()
    } else {
        escape_char(s[0]) + html_escaped(s.drop_first())
    }
}

/// Law: HTML escaping distributes over concatenation.
pub proof fn lemma_html_escaped_append(a: Seq<char>, b: Seq<char>)
    ensures
        html_escaped(a + b) == html_escaped(a) + html_escaped(b),
    decreases a.len(),
{
    if a.len() == 0 {
        assert(a + b =~= b);
        assert(html_escaped(a) + html_escaped(b) =~= html_escaped(b));
    } else {
        assert((a + b).drop_first() =~= a.drop_first() + b);
        assert((a + b)[0] == a[0]);
        lemma_html_escaped_append(a.drop_first(), b);
        assert(html_escaped(a + b) =~= html_escaped(a) + html_escaped(b));
    }
}

/// Law: escaping a single character emits exactly its replacement.
pub proof fn lemma_html_escaped_singleton(c: char)
    ensures
        html_escaped(seq![c]) == escape_char(c),
{
    assert(seq![c].drop_first() =~= Seq::<char>::empty());
    assert(html_escaped(seq![c]) == escape_char(c) + html_escaped(Seq::<char>::empty()));
    assert(escape_char(c) + Seq::<char>::empty() =~= escape_char(c));
}

/// Law: a string containing none of the six reserved characters is
/// unchanged by HTML escaping.
pub proof fn lemma_html_escaped_identity(s: Seq<char>)
    requires
        forall|i: int| 0 <= i < s.len() ==> !is_reserved(s[i]),
    ensures
        html_escaped(s) == s,
    decreases s.len(),
{
    if s.len() == 0 {
        assert(html_escaped(s) =~= s);
    } else {
        assert(!is_reserved(s[0]));
        assert(forall|i: int| 0 <= i < s.drop_first().len() ==> !is_reserved(
            #[trigger] s.drop_first()[i],
        )) by {
            assert(forall|i: int| 0 <= i < s.drop_first().len() ==> s.drop_first()[i] == s[i + 1]);
        }
        lemma_html_escaped_identity(s.drop_first());
        assert(html_escaped(s) =~= s);
    }
}

/// The entity that replaces `c`, when there is one.
fn entity_of(c: char) -> (r: Option<&'static str>)
    ensures
        match r {
            Some(t) => is_reserved(c) && t@ == escape_char(c),
            None => !is_reserved(c),
        },
{
    if c == '<' {
        proof {
            reveal_strlit("&lt;");
        }
        assert("&lt;"@ =~= escape_char('<'));
        Some("&lt;")
    } else if c == '>' {
        proof {
            reveal_strlit("&gt;");
        }
        assert("&gt;"@ =~= escape_char('>'));
        Some("&gt;")
    } else if c == '&' {
        proof {
            reveal_strlit("&amp;");
        }
        assert("&amp;"@ =~= escape_char('&'));
        Some("&amp;")
    } else if c == '"' {
        proof {
            reveal_strlit("&quot;");
        }
        assert("&quot;"@ =~= escape_char('"'));
        Some("&quot;")
    } else if c == '\'' {
        proof {
            reveal_strlit("&#x27;");
        }
        assert("&#x27;"@ =~= escape_char('\''));
        Some("&#x27;")
    } else if c == '/' {
        proof {
            reveal_strlit("&#x2f;");
        }
        assert("&#x2f;"@ =~= escape_char('/'));
        Some("&#x2f;")
    } else {
        None
    }
}

/// Appends the HTML-escaped form of `s` to `out`.  Runs of unescaped
/// characters are flushed in one piece; each reserved character is
/// replaced by its entity.
pub fn html_escape_into(out: &mut String, s: &str)
    ensures
        final(out)@ == old(out)@ + html_escaped(s@),
{
    let n = s.unicode_len();
    let mut start: usize = 0;
    let mut i: usize = 0;
    while i < n
        invariant
            n == s@.len(),
            start <= i <= n,
            out@ == old(out)@ + html_escaped(s@.subrange(0, start as int)),
            forall|j: int| start <= j < i ==> !is_reserved(s@[j]),
        decreases n - i,
    {
        let c = s.get_char(i);
        if let Some(entity) = entity_of(c) {
            if start < i {
                let run = s.substring_char(start, i);
                out.append(run);
            }
            proof {
                let pre = s@.subrange(0, start as int);
                let run = s@.subrange(start as int, i as int);
                lemma_html_escaped_identity(run);
                lemma_html_escaped_append(pre, run);
                assert(pre + run =~= s@.subrange(0, i as int));
            }
            out.append(entity);
            proof {
                let upto = s@.subrange(0, i as int);
                lemma_html_escaped_append(upto, seq![c]);
                lemma_html_escaped_singleton(c);
                assert(upto + seq![c] =~= s@.subrange(0, i + 1));
            }
            start = i + 1;
        }
        i = i + 1;
    }
    if start < n {
        let run = s.substring_char(start, n);
        out.append(run);
    }
    proof {
        let pre = s@.subrange(0, start as int);
        let run = s@.subrange(start as int, n as int);
        lemma_html_escaped_identity(run);
        lemma_html_escaped_append(pre, run);
        assert(pre + run =~= s@.subrange(0, n as int));
        assert(s@.subrange(0, n as int) =~= s@);
    }
}

/// Helper to HTML-escape a string.
pub struct HtmlEscape<'a>(pub &'a str);

impl<'a> HtmlEscape<'a> {
    /// The HTML-escaped form of the wrapped string.
    pub fn to_string(&self) -> (r: String)
        ensures
            r@ == html_escaped(self.0@),
    {
        let mut out = String::new();
        html_escape_into(&mut out, self.0);
        out
    }
}

} // verus!

//! Linear byte and subsequence search used by the lexer to locate
//! delimiters without allocating.

use vstd::prelude::*;

verus! {

/// First index at which `haystack` holds the byte `needle`, if any.
pub fn memchr(haystack: &[u8], needle: u8) -> (r: Option<usize>)
    ensures
        match r {
            Some(i) => {
                &&& i < haystack@.len()
                &&& haystack@[i as int] == needle
                &&& forall|j: int| 0 <= j < i ==> haystack@[j] != needle
            },
            None => forall|j: int| 0 <= j < haystack@.len() ==> haystack@[j] != needle,
        },
{
    let n = haystack.len();
    let mut i: usize = 0;
    while i < n
        invariant
            n == haystack@.len(),
            i <= n,
            forall|j: int| 0 <= j < i ==> haystack@[j] != needle,
        decreases n - i,
    {
        if haystack[i] == needle {
            return Some(i);
        }
        i = i + 1;
    }
    None
}

/// Whether `needle` occurs in `haystack` as a contiguous run starting
/// at index `i`.
pub open spec fn matches_at(haystack: Seq<u8>, needle: Seq<u8>, i: int) -> bool {
    &&& 0 <= i
    &&& i + needle.len() <= haystack.len()
    &&& haystack.subrange(i, i + needle.len() as int) == needle
}

/// First index at which `needle` occurs in `haystack` as a contiguous
/// run, if any.  An empty needle matches at index 0.
pub fn memstr(haystack: &[u8], needle: &[u8]) -> (r: Option<usize>)
    ensures
        match r {
            Some(i) => {
                &&& matches_at(haystack@, needle@, i as int)
                &&& forall|j: int| 0 <= j < i ==> !matches_at(haystack@, needle@, j)
            },
            None => forall|j: int| !matches_at(haystack@, needle@, j),
        },
{
    let n = haystack.len();
    let m = needle.len();
    if m > n {
        assert(forall|j: int| !matches_at(haystack@, needle@, j));
        return None;
    }
    if m == 0 {
        assert(matches_at(haystack@, needle@, 0)) by {
            assert(haystack@.subrange(0, 0) =~= needle@);
        }
        return Some(0);
    }
    let mut i: usize = 0;
    while i <= n - m
        invariant
            n == haystack@.len(),
            m == needle@.len(),
            1 <= m <= n,
            i <= n - m + 1,
            forall|j: int| 0 <= j < i ==> !matches_at(haystack@, needle@, j),
        decreases n - i,
    {
        if window_eq(haystack, needle, i) {
            return Some(i);
        }
        i = i + 1;
    }
    assert(forall|j: int| j > n - m ==> !matches_at(haystack@, needle@, j));
    None
}

/// Whether the window of `haystack` that starts at `i` equals `needle`.
fn window_eq(haystack: &[u8], needle: &[u8], i: usize) -> (r: bool)
    requires
        i + needle@.len() <= haystack@.len(),
    ensures
        r == matches_at(haystack@, needle@, i as int),
{
    let n = haystack.len();
    let m = needle.len();
    let mut k: usize = 0;
    while k < m
        invariant
            n == haystack@.len(),
            m == needle@.len(),
            i + m <= n,
            k <= m,
            forall|j: int| 0 <= j < k ==> haystack@[i + j] == needle@[j],
        decreases m - k,
    {
        if haystack[i + k] != needle[k] {
            assert(!matches_at(haystack@, needle@, i as int)) by {
                assert(haystack@.subrange(i as int, i + needle@.len() as int)[k as int]
                    == haystack@[i + k]);
            }
            return false;
        }
        k = k + 1;
    }
    assert(haystack@.subrange(i as int, i + needle@.len() as int) =~= needle@);
    true
}

} // verus!

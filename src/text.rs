//! Character-level helpers on strings.

use vstd::prelude::*;

verus! {

/// View of an optional string.
pub open spec fn opt_view(o: Option<String>) -> Option<Seq<char>> {
    match o {
        Some(s) => Some(s@),
        None => None,
    }
}

/// `needle` occurs in `hay` starting at index `i`.
pub open spec fn occurs_at(hay: Seq<char>, needle: Seq<char>, i: int) -> bool {
    0 <= i && i + needle.len() <= hay.len() && hay.subrange(i, i + needle.len()) == needle
}

/// `needle` occurs somewhere in `hay`.
pub open spec fn contains_seq(hay: Seq<char>, needle: Seq<char>) -> bool {
    exists|i: int| occurs_at(hay, needle, i)
}

/// Whether `needle` occurs in `hay` at index `i`.
fn matches_at(hay: &str, needle: &str, i: usize) -> (r: bool)
    requires
        i + needle@.len() <= hay@.len(),
    ensures
        r == occurs_at(hay@, needle@, i as int),
{
    let m = needle.unicode_len();
    let hl = hay.unicode_len();
    let mut j: usize = 0;
    while j < m
        invariant
            m == needle@.len(),
            hl == hay@.len(),
            j <= m,
            i + m <= hay@.len(),
            forall|k: int| 0 <= k < j ==> hay@[i + k] == needle@[k],
        decreases m - j,
    {
        if hay.get_char(i + j) != needle.get_char(j) {
            assert(hay@.subrange(i as int, i + m)[j as int] != needle@[j as int]);
            return false;
        }
        j = j + 1;
    }
    assert(hay@.subrange(i as int, i + m) =~= needle@);
    true
}

/// Substring containment: whether `needle` occurs anywhere in `hay`.
pub fn contains_text(hay: &str, needle: &str) -> (r: bool)
    ensures
        r == contains_seq(hay@, needle@),
{
    let hl = hay.unicode_len();
    let nl = needle.unicode_len();
    if nl > hl {
        return false;
    }
    let last = hl - nl;
    let mut i: usize = 0;
    loop
        invariant
            hl == hay@.len(),
            nl == needle@.len(),
            last == hl - nl,
            i <= last,
            forall|k: int| 0 <= k < i ==> !occurs_at(hay@, needle@, k),
        decreases last - i,
    {
        if matches_at(hay, needle, i) {
            return true;
        }
        if i == last {
            return false;
        }
        i = i + 1;
    }
}

/// Character-wise equality of two strings.
pub fn text_eq(a: &str, b: &str) -> (r: bool)
    ensures
        r == (a@ == b@),
{
    if a.unicode_len() != b.unicode_len() {
        return false;
    }
    let r = matches_at(a, b, 0);
    assert(a@.subrange(0, a@.len() as int) =~= a@);
    r
}

} // verus!

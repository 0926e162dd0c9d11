//! The canonical repository root, from a primary checkout or a linked
//! worktree.
//!
//! Paths are handled lexically, with `/` as separator: trailing separators
//! are ignored, the final component is what follows the last separator, and
//! the parent is what precedes it. A relative pointer to the common
//! metadata directory is joined onto the metadata directory it was read
//! from, and `.` and `name/..` segments are collapsed, all without
//! consulting the filesystem.

use vstd::prelude::*;
use crate::path_policy::{dir_name_of, is_last_slash, joined, join_path};
use crate::text::{opt_view, text_eq};

verus! {

/// Conventional name of the metadata directory of a primary checkout.
pub const METADATA_DIR: &'static str = ".git";

/// File in a linked worktree's metadata directory that names the shared
/// common metadata directory.
pub const COMMON_DIR_FILE: &'static str = "commondir";

/// Unicode white space, as trimmed from the pointer file's text.
pub open spec fn is_space(c: char) -> bool {
    ('\t' <= c && c <= '\r') || c == ' ' || c == '\u{85}' || c == '\u{a0}' || c == '\u{1680}'
        || ('\u{2000}' <= c && c <= '\u{200a}') || c == '\u{2028}' || c == '\u{2029}' || c
        == '\u{202f}' || c == '\u{205f}' || c == '\u{3000}'
}

/// `s` without leading white space.
pub open spec fn trim_start_of(s: Seq<char>) -> Seq<char>
    decreases s.len(),
{
    if s.len() > 0 && is_space(s[0]) {
        trim_start_of(s.drop_first())
    } else {
        s
    }
}

/// `s` without trailing white space.
pub open spec fn trim_end_of(s: Seq<char>) -> Seq<char>
    decreases s.len(),
{
    if s.len() > 0 && is_space(s.last()) {
        trim_end_of(s.drop_last())
    } else {
        s
    }
}

/// `s` without leading or trailing white space.
pub open spec fn trimmed(s: Seq<char>) -> Seq<char> {
    trim_end_of(trim_start_of(s))
}

/// `p` without trailing separators.
pub open spec fn strip_seps(p: Seq<char>) -> Seq<char>
    decreases p.len(),
{
    if p.len() > 0 && p.last() == '/' {
        strip_seps(p.drop_last())
    } else {
        p
    }
}

/// Final component of path `p`.
pub open spec fn final_component(p: Seq<char>) -> Seq<char> {
    dir_name_of(strip_seps(p))
}

/// Parent of path `p`: none for an empty path or the root, the empty path
/// for a single relative component, `/` for a component just below the root.
pub open spec fn parent_of(p: Seq<char>) -> Option<Seq<char>> {
    let t = strip_seps(p);
    if t.len() == 0 {
        None
    } else if exists|k: int| is_last_slash(t, k) {
        let k = choose|k: int| is_last_slash(t, k);
        let pre = strip_seps(t.subrange(0, k));
        if pre.len() == 0 {
            Some(seq!['/'])
        } else {
            Some(pre)
        }
    } else {
        Some(Seq::empty())
    }
}

/// The segments of `p` between separators, empty ones included
/// (`/a//b` gives ``, `a`, ``, `b`).
pub open spec fn split_segs(p: Seq<char>) -> Seq<Seq<char>>
    decreases p.len(),
{
    if p.len() == 0 {
        seq![Seq::empty()]
    } else {
        let r = split_segs(p.drop_last());
        if p.last() == '/' {
            r.push(Seq::empty())
        } else {
            r.update(r.len() - 1, r.last().push(p.last()))
        }
    }
}

/// The views of a sequence of strings.
pub open spec fn views(v: Seq<String>) -> Seq<Seq<char>> {
    v.map_values(|s: String| s@)
}

/// Adds segment `s` to the normalized segments `st`: empty and `.`
/// segments vanish, `..` removes the segment before it when there is one
/// that is not itself `..`, stays at the root of an absolute path, and is
/// kept at the start of a relative one.
pub open spec fn push_seg(st: Seq<Seq<char>>, s: Seq<char>, absolute: bool) -> Seq<Seq<char>> {
    if s.len() == 0 || s == seq!['.'] {
        st
    } else if s == seq!['.', '.'] {
        if st.len() > 0 && st.last() != seq!['.', '.'] {
            st.drop_last()
        } else if absolute {
            st
        } else {
            st.push(s)
        }
    } else {
        st.push(s)
    }
}

/// Normalized form of segments `segs`, taken in order.
pub open spec fn norm_stack(segs: Seq<Seq<char>>, absolute: bool) -> Seq<Seq<char>>
    decreases segs.len(),
{
    if segs.len() == 0 {
        Seq::empty()
    } else {
        push_seg(norm_stack(segs.drop_last(), absolute), segs.last(), absolute)
    }
}

/// Segments joined with one separator between each two.
pub open spec fn join_segs(st: Seq<Seq<char>>) -> Seq<char>
    decreases st.len(),
{
    if st.len() == 0 {
        Seq::empty()
    } else if st.len() == 1 {
        st[0]
    } else {
        join_segs(st.drop_last()) + seq!['/'] + st.last()
    }
}

/// Path `p` with `.` segments, empty segments and `name/..` pairs collapsed,
/// without consulting the filesystem; an absolute path stays absolute.
pub open spec fn normalized(p: Seq<char>) -> Seq<char> {
    let absolute = p.len() > 0 && p[0] == '/';
    let j = join_segs(norm_stack(split_segs(p), absolute));
    if absolute {
        seq!['/'] + j
    } else {
        j
    }
}

/// The repository root, from the metadata directory `git_dir`, the text of
/// its pointer file when it could be read, and the working directory.
///
/// A metadata directory named `.git` belongs to the primary checkout, whose
/// root is its parent. Otherwise it is a linked worktree's: the root is the
/// parent of the path its pointer file names (a relative one is taken from
/// the metadata directory), or, when that file could not be read, the
/// working directory.
pub open spec fn root_of(
    git_dir: Seq<char>,
    pointer: Option<Seq<char>>,
    workdir: Option<Seq<char>>,
) -> Option<Seq<char>> {
    if final_component(git_dir) == METADATA_DIR@ {
        parent_of(git_dir)
    } else {
        match pointer {
            Some(text) => parent_of(normalized(joined(git_dir, trimmed(text)))),
            None => workdir,
        }
    }
}

proof fn lemma_trim_start_step(s: Seq<char>, a: int)
    requires
        0 <= a < s.len(),
        is_space(s[a]),
    ensures
        trim_start_of(s.subrange(a, s.len() as int)) == trim_start_of(
            s.subrange(a + 1, s.len() as int),
        ),
{
    assert(s.subrange(a, s.len() as int).drop_first() =~= s.subrange(a + 1, s.len() as int));
}

proof fn lemma_trim_end_step(s: Seq<char>, a: int, b: int)
    requires
        0 <= a < b <= s.len(),
        is_space(s[b - 1]),
    ensures
        trim_end_of(s.subrange(a, b)) == trim_end_of(s.subrange(a, b - 1)),
{
    assert(s.subrange(a, b).drop_last() =~= s.subrange(a, b - 1));
}

/// Whitespace test on one character.
fn space_char(c: char) -> (r: bool)
    ensures
        r == is_space(c),
{
    ('\t' <= c && c <= '\r') || c == ' ' || c == '\u{85}' || c == '\u{a0}' || c == '\u{1680}'
        || ('\u{2000}' <= c && c <= '\u{200a}') || c == '\u{2028}' || c == '\u{2029}' || c
        == '\u{202f}' || c == '\u{205f}' || c == '\u{3000}'
}

/// `s` without leading or trailing white space.
pub fn trim_text(s: &str) -> (r: String)
    ensures
        r@ == trimmed(s@),
{
    let n = s.unicode_len();
    let mut a: usize = 0;
    assert(s@.subrange(0, n as int) =~= s@);
    while a < n && space_char(s.get_char(a))
        invariant
            n == s@.len(),
            a <= n,
            trim_start_of(s@) == trim_start_of(s@.subrange(a as int, n as int)),
        decreases n - a,
    {
        proof {
            lemma_trim_start_step(s@, a as int);
        }
        a = a + 1;
    }
    let mut b: usize = n;
    assert(trim_start_of(s@) == s@.subrange(a as int, n as int));
    while b > a && space_char(s.get_char(b - 1))
        invariant
            n == s@.len(),
            a <= b <= n,
            trimmed(s@) == trim_end_of(s@.subrange(a as int, b as int)),
        decreases b,
    {
        proof {
            lemma_trim_end_step(s@, a as int, b as int);
        }
        b = b - 1;
    }
    String::from_str(s.substring_char(a, b))
}

/// Length of `p` without its trailing separators.
fn stripped_len(p: &str, upto: usize) -> (r: usize)
    requires
        upto <= p@.len(),
    ensures
        r <= upto,
        p@.subrange(0, r as int) == strip_seps(p@.subrange(0, upto as int)),
{
    let mut e: usize = upto;
    while e > 0 && p.get_char(e - 1) == '/'
        invariant
            e <= upto <= p@.len(),
            strip_seps(p@.subrange(0, upto as int)) == strip_seps(p@.subrange(0, e as int)),
        decreases e,
    {
        assert(p@.subrange(0, e as int).drop_last() =~= p@.subrange(0, e - 1));
        e = e - 1;
    }
    e
}

/// Index just past the last `/` before `end`, or 0 when there is none.
fn after_last_slash(p: &str, end: usize) -> (r: usize)
    requires
        end <= p@.len(),
    ensures
        r <= end,
        r > 0 ==> is_last_slash(p@.subrange(0, end as int), r - 1),
        r == 0 ==> forall|j: int| 0 <= j < end ==> p@[j] != '/',
{
    let mut i: usize = end;
    while i > 0 && p.get_char(i - 1) != '/'
        invariant
            i <= end <= p@.len(),
            forall|j: int| i <= j < end ==> p@[j] != '/',
        decreases i,
    {
        i = i - 1;
    }
    i
}

proof fn lemma_last_slash_unique(s: Seq<char>, k: int)
    requires
        is_last_slash(s, k),
    ensures
        (choose|j: int| is_last_slash(s, j)) == k,
{
    let j = choose|j: int| is_last_slash(s, j);
    assert(is_last_slash(s, j));
    if j < k {
        assert(s[k] != '/');
    }
    if k < j {
        assert(s[j] != '/');
    }
}

/// Final component of a path.
pub fn final_component_of(p: &str) -> (r: String)
    ensures
        r@ == final_component(p@),
{
    let n = p.unicode_len();
    let e = stripped_len(p, n);
    assert(p@.subrange(0, n as int) =~= p@);
    let i = after_last_slash(p, e);
    let t = Ghost(p@.subrange(0, e as int));
    proof {
        if i > 0 {
            lemma_last_slash_unique(t@, i - 1);
        } else {
            assert forall|k: int| !is_last_slash(t@, k) by {
                if 0 <= k < e {
                    assert(t@[k] != '/');
                }
            }
        }
        assert(t@.subrange(i as int, e as int) =~= p@.subrange(i as int, e as int));
        if i == 0 {
            assert(t@.subrange(0, e as int) =~= t@);
        }
    }
    String::from_str(p.substring_char(i, e))
}

/// Parent of a path, if it has one.
pub fn parent_path(p: &str) -> (r: Option<String>)
    ensures
        opt_view(r) == parent_of(p@),
{
    let n = p.unicode_len();
    let e = stripped_len(p, n);
    assert(p@.subrange(0, n as int) =~= p@);
    if e == 0 {
        return None;
    }
    let i = after_last_slash(p, e);
    let t = Ghost(p@.subrange(0, e as int));
    if i == 0 {
        proof {
            assert forall|k: int| !is_last_slash(t@, k) by {
                if 0 <= k < e {
                    assert(t@[k] != '/');
                }
            }
        }
        return Some(String::new());
    }
    proof {
        lemma_last_slash_unique(t@, i - 1);
        assert(t@.subrange(0, i - 1) =~= p@.subrange(0, i - 1));
    }
    let k = stripped_len(p, i - 1);
    if k == 0 {
        let slash = "/";
        proof {
            reveal_strlit("/");
        }
        Some(String::from_str(slash))
    } else {
        Some(String::from_str(p.substring_char(0, k)))
    }
}

proof fn lemma_split_nonempty(p: Seq<char>)
    ensures
        split_segs(p).len() >= 1,
    decreases p.len(),
{
    if p.len() > 0 {
        lemma_split_nonempty(p.drop_last());
    }
}

/// Adds one segment to a normalized stack.
fn push_segment(stack: &mut Vec<String>, seg: &str, absolute: bool)
    ensures
        views(final(stack)@) == push_seg(views(old(stack)@), seg@, absolute),
{
    let dot = ".";
    let dotdot = "..";
    proof {
        reveal_strlit(".");
        reveal_strlit("..");
        assert(dot@ =~= seq!['.']);
        assert(dotdot@ =~= seq!['.', '.']);
    }
    if seg.unicode_len() == 0 || text_eq(seg, dot) {
        assert(views(stack@) == views(old(stack)@));
        return;
    }
    if text_eq(seg, dotdot) {
        let n = stack.len();
        if n > 0 && !text_eq(stack[n - 1].as_str(), dotdot) {
            proof {
                assert(views(old(stack)@).last() == stack@[n - 1]@);
            }
            stack.pop();
            proof {
                assert(views(stack@) =~= views(old(stack)@).drop_last());
            }
            return;
        }
        if absolute {
            return;
        }
    }
    stack.push(String::from_str(seg));
    proof {
        assert(views(stack@) =~= views(old(stack)@).push(seg@));
    }
}

/// Segments joined with `/`.
fn join_segments(st: &Vec<String>) -> (r: String)
    ensures
        r@ == join_segs(views(st@)),
{
    let slash = "/";
    proof {
        reveal_strlit("/");
    }
    let mut out = String::new();
    let mut i: usize = 0;
    while i < st.len()
        invariant
            i <= st@.len(),
            slash@ == seq!['/'],
            out@ == join_segs(views(st@).subrange(0, i as int)),
        decreases st@.len() - i,
    {
        let ghost before = out@;
        assert(views(st@).subrange(0, i + 1).drop_last() =~= views(st@).subrange(0, i as int));
        assert(views(st@).subrange(0, i + 1).last() == st@[i as int]@);
        if i > 0 {
            out.append(slash);
        } else {
            assert(views(st@).subrange(0, 1) =~= seq![st@[0]@]);
        }
        out.append(st[i].as_str());
        i = i + 1;
    }
    assert(views(st@).subrange(0, i as int) =~= views(st@));
    out
}

/// Lexically normalized form of a path: `.` segments, repeated separators
/// and `name/..` pairs are collapsed; the filesystem is not consulted.
pub fn normalize_path(p: &str) -> (r: String)
    ensures
        r@ == normalized(p@),
{
    let n = p.unicode_len();
    let absolute = n > 0 && p.get_char(0) == '/';
    let mut stack: Vec<String> = Vec::new();
    let mut start: usize = 0;
    let mut i: usize = 0;
    proof {
        assert(p@.subrange(0, 0) =~= Seq::<char>::empty());
        assert(views(stack@) =~= Seq::<Seq<char>>::empty());
        assert(p@.subrange(0, 0) =~= Seq::<char>::empty());
    }
    while i < n
        invariant
            n == p@.len(),
            absolute == (p@.len() > 0 && p@[0] == '/'),
            start <= i <= n,
            split_segs(p@.subrange(0, i as int)).last() == p@.subrange(start as int, i as int),
            views(stack@) == norm_stack(split_segs(p@.subrange(0, i as int)).drop_last(), absolute),
        decreases n - i,
    {
        let ghost q = p@.subrange(0, i as int);
        let ghost r = split_segs(q);
        proof {
            lemma_split_nonempty(q);
            assert(p@.subrange(0, i + 1).drop_last() =~= q);
            assert(p@.subrange(0, i + 1).last() == p@[i as int]);
            assert(r =~= r.drop_last().push(r.last()));
        }
        if p.get_char(i) == '/' {
            push_segment(&mut stack, p.substring_char(start, i), absolute);
            start = i + 1;
            proof {
                assert(split_segs(p@.subrange(0, i + 1)).drop_last() =~= r);
                assert(p@.subrange(start as int, i + 1) =~= Seq::<char>::empty());
            }
        } else {
            proof {
                let r2 = split_segs(p@.subrange(0, i + 1));
                assert(r2.drop_last() =~= r.drop_last());
                assert(p@.subrange(start as int, i + 1) =~= p@.subrange(start as int, i as int).push(
                    p@[i as int],
                ));
            }
        }
        i = i + 1;
    }
    proof {
        let r = split_segs(p@.subrange(0, n as int));
        lemma_split_nonempty(p@.subrange(0, n as int));
        assert(p@.subrange(0, n as int) =~= p@);
        assert(r =~= r.drop_last().push(r.last()));
    }
    push_segment(&mut stack, p.substring_char(start, n), absolute);
    let joined_segs = join_segments(&stack);
    if absolute {
        let mut out = String::from_str("/");
        proof {
            reveal_strlit("/");
        }
        out.append(joined_segs.as_str());
        out
    } else {
        joined_segs
    }
}

/// Where a linked worktree's pointer file lies in its metadata directory.
pub fn pointer_file(git_dir: &str) -> (r: String)
    ensures
        r@ == joined(git_dir@, COMMON_DIR_FILE@),
{
    join_path(git_dir, COMMON_DIR_FILE)
}

/// The canonical repository root; `None` when the rule names a path that
/// has no parent or there is no working directory to fall back on.
pub fn resolve_root(git_dir: &str, pointer: &Option<String>, workdir: &Option<String>) -> (r:
    Option<String>)
    ensures
        opt_view(r) == root_of(git_dir@, opt_view(*pointer), opt_view(*workdir)),
{
    let last = final_component_of(git_dir);
    if text_eq(last.as_str(), METADATA_DIR) {
        parent_path(git_dir)
    } else {
        match pointer {
            Some(text) => {
                let target = trim_text(text.as_str());
                let full = join_path(git_dir, target.as_str());
                let common = normalize_path(full.as_str());
                parent_path(common.as_str())
            },
            None => match workdir {
                Some(w) => Some(w.clone()),
                None => None,
            },
        }
    }
}

} // verus!

//! Where new worktrees go and what they are called.

use vstd::prelude::*;
use crate::text::opt_view;

verus! {

/// Name of the subdirectory of the repository root that holds worktrees.
pub const WORKTREE_DIR: &'static str = ".worktree";

/// `k` is the index of the last `/` in `s`.
pub open spec fn is_last_slash(s: Seq<char>, k: int) -> bool {
    &&& 0 <= k < s.len()
    &&& s[k] == '/'
    &&& forall|j: int| k < j < s.len() ==> s[j] != '/'
}

/// Default directory name for a branch: what follows its last `/`, or the
/// whole name when it has none (`feature/auth` gives `auth`).
pub open spec fn dir_name_of(branch: Seq<char>) -> Seq<char> {
    if exists|k: int| is_last_slash(branch, k) {
        let k = choose|k: int| is_last_slash(branch, k);
        branch.subrange(k + 1, branch.len() as int)
    } else {
        branch
    }
}

/// Backend identifier of a branch's worktree: every `/` becomes `-`.
pub open spec fn worktree_id_of(branch: Seq<char>) -> Seq<char> {
    branch.map_values(|c: char| if c == '/' { '-' } else { c })
}

/// Joining a path segment onto a base path: an absolute segment replaces
/// the base, otherwise one `/` separates them unless the base is empty or
/// already ends in one.
pub open spec fn joined(base: Seq<char>, seg: Seq<char>) -> Seq<char> {
    if seg.len() > 0 && seg[0] == '/' {
        seg
    } else if base.len() == 0 || base.last() == '/' {
        base + seg
    } else {
        base + seq!['/'] + seg
    }
}

/// Default base directory below a repository root.
pub open spec fn default_base_of(root: Seq<char>) -> Seq<char> {
    joined(root, WORKTREE_DIR@)
}

/// Base directory for new worktrees: the override verbatim when there is one.
pub open spec fn base_dir_of(override_base: Option<Seq<char>>, root: Seq<char>) -> Seq<char> {
    match override_base {
        Some(b) => b,
        None => default_base_of(root),
    }
}

/// Target path of a new worktree: the explicit path when one is given,
/// else the branch's directory name under the base directory.
pub open spec fn target_of(base: Seq<char>, branch: Seq<char>, explicit: Option<Seq<char>>) -> Seq<
    char,
> {
    match explicit {
        Some(p) => p,
        None => joined(base, dir_name_of(branch)),
    }
}

/// Default directory name of a branch's worktree: the text after the last `/`.
pub fn default_dir_name(branch: &str) -> (r: String)
    ensures
        r@ == dir_name_of(branch@),
        forall|k: int| is_last_slash(branch@, k) ==> r@ == branch@.subrange(k + 1, branch@.len() as int),
        (forall|j: int| 0 <= j < branch@.len() ==> branch@[j] != '/') ==> r@ == branch@,
{
    let n = branch.unicode_len();
    let mut i: usize = n;
    while i > 0 && branch.get_char(i - 1) != '/'
        invariant
            n == branch@.len(),
            i <= n,
            forall|j: int| i <= j < n ==> branch@[j] != '/',
        decreases i,
    {
        i = i - 1;
    }
    let r = String::from_str(branch.substring_char(i, n));
    proof {
        if i > 0 {
            assert(is_last_slash(branch@, i - 1));
            assert forall|k: int| is_last_slash(branch@, k) implies k == i - 1 by {
                if k < i - 1 {
                    assert(branch@[i - 1] != '/');
                }
                if k > i - 1 {
                    assert(branch@[k] != '/');
                }
            }
        } else {
            assert(branch@.subrange(0, n as int) =~= branch@);
            assert forall|k: int| !is_last_slash(branch@, k) by {
                if 0 <= k < n {
                    assert(branch@[k] != '/');
                }
            }
        }
    }
    r
}

/// Backend identifier for a branch's worktree: `feature/auth` gives `feature-auth`.
pub fn worktree_id(branch: &str) -> (r: String)
    ensures
        r@ == worktree_id_of(branch@),
        r@.len() == branch@.len(),
        forall|j: int| 0 <= j < r@.len() ==> r@[j] != '/',
{
    let n = branch.unicode_len();
    let mut out = String::new();
    let dash = "-";
    proof {
        reveal_strlit("-");
    }
    let mut i: usize = 0;
    while i < n
        invariant
            n == branch@.len(),
            i <= n,
            dash@ == seq!['-'],
            out@ == branch@.subrange(0, i as int).map_values(
                |c: char| if c == '/' { '-' } else { c },
            ),
        decreases n - i,
    {
        let c = branch.get_char(i);
        if c == '/' {
            out.append(dash);
        } else {
            let one = branch.substring_char(i, i + 1);
            out.append(one);
        }
        assert(branch@.subrange(0, i + 1) =~= branch@.subrange(0, i as int).push(c));
        i = i + 1;
    }
    assert(branch@.subrange(0, n as int) =~= branch@);
    out
}

/// Joins `seg` onto `base` as a path.
pub fn join_path(base: &str, seg: &str) -> (r: String)
    ensures
        r@ == joined(base@, seg@),
{
    let bl = base.unicode_len();
    let sl = seg.unicode_len();
    if sl > 0 && seg.get_char(0) == '/' {
        return String::from_str(seg);
    }
    let mut out = String::from_str(base);
    if bl > 0 && base.get_char(bl - 1) != '/' {
        let slash = "/";
        proof {
            reveal_strlit("/");
        }
        out.append(slash);
    }
    out.append(seg);
    out
}

/// Base directory for new worktrees: the configured override verbatim, else
/// the worktree subdirectory of the repository root.
pub fn base_dir(override_base: &Option<String>, root: &str) -> (r: String)
    ensures
        r@ == base_dir_of(
            opt_view(*override_base),
            root@,
        ),
{
    match override_base {
        Some(b) => b.clone(),
        None => join_path(root, WORKTREE_DIR),
    }
}

/// Where the worktree for `branch` goes: `explicit` when given, else the
/// branch's default directory name under `base`.
pub fn target_path(base: &str, branch: &str, explicit: &Option<String>) -> (r: String)
    ensures
        r@ == target_of(
            base@,
            branch@,
            opt_view(*explicit),
        ),
{
    match explicit {
        Some(p) => p.clone(),
        None => {
            let d = default_dir_name(branch);
            join_path(base, d.as_str())
        },
    }
}

} // verus!

//! Mapping a user token to one worktree.
//!
//! Precedence, first match wins: the reserved primary name; a worktree whose
//! name equals the token; one whose name contains it; one whose branch equals
//! it; one whose branch contains it. Each step looks at every linked worktree,
//! in enumeration order, before the next step is tried.

use vstd::prelude::*;
use crate::text::{contains_seq, contains_text, occurs_at, opt_view, text_eq};

verus! {

/// Reserved identifier of the primary worktree.
pub const PRIMARY_NAME: &'static str = "main";

/// A worktree as enumerated: identifier, filesystem path and the branch its
/// HEAD names (`HEAD` when detached, `None` when it could not be read).
#[derive(Debug)]
pub struct WorktreeEntry {
    pub name: String,
    pub path: String,
    pub branch: Option<String>,
}

/// The worktree a token resolves to.
#[derive(Clone, Copy, Debug, PartialEq, Eq, Structural)]
pub enum Target {
    Primary,
    /// Index into the linked worktrees, in enumeration order.
    Linked(usize),
}

/// Name-equality step.
pub const STEP_NAME_EXACT: u8 = 0;
/// Name-containment step.
pub const STEP_NAME_PART: u8 = 1;
/// Branch-equality step.
pub const STEP_BRANCH_EXACT: u8 = 2;
/// Branch-containment step.
pub const STEP_BRANCH_PART: u8 = 3;

/// Whether entry `e` matches token `t` at precedence step `step`.
pub open spec fn step_matches(e: WorktreeEntry, t: Seq<char>, step: int) -> bool {
    if step == STEP_NAME_EXACT {
        e.name@ == t
    } else if step == STEP_NAME_PART {
        contains_seq(e.name@, t)
    } else if step == STEP_BRANCH_EXACT {
        e.branch is Some && e.branch->0@ == t
    } else {
        e.branch is Some && contains_seq(e.branch->0@, t)
    }
}

/// Some linked worktree matches at `step`.
pub open spec fn any_match(s: Seq<WorktreeEntry>, t: Seq<char>, step: int) -> bool {
    exists|i: int| 0 <= i < s.len() && step_matches(s[i], t, step)
}

/// `i` is the first linked worktree that matches at `step`.
pub open spec fn is_first_match(s: Seq<WorktreeEntry>, t: Seq<char>, step: int, i: int) -> bool {
    &&& 0 <= i < s.len()
    &&& step_matches(s[i], t, step)
    &&& forall|j: int| 0 <= j < i ==> !step_matches(s[j], t, step)
}

/// The first linked worktree that matches at `step` (meaningful when one does).
pub open spec fn first_match(s: Seq<WorktreeEntry>, t: Seq<char>, step: int) -> int {
    choose|i: int| is_first_match(s, t, step, i)
}

/// The first matching worktree of the first step, among `from..4`, at which
/// any worktree matches.
pub open spec fn match_from(s: Seq<WorktreeEntry>, t: Seq<char>, from: int) -> Option<Target>
    decreases 4 - from,
{
    if from >= 4 || from < 0 {
        None
    } else if any_match(s, t, from) {
        Some(Target::Linked(first_match(s, t, from) as usize))
    } else {
        match_from(s, t, from + 1)
    }
}

/// Where `t` resolves among the primary and the linked worktrees `s`.
pub open spec fn resolution(s: Seq<WorktreeEntry>, t: Seq<char>) -> Option<Target> {
    if t == PRIMARY_NAME@ {
        Some(Target::Primary)
    } else {
        match_from(s, t, 0)
    }
}

/// Where `t` resolves for removal: the first linked worktree whose
/// identifier contains `t` (equality included), in enumeration order. Branch
/// names are not consulted and the primary worktree is never a candidate.
pub open spec fn removal_resolution(s: Seq<WorktreeEntry>, t: Seq<char>) -> Option<usize> {
    if any_match(s, t, STEP_NAME_PART as int) {
        Some(first_match(s, t, STEP_NAME_PART as int) as usize)
    } else {
        None
    }
}

/// Whether `e` matches `t` at precedence step `step`.
fn entry_matches(e: &WorktreeEntry, t: &str, step: u8) -> (r: bool)
    ensures
        r == step_matches(*e, t@, step as int),
{
    if step == STEP_NAME_EXACT {
        text_eq(e.name.as_str(), t)
    } else if step == STEP_NAME_PART {
        contains_text(e.name.as_str(), t)
    } else {
        match &e.branch {
            None => false,
            Some(b) => {
                if step == STEP_BRANCH_EXACT {
                    text_eq(b.as_str(), t)
                } else {
                    contains_text(b.as_str(), t)
                }
            },
        }
    }
}

/// Index of the first linked worktree that matches `t` at `step`.
fn find_first(s: &Vec<WorktreeEntry>, t: &str, step: u8) -> (r: Option<usize>)
    ensures
        match r {
            Some(i) => is_first_match(s@, t@, step as int, i as int),
            None => !any_match(s@, t@, step as int),
        },
{
    let mut i: usize = 0;
    while i < s.len()
        invariant
            i <= s@.len(),
            forall|j: int| 0 <= j < i ==> !step_matches(s@[j], t@, step as int),
        decreases s@.len() - i,
    {
        if entry_matches(&s[i], t, step) {
            return Some(i);
        }
        i = i + 1;
    }
    None
}

proof fn lemma_first_unique(s: Seq<WorktreeEntry>, t: Seq<char>, step: int, i: int)
    requires
        is_first_match(s, t, step, i),
    ensures
        any_match(s, t, step),
        first_match(s, t, step) == i,
{
    let k = first_match(s, t, step);
    assert(is_first_match(s, t, step, k));
    if k < i {
        assert(!step_matches(s[k], t, step));
    }
    if i < k {
        assert(!step_matches(s[i], t, step));
    }
}

/// Some worktree matches at `step` exactly when a first one does.
pub proof fn lemma_first_exists(s: Seq<WorktreeEntry>, t: Seq<char>, step: int, i: int)
    requires
        0 <= i < s.len(),
        step_matches(s[i], t, step),
    ensures
        is_first_match(s, t, step, first_match(s, t, step)),
        first_match(s, t, step) <= i,
    decreases i,
{
    if exists|j: int| 0 <= j < i && step_matches(s[j], t, step) {
        let j = choose|j: int| 0 <= j < i && step_matches(s[j], t, step);
        lemma_first_exists(s, t, step, j);
    } else {
        assert(is_first_match(s, t, step, i));
        lemma_first_unique(s, t, step, i);
    }
}

/// Identifiers take precedence over branches: when some linked worktree's
/// identifier contains the token (the primary name aside), the token resolves
/// to a worktree whose identifier contains it, whatever the branches say.
pub proof fn law_identifier_before_branch(s: Seq<WorktreeEntry>, t: Seq<char>, i: int)
    requires
        t != PRIMARY_NAME@,
        s.len() <= usize::MAX,
        0 <= i < s.len(),
        contains_seq(s[i].name@, t),
    ensures
        resolution(s, t) matches Some(Target::Linked(j)) && 0 <= j < s.len() && contains_seq(
            s[j as int].name@,
            t,
        ),
{
    if any_match(s, t, 0) {
        let k = choose|k: int| 0 <= k < s.len() && step_matches(s[k], t, 0);
        lemma_first_exists(s, t, 0, k);
        let f = first_match(s, t, 0);
        assert(s[f].name@.subrange(0, t.len() as int) =~= t);
        assert(occurs_at(s[f].name@, t, 0));
        assert(match_from(s, t, 0) == Some(Target::Linked(f as usize)));
    } else {
        lemma_first_exists(s, t, 1, i);
        assert(match_from(s, t, 0) == match_from(s, t, 1));
        assert(match_from(s, t, 1) == Some(Target::Linked(first_match(s, t, 1) as usize)));
    }
}

/// Resolves a navigation token to the primary worktree or a linked one.
pub fn resolve(linked: &Vec<WorktreeEntry>, token: &str) -> (r: Option<Target>)
    ensures
        r == resolution(linked@, token@),
{
    if text_eq(token, PRIMARY_NAME) {
        return Some(Target::Primary);
    }
    let mut step: u8 = 0;
    while step < 4
        invariant
            step <= 4,
            token@ != PRIMARY_NAME@,
            resolution(linked@, token@) == match_from(linked@, token@, step as int),
        decreases 4 - step,
    {
        match find_first(linked, token, step) {
            Some(i) => {
                proof {
                    lemma_first_unique(linked@, token@, step as int, i as int);
                }
                return Some(Target::Linked(i));
            },
            None => {},
        }
        step = step + 1;
    }
    None
}

/// Path of the worktree a resolution names.
pub open spec fn target_path_of(
    primary_path: Option<Seq<char>>,
    s: Seq<WorktreeEntry>,
    t: Option<Target>,
) -> Option<Seq<char>> {
    match t {
        Some(Target::Primary) => primary_path,
        Some(Target::Linked(i)) => if i < s.len() {
            Some(s[i as int].path@)
        } else {
            None
        },
        None => None,
    }
}

/// Path of the worktree a navigation token resolves to; `primary_path` is
/// the primary worktree's directory, `None` for a repository without one.
pub fn locate(primary_path: &Option<String>, linked: &Vec<WorktreeEntry>, token: &str) -> (r:
    Option<String>)
    ensures
        opt_view(r) == target_path_of(
            opt_view(*primary_path),
            linked@,
            resolution(linked@, token@),
        ),
{
    match resolve(linked, token) {
        Some(Target::Primary) => match primary_path {
            Some(p) => Some(p.clone()),
            None => None,
        },
        Some(Target::Linked(i)) => {
            let n = linked.len();
            proof {
                assert(n == linked@.len());
                lemma_match_from_in_range(linked@, token@, 0);
            }
            Some(linked[i].path.clone())
        },
        None => None,
    }
}

proof fn lemma_match_from_in_range(s: Seq<WorktreeEntry>, t: Seq<char>, from: int)
    requires
        s.len() <= usize::MAX,
    ensures
        match_from(s, t, from) matches Some(Target::Linked(i)) ==> i < s.len(),
    decreases 4 - from,
{
    if 0 <= from < 4 {
        if any_match(s, t, from) {
            let k = choose|k: int| 0 <= k < s.len() && step_matches(s[k], t, from);
            lemma_first_exists(s, t, from, k);
        } else {
            lemma_match_from_in_range(s, t, from + 1);
        }
    }
}

/// Resolves a removal token against linked worktree identifiers only.
pub fn resolve_removal(linked: &Vec<WorktreeEntry>, token: &str) -> (r: Option<usize>)
    ensures
        r == removal_resolution(linked@, token@),
{
    match find_first(linked, token, STEP_NAME_PART) {
        Some(i) => {
            proof {
                lemma_first_unique(linked@, token@, STEP_NAME_PART as int, i as int);
            }
            Some(i)
        },
        None => None,
    }
}

} // verus!

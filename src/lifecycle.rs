//! Creating, removing and pruning worktrees.
//!
//! Creation is planned here and carried out by the caller one step at a
//! time. When the branch exists the worktree is bound to it in one step.
//! When it does not, the backend offers no atomic "new worktree on a new
//! branch": the worktree is created detached at HEAD, then the branch is
//! created at that commit inside it, HEAD is pointed at the branch, and the
//! tree is checked out again.

use vstd::prelude::*;
use crate::path_policy::{target_of, target_path, worktree_id, worktree_id_of};
use crate::text::{opt_view, text_eq};

verus! {

/// Prefix of local branch reference names.
pub const LOCAL_BRANCH_PREFIX: &'static str = "refs/heads/";

/// Error kinds of the engine's operations.
#[derive(Clone, Copy, Debug, PartialEq, Eq, Structural)]
pub enum ErrorKind {
    /// No repository metadata at the working directory.
    NotARepository,
    /// The token names no worktree or branch.
    NotFound,
    /// A worktree with that identifier already exists.
    NameCollision,
    /// The target directory is occupied.
    PathCollision,
    /// A filesystem operation failed.
    IoFailure,
    /// A backend operation failed.
    BackendFailure,
    /// The worktree was created but binding it to its new branch failed; it
    /// is left checked out at a detached commit.
    PartialCreate,
}

/// One backend action of a worktree creation.
#[derive(Debug)]
pub enum AddStep {
    /// Create worktree `id` at `path`, checked out on the existing local branch.
    AddBound { id: String, path: String, branch: String },
    /// Create worktree `id` at `path`, detached at the repository's HEAD commit.
    AddDetached { id: String, path: String },
    /// Inside the new worktree, create local branch `branch` at its HEAD commit.
    CreateBranchAtHead { branch: String },
    /// Inside the new worktree, point HEAD at reference `refname`.
    SetHead { refname: String },
    /// Inside the new worktree, check the tree out again, discarding differences.
    ForceCheckout,
}

/// A planned worktree creation.
#[derive(Debug)]
pub struct AddPlan {
    pub id: String,
    pub path: String,
    pub steps: Vec<AddStep>,
}

/// Full reference name of local branch `b`.
pub open spec fn branch_ref_of(b: Seq<char>) -> Seq<char> {
    LOCAL_BRANCH_PREFIX@ + b
}

/// `ids` holds identifier `id`.
pub open spec fn id_in(ids: Seq<String>, id: Seq<char>) -> bool {
    exists|i: int| 0 <= i < ids.len() && ids[i]@ == id
}

/// The error, if any, with which creating the worktree for `branch` is
/// refused before anything is changed.
pub open spec fn add_refusal(ids: Seq<String>, branch: Seq<char>, occupied: bool) -> Option<
    ErrorKind,
> {
    if id_in(ids, worktree_id_of(branch)) {
        Some(ErrorKind::NameCollision)
    } else if occupied {
        Some(ErrorKind::PathCollision)
    } else {
        None
    }
}

/// The steps that create worktree `id` at `path` for `branch`.
pub open spec fn steps_are(
    steps: Seq<AddStep>,
    id: Seq<char>,
    path: Seq<char>,
    branch: Seq<char>,
    branch_exists: bool,
) -> bool {
    if branch_exists {
        &&& steps.len() == 1
        &&& steps[0] matches AddStep::AddBound { id: i, path: p, branch: b } && i@ == id && p@
            == path && b@ == branch
    } else {
        &&& steps.len() == 4
        &&& steps[0] matches AddStep::AddDetached { id: i, path: p } && i@ == id && p@ == path
        &&& steps[1] matches AddStep::CreateBranchAtHead { branch: b } && b@ == branch
        &&& steps[2] matches AddStep::SetHead { refname: r } && r@ == branch_ref_of(branch)
        &&& steps[3] is ForceCheckout
    }
}

/// References as the creation steps see them: the local references with
/// their commits, the reference HEAD names (`None` when detached), and the
/// commit HEAD is at.
pub type RefState = (Map<Seq<char>, int>, Option<Seq<char>>, int);

/// What one step does to the new worktree's references, for a backend that
/// implements each action as its name says; `repo_head` is the commit of
/// the repository's HEAD when the worktree is created.
pub open spec fn after_step(st: RefState, step: AddStep, repo_head: int) -> RefState {
    match step {
        AddStep::AddBound { branch, .. } => (
            st.0,
            Some(branch_ref_of(branch@)),
            st.0[branch_ref_of(branch@)],
        ),
        AddStep::AddDetached { .. } => (st.0, None, repo_head),
        AddStep::CreateBranchAtHead { branch } => (
            st.0.insert(branch_ref_of(branch@), st.2),
            st.1,
            st.2,
        ),
        AddStep::SetHead { refname } => (
            st.0,
            Some(refname@),
            if st.0.contains_key(refname@) {
                st.0[refname@]
            } else {
                st.2
            },
        ),
        AddStep::ForceCheckout => st,
    }
}

/// What a sequence of steps does, in order.
pub open spec fn after_steps(st: RefState, steps: Seq<AddStep>, repo_head: int) -> RefState
    decreases steps.len(),
{
    if steps.len() == 0 {
        st
    } else {
        after_steps(after_step(st, steps[0], repo_head), steps.drop_first(), repo_head)
    }
}

/// Creating the worktree for a branch that does not exist yet leaves a new
/// branch at the commit the repository's HEAD was at, and the new
/// worktree's HEAD on that branch at that commit.
pub proof fn law_new_branch_at_head(
    steps: Seq<AddStep>,
    id: Seq<char>,
    path: Seq<char>,
    branch: Seq<char>,
    st: RefState,
    repo_head: int,
)
    requires
        steps_are(steps, id, path, branch, false),
        !st.0.contains_key(branch_ref_of(branch)),
    ensures
        ({
            let end = after_steps(st, steps, repo_head);
            &&& end.0.contains_key(branch_ref_of(branch))
            &&& end.0[branch_ref_of(branch)] == repo_head
            &&& end.1 == Some(branch_ref_of(branch))
            &&& end.2 == repo_head
        }),
{
    let s1 = after_step(st, steps[0], repo_head);
    let s2 = after_step(s1, steps[1], repo_head);
    let s3 = after_step(s2, steps[2], repo_head);
    let s4 = after_step(s3, steps[3], repo_head);
    assert(steps.drop_first().drop_first().drop_first().drop_first().len() == 0);
    assert(after_steps(st, steps, repo_head) == s4) by {
        reveal_with_fuel(after_steps, 5);
    }
}

/// Creating the worktree for an existing branch leaves the new worktree's
/// HEAD on that branch at the branch's commit, and the branches unchanged.
pub proof fn law_existing_branch_bound(
    steps: Seq<AddStep>,
    id: Seq<char>,
    path: Seq<char>,
    branch: Seq<char>,
    st: RefState,
    repo_head: int,
)
    requires
        steps_are(steps, id, path, branch, true),
        st.0.contains_key(branch_ref_of(branch)),
    ensures
        ({
            let end = after_steps(st, steps, repo_head);
            &&& end.0 == st.0
            &&& end.1 == Some(branch_ref_of(branch))
            &&& end.2 == st.0[branch_ref_of(branch)]
        }),
{
    assert(steps.drop_first().len() == 0);
    assert(after_steps(st, steps, repo_head) == after_step(st, steps[0], repo_head)) by {
        reveal_with_fuel(after_steps, 2);
    }
}

/// Creating the same branch's worktree twice: once the first creation has
/// registered its identifier, the second is refused with a name collision,
/// before any step.
pub proof fn law_second_add_collides(
    ids: Seq<String>,
    registered: String,
    branch: Seq<char>,
    first_occupied: bool,
    second_occupied: bool,
)
    requires
        add_refusal(ids, branch, first_occupied) is None,
        registered@ == worktree_id_of(branch),
    ensures
        add_refusal(ids.push(registered), branch, second_occupied) == Some(ErrorKind::NameCollision),
{
    assert(ids.push(registered)[ids.len() as int]@ == worktree_id_of(branch));
}

/// Indices, in increasing order, of the worktrees whose paths are absent
/// (`present[i]` tells whether linked worktree `i` is on disk).
pub open spec fn missing_indices(present: Seq<bool>) -> Seq<usize>
    decreases present.len(),
{
    if present.len() == 0 {
        Seq::empty()
    } else {
        let r = missing_indices(present.drop_last());
        if present.last() {
            r
        } else {
            r.push((present.len() - 1) as usize)
        }
    }
}

/// The worktrees left after pruning the absent ones.
pub open spec fn kept_after_clean(present: Seq<bool>) -> Seq<bool> {
    present.filter(|b: bool| b)
}

proof fn lemma_missing_indices(present: Seq<bool>)
    requires
        present.len() <= usize::MAX,
    ensures
        forall|k: int|
            0 <= k < missing_indices(present).len() ==> {
                let i = #[trigger] missing_indices(present)[k];
                &&& i < present.len()
                &&& !present[i as int]
            },
        forall|k: int, l: int|
            0 <= k < l < missing_indices(present).len() ==> missing_indices(present)[k]
                < missing_indices(present)[l],
        forall|i: int|
            0 <= i < present.len() && !present[i] ==> missing_indices(present).contains(
                i as usize,
            ),
    decreases present.len(),
{
    if present.len() > 0 {
        let p = present.drop_last();
        lemma_missing_indices(p);
        assert forall|i: int| 0 <= i < present.len() && !present[i] implies missing_indices(
            present,
        ).contains(i as usize) by {
            if i < present.len() - 1 {
                assert(!p[i]);
                let k = choose|k: int|
                    0 <= k < missing_indices(p).len() && missing_indices(p)[k] == i as usize;
                assert(missing_indices(present)[k] == i as usize);
            } else {
                assert(missing_indices(present).last() == i as usize);
            }
        }
    }
}

proof fn lemma_none_missing(present: Seq<bool>)
    requires
        forall|i: int| 0 <= i < present.len() ==> present[i],
    ensures
        missing_indices(present).len() == 0,
    decreases present.len(),
{
    if present.len() > 0 {
        lemma_none_missing(present.drop_last());
    }
}

/// Clean prunes exactly the worktrees whose paths are absent, in enumeration
/// order, and no present one; a second clean right after prunes nothing.
pub proof fn law_clean_exact(present: Seq<bool>)
    requires
        present.len() <= usize::MAX,
    ensures
        forall|i: int|
            0 <= i < present.len() ==> (missing_indices(present).contains(i as usize)
                <==> !present[i]),
        forall|k: int, l: int|
            0 <= k < l < missing_indices(present).len() ==> missing_indices(present)[k]
                < missing_indices(present)[l],
        missing_indices(kept_after_clean(present)).len() == 0,
{
    lemma_missing_indices(present);
    assert forall|i: int| 0 <= i < present.len() && missing_indices(present).contains(
        i as usize,
    ) implies !present[i] by {
        let k = choose|k: int|
            0 <= k < missing_indices(present).len() && missing_indices(present)[k] == i as usize;
        assert(missing_indices(present)[k] == i as usize);
    }
    let kept = kept_after_clean(present);
    assert forall|i: int| 0 <= i < kept.len() implies kept[i] by {
        present.lemma_filter_pred(|b: bool| b, i);
    }
    lemma_none_missing(kept);
}

/// Which linked worktrees clean prunes: those whose paths are absent, in
/// enumeration order. The primary worktree is not among `present`.
pub fn clean_targets(present: &Vec<bool>) -> (r: Vec<usize>)
    ensures
        r@ == missing_indices(present@),
{
    let mut r: Vec<usize> = Vec::new();
    let mut i: usize = 0;
    while i < present.len()
        invariant
            i <= present@.len(),
            r@ == missing_indices(present@.subrange(0, i as int)),
        decreases present@.len() - i,
    {
        assert(present@.subrange(0, i + 1).drop_last() =~= present@.subrange(0, i as int));
        if !present[i] {
            r.push(i);
        }
        i = i + 1;
    }
    assert(present@.subrange(0, i as int) =~= present@);
    r
}

/// Whether identifier `id` is among `ids`.
pub fn id_taken(ids: &Vec<String>, id: &str) -> (r: bool)
    ensures
        r == id_in(ids@, id@),
{
    let mut i: usize = 0;
    while i < ids.len()
        invariant
            i <= ids@.len(),
            forall|j: int| 0 <= j < i ==> ids@[j]@ != id@,
        decreases ids@.len() - i,
    {
        if text_eq(ids[i].as_str(), id) {
            return true;
        }
        i = i + 1;
    }
    false
}

/// Full reference name of a local branch: `refs/heads/<branch>`.
pub fn branch_ref_name(branch: &str) -> (r: String)
    ensures
        r@ == branch_ref_of(branch@),
{
    let mut r = String::from_str(LOCAL_BRANCH_PREFIX);
    r.append(branch);
    r
}

/// Plans the creation of the worktree for `branch`.
///
/// `ids` are the identifiers of the existing linked worktrees, `base` the
/// base directory, `explicit` a path the user gave, `branch_exists` whether
/// the local branch exists and `occupied` whether the target directory is
/// taken. Refusals come before any step, so a refused call changes nothing.
pub fn plan_add(
    ids: &Vec<String>,
    branch: &str,
    base: &str,
    explicit: &Option<String>,
    branch_exists: bool,
    occupied: bool,
) -> (r: Result<AddPlan, ErrorKind>)
    ensures
        match r {
            Err(e) => add_refusal(ids@, branch@, occupied) == Some(e),
            Ok(plan) => {
                &&& add_refusal(ids@, branch@, occupied) is None
                &&& plan.id@ == worktree_id_of(branch@)
                &&& plan.path@ == target_of(
                    base@,
                    branch@,
                    opt_view(*explicit),
                )
                &&& steps_are(plan.steps@, plan.id@, plan.path@, branch@, branch_exists)
            },
        },
{
    let id = worktree_id(branch);
    if id_taken(ids, id.as_str()) {
        return Err(ErrorKind::NameCollision);
    }
    if occupied {
        return Err(ErrorKind::PathCollision);
    }
    let path = target_path(base, branch, explicit);
    let mut steps: Vec<AddStep> = Vec::new();
    if branch_exists {
        steps.push(
            AddStep::AddBound {
                id: id.clone(),
                path: path.clone(),
                branch: String::from_str(branch),
            },
        );
    } else {
        steps.push(AddStep::AddDetached { id: id.clone(), path: path.clone() });
        steps.push(AddStep::CreateBranchAtHead { branch: String::from_str(branch) });
        steps.push(AddStep::SetHead { refname: branch_ref_name(branch) });
        steps.push(AddStep::ForceCheckout);
    }
    Ok(AddPlan { id, path, steps })
}

/// The error to report when step `failed` of `plan` fails: the first step
/// creates the worktree, so a failure there leaves nothing behind; a later
/// failure leaves a worktree at a detached commit.
pub fn failure_kind(plan: &AddPlan, failed: usize) -> (r: ErrorKind)
    requires
        failed < plan.steps@.len(),
    ensures
        failed == 0 ==> r == ErrorKind::BackendFailure,
        failed > 0 ==> r == ErrorKind::PartialCreate,
{
    if failed == 0 {
        ErrorKind::BackendFailure
    } else {
        ErrorKind::PartialCreate
    }
}

} // verus!

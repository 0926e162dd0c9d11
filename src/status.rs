//! Per-worktree status records and listing rows.

use vstd::prelude::*;
use crate::resolver::PRIMARY_NAME;

verus! {

/// Branch label shown for a detached HEAD or an unnamed reference.
pub const DETACHED_LABEL: &'static str = "HEAD";

/// Number of leading characters of a commit id that are shown.
pub const SHORT_COMMIT_LEN: usize = 7;

/// Health of one worktree.
#[derive(Clone, Copy, Debug, PartialEq, Eq, Structural)]
pub enum Health {
    /// No pending changes.
    Clean,
    /// This many pending changes, tracked and untracked.
    Dirty(usize),
    /// The worktree's directory is absent.
    Missing,
    /// The worktree could not be opened or its status could not be read.
    Failed,
}

/// What was observed of one worktree on disk.
#[derive(Debug)]
pub enum Probe {
    /// Its path does not exist.
    Absent,
    /// It exists, but opening it or reading its status or HEAD failed.
    Unreadable,
    /// Its status was read: the number of changed entries, untracked files
    /// included, and the short name of the reference HEAD names, if any.
    Read { changes: usize, head: Option<String> },
}

/// A worktree together with what was observed of it.
#[derive(Debug)]
pub struct Probed {
    pub name: String,
    pub path: String,
    pub probe: Probe,
}

/// One line of the status report.
#[derive(Debug)]
pub struct StatusRecord {
    pub name: String,
    pub path: String,
    /// The branch HEAD is on (`HEAD` when detached); none when not read.
    pub branch: Option<String>,
    pub health: Health,
}

/// HEAD of a worktree as read for a listing: the short name of the
/// reference it names, if any, and the full id of its commit.
#[derive(Debug)]
pub struct HeadInfo {
    pub shorthand: Option<String>,
    pub commit_id: String,
}

/// A worktree whose HEAD could be read, for a listing.
#[derive(Debug)]
pub struct Listed {
    pub name: String,
    pub path: String,
    pub head: HeadInfo,
}

/// One line of the worktree listing.
#[derive(Debug)]
pub struct ListRow {
    pub name: String,
    pub path: String,
    /// The branch HEAD is on, or `HEAD` when detached.
    pub branch: String,
    /// The first characters of the commit id.
    pub commit: String,
}

/// Commit id as shown in listings.
pub open spec fn short_of(id: Seq<char>) -> Seq<char> {
    if id.len() >= SHORT_COMMIT_LEN {
        id.subrange(0, SHORT_COMMIT_LEN as int)
    } else {
        id
    }
}

/// `row` lists worktree `name` at `path` with HEAD `head`.
pub open spec fn lists(row: ListRow, name: Seq<char>, path: Seq<char>, head: HeadInfo) -> bool {
    &&& row.name@ == name
    &&& row.path@ == path
    &&& row.branch@ == label_of(head.shorthand)
    &&& row.commit@ == short_of(head.commit_id@)
}

/// Health of a readable worktree with `changes` pending changes.
pub open spec fn health_of(changes: usize) -> Health {
    if changes == 0 {
        Health::Clean
    } else {
        Health::Dirty(changes)
    }
}

/// Label of a HEAD whose short reference name is `head`.
pub open spec fn label_of(head: Option<String>) -> Seq<char> {
    match head {
        Some(h) => h@,
        None => DETACHED_LABEL@,
    }
}

/// `rec` reports worktree `name` at `path` as `probe` observed it.
pub open spec fn reports(rec: StatusRecord, name: Seq<char>, path: Seq<char>, probe: Probe) -> bool {
    &&& rec.name@ == name
    &&& rec.path@ == path
    &&& match probe {
        Probe::Absent => rec.health == Health::Missing && rec.branch is None,
        Probe::Unreadable => rec.health == Health::Failed && rec.branch is None,
        Probe::Read { changes, head } => {
            &&& rec.health == health_of(changes)
            &&& rec.branch is Some
            &&& rec.branch->0@ == label_of(head)
        },
    }
}

/// Health from a count of pending changes.
pub fn health_from_changes(changes: usize) -> (r: Health)
    ensures
        r == health_of(changes),
{
    if changes == 0 {
        Health::Clean
    } else {
        Health::Dirty(changes)
    }
}

/// Branch label of a HEAD: its short reference name, or `HEAD`.
pub fn branch_label(head: &Option<String>) -> (r: String)
    ensures
        r@ == label_of(*head),
{
    match head {
        Some(h) => h.clone(),
        None => String::from_str(DETACHED_LABEL),
    }
}

/// The status record of worktree `name` at `path`.
pub fn status_record(name: &str, path: &str, probe: &Probe) -> (r: StatusRecord)
    ensures
        reports(r, name@, path@, *probe),
{
    let (branch, health) = match probe {
        Probe::Absent => (None, Health::Missing),
        Probe::Unreadable => (None, Health::Failed),
        Probe::Read { changes, head } => (Some(branch_label(head)), health_from_changes(*changes)),
    };
    StatusRecord { name: String::from_str(name), path: String::from_str(path), branch, health }
}

/// The status report: the primary worktree first, under its reserved
/// name, then every linked worktree in enumeration order. A worktree that
/// is absent or unreadable gets its own record and does not stop the rest.
pub fn status_report(primary_path: &str, primary: &Probe, linked: &Vec<Probed>) -> (r: Vec<
    StatusRecord,
>)
    ensures
        r@.len() == linked@.len() + 1,
        reports(r@[0], PRIMARY_NAME@, primary_path@, *primary),
        forall|i: int|
            0 <= i < linked@.len() ==> reports(
                #[trigger] r@[i + 1],
                linked@[i].name@,
                linked@[i].path@,
                linked@[i].probe,
            ),
{
    let mut r: Vec<StatusRecord> = Vec::new();
    r.push(status_record(PRIMARY_NAME, primary_path, primary));
    let mut i: usize = 0;
    while i < linked.len()
        invariant
            i <= linked@.len(),
            r@.len() == i + 1,
            reports(r@[0], PRIMARY_NAME@, primary_path@, *primary),
            forall|j: int|
                0 <= j < i ==> reports(
                    #[trigger] r@[j + 1],
                    linked@[j].name@,
                    linked@[j].path@,
                    linked@[j].probe,
                ),
        decreases linked@.len() - i,
    {
        let w = &linked[i];
        r.push(status_record(w.name.as_str(), w.path.as_str(), &w.probe));
        i = i + 1;
    }
    r
}

/// Commit id as shown in listings: its first seven characters, or all of
/// it when shorter.
pub fn short_commit(id: &str) -> (r: String)
    ensures
        r@ == short_of(id@),
{
    let n = id.unicode_len();
    if n >= SHORT_COMMIT_LEN {
        String::from_str(id.substring_char(0, SHORT_COMMIT_LEN))
    } else {
        assert(id@.subrange(0, n as int) =~= id@);
        String::from_str(id.substring_char(0, n))
    }
}

/// The listing line of worktree `name` at `path`.
pub fn list_row(name: &str, path: &str, head: &HeadInfo) -> (r: ListRow)
    ensures
        lists(r, name@, path@, *head),
{
    ListRow {
        name: String::from_str(name),
        path: String::from_str(path),
        branch: branch_label(&head.shorthand),
        commit: short_commit(head.commit_id.as_str()),
    }
}

/// The worktree listing: the primary worktree first, under its reserved
/// name, then each linked worktree whose HEAD was read, in enumeration order.
pub fn listing(primary_path: &str, primary: &HeadInfo, linked: &Vec<Listed>) -> (r: Vec<ListRow>)
    ensures
        r@.len() == linked@.len() + 1,
        lists(r@[0], PRIMARY_NAME@, primary_path@, *primary),
        forall|i: int|
            0 <= i < linked@.len() ==> lists(
                #[trigger] r@[i + 1],
                linked@[i].name@,
                linked@[i].path@,
                linked@[i].head,
            ),
{
    let mut r: Vec<ListRow> = Vec::new();
    r.push(list_row(PRIMARY_NAME, primary_path, primary));
    let mut i: usize = 0;
    while i < linked.len()
        invariant
            i <= linked@.len(),
            r@.len() == i + 1,
            lists(r@[0], PRIMARY_NAME@, primary_path@, *primary),
            forall|j: int|
                0 <= j < i ==> lists(
                    #[trigger] r@[j + 1],
                    linked@[j].name@,
                    linked@[j].path@,
                    linked@[j].head,
                ),
        decreases linked@.len() - i,
    {
        let w = &linked[i];
        r.push(list_row(w.name.as_str(), w.path.as_str(), &w.head));
        i = i + 1;
    }
    r
}

} // verus!

//! Worktree management engine: path policy, name resolution, creation
//! planning, pruning, status records and repository-root resolution.
//!
//! Every operation here is a pure function over plain values. The caller
//! gathers facts from the version-control backend and the filesystem, hands
//! them in, and carries out the actions that come back.

pub mod text;
pub mod path_policy;
pub mod resolver;
pub mod lifecycle;
pub mod status;
pub mod root;
pub mod navigation;

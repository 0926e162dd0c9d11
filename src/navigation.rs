//! What a navigation request answers.

use vstd::prelude::*;

verus! {

/// Exit status of a navigation request that found nothing when only a path
/// was asked for.
pub const NOT_FOUND_STATUS: i32 = 1;

/// Reply to a navigation request.
#[derive(Debug)]
pub enum NavReply {
    /// Print this path alone, for shell integration.
    PathOnly(String),
    /// Print a human-readable guide to this path.
    Guide(String),
    /// Print nothing and exit with the not-found status.
    SilentNotFound,
    /// Report that nothing was found and list the worktrees.
    NotFoundWithListing,
}

/// The reply to a navigation request whose token resolved to `found`;
/// `print_path` asks for machine-readable output.
pub fn navigation_reply(found: Option<String>, print_path: bool) -> (r: NavReply)
    ensures
        match found {
            Some(p) => if print_path {
                r matches NavReply::PathOnly(q) && q@ == p@
            } else {
                r matches NavReply::Guide(q) && q@ == p@
            },
            None => if print_path {
                r is SilentNotFound
            } else {
                r is NotFoundWithListing
            },
        },
{
    match found {
        Some(p) => if print_path {
            NavReply::PathOnly(p)
        } else {
            NavReply::Guide(p)
        },
        None => if print_path {
            NavReply::SilentNotFound
        } else {
            NavReply::NotFoundWithListing
        },
    }
}

} // verus!

//! The facts about a local branch that pruning decisions read.

use vstd::prelude::*;

verus! {

/// What the repository answered when asked for a branch's remote-tracking
/// reference.
#[derive(Clone, Copy, Debug, PartialEq, Eq, Structural)]
pub enum Upstream {
    /// A remote-tracking reference exists.
    Present,
    /// The branch has no remote-tracking reference.
    NoUpstream,
    /// The lookup failed for a reason other than absence.
    QueryFailed,
}

/// What the repository answered when asked for a branch's name.
#[derive(Clone, Debug, PartialEq, Eq)]
pub enum BranchName {
    /// The name, as text.
    Valid(String),
    /// The branch has a name, but it is not valid UTF-8.
    NotUtf8,
    /// The name could not be read.
    Unreadable,
}

/// One local branch, as enumerated at the start of a run.
#[derive(Clone, Debug, PartialEq, Eq)]
pub struct Branch {
    pub name: BranchName,
    pub upstream: Upstream,
}

/// Whether the branch tracks a remote.
///
/// A failed lookup counts as "no remote": the branch is then treated like one
/// that never had an upstream, and may end up among the deletion candidates.
pub fn has_remote(branch: &Branch) -> (remote: bool)
    ensures
        remote == (branch.upstream is Present),
{
    match branch.upstream {
        Upstream::Present => true,
        Upstream::NoUpstream => false,
        Upstream::QueryFailed => false,
    }
}

/// Whether the branch is an orphan: a local branch without a remote-tracking
/// reference. Absence and lookup failure are not told apart.
pub fn is_orphan(branch: &Branch) -> (orphan: bool)
    ensures
        orphan == !(branch.upstream is Present),
        orphan == (branch.upstream is NoUpstream || branch.upstream is QueryFailed),
{
    !has_remote(branch)
}

} // verus!

//! The request for the change set of a run.

use crate::revision::RevisionId;
use vstd::prelude::*;

verus! {

/// What is asked of the backend for the change set: the difference between
/// the trees of two commits.
#[derive(Clone, Copy, Debug, PartialEq, Eq)]
pub struct DiffRequest {
    /// The commit whose tree is the old side: the merge base.
    pub old_commit: RevisionId,
    /// The commit whose tree is the new side: the revision to merge from.
    pub new_commit: RevisionId,
    /// The number of unchanged lines around a change that a hunk takes in.
    pub context_lines: u32,
    /// Whether submodules are treated as unmodified.
    pub ignore_submodules: bool,
    /// Whether renames are detected, as the repository is configured.
    pub detect_renames: bool,
}

/// The request for the change set of a run: from the merge base to the
/// revision to merge from, with the context asked for, submodules left out
/// and renames detected.
pub fn plan_diff(merge_base: RevisionId, compare: RevisionId, context: u32) -> (request:
    DiffRequest)
    ensures
        request == (DiffRequest {
            old_commit: merge_base,
            new_commit: compare,
            context_lines: context,
            ignore_submodules: true,
            detect_renames: true,
        }),
{
    DiffRequest {
        old_commit: merge_base,
        new_commit: compare,
        context_lines: context,
        ignore_submodules: true,
        detect_renames: true,
    }
}

} // verus!

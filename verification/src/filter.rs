//! The file filter: whether the lines of a delta are attributed at all.

use crate::delta::FileDelta;
use vstd::prelude::*;

verus! {

/// What the filter decides of a delta.
#[derive(Clone, Copy, Debug, PartialEq, Eq, Structural)]
pub enum FilterDecision {
    /// The old lines of the delta are attributed.
    Process,
    /// The file is new: there is no earlier authorship.
    SkipCreated,
    /// The file was deleted.
    SkipDeleted,
    /// The old side is no regular file (a submodule, a symbolic link, an
    /// entry of a mode that is not known).
    SkipNotBlob,
    /// One of the sides is binary.
    SkipBinary,
    /// The larger side exceeds the size ceiling.
    SkipTooLarge,
}

/// The larger of the sizes of the two sides.
pub open spec fn larger_size(delta: FileDelta) -> u64 {
    if delta.old_file.size >= delta.new_file.size {
        delta.old_file.size
    } else {
        delta.new_file.size
    }
}

/// Whether a size exceeds the ceiling. Without a ceiling no size does.
pub open spec fn exceeds(size: u64, ceiling: Option<u64>) -> bool {
    match ceiling {
        Some(limit) => size > limit,
        None => false,
    }
}

/// Both sides exist, the old side is a regular file of a known mode, neither
/// side is binary and neither exceeds the ceiling.
pub open spec fn eligible(delta: FileDelta, ceiling: Option<u64>) -> bool {
    &&& delta.old_file.exists
    &&& delta.new_file.exists
    &&& delta.old_file.regular()
    &&& !delta.old_file.binary
    &&& !delta.new_file.binary
    &&& !exceeds(larger_size(delta), ceiling)
}

/// The decision of the filter: the first reason to skip that applies, in the
/// order creation, deletion, mode, binary content, size.
pub open spec fn decision_for(delta: FileDelta, ceiling: Option<u64>) -> FilterDecision {
    if !delta.old_file.exists {
        FilterDecision::SkipCreated
    } else if !delta.new_file.exists {
        FilterDecision::SkipDeleted
    } else if !delta.old_file.regular() {
        FilterDecision::SkipNotBlob
    } else if delta.old_file.binary || delta.new_file.binary {
        FilterDecision::SkipBinary
    } else if exceeds(larger_size(delta), ceiling) {
        FilterDecision::SkipTooLarge
    } else {
        FilterDecision::Process
    }
}

/// Decides whether the lines of a delta are attributed, and if not, why.
pub fn filter_delta(delta: &FileDelta, max_blame_size: Option<u64>) -> (decision: FilterDecision)
    ensures
        decision == decision_for(*delta, max_blame_size),
        decision is Process <==> eligible(*delta, max_blame_size),
{
    if !delta.old_file.exists {
        return FilterDecision::SkipCreated;
    }
    if !delta.new_file.exists {
        return FilterDecision::SkipDeleted;
    }
    if !delta.old_file.is_regular() {
        return FilterDecision::SkipNotBlob;
    }
    if delta.old_file.binary || delta.new_file.binary {
        return FilterDecision::SkipBinary;
    }
    let size = if delta.old_file.size >= delta.new_file.size {
        delta.old_file.size
    } else {
        delta.new_file.size
    };
    match max_blame_size {
        Some(limit) => if size > limit {
            FilterDecision::SkipTooLarge
        } else {
            FilterDecision::Process
        },
        None => FilterDecision::Process,
    }
}

/// A delta is processed exactly when it is eligible, and a skipped delta
/// reports the most informative reason: a deleted file is reported as
/// deleted whatever else holds of it, and with a ceiling of zero every file
/// that passes the other tests and has a byte on either side is too large.
pub proof fn lemma_filter_priority(delta: FileDelta, ceiling: Option<u64>)
    ensures
        decision_for(delta, ceiling) is Process <==> eligible(delta, ceiling),
        !delta.old_file.exists ==> decision_for(delta, ceiling) is SkipCreated,
        delta.old_file.exists && !delta.new_file.exists ==> decision_for(delta, ceiling)
            is SkipDeleted,
        delta.old_file.exists && delta.new_file.exists && (delta.old_file.binary
            || delta.new_file.binary) ==> !(decision_for(delta, ceiling) is Process)
            && !(decision_for(delta, ceiling) is SkipTooLarge),
        ceiling == Some(0u64) && (delta.old_file.size > 0 || delta.new_file.size > 0)
            ==> !(decision_for(delta, ceiling) is Process),
{
}

} // verus!

//! The plan for one unit of work: whether the file is blamed, and with what
//! single request.

use crate::delta::{hunk_lines, FileDelta, Hunk, SidePath};
use crate::filter::{decision_for, eligible, filter_delta, FilterDecision};
use crate::revision::RevisionId;
use vstd::prelude::*;

verus! {

/// The range of old lines that one blame covers.
#[derive(Clone, Copy, Debug, PartialEq, Eq, Structural)]
pub struct LineRange {
    /// The first old line of any hunk.
    pub min_line: u32,
    /// The line after the last old line of any hunk.
    pub max_line: u64,
}

/// The range starts where the lowest hunk starts and ends where the highest
/// hunk ends.
pub open spec fn spans(range: LineRange, hunks: Seq<Hunk>) -> bool {
    &&& exists|i: int| 0 <= i < hunks.len() && (#[trigger] hunks[i]).old_start == range.min_line
    &&& forall|i: int| 0 <= i < hunks.len() ==> range.min_line <= (#[trigger] hunks[i]).old_start
    &&& exists|i: int| 0 <= i < hunks.len() && (#[trigger] hunks[i]).old_end() == range.max_line
    &&& forall|i: int| 0 <= i < hunks.len() ==> (#[trigger] hunks[i]).old_end() <= range.max_line
}

/// The range of old lines that bounds all the hunks of a file. Hunks
/// without a file have none.
pub fn blame_range(hunks: &Vec<Hunk>) -> (range: Option<LineRange>)
    ensures
        range is None <==> hunks@.len() == 0,
        range matches Some(r) ==> spans(r, hunks@),
{
    if hunks.len() == 0 {
        return None;
    }
    let mut min_line: u32 = hunks[0].old_start;
    let mut max_line: u64 = hunks[0].old_end_line();
    let mut i: usize = 1;
    while i < hunks.len()
        invariant
            1 <= i <= hunks@.len(),
            exists|j: int| 0 <= j < i && (#[trigger] hunks@[j]).old_start == min_line,
            forall|j: int| 0 <= j < i ==> min_line <= (#[trigger] hunks@[j]).old_start,
            exists|j: int| 0 <= j < i && (#[trigger] hunks@[j]).old_end() == max_line,
            forall|j: int| 0 <= j < i ==> (#[trigger] hunks@[j]).old_end() <= max_line,
        decreases hunks@.len() - i,
    {
        if hunks[i].old_start < min_line {
            min_line = hunks[i].old_start;
        }
        let end = hunks[i].old_end_line();
        if end > max_line {
            max_line = end;
        }
        i += 1;
    }
    Some(LineRange { min_line, max_line })
}

/// Two ranges that span the same hunks are the same range.
pub proof fn lemma_spans_unique(a: LineRange, b: LineRange, hunks: Seq<Hunk>)
    requires
        spans(a, hunks),
        spans(b, hunks),
    ensures
        a == b,
{
}

/// Where every hunk lies between two lines, so does each of their old lines.
proof fn lemma_lines_within(hunks: Seq<Hunk>, low: int, high: int, k: int)
    requires
        forall|i: int|
            0 <= i < hunks.len() ==> low <= (#[trigger] hunks[i]).old_start && hunks[i].old_end()
                <= high,
        0 <= k < hunk_lines(hunks).len(),
    ensures
        low <= hunk_lines(hunks)[k] < high,
    decreases hunks.len(),
{
    let rest = hunks.drop_last();
    if k < hunk_lines(rest).len() {
        assert forall|i: int| 0 <= i < rest.len() implies low <= (#[trigger] rest[i]).old_start
            && rest[i].old_end() <= high by {
            assert(rest[i] == hunks[i]);
        }
        lemma_lines_within(rest, low, high, k);
    } else {
        assert(hunks.last() == hunks[hunks.len() - 1]);
    }
}

/// Every old line of every hunk lies within the range that spans the hunks.
pub proof fn lemma_range_covers(range: LineRange, hunks: Seq<Hunk>, k: int)
    requires
        spans(range, hunks),
        0 <= k < hunk_lines(hunks).len(),
    ensures
        range.min_line <= hunk_lines(hunks)[k] < range.max_line,
{
    lemma_lines_within(hunks, range.min_line as int, range.max_line as int, k);
}

/// The one blame that is asked of the backend for a file.
#[derive(Clone, Debug, PartialEq, Eq)]
pub struct BlameRequest {
    /// The path of the old side of the file.
    pub path: String,
    /// The newest commit that blame considers: the merge base.
    pub newest_commit: RevisionId,
    /// The oldest commit that blame considers: the stop boundary, if any.
    pub oldest_commit: Option<RevisionId>,
    /// The lines to blame, for a file that has hunks.
    pub lines: Option<LineRange>,
    /// Whether names and addresses are mapped to their canonical forms.
    pub use_mailmap: bool,
}

/// What is done with one unit of work.
#[derive(Clone, Debug, PartialEq, Eq)]
pub enum UnitPlan {
    /// The file is not blamed, for this reason.
    Skip(FilterDecision),
    /// The file is blamed once, with this request.
    Blame(BlameRequest),
}

/// The request describes the one blame of an eligible delta: the old path,
/// from the merge base back to the boundary, over the range that spans all
/// the hunks, with the mailmap applied.
pub open spec fn requests(
    request: BlameRequest,
    delta: FileDelta,
    merge_base: RevisionId,
    boundary: Option<RevisionId>,
) -> bool {
    &&& delta.old_file.path matches SidePath::Text(path) && request.path@ == path@
    &&& request.newest_commit == merge_base
    &&& request.oldest_commit == boundary
    &&& request.lines is None <==> delta.hunks@.len() == 0
    &&& request.lines matches Some(range) ==> spans(range, delta.hunks@)
    &&& request.use_mailmap
}

/// Plans one unit of work. An eligible delta is blamed exactly once, however
/// many hunks it has; any other delta is not blamed at all.
pub fn plan_unit(
    delta: &FileDelta,
    merge_base: RevisionId,
    boundary: Option<RevisionId>,
    max_blame_size: Option<u64>,
) -> (plan: UnitPlan)
    requires
        delta.well_formed(),
    ensures
        plan is Blame <==> eligible(*delta, max_blame_size),
        plan matches UnitPlan::Skip(decision) ==> decision == decision_for(*delta, max_blame_size),
        plan matches UnitPlan::Blame(request) ==> requests(request, *delta, merge_base, boundary),
{
    let decision = filter_delta(delta, max_blame_size);
    match decision {
        FilterDecision::Process => match &delta.old_file.path {
            SidePath::Text(path) => UnitPlan::Blame(
                BlameRequest {
                    path: path.clone(),
                    newest_commit: merge_base,
                    oldest_commit: boundary,
                    lines: blame_range(&delta.hunks),
                    use_mailmap: true,
                },
            ),
            _ => UnitPlan::Skip(decision),
        },
        _ => UnitPlan::Skip(decision),
    }
}

} // verus!

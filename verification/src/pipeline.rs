//! The run against a repository: resolving the revisions, building the
//! change set, and attributing the lines of one unit of work.
//!
//! What the repository answers is not known here. Each function says what
//! holds of its result whatever the answers were, and hands the answers to
//! the functions of the other modules, which say exactly what they make of
//! them.

use crate::attribution::{AttributionMap, LineCounts};
use crate::author::AuthorKey;
use crate::backend::{
    blame_file, blame_line, blame_lines, commit_id, commit_tree, delta_count, delta_new_file,
    delta_old_file, delta_total, diff_tree_to_tree, discover, error_message, file_exists,
    file_has_path, file_is_binary, file_path, file_size, find_commit, find_similar, merge_base,
    new_blame_options, new_diff_options, new_find_options, patch_delta, patch_from_diff,
    patch_hunk, patch_hunks, patch_num_hunks, peel_to_commit, revparse_single,
    set_context_lines, set_find_by_config, set_ignore_submodules, set_max_line, set_min_line,
    set_newest_commit, set_oldest_commit, set_use_mailmap, tree_entry_mode,
};
use crate::blame::{plan_unit, BlameRequest, UnitPlan};
use crate::boundary::{settle_boundary, AncestryAnswers, AncestryCache, AncestryKey, BoundaryChoice};
use crate::changes::{plan_diff, DiffRequest};
use crate::delta::{
    hunk_lines, lines_of_hunk, side_mode, side_path, FileDelta, FileSide, Hunk, SidePath,
};
use crate::filter::{decision_for, eligible, FilterDecision};
use crate::lines::{attribute_lines, attributed, said_of, BlameLine, LineAnswer};
use crate::revision::RevisionId;
use vstd::prelude::*;

verus! {

/// Why a run cannot go on.
#[derive(Clone, Debug, PartialEq, Eq)]
pub enum RunError {
    /// No repository was found.
    RepositoryNotFound { reason: String },
    /// A revision name does not resolve to a commit.
    RevisionNotFound { name: String, reason: String },
    /// Two revisions have no ancestor in common.
    NoCommonAncestor { reason: String },
    /// The change set could not be computed.
    DiffComputationFailed { reason: String },
}

impl RunError {
    /// The error says that the revision of this name was not found.
    pub open spec fn misses(self, name: Seq<char>) -> bool {
        match self {
            RunError::RevisionNotFound { name: named, .. } => named@ == name,
            _ => false,
        }
    }
}

/// What the backend was asked for.
#[derive(Clone, Debug, PartialEq, Eq)]
pub enum Purpose {
    /// To open a repository.
    Repository,
    /// To resolve the revision of this name to a commit.
    Revision { name: String },
    /// To find the merge base of two commits.
    CommonAncestor,
    /// To compute the change set.
    ChangeSet,
}

/// The error of a run in which the backend failed at what it was asked for,
/// with the reason that it gave.
pub open spec fn failure_of(purpose: Purpose, reason: String) -> RunError {
    match purpose {
        Purpose::Repository => RunError::RepositoryNotFound { reason },
        Purpose::Revision { name } => RunError::RevisionNotFound { name, reason },
        Purpose::CommonAncestor => RunError::NoCommonAncestor { reason },
        Purpose::ChangeSet => RunError::DiffComputationFailed { reason },
    }
}

/// What a run makes of an answer of the backend: the answer itself where
/// there is one, else the error that belongs to what was asked for, with the
/// reason that the backend gave.
pub fn settle<T>(purpose: Purpose, answer: Result<T, String>) -> (settled: Result<T, RunError>)
    ensures
        settled == match answer {
            Ok(value) => Ok::<T, RunError>(value),
            Err(reason) => Err(failure_of(purpose, reason)),
        },
{
    match answer {
        Ok(value) => Ok(value),
        Err(reason) => match purpose {
            Purpose::Repository => Err(RunError::RepositoryNotFound { reason }),
            Purpose::Revision { name } => Err(RunError::RevisionNotFound { name, reason }),
            Purpose::CommonAncestor => Err(RunError::NoCommonAncestor { reason }),
            Purpose::ChangeSet => Err(RunError::DiffComputationFailed { reason }),
        },
    }
}

/// The revisions of a run, resolved once.
#[derive(Clone, Copy, Debug, PartialEq, Eq)]
pub struct Revisions {
    /// The revision to merge into.
    pub base: RevisionId,
    /// The revision to merge from.
    pub compare: RevisionId,
    /// The nearest common ancestor of the two.
    pub merge_base: RevisionId,
    /// The stop boundary, where one was asked for.
    pub boundary: Option<BoundaryChoice>,
}

impl Revisions {
    /// The revision that bounds the attribution, if any does.
    pub fn stop_boundary(&self) -> (boundary: Option<RevisionId>)
        ensures
            boundary == match self.boundary {
                Some(choice) => Some(choice.effective),
                None => None,
            },
    {
        match self.boundary {
            Some(choice) => Some(choice.effective),
            None => None,
        }
    }
}

/// The change set of a run: the difference between the merge base and the
/// revision to merge from, the number of its units of work, and the request
/// that it answers.
pub struct ChangeSet<'repo> {
    pub diff: git2::Diff<'repo>,
    pub units: usize,
    pub request: DiffRequest,
}

/// What was read of one unit of work.
#[derive(Clone, Debug, PartialEq, Eq)]
pub enum UnitRead {
    /// The delta of a changed file.
    Delta(FileDelta),
    /// The unit has no patch: the file is unchanged or binary.
    Unchanged,
    /// The unit could not be read.
    Failed(String),
}

/// How one unit of work ended.
#[derive(Clone, Debug, PartialEq, Eq)]
pub enum UnitOutcome {
    /// The filter skipped the file: no blame was asked for.
    Skipped(FilterDecision),
    /// The one blame of the file failed.
    BlameFailed(String),
    /// The one blame of the file succeeded.
    Blamed,
}

/// What one unit of work gave.
#[derive(Debug)]
pub struct UnitReport {
    /// How the unit ended.
    pub outcome: UnitOutcome,
    /// What the backend answered for each old line of each hunk.
    pub answers: Vec<LineAnswer>,
    /// The lines attributed to each contributor.
    pub partial: AttributionMap,
}

/// The numbers of the lines that were answered for.
pub open spec fn lines_answered(answers: Seq<LineAnswer>) -> Seq<int> {
    answers.map_values(|answer: LineAnswer| answer.line as int)
}

/// Every answer of `before` is an answer of `after`.
pub open spec fn extends(before: AncestryAnswers, after: AncestryAnswers) -> bool {
    forall|key: AncestryKey| #[trigger]
        before.dom().contains(key) ==> after.dom().contains(key) && after[key] == before[key]
}

/// The pair whose merge base decides a line: the boundary and the blamed
/// commit, where there is a boundary and the line is blamed on another
/// commit.
pub open spec fn consulted(answer: LineAnswer, boundary: Option<RevisionId>) -> Option<
    AncestryKey,
> {
    match (boundary, answer.blame) {
        (Some(stop), Some(line)) => if line.commit != stop {
            Some(AncestryKey { boundary: stop, commit: line.commit })
        } else {
            None
        },
        _ => None,
    }
}

/// The merge base of an answer is the one that the memo table holds for its
/// pair; an answer that no merge base decides has none.
pub open spec fn answered_from(
    answer: LineAnswer,
    boundary: Option<RevisionId>,
    answers: AncestryAnswers,
) -> bool {
    match consulted(answer, boundary) {
        Some(key) => answers.dom().contains(key) && answer.merge_base == answers[key],
        None => answer.merge_base is None,
    }
}

/// A line number as the backend takes it, held to what the machine can
/// address.
fn to_line_number(line: u64) -> (number: usize)
    ensures
        number == if line <= usize::MAX {
            line as int
        } else {
            usize::MAX as int
        },
{
    if line <= usize::MAX as u64 {
        line as usize
    } else {
        usize::MAX
    }
}

/// Opens the repository at or above a path.
pub fn find_repo(path: &str) -> (opened: Result<git2::Repository, RunError>)
    ensures
        opened matches Err(error) ==> error is RepositoryNotFound,
{
    let answer = match discover(path) {
        Ok(repo) => Ok(repo),
        Err(error) => Err(error_message(&error)),
    };
    settle(Purpose::Repository, answer)
}

/// Opens the repository at or above the current directory.
pub fn get_repo() -> (opened: Result<git2::Repository, RunError>)
    ensures
        opened matches Err(error) ==> error is RepositoryNotFound,
{
    find_repo(".")
}

/// Resolves a revision name to the identifier of a commit. A failure names
/// the revision that was asked for.
pub fn resolve_revision(repo: &git2::Repository, name: &str) -> (resolved: Result<
    RevisionId,
    RunError,
>)
    ensures
        resolved matches Err(error) ==> error.misses(name@),
{
    let answer = match revparse_single(repo, name) {
        Err(error) => Err(error_message(&error)),
        Ok(object) => match peel_to_commit(&object) {
            Err(error) => Err(error_message(&error)),
            Ok(commit) => Ok(commit_id(&commit)),
        },
    };
    settle(Purpose::Revision { name: name.to_owned() }, answer)
}

/// The merge base of two commits, or why there is none.
pub fn common_ancestor(repo: &git2::Repository, one: RevisionId, two: RevisionId) -> (common:
    Result<RevisionId, RunError>)
    ensures
        common matches Err(error) ==> error is NoCommonAncestor,
{
    let answer = match merge_base(repo, one, two) {
        Ok(base) => Ok(base),
        Err(error) => Err(error_message(&error)),
    };
    settle(Purpose::CommonAncestor, answer)
}

/// Resolves the stop boundary of a run: the revision that was asked for if
/// it is an ancestor of the merge base, else the merge base of the two. If
/// the two have no merge base the run cannot go on.
pub fn resolve_boundary(repo: &git2::Repository, merge_base: RevisionId, name: &str) -> (resolved:
    Result<BoundaryChoice, RunError>)
    ensures
        resolved matches Err(error) ==> error is NoCommonAncestor || error.misses(name@),
{
    let requested = match resolve_revision(repo, name) {
        Ok(id) => id,
        Err(error) => {
            return Err(error);
        },
    };
    match common_ancestor(repo, merge_base, requested) {
        Err(error) => Err(error),
        Ok(common) => Ok(settle_boundary(requested, common)),
    }
}

/// Resolves the revisions of a run. A boundary is settled exactly when one
/// is asked for, and a revision that is not found is one of those named.
pub fn resolve_revisions(
    repo: &git2::Repository,
    base: &str,
    compare: &str,
    stop_at: Option<&str>,
) -> (resolved: Result<Revisions, RunError>)
    ensures
        resolved matches Ok(revisions) ==> (revisions.boundary is Some <==> stop_at is Some),
        resolved matches Err(error) ==> error is NoCommonAncestor || error.misses(base@)
            || error.misses(compare@) || (stop_at is Some && error.misses(stop_at->0@)),
{
    let base_id = match resolve_revision(repo, base) {
        Ok(id) => id,
        Err(error) => {
            return Err(error);
        },
    };
    let compare_id = match resolve_revision(repo, compare) {
        Ok(id) => id,
        Err(error) => {
            return Err(error);
        },
    };
    let merge_base = match common_ancestor(repo, base_id, compare_id) {
        Ok(id) => id,
        Err(error) => {
            return Err(error);
        },
    };
    let boundary = match stop_at {
        None => None,
        Some(name) => match resolve_boundary(repo, merge_base, name) {
            Ok(choice) => Some(choice),
            Err(error) => {
                return Err(error);
            },
        },
    };
    Ok(Revisions { base: base_id, compare: compare_id, merge_base, boundary })
}

/// The tree of a commit, or the reason that the backend gave for having
/// none.
fn tree_answer<'repo>(repo: &'repo git2::Repository, id: RevisionId) -> (tree: Result<
    git2::Tree<'repo>,
    String,
>) {
    match find_commit(repo, id) {
        Err(error) => Err(error_message(&error)),
        Ok(commit) => match commit_tree(&commit) {
            Err(error) => Err(error_message(&error)),
            Ok(tree) => Ok(tree),
        },
    }
}

/// The tree of a commit, or why the change set cannot be computed.
fn tree_of<'repo>(repo: &'repo git2::Repository, id: RevisionId) -> (tree: Result<
    git2::Tree<'repo>,
    RunError,
>)
    ensures
        tree matches Err(error) ==> error is DiffComputationFailed,
{
    settle(Purpose::ChangeSet, tree_answer(repo, id))
}

/// Asks the backend for the difference that a request describes.
fn request_diff<'repo>(repo: &'repo git2::Repository, request: &DiffRequest) -> (diff: Result<
    git2::Diff<'repo>,
    RunError,
>)
    ensures
        diff matches Err(error) ==> error is DiffComputationFailed,
{
    let old_tree = match tree_of(repo, request.old_commit) {
        Ok(tree) => tree,
        Err(error) => {
            return Err(error);
        },
    };
    let new_tree = match tree_of(repo, request.new_commit) {
        Ok(tree) => tree,
        Err(error) => {
            return Err(error);
        },
    };
    let mut options = new_diff_options();
    set_ignore_submodules(&mut options, request.ignore_submodules);
    set_context_lines(&mut options, request.context_lines);
    let answer = match diff_tree_to_tree(repo, &old_tree, &new_tree, &mut options) {
        Err(error) => Err(error_message(&error)),
        Ok(diff) => if request.detect_renames {
            let mut diff = diff;
            let mut find_options = new_find_options();
            set_find_by_config(&mut find_options);
            match find_similar(&mut diff, &mut find_options) {
                Ok(()) => Ok(diff),
                Err(error) => Err(error_message(&error)),
            }
        } else {
            Ok(diff)
        },
    };
    settle(Purpose::ChangeSet, answer)
}

/// Builds the change set: the difference between the tree of `base` and the
/// tree of `compare`, with `context` lines around each change, submodules
/// left out and renames detected as the repository is configured.
pub fn get_diff<'repo>(
    repo: &'repo git2::Repository,
    base: RevisionId,
    compare: RevisionId,
    context: u32,
) -> (changes: Result<ChangeSet<'repo>, RunError>)
    ensures
        changes matches Err(error) ==> error is DiffComputationFailed,
        changes matches Ok(set) ==> set.units == delta_total(set.diff) && set.request == (
        DiffRequest {
            old_commit: base,
            new_commit: compare,
            context_lines: context,
            ignore_submodules: true,
            detect_renames: true,
        }),
{
    let request = plan_diff(base, compare, context);
    match request_diff(repo, &request) {
        Err(error) => Err(error),
        Ok(diff) => {
            let units = delta_count(&diff);
            Ok(ChangeSet { diff, units, request })
        },
    }
}

/// Reads one side of a delta, with the mode that the tree of that side
/// holds for its path.
fn read_side(file: &git2::DiffFile<'_>, tree: &git2::Tree<'_>) -> (side: FileSide) {
    let path = side_path(file_has_path(file), file_path(file));
    let exists = file_exists(file);
    let entry = match path.text() {
        None => None,
        Some(text) => match tree_entry_mode(tree, text) {
            Ok(raw) => Some(raw),
            Err(_) => None,
        },
    };
    FileSide {
        path,
        exists,
        mode: side_mode(exists, entry),
        binary: file_is_binary(file),
        size: file_size(file),
    }
}

/// Reads the hunks of a patch: all that the patch holds, in their order.
fn read_hunks(patch: &git2::Patch<'_>) -> (hunks: Result<Vec<Hunk>, String>)
    ensures
        hunks matches Ok(read) ==> read@ == patch_hunks(*patch),
{
    let count = patch_num_hunks(patch);
    let mut hunks: Vec<Hunk> = Vec::new();
    let mut i: usize = 0;
    while i < count
        invariant
            i <= count,
            count == patch_hunks(*patch).len(),
            hunks@ == patch_hunks(*patch).take(i as int),
        decreases count - i,
    {
        match patch_hunk(patch, i) {
            Ok(hunk) => {
                hunks.push(hunk);
                assert(hunks@ =~= patch_hunks(*patch).take(i + 1));
            },
            Err(error) => {
                return Err(error_message(&error));
            },
        }
        i += 1;
    }
    assert(hunks@ =~= patch_hunks(*patch));
    Ok(hunks)
}

/// What is made of what was read of one unit of work. A unit that could not
/// be read has failed, for the reason given; a unit without a patch is
/// unchanged; a delta is handed out if it is well formed, and else the unit
/// has failed, because the old side of the file has a path that is not valid
/// UTF-8, or has no path.
pub fn unit_of(read: Result<Option<FileDelta>, String>) -> (unit: UnitRead)
    ensures
        match read {
            Err(reason) => unit == UnitRead::Failed(reason),
            Ok(None) => unit == UnitRead::Unchanged,
            Ok(Some(delta)) => if delta.well_formed() {
                unit == UnitRead::Delta(delta)
            } else if delta.old_file.path is NotText {
                unit matches UnitRead::Failed(reason) && reason@
                    == "the old path of the file is not valid UTF-8"@
            } else {
                unit matches UnitRead::Failed(reason) && reason@
                    == "the old side of the file has no path"@
            },
        },
{
    match read {
        Err(reason) => UnitRead::Failed(reason),
        Ok(None) => UnitRead::Unchanged,
        Ok(Some(delta)) => if delta.is_well_formed() {
            UnitRead::Delta(delta)
        } else {
            match delta.old_file.path {
                SidePath::NotText => UnitRead::Failed(
                    "the old path of the file is not valid UTF-8".to_owned(),
                ),
                _ => UnitRead::Failed("the old side of the file has no path".to_owned()),
            }
        },
    }
}

/// Reads one unit of work from the change set as plain values. A delta that
/// is handed out is well formed.
pub fn read_unit(repo: &git2::Repository, changes: &ChangeSet<'_>, index: usize) -> (unit:
    UnitRead)
    ensures
        unit matches UnitRead::Delta(delta) ==> delta.well_formed(),
{
    let read = match patch_from_diff(&changes.diff, index) {
        Err(error) => Err(error_message(&error)),
        Ok(None) => Ok(None),
        Ok(Some(patch)) => match read_hunks(&patch) {
            Err(reason) => Err(reason),
            Ok(hunks) => match tree_answer(repo, changes.request.old_commit) {
                Err(reason) => Err(reason),
                Ok(old_tree) => match tree_answer(repo, changes.request.new_commit) {
                    Err(reason) => Err(reason),
                    Ok(new_tree) => {
                        let sides = patch_delta(&patch);
                        let old_file = read_side(&delta_old_file(&sides), &old_tree);
                        let new_file = read_side(&delta_new_file(&sides), &new_tree);
                        Ok(Some(FileDelta { old_file, new_file, hunks }))
                    },
                },
            },
        },
    };
    unit_of(read)
}

/// Asks the backend for the one blame of a file: from the newest commit of
/// the request back to its oldest, with the mailmap applied, over the lines
/// of the request.
fn request_blame<'repo>(repo: &'repo git2::Repository, request: &BlameRequest) -> (blame: Result<
    git2::Blame<'repo>,
    String,
>) {
    let mut options = new_blame_options();
    set_newest_commit(&mut options, request.newest_commit);
    set_use_mailmap(&mut options, request.use_mailmap);
    match request.lines {
        Some(range) => {
            set_min_line(&mut options, to_line_number(range.min_line as u64));
            set_max_line(&mut options, to_line_number(range.max_line));
        },
        None => {},
    }
    match request.oldest_commit {
        Some(stop) => set_oldest_commit(&mut options, stop),
        None => {},
    }
    match blame_file(repo, request.path.as_str(), &mut options) {
        Ok(blame) => Ok(blame),
        Err(error) => Err(error_message(&error)),
    }
}

/// What a blame says of a line whose number may be beyond what the machine
/// can address: of such a line it says nothing.
pub open spec fn said_at(blame: git2::Blame<'_>, line: u64) -> Option<
    (RevisionId, Option<AuthorKey>),
> {
    if line <= usize::MAX {
        blame_lines(blame).get(line as int)
    } else {
        None
    }
}

/// The blame of an answer is what the blame says of its line.
pub open spec fn read_from(answer: LineAnswer, blame: git2::Blame<'_>) -> bool {
    said_of(answer.blame) == said_at(blame, answer.line)
}

/// Reads what a blame says of one line: nothing where the blame does not
/// cover the line, else the commit and, where the backend has a signature,
/// the author. No blame covers a line whose number the machine cannot
/// address.
fn read_blame_line(blame: &git2::Blame<'_>, line: u64) -> (blamed: Option<BlameLine>)
    ensures
        said_of(blamed) == said_at(*blame, line),
{
    if line > usize::MAX as u64 {
        return None;
    }
    blame_line(blame, line as usize)
}

/// The merge base of a boundary and a blamed commit, if they have one. The
/// backend is asked once for each pair: the answer is remembered, and a
/// remembered answer is the answer.
pub fn ancestor_base(
    repo: &git2::Repository,
    cache: &mut AncestryCache,
    boundary: RevisionId,
    commit: RevisionId,
) -> (base: Option<RevisionId>)
    ensures
        old(cache)@.dom().contains(AncestryKey { boundary, commit }) ==> final(cache)@ == old(
            cache,
        )@ && base == old(cache)@[AncestryKey { boundary, commit }],
        !old(cache)@.dom().contains(AncestryKey { boundary, commit }) ==> final(cache)@ == old(
            cache,
        )@.insert(AncestryKey { boundary, commit }, base),
{
    match cache.lookup(&boundary, &commit) {
        Some(known) => known,
        None => {
            let base = match merge_base(repo, boundary, commit) {
                Ok(base) => Some(base),
                Err(_) => None,
            };
            cache.remember(boundary, commit, base);
            base
        },
    }
}

/// Gets the answer of the backend for one line: its blame, and the merge
/// base that decides it where one does.
fn answer_line(
    repo: &git2::Repository,
    blame: &git2::Blame<'_>,
    line: u64,
    boundary: &Option<RevisionId>,
    cache: &mut AncestryCache,
) -> (answer: LineAnswer)
    ensures
        answer.line == line,
        read_from(answer, *blame),
        answered_from(answer, *boundary, final(cache)@),
        extends(old(cache)@, final(cache)@),
{
    let blamed = read_blame_line(blame, line);
    let base = match (boundary, &blamed) {
        (Some(stop), Some(found)) => {
            if found.commit.same(stop) {
                None
            } else {
                ancestor_base(repo, cache, *stop, found.commit)
            }
        },
        _ => None,
    };
    LineAnswer { line, blame: blamed, merge_base: base }
}

/// Gets the answers of the backend for every old line of every hunk, hunk
/// after hunk and line after line. Pairs that the memo table holds are not
/// asked for again.
fn collect_answers(
    repo: &git2::Repository,
    blame: &git2::Blame<'_>,
    hunks: &Vec<Hunk>,
    boundary: &Option<RevisionId>,
    cache: &mut AncestryCache,
) -> (answers: Vec<LineAnswer>)
    ensures
        lines_answered(answers@) == hunk_lines(hunks@),
        forall|k: int| 0 <= k < answers@.len() ==> read_from(#[trigger] answers@[k], *blame),
        forall|k: int|
            0 <= k < answers@.len() ==> answered_from(
                #[trigger] answers@[k],
                *boundary,
                final(cache)@,
            ),
        extends(old(cache)@, final(cache)@),
{
    let mut answers: Vec<LineAnswer> = Vec::new();
    let ghost start = cache@;
    let mut h: usize = 0;
    proof {
        assert(hunks@.take(0) =~= Seq::<Hunk>::empty());
        assert(lines_answered(answers@) =~= hunk_lines(hunks@.take(0)));
    }
    while h < hunks.len()
        invariant
            0 <= h <= hunks@.len(),
            lines_answered(answers@) == hunk_lines(hunks@.take(h as int)),
            forall|k: int| 0 <= k < answers@.len() ==> read_from(#[trigger] answers@[k], *blame),
            forall|k: int|
                0 <= k < answers@.len() ==> answered_from(#[trigger] answers@[k], *boundary, cache@),
            extends(start, cache@),
        decreases hunks@.len() - h,
    {
        let hunk = hunks[h];
        let ghost done = hunk_lines(hunks@.take(h as int));
        let mut k: u32 = 0;
        proof {
            assert(lines_of_hunk(hunk).take(0) =~= Seq::<int>::empty());
            assert(lines_answered(answers@) =~= done + lines_of_hunk(hunk).take(0));
        }
        while k < hunk.old_lines
            invariant
                0 <= k <= hunk.old_lines,
                lines_answered(answers@) == done + lines_of_hunk(hunk).take(k as int),
                forall|j: int| 0 <= j < answers@.len() ==> read_from(#[trigger] answers@[j], *blame),
                forall|j: int|
                    0 <= j < answers@.len() ==> answered_from(
                        #[trigger] answers@[j],
                        *boundary,
                        cache@,
                    ),
                extends(start, cache@),
            decreases hunk.old_lines - k,
        {
            let line = hunk.old_start as u64 + k as u64;
            let ghost before = cache@;
            let ghost held = answers@;
            let answer = answer_line(repo, blame, line, boundary, cache);
            answers.push(answer);
            proof {
                assert forall|j: int| 0 <= j < answers@.len() implies answered_from(
                    #[trigger] answers@[j],
                    *boundary,
                    cache@,
                ) by {
                    if j < held.len() {
                        assert(answers@[j] == held[j]);
                        assert(answered_from(held[j], *boundary, before));
                    }
                }
                assert forall|j: int| 0 <= j < answers@.len() implies read_from(
                    #[trigger] answers@[j],
                    *blame,
                ) by {
                    if j < held.len() {
                        assert(answers@[j] == held[j]);
                    }
                }
                assert(lines_answered(answers@) =~= lines_answered(held).push(line as int));
                assert(lines_of_hunk(hunk).take(k + 1) =~= lines_of_hunk(hunk).take(k as int).push(
                    line as int,
                ));
                assert(lines_answered(answers@) =~= done + lines_of_hunk(hunk).take(k + 1));
            }
            k += 1;
        }
        proof {
            assert(lines_of_hunk(hunk).take(k as int) =~= lines_of_hunk(hunk));
            assert(hunks@.take(h + 1).drop_last() =~= hunks@.take(h as int));
            assert(hunks@.take(h + 1).last() == hunk);
        }
        h += 1;
    }
    assert(hunks@.take(h as int) =~= hunks@);
    answers
}

/// The report of a unit that contributes nothing.
fn empty_report(outcome: UnitOutcome) -> (report: UnitReport)
    ensures
        report.outcome == outcome,
        report.answers@.len() == 0,
        report.partial@ == LineCounts::empty(),
{
    UnitReport { outcome, answers: Vec::new(), partial: AttributionMap::new() }
}

/// Attributes the old lines of one delta.
///
/// A delta that the filter skips is not blamed and contributes nothing. An
/// eligible delta is blamed once; if the blame fails it contributes nothing,
/// else the backend is asked about every old line of every hunk, and the
/// lines are counted by the contributor to whom each is attributed. Every
/// merge base that decides a line is the one in the memo table, which holds
/// afterwards all that it held before.
pub fn attribute_delta(
    repo: &git2::Repository,
    delta: &FileDelta,
    merge_base: RevisionId,
    boundary: Option<RevisionId>,
    max_blame_size: Option<u64>,
    cache: &mut AncestryCache,
) -> (report: UnitReport)
    requires
        delta.well_formed(),
    ensures
        report.outcome is Skipped <==> !eligible(*delta, max_blame_size),
        report.outcome matches UnitOutcome::Skipped(decision) ==> decision == decision_for(
            *delta,
            max_blame_size,
        ),
        report.outcome is Blamed ==> lines_answered(report.answers@) == hunk_lines(delta.hunks@),
        !(report.outcome is Blamed) ==> report.answers@.len() == 0,
        forall|k: int|
            0 <= k < report.answers@.len() ==> answered_from(
                #[trigger] report.answers@[k],
                boundary,
                final(cache)@,
            ),
        report.partial@ == attributed(report.answers@, boundary),
        extends(old(cache)@, final(cache)@),
{
    match plan_unit(delta, merge_base, boundary, max_blame_size) {
        UnitPlan::Skip(decision) => {
            let report = empty_report(UnitOutcome::Skipped(decision));
            assert(attributed(report.answers@, boundary) =~= LineCounts::empty());
            report
        },
        UnitPlan::Blame(request) => match request_blame(repo, &request) {
            Err(reason) => {
                let report = empty_report(UnitOutcome::BlameFailed(reason));
                assert(attributed(report.answers@, boundary) =~= LineCounts::empty());
                report
            },
            Ok(blame) => {
                let answers = collect_answers(repo, &blame, &delta.hunks, &boundary, cache);
                let partial = attribute_lines(&answers, &boundary);
                UnitReport { outcome: UnitOutcome::Blamed, answers, partial }
            },
        },
    }
}

} // verus!

//! The calls into the revision-control backend, git2.
//!
//! Nothing in this file is proved. Each function makes one call into git2 and
//! hands back what the call returned, as a value of git2 or converted, field
//! by field, to a value of this library. What a repository answers depends
//! on what it holds, so no function here says anything about such an answer:
//! the callers are verified for every answer. What is said is said of values
//! that do not change once they are made, and that have a name here: the
//! number of deltas that a diff holds, the hunks that a patch holds, and what
//! a blame says of the lines that it covers.

use crate::author::{AuthorIdentity, AuthorKey};
use crate::delta::Hunk;
use crate::lines::{said_of, BlameLine};
use crate::revision::RevisionId;
use vstd::prelude::*;

verus! {

/// `git2::Repository`, a handle into a repository.
#[verifier::external_type_specification]
#[verifier::external_body]
pub struct ExRepository(git2::Repository);

/// `git2::Error`, the error of every call into git2.
#[verifier::external_type_specification]
#[verifier::external_body]
pub struct ExError(git2::Error);

/// `git2::Object`, an object of a repository.
#[verifier::external_type_specification]
#[verifier::external_body]
pub struct ExObject<'repo>(git2::Object<'repo>);

/// `git2::Commit`, a commit of a repository.
#[verifier::external_type_specification]
#[verifier::external_body]
pub struct ExCommit<'repo>(git2::Commit<'repo>);

/// `git2::Tree`, the tree of a commit.
#[verifier::external_type_specification]
#[verifier::external_body]
pub struct ExTree<'repo>(git2::Tree<'repo>);

/// `git2::DiffOptions`, the options of a diff.
#[verifier::external_type_specification]
#[verifier::external_body]
pub struct ExDiffOptions(git2::DiffOptions);

/// `git2::DiffFindOptions`, the options of rename detection.
#[verifier::external_type_specification]
#[verifier::external_body]
pub struct ExDiffFindOptions(git2::DiffFindOptions);

/// `git2::Diff`, the difference between two trees.
#[verifier::external_type_specification]
#[verifier::external_body]
pub struct ExDiff<'repo>(git2::Diff<'repo>);

/// `git2::Patch`, the text changes of one delta of a diff.
#[verifier::external_type_specification]
#[verifier::external_body]
pub struct ExPatch<'buffers>(git2::Patch<'buffers>);

/// `git2::DiffDelta`, the description of one changed entry.
#[verifier::external_type_specification]
#[verifier::external_body]
pub struct ExDiffDelta<'a>(git2::DiffDelta<'a>);

/// `git2::DiffFile`, one side of a delta.
#[verifier::external_type_specification]
#[verifier::external_body]
pub struct ExDiffFile<'a>(git2::DiffFile<'a>);

/// `git2::BlameOptions`, the options of a blame.
#[verifier::external_type_specification]
#[verifier::external_body]
pub struct ExBlameOptions(git2::BlameOptions);

/// `git2::Blame`, the result of a blame.
#[verifier::external_type_specification]
#[verifier::external_body]
pub struct ExBlame<'repo>(git2::Blame<'repo>);

/// Calls `git2::Repository::discover`, which opens the repository at or
/// above a path. Nothing is claimed of the result.
#[verifier::external_body]
pub(crate) fn discover(path: &str) -> (opened: Result<git2::Repository, git2::Error>) {
    git2::Repository::discover(path)
}

/// Calls `git2::Error::message` and copies the text. Nothing is claimed of
/// it.
#[verifier::external_body]
pub(crate) fn error_message(error: &git2::Error) -> (message: String) {
    error.message().to_string()
}

/// Calls `git2::Repository::revparse_single`, which finds the object that a
/// revision string names. Nothing is claimed of the result.
#[verifier::external_body]
pub(crate) fn revparse_single<'repo>(repo: &'repo git2::Repository, name: &str) -> (found:
    Result<git2::Object<'repo>, git2::Error>) {
    repo.revparse_single(name)
}

/// Calls `git2::Object::peel_to_commit`, which follows an object to a
/// commit. Nothing is claimed of the result.
#[verifier::external_body]
pub(crate) fn peel_to_commit<'repo>(object: &git2::Object<'repo>) -> (found: Result<
    git2::Commit<'repo>,
    git2::Error,
>) {
    object.peel_to_commit()
}

/// Calls `git2::Commit::id` and copies the twenty bytes of the identifier.
/// Nothing is claimed of them.
#[verifier::external_body]
pub(crate) fn commit_id(commit: &git2::Commit<'_>) -> (id: RevisionId) {
    let mut bytes = [0u8; 20];
    bytes.copy_from_slice(commit.id().as_bytes());
    RevisionId { bytes }
}

/// Calls `git2::Repository::merge_base`, which finds a merge base of two
/// commits. Nothing is claimed of the result.
#[verifier::external_body]
pub(crate) fn merge_base(repo: &git2::Repository, one: RevisionId, two: RevisionId) -> (base:
    Result<RevisionId, git2::Error>) {
    let one = git2::Oid::from_bytes(&one.bytes)?;
    let two = git2::Oid::from_bytes(&two.bytes)?;
    let base = repo.merge_base(one, two)?;
    let mut bytes = [0u8; 20];
    bytes.copy_from_slice(base.as_bytes());
    Ok(RevisionId { bytes })
}

/// Calls `git2::Repository::find_commit`, which looks a commit up by its
/// identifier. Nothing is claimed of the result.
#[verifier::external_body]
pub(crate) fn find_commit<'repo>(repo: &'repo git2::Repository, id: RevisionId) -> (found:
    Result<git2::Commit<'repo>, git2::Error>) {
    let oid = git2::Oid::from_bytes(&id.bytes)?;
    repo.find_commit(oid)
}

/// Calls `git2::Commit::tree`, which gets the tree of a commit. Nothing is
/// claimed of the result.
#[verifier::external_body]
pub(crate) fn commit_tree<'repo>(commit: &git2::Commit<'repo>) -> (tree: Result<
    git2::Tree<'repo>,
    git2::Error,
>) {
    commit.tree()
}

/// Calls `git2::DiffOptions::new`, which makes options with every flag
/// unset.
#[verifier::external_body]
pub(crate) fn new_diff_options() -> (options: git2::DiffOptions) {
    git2::DiffOptions::new()
}

/// Calls `git2::DiffOptions::ignore_submodules`, which sets whether
/// submodules are treated as unmodified.
#[verifier::external_body]
pub(crate) fn set_ignore_submodules(options: &mut git2::DiffOptions, ignore: bool) {
    options.ignore_submodules(ignore);
}

/// Calls `git2::DiffOptions::context_lines`, which sets the number of
/// unchanged lines around a change that a hunk takes in.
#[verifier::external_body]
pub(crate) fn set_context_lines(options: &mut git2::DiffOptions, lines: u32) {
    options.context_lines(lines);
}

/// Calls `git2::Repository::diff_tree_to_tree`, which computes the
/// difference between two trees. Nothing is claimed of the result.
#[verifier::external_body]
pub(crate) fn diff_tree_to_tree<'repo>(
    repo: &'repo git2::Repository,
    old_tree: &git2::Tree<'_>,
    new_tree: &git2::Tree<'_>,
    options: &mut git2::DiffOptions,
) -> (diff: Result<git2::Diff<'repo>, git2::Error>) {
    repo.diff_tree_to_tree(Some(old_tree), Some(new_tree), Some(options))
}

/// Calls `git2::DiffFindOptions::new`, which makes options with every flag
/// unset.
#[verifier::external_body]
pub(crate) fn new_find_options() -> (options: git2::DiffFindOptions) {
    git2::DiffFindOptions::new()
}

/// Calls `git2::DiffFindOptions::by_config`, which leaves the detection of
/// renames to the configuration of the repository.
#[verifier::external_body]
pub(crate) fn set_find_by_config(options: &mut git2::DiffFindOptions) {
    options.by_config();
}

/// Calls `git2::Diff::find_similar`, which rewrites the deltas of a diff to
/// show renames and copies. Nothing is claimed of the diff afterwards.
#[verifier::external_body]
pub(crate) fn find_similar(diff: &mut git2::Diff<'_>, options: &mut git2::DiffFindOptions) -> (done:
    Result<(), git2::Error>) {
    diff.find_similar(Some(options))
}

/// The number of deltas that a diff holds.
pub uninterp spec fn delta_total(diff: git2::Diff<'_>) -> nat;

/// Calls `git2::Diff::deltas` and takes the length of the iterator, which
/// git2 makes of the number of deltas of the diff. The result is that
/// number.
#[verifier::external_body]
pub(crate) fn delta_count(diff: &git2::Diff<'_>) -> (count: usize)
    ensures
        count == delta_total(*diff),
{
    diff.deltas().len()
}

/// Calls `git2::Patch::from_diff`, which makes the patch of one delta of a
/// diff; there is none for an unchanged or binary file. Nothing is claimed
/// of the result.
#[verifier::external_body]
pub(crate) fn patch_from_diff<'buffers>(diff: &git2::Diff<'buffers>, index: usize) -> (patch:
    Result<Option<git2::Patch<'buffers>>, git2::Error>) {
    git2::Patch::from_diff(diff, index)
}

/// Calls `git2::Patch::delta`, which gets the delta of a patch.
#[verifier::external_body]
pub(crate) fn patch_delta<'a>(patch: &'a git2::Patch<'_>) -> (delta: git2::DiffDelta<'a>) {
    patch.delta()
}

/// Calls `git2::DiffDelta::old_file`, which gets the side before the change.
#[verifier::external_body]
pub(crate) fn delta_old_file<'a>(delta: &git2::DiffDelta<'a>) -> (file: git2::DiffFile<'a>) {
    delta.old_file()
}

/// Calls `git2::DiffDelta::new_file`, which gets the side after the change.
#[verifier::external_body]
pub(crate) fn delta_new_file<'a>(delta: &git2::DiffDelta<'a>) -> (file: git2::DiffFile<'a>) {
    delta.new_file()
}

/// Calls `git2::DiffFile::path_bytes`, which gets the bytes of the path of
/// a side, and says whether there are any. Nothing is claimed of the result.
#[verifier::external_body]
pub(crate) fn file_has_path(file: &git2::DiffFile<'_>) -> (has_path: bool) {
    file.path_bytes().is_some()
}

/// Calls `git2::DiffFile::path_bytes` and copies the path where its bytes
/// are valid UTF-8. Nothing is claimed of it.
#[verifier::external_body]
pub(crate) fn file_path(file: &git2::DiffFile<'_>) -> (path: Option<String>) {
    let text = std::str::from_utf8(file.path_bytes()?).ok()?;
    Some(text.to_string())
}

/// Calls `git2::DiffFile::exists`. Nothing is claimed of the result.
#[verifier::external_body]
pub(crate) fn file_exists(file: &git2::DiffFile<'_>) -> (exists: bool) {
    file.exists()
}

/// Calls `git2::Tree::get_path`, which finds the entry of a tree at a path,
/// and `git2::TreeEntry::filemode_raw`, which gets the mode of the entry as
/// the tree holds it. Nothing is claimed of the result.
#[verifier::external_body]
pub(crate) fn tree_entry_mode(tree: &git2::Tree<'_>, path: &str) -> (mode: Result<i32, git2::Error>) {
    match tree.get_path(std::path::Path::new(path)) {
        Ok(entry) => Ok(entry.filemode_raw()),
        Err(error) => Err(error),
    }
}

/// Calls `git2::DiffFile::is_binary`. Nothing is claimed of the result.
#[verifier::external_body]
pub(crate) fn file_is_binary(file: &git2::DiffFile<'_>) -> (binary: bool) {
    file.is_binary()
}

/// Calls `git2::DiffFile::size`. Nothing is claimed of the result.
#[verifier::external_body]
pub(crate) fn file_size(file: &git2::DiffFile<'_>) -> (size: u64) {
    file.size()
}

/// The hunks that a patch holds, in their order.
pub uninterp spec fn patch_hunks(patch: git2::Patch<'_>) -> Seq<Hunk>;

/// Calls `git2::Patch::num_hunks`. The result is the number of hunks that
/// the patch holds.
#[verifier::external_body]
pub(crate) fn patch_num_hunks(patch: &git2::Patch<'_>) -> (count: usize)
    ensures
        count == patch_hunks(*patch).len(),
{
    patch.num_hunks()
}

/// Calls `git2::Patch::hunk`, which gets one hunk of a patch, and copies
/// the two line ranges of the hunk. A hunk that is handed out for an index
/// below the number of hunks is the hunk that the patch holds there.
#[verifier::external_body]
pub(crate) fn patch_hunk(patch: &git2::Patch<'_>, index: usize) -> (hunk: Result<Hunk, git2::Error>)
    ensures
        index < patch_hunks(*patch).len() ==> (hunk matches Ok(read) ==> read == patch_hunks(
            *patch,
        )[index as int]),
{
    let (hunk, _) = patch.hunk(index)?;
    Ok(
        Hunk {
            old_start: hunk.old_start(),
            old_lines: hunk.old_lines(),
            new_start: hunk.new_start(),
            new_lines: hunk.new_lines(),
        },
    )
}

/// Calls `git2::BlameOptions::new`, which makes options with every flag
/// unset.
#[verifier::external_body]
pub(crate) fn new_blame_options() -> (options: git2::BlameOptions) {
    git2::BlameOptions::new()
}

/// Calls `git2::BlameOptions::newest_commit`, which sets the newest commit
/// that a blame considers. Twenty bytes always make an identifier.
#[verifier::external_body]
pub(crate) fn set_newest_commit(options: &mut git2::BlameOptions, id: RevisionId) {
    if let Ok(oid) = git2::Oid::from_bytes(&id.bytes) {
        options.newest_commit(oid);
    }
}

/// Calls `git2::BlameOptions::oldest_commit`, which sets the oldest commit
/// that a blame considers. Twenty bytes always make an identifier.
#[verifier::external_body]
pub(crate) fn set_oldest_commit(options: &mut git2::BlameOptions, id: RevisionId) {
    if let Ok(oid) = git2::Oid::from_bytes(&id.bytes) {
        options.oldest_commit(oid);
    }
}

/// Calls `git2::BlameOptions::use_mailmap`, which sets whether names and
/// addresses are mapped to their canonical forms.
#[verifier::external_body]
pub(crate) fn set_use_mailmap(options: &mut git2::BlameOptions, enabled: bool) {
    options.use_mailmap(enabled);
}

/// Calls `git2::BlameOptions::min_line`, which sets the first line to blame.
#[verifier::external_body]
pub(crate) fn set_min_line(options: &mut git2::BlameOptions, line: usize) {
    options.min_line(line);
}

/// Calls `git2::BlameOptions::max_line`, which sets the last line to blame.
#[verifier::external_body]
pub(crate) fn set_max_line(options: &mut git2::BlameOptions, line: usize) {
    options.max_line(line);
}

/// Calls `git2::Repository::blame_file`, which blames the lines of one
/// file. Nothing is claimed of the result.
#[verifier::external_body]
pub(crate) fn blame_file<'repo>(
    repo: &'repo git2::Repository,
    path: &str,
    options: &mut git2::BlameOptions,
) -> (blame: Result<git2::Blame<'repo>, git2::Error>) {
    repo.blame_file(std::path::Path::new(path), Some(options))
}

/// What a blame says of the lines that it covers: for the number of each
/// such line the commit that last touched it, and the contributor of the
/// signature of its author where the blame has one.
pub uninterp spec fn blame_lines(blame: git2::Blame<'_>) -> Map<
    int,
    (RevisionId, Option<AuthorKey>),
>;

/// Calls `git2::Blame::get_line`, which gets the hunk of a blame that holds
/// a line, if one does, and copies from it what `BlameHunk::final_commit_id`
/// and `BlameHunk::final_signature` give, with the name and the address of
/// the signature where `Signature::name` and `Signature::email` find them
/// valid UTF-8. The result is what the blame says of the line.
#[verifier::external_body]
pub(crate) fn blame_line(blame: &git2::Blame<'_>, line: usize) -> (blamed: Option<BlameLine>)
    ensures
        said_of(blamed) == blame_lines(*blame).get(line as int),
{
    let hunk = blame.get_line(line)?;
    let mut bytes = [0u8; 20];
    bytes.copy_from_slice(hunk.final_commit_id().as_bytes());
    let author = match hunk.final_signature() {
        Some(signature) => Some(
            AuthorIdentity {
                name: signature.name().ok().map(String::from),
                email: signature.email().ok().map(String::from),
            },
        ),
        None => None,
    };
    Some(BlameLine { commit: RevisionId { bytes }, author })
}

} // verus!

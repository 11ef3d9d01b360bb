//! The stop boundary: which blamed commits lie within the window of history
//! that it opens, and the memo table of the ancestry answers behind that.

use crate::revision::RevisionId;
use crate::table::{distinct, holds, lemma_table_at, lemma_table_push, table};
use vstd::prelude::*;

verus! {

/// The boundary that a run uses, settled from the revision that was asked
/// for and the merge base of that revision and the comparison point.
#[derive(Clone, Copy, Debug, PartialEq, Eq)]
pub struct BoundaryChoice {
    /// The revision that was asked for.
    pub requested: RevisionId,
    /// The revision that bounds the attribution.
    pub effective: RevisionId,
}

impl BoundaryChoice {
    /// Whether the revision asked for was no ancestor of the comparison
    /// point, so that another took its place.
    pub open spec fn substituted(self) -> bool {
        self.effective != self.requested
    }

    /// Whether another revision took the place of the one asked for.
    pub fn is_substituted(&self) -> (substituted: bool)
        ensures
            substituted == self.substituted(),
    {
        !self.effective.same(&self.requested)
    }
}

/// Settles the boundary from the revision that was asked for and the merge
/// base of that revision and the comparison point. Whatever was asked for,
/// the boundary is that merge base: the revision itself exactly when it is an
/// ancestor of the comparison point, and else the ancestor that takes its
/// place.
pub fn settle_boundary(requested: RevisionId, common: RevisionId) -> (choice: BoundaryChoice)
    ensures
        choice == (BoundaryChoice { requested, effective: common }),
        choice.substituted() <==> common != requested,
{
    BoundaryChoice { requested, effective: common }
}

/// Whether a line blamed on `commit` lies within the window that `boundary`
/// opens, given the merge base of the two, if they have one. The boundary
/// itself is outside; a commit is inside exactly when the boundary is an
/// ancestor of it, that is when the boundary is their merge base.
pub open spec fn admits(
    boundary: RevisionId,
    commit: RevisionId,
    merge_base: Option<RevisionId>,
) -> bool {
    commit != boundary && merge_base == Some(boundary)
}

/// Decides whether a line blamed on `commit` is attributed under `boundary`.
pub fn boundary_admits(
    boundary: &RevisionId,
    commit: &RevisionId,
    merge_base: &Option<RevisionId>,
) -> (admitted: bool)
    ensures
        admitted == admits(*boundary, *commit, *merge_base),
{
    if commit.same(boundary) {
        return false;
    }
    match merge_base {
        Some(base) => base.same(boundary),
        None => false,
    }
}

/// A line blamed on the boundary itself is excluded; a line blamed on a
/// strict descendant of the boundary, whose merge base with the boundary is
/// the boundary, is included; a line blamed on a commit that diverges from
/// the boundary, or has no ancestor in common with it, is excluded.
pub proof fn lemma_boundary_window(
    boundary: RevisionId,
    commit: RevisionId,
    merge_base: Option<RevisionId>,
)
    ensures
        commit == boundary ==> !admits(boundary, commit, merge_base),
        commit != boundary && merge_base == Some(boundary) ==> admits(boundary, commit, merge_base),
        merge_base != Some(boundary) ==> !admits(boundary, commit, merge_base),
        merge_base is None ==> !admits(boundary, commit, merge_base),
{
}

/// A pair of a boundary and a blamed commit.
pub struct AncestryKey {
    pub boundary: RevisionId,
    pub commit: RevisionId,
}

/// One remembered answer: the merge base of a boundary and a commit, or that
/// they have none.
#[derive(Clone, Copy, Debug)]
pub struct AncestryEntry {
    pub boundary: RevisionId,
    pub commit: RevisionId,
    pub merge_base: Option<RevisionId>,
}

/// The answers that were remembered: for each pair the merge base, if any.
pub type AncestryAnswers = Map<AncestryKey, Option<RevisionId>>;

/// The pairs of the entries, in their order.
pub open spec fn keys_of(entries: Seq<AncestryEntry>) -> Seq<AncestryKey> {
    Seq::new(
        entries.len(),
        |i: int| AncestryKey { boundary: entries[i].boundary, commit: entries[i].commit },
    )
}

/// The answers of the entries, in their order.
pub open spec fn bases_of(entries: Seq<AncestryEntry>) -> Seq<Option<RevisionId>> {
    Seq::new(entries.len(), |i: int| entries[i].merge_base)
}

/// The answers that a list of entries holds.
pub open spec fn entry_answers(entries: Seq<AncestryEntry>) -> AncestryAnswers {
    table(keys_of(entries), bases_of(entries))
}

/// The memo table of ancestry answers: the merge base of a boundary and a
/// blamed commit is asked for once, and found here from then on.
#[derive(Debug)]
pub struct AncestryCache {
    entries: Vec<AncestryEntry>,
}

impl View for AncestryCache {
    type V = AncestryAnswers;

    closed spec fn view(&self) -> AncestryAnswers {
        entry_answers(self.entries@)
    }
}

impl AncestryCache {
    /// No pair is held twice.
    #[verifier::type_invariant]
    pub closed spec fn well_formed(&self) -> bool {
        distinct(keys_of(self.entries@))
    }

    /// The table that holds no answer.
    pub fn new() -> (cache: AncestryCache)
        ensures
            cache@ == AncestryAnswers::empty(),
    {
        let cache = AncestryCache { entries: Vec::new() };
        assert(cache@ =~= AncestryAnswers::empty());
        cache
    }

    /// The answer remembered for the pair, if one is.
    pub fn lookup(&self, boundary: &RevisionId, commit: &RevisionId) -> (found: Option<
        Option<RevisionId>,
    >)
        ensures
            found == (if self@.dom().contains(
                AncestryKey { boundary: *boundary, commit: *commit },
            ) {
                Some(self@[AncestryKey { boundary: *boundary, commit: *commit }])
            } else {
                None
            }),
    {
        proof {
            use_type_invariant(self);
        }
        let ghost key = AncestryKey { boundary: *boundary, commit: *commit };
        let ghost keys = keys_of(self.entries@);
        let mut i: usize = 0;
        while i < self.entries.len()
            invariant
                0 <= i <= self.entries@.len(),
                keys == keys_of(self.entries@),
                distinct(keys),
                key == (AncestryKey { boundary: *boundary, commit: *commit }),
                forall|j: int| 0 <= j < i ==> #[trigger] keys[j] != key,
            decreases self.entries@.len() - i,
        {
            if self.entries[i].boundary.same(boundary) && self.entries[i].commit.same(commit) {
                proof {
                    assert(keys[i as int] == key);
                    lemma_table_at(keys, bases_of(self.entries@), i as int);
                }
                return Some(self.entries[i].merge_base);
            }
            i += 1;
        }
        None
    }

    /// Remembers the answer for a pair. A pair that has an answer keeps it.
    pub fn remember(
        &mut self,
        boundary: RevisionId,
        commit: RevisionId,
        merge_base: Option<RevisionId>,
    )
        ensures
            final(self)@ == (if old(self)@.dom().contains(AncestryKey { boundary, commit }) {
                old(self)@
            } else {
                old(self)@.insert(AncestryKey { boundary, commit }, merge_base)
            }),
    {
        proof {
            use_type_invariant(&*self);
        }
        if self.lookup(&boundary, &commit).is_some() {
            return ;
        }
        let mut held = AncestryCache::new();
        std::mem::swap(self, &mut held);
        let mut entries = held.entries;
        let entry = AncestryEntry { boundary, commit, merge_base };
        proof {
            let key = AncestryKey { boundary, commit };
            lemma_table_push(keys_of(entries@), bases_of(entries@), key, merge_base);
            assert(keys_of(entries@.push(entry)) =~= keys_of(entries@).push(key));
            assert(bases_of(entries@.push(entry)) =~= bases_of(entries@).push(merge_base));
        }
        entries.push(entry);
        *self = AncestryCache { entries };
    }
}

} // verus!

//! The attribution map: how many lines are attributed to each contributor.

use crate::author::{AuthorIdentity, AuthorKey};
use crate::table::{
    distinct, holds, lemma_table_at, lemma_table_push, lemma_table_update, place, table,
};
use vstd::prelude::*;

verus! {

/// The mathematical attribution map: a line count for every contributor to
/// whom lines are attributed. A contributor outside the domain has no lines.
pub type LineCounts = Map<AuthorKey, nat>;

/// The lines that `counts` attributes to `author`.
pub open spec fn count_of(counts: LineCounts, author: AuthorKey) -> nat {
    if counts.dom().contains(author) {
        counts[author]
    } else {
        0
    }
}

/// `counts` after `lines` more lines were attributed to `author`.
pub open spec fn with_lines(counts: LineCounts, author: AuthorKey, lines: nat) -> LineCounts {
    counts.insert(author, count_of(counts, author) + lines)
}

/// The sum of two attribution maps, contributor by contributor.
pub open spec fn merged(a: LineCounts, b: LineCounts) -> LineCounts {
    Map::new(
        |author: AuthorKey| a.dom().contains(author) || b.dom().contains(author),
        |author: AuthorKey| count_of(a, author) + count_of(b, author),
    )
}

/// Whether every count of the map fits the counter of the executable map.
pub open spec fn counts_fit(counts: LineCounts) -> bool {
    forall|author: AuthorKey| count_of(counts, author) <= u64::MAX
}

/// One entry of an attribution map: a contributor and the lines attributed
/// to them.
#[derive(Debug)]
pub struct AuthorLines {
    pub author: AuthorIdentity,
    pub lines: u64,
}

impl Clone for AuthorLines {
    fn clone(&self) -> (copy: AuthorLines)
        ensures
            copy.author@ == self.author@,
            copy.lines == self.lines,
    {
        AuthorLines { author: self.author.clone(), lines: self.lines }
    }
}

/// The contributors of the entries, in their order.
pub open spec fn authors_of(entries: Seq<AuthorLines>) -> Seq<AuthorKey> {
    Seq::new(entries.len(), |i: int| entries[i].author@)
}

/// The lines of the entries, in their order.
pub open spec fn counts_in(entries: Seq<AuthorLines>) -> Seq<nat> {
    Seq::new(entries.len(), |i: int| entries[i].lines as nat)
}

/// The contributor of the entry at `i`.
#[verifier::inline]
pub open spec fn author_at(entries: Seq<AuthorLines>, i: int) -> AuthorKey {
    authors_of(entries)[i]
}

/// No contributor has two entries.
pub open spec fn distinct_authors(entries: Seq<AuthorLines>) -> bool {
    distinct(authors_of(entries))
}

/// Every entry holds at least one line.
pub open spec fn positive_lines(entries: Seq<AuthorLines>) -> bool {
    forall|i: int| 0 <= i < entries.len() ==> (#[trigger] entries[i]).lines >= 1
}

/// Whether `author` has an entry.
pub open spec fn has_entry(entries: Seq<AuthorLines>, author: AuthorKey) -> bool {
    holds(authors_of(entries), author)
}

/// The index of an entry of `author`.
pub open spec fn entry_of(entries: Seq<AuthorLines>, author: AuthorKey) -> int {
    place(authors_of(entries), author)
}

/// The attribution map that a list of entries stands for.
pub open spec fn entry_counts(entries: Seq<AuthorLines>) -> LineCounts {
    table(authors_of(entries), counts_in(entries))
}

/// With distinct contributors, the map holds for the contributor of each
/// entry the lines of that entry.
pub proof fn lemma_entry_counts_at(entries: Seq<AuthorLines>, i: int)
    requires
        distinct_authors(entries),
        0 <= i < entries.len(),
    ensures
        entry_counts(entries).dom().contains(author_at(entries, i)),
        entry_counts(entries)[author_at(entries, i)] == entries[i].lines,
        count_of(entry_counts(entries), author_at(entries, i)) == entries[i].lines,
        entry_of(entries, author_at(entries, i)) == i,
{
    lemma_table_at(authors_of(entries), counts_in(entries), i);
}

/// Every count of a map that entries stand for is the count of an entry, or
/// zero.
pub proof fn lemma_entry_counts_fit(entries: Seq<AuthorLines>)
    ensures
        counts_fit(entry_counts(entries)),
{
    assert forall|author: AuthorKey| count_of(entry_counts(entries), author) <= u64::MAX by {
        if has_entry(entries, author) {
            let j = entry_of(entries, author);
            assert(entries[j].lines <= u64::MAX);
        }
    }
}

/// Appending an entry of a new contributor attributes its lines to them.
proof fn lemma_entry_counts_push(entries: Seq<AuthorLines>, entry: AuthorLines)
    requires
        distinct_authors(entries),
        !has_entry(entries, entry.author@),
    ensures
        distinct_authors(entries.push(entry)),
        entry_counts(entries.push(entry)) == with_lines(
            entry_counts(entries),
            entry.author@,
            entry.lines as nat,
        ),
{
    lemma_table_push(authors_of(entries), counts_in(entries), entry.author@, entry.lines as nat);
    assert(authors_of(entries.push(entry)) =~= authors_of(entries).push(entry.author@));
    assert(counts_in(entries.push(entry)) =~= counts_in(entries).push(entry.lines as nat));
}

/// Replacing an entry by one of the same contributor changes the lines of
/// that contributor only.
proof fn lemma_entry_counts_update(entries: Seq<AuthorLines>, i: int, entry: AuthorLines)
    requires
        distinct_authors(entries),
        0 <= i < entries.len(),
        entry.author@ == author_at(entries, i),
    ensures
        distinct_authors(entries.update(i, entry)),
        entry_counts(entries.update(i, entry)) == entry_counts(entries).insert(
            entry.author@,
            entry.lines as nat,
        ),
{
    lemma_table_update(authors_of(entries), counts_in(entries), i, entry.lines as nat);
    assert(authors_of(entries.update(i, entry)) =~= authors_of(entries));
    assert(counts_in(entries.update(i, entry)) =~= counts_in(entries).update(
        i,
        entry.lines as nat,
    ));
}

/// The entries before `i` hold no entry of the contributor at `i`, and with
/// the entry at `i` they stand for the map with its lines added.
proof fn lemma_entry_counts_take(entries: Seq<AuthorLines>, i: int)
    requires
        distinct_authors(entries),
        0 <= i < entries.len(),
    ensures
        distinct_authors(entries.take(i)),
        count_of(entry_counts(entries.take(i)), author_at(entries, i)) == 0,
        entry_counts(entries.take(i + 1)) == with_lines(
            entry_counts(entries.take(i)),
            author_at(entries, i),
            entries[i].lines as nat,
        ),
{
    let before = entries.take(i);
    assert forall|a: int, b: int| 0 <= a < b < before.len() implies #[trigger] author_at(before, a)
        != #[trigger] author_at(before, b) by {
        assert(author_at(before, a) == author_at(entries, a));
        assert(author_at(before, b) == author_at(entries, b));
    }
    if has_entry(before, author_at(entries, i)) {
        let j = entry_of(before, author_at(entries, i));
        assert(author_at(entries, j) == author_at(before, j));
    }
    lemma_entry_counts_push(before, entries[i]);
    assert(before.push(entries[i]) =~= entries.take(i + 1));
}

/// Adding lines to the second of two maps adds them to their sum.
pub proof fn lemma_merged_with_lines(a: LineCounts, b: LineCounts, author: AuthorKey, lines: nat)
    ensures
        merged(a, with_lines(b, author, lines)) == with_lines(merged(a, b), author, lines),
{
    assert(merged(a, with_lines(b, author, lines)) =~= with_lines(merged(a, b), author, lines));
}

/// Lists whose entries agree, one by one, on the contributor and the lines
/// stand for the same attribution map.
proof fn lemma_entry_counts_agree(a: Seq<AuthorLines>, b: Seq<AuthorLines>)
    requires
        distinct_authors(a),
        a.len() == b.len(),
        forall|i: int|
            0 <= i < a.len() ==> #[trigger] author_at(a, i) == author_at(b, i) && a[i].lines
                == b[i].lines,
    ensures
        distinct_authors(b),
        entry_counts(a) == entry_counts(b),
{
    assert forall|i: int, j: int| 0 <= i < j < b.len() implies #[trigger] author_at(b, i)
        != #[trigger] author_at(b, j) by {
        assert(author_at(a, i) == author_at(b, i));
        assert(author_at(a, j) == author_at(b, j));
    }
    assert forall|author: AuthorKey| #[trigger]
        entry_counts(a).dom().contains(author) == entry_counts(b).dom().contains(author) by {
        if has_entry(a, author) {
            let j = entry_of(a, author);
            assert(author_at(a, j) == author_at(b, j));
        }
        if has_entry(b, author) {
            let j = entry_of(b, author);
            assert(author_at(a, j) == author_at(b, j));
        }
    }
    assert forall|author: AuthorKey| #[trigger]
        entry_counts(a).dom().contains(author) implies entry_counts(a)[author] == entry_counts(
        b,
    )[author] by {
        let j = entry_of(a, author);
        assert(author_at(a, j) == author_at(b, j));
        lemma_entry_counts_at(a, j);
        lemma_entry_counts_at(b, j);
    }
    assert(entry_counts(a) =~= entry_counts(b));
}

/// An attribution map: for each contributor the number of lines attributed
/// to them. A contributor is held only while lines are attributed to them.
#[derive(Debug)]
pub struct AttributionMap {
    entries: Vec<AuthorLines>,
}

impl View for AttributionMap {
    type V = LineCounts;

    closed spec fn view(&self) -> LineCounts {
        entry_counts(self.entries@)
    }
}

impl AttributionMap {
    /// No contributor is held twice, and none without lines.
    #[verifier::type_invariant]
    pub closed spec fn well_formed(&self) -> bool {
        &&& distinct_authors(self.entries@)
        &&& positive_lines(self.entries@)
    }

    /// The map that attributes no line to anybody.
    pub fn new() -> (map: AttributionMap)
        ensures
            map@ == LineCounts::empty(),
    {
        let map = AttributionMap { entries: Vec::new() };
        assert(map@ =~= LineCounts::empty());
        map
    }

    /// Every count of a map fits its counter.
    pub proof fn lemma_counts_fit(&self)
        ensures
            counts_fit(self@),
    {
        lemma_entry_counts_fit(self.entries@);
    }

    /// The index of the entry of `author`, if there is one.
    fn position(&self, author: &AuthorIdentity) -> (found: Option<usize>)
        ensures
            match found {
                Some(i) => i < self.entries@.len() && author_at(self.entries@, i as int)
                    == author@,
                None => !has_entry(self.entries@, author@),
            },
    {
        let mut i: usize = 0;
        while i < self.entries.len()
            invariant
                0 <= i <= self.entries@.len(),
                forall|j: int| 0 <= j < i ==> #[trigger] author_at(self.entries@, j) != author@,
            decreases self.entries@.len() - i,
        {
            if self.entries[i].author.same(author) {
                return Some(i);
            }
            i += 1;
        }
        None
    }

    /// The number of lines attributed to `author`.
    pub fn lines_for(&self, author: &AuthorIdentity) -> (lines: u64)
        ensures
            lines == count_of(self@, author@),
    {
        proof {
            use_type_invariant(self);
        }
        match self.position(author) {
            Some(i) => {
                proof {
                    lemma_entry_counts_at(self.entries@, i as int);
                }
                self.entries[i].lines
            },
            None => 0,
        }
    }

    /// Whether no line is attributed to anybody.
    pub fn is_empty(&self) -> (empty: bool)
        ensures
            empty == (self@ == LineCounts::empty()),
    {
        proof {
            use_type_invariant(self);
            if self.entries@.len() > 0 {
                lemma_entry_counts_at(self.entries@, 0);
            } else {
                assert(self@ =~= LineCounts::empty());
            }
        }
        self.entries.len() == 0
    }

    /// Attributes `lines` more lines to `author`. No lines leave the map as
    /// it was.
    pub fn add_lines(&mut self, author: AuthorIdentity, lines: u64)
        requires
            count_of(old(self)@, author@) + lines <= u64::MAX,
        ensures
            final(self)@ == (if lines == 0 {
                old(self)@
            } else {
                with_lines(old(self)@, author@, lines as nat)
            }),
    {
        proof {
            use_type_invariant(&*self);
        }
        if lines == 0 {
            return ;
        }
        let found = self.position(&author);
        let mut held = AttributionMap::new();
        std::mem::swap(self, &mut held);
        let mut entries = held.entries;
        match found {
            Some(i) => {
                proof {
                    lemma_entry_counts_at(entries@, i as int);
                }
                let sum = entries[i].lines + lines;
                let entry = AuthorLines { author, lines: sum };
                proof {
                    lemma_entry_counts_update(entries@, i as int, entry);
                }
                entries.set(i, entry);
            },
            None => {
                let entry = AuthorLines { author, lines };
                proof {
                    lemma_entry_counts_push(entries@, entry);
                }
                entries.push(entry);
            },
        }
        *self = AttributionMap { entries };
    }

    /// Attributes one more line to `author`.
    pub fn record_line(&mut self, author: AuthorIdentity)
        requires
            count_of(old(self)@, author@) < u64::MAX,
        ensures
            final(self)@ == with_lines(old(self)@, author@, 1),
    {
        self.add_lines(author, 1);
    }

    /// The contributors of the map with their lines, each contributor once.
    pub fn entries(&self) -> (list: Vec<AuthorLines>)
        ensures
            distinct_authors(list@),
            positive_lines(list@),
            entry_counts(list@) == self@,
    {
        proof {
            use_type_invariant(self);
        }
        let mut list: Vec<AuthorLines> = Vec::new();
        let mut i: usize = 0;
        while i < self.entries.len()
            invariant
                0 <= i <= self.entries@.len(),
                list@.len() == i,
                forall|j: int|
                    0 <= j < i ==> #[trigger] author_at(list@, j) == author_at(self.entries@, j)
                        && list@[j].lines == self.entries@[j].lines,
            decreases self.entries@.len() - i,
        {
            let ghost held = list@;
            list.push(self.entries[i].clone());
            proof {
                assert forall|j: int| 0 <= j < i implies #[trigger] author_at(list@, j)
                    == author_at(self.entries@, j) && list@[j].lines == self.entries@[j].lines by {
                    assert(list@[j] == held[j]);
                    assert(author_at(held, j) == author_at(self.entries@, j));
                }
                assert(author_at(list@, i as int) == author_at(self.entries@, i as int));
            }
            i += 1;
        }
        proof {
            lemma_entry_counts_agree(self.entries@, list@);
            assert forall|j: int| 0 <= j < list@.len() implies (#[trigger] list@[j]).lines >= 1 by {
                assert(author_at(list@, j) == author_at(self.entries@, j));
                assert(self.entries@[j].lines >= 1);
            }
        }
        list
    }

    /// Whether `other` attributes to every contributor of this map the lines
    /// that this map does.
    fn within(&self, other: &AttributionMap) -> (within: bool)
        ensures
            within == (forall|author: AuthorKey| #[trigger]
                self@.dom().contains(author) ==> other@.dom().contains(author) && other@[author]
                    == self@[author]),
    {
        proof {
            use_type_invariant(self);
        }
        let mut i: usize = 0;
        while i < self.entries.len()
            invariant
                0 <= i <= self.entries@.len(),
                distinct_authors(self.entries@),
                positive_lines(self.entries@),
                forall|j: int|
                    0 <= j < i ==> count_of(other@, #[trigger] author_at(self.entries@, j))
                        == self.entries@[j].lines,
            decreases self.entries@.len() - i,
        {
            if other.lines_for(&self.entries[i].author) != self.entries[i].lines {
                proof {
                    lemma_entry_counts_at(self.entries@, i as int);
                    assert(self.entries@[i as int].lines >= 1);
                    assert(self@.dom().contains(author_at(self.entries@, i as int)));
                }
                return false;
            }
            i += 1;
        }
        proof {
            assert forall|author: AuthorKey| #[trigger]
                self@.dom().contains(author) implies other@.dom().contains(author)
                && other@[author] == self@[author] by {
                let j = entry_of(self.entries@, author);
                assert(author_at(self.entries@, j) == author);
                lemma_entry_counts_at(self.entries@, j);
                assert(self.entries@[j].lines >= 1);
            }
        }
        true
    }

    /// Whether two maps attribute the same lines to the same contributors.
    pub fn same_counts(&self, other: &AttributionMap) -> (same: bool)
        ensures
            same == (self@ == other@),
    {
        let same = self.within(other) && other.within(self);
        proof {
            if same {
                assert(self@ =~= other@);
            }
        }
        same
    }

    /// Whether the sum of this map and `other` fits the counters.
    pub fn can_merge(&self, other: &AttributionMap) -> (fits: bool)
        ensures
            fits == counts_fit(merged(self@, other@)),
    {
        proof {
            use_type_invariant(self);
            use_type_invariant(other);
            lemma_entry_counts_fit(self.entries@);
        }
        let mut i: usize = 0;
        while i < other.entries.len()
            invariant
                0 <= i <= other.entries@.len(),
                distinct_authors(other.entries@),
                forall|j: int|
                    0 <= j < i ==> count_of(self@, #[trigger] author_at(other.entries@, j))
                        + other.entries@[j].lines <= u64::MAX,
            decreases other.entries@.len() - i,
        {
            let held = self.lines_for(&other.entries[i].author);
            if held > u64::MAX - other.entries[i].lines {
                proof {
                    lemma_entry_counts_at(other.entries@, i as int);
                    let author = author_at(other.entries@, i as int);
                    assert(count_of(merged(self@, other@), author) > u64::MAX);
                }
                return false;
            }
            i += 1;
        }
        proof {
            assert forall|author: AuthorKey| count_of(merged(self@, other@), author)
                <= u64::MAX by {
                if has_entry(other.entries@, author) {
                    let j = entry_of(other.entries@, author);
                    lemma_entry_counts_at(other.entries@, j);
                    assert(author_at(other.entries@, j) == author);
                } else {
                    assert(count_of(self@, author) <= u64::MAX);
                }
            }
        }
        true
    }

    /// Adds the counts of `other` to this map, contributor by contributor.
    pub fn merge(&mut self, other: &AttributionMap)
        requires
            counts_fit(merged(old(self)@, other@)),
        ensures
            final(self)@ == merged(old(self)@, other@),
    {
        proof {
            use_type_invariant(other);
        }
        let ghost start = self@;
        let mut i: usize = 0;
        assert(self@ =~= merged(start, entry_counts(other.entries@.take(0))));
        while i < other.entries.len()
            invariant
                0 <= i <= other.entries@.len(),
                distinct_authors(other.entries@),
                positive_lines(other.entries@),
                counts_fit(merged(start, entry_counts(other.entries@))),
                self@ == merged(start, entry_counts(other.entries@.take(i as int))),
            decreases other.entries@.len() - i,
        {
            let author = other.entries[i].author.clone();
            let lines = other.entries[i].lines;
            proof {
                let key = author_at(other.entries@, i as int);
                lemma_entry_counts_take(other.entries@, i as int);
                lemma_entry_counts_at(other.entries@, i as int);
                assert(count_of(merged(start, entry_counts(other.entries@)), key) <= u64::MAX);
                assert(count_of(self@, key) == count_of(start, key));
                lemma_merged_with_lines(
                    start,
                    entry_counts(other.entries@.take(i as int)),
                    key,
                    lines as nat,
                );
            }
            self.add_lines(author, lines);
            i += 1;
        }
        assert(other.entries@.take(i as int) =~= other.entries@);
    }
}

impl Clone for AttributionMap {
    fn clone(&self) -> (copy: AttributionMap)
        ensures
            copy@ == self@,
    {
        AttributionMap { entries: self.entries() }
    }
}

impl PartialEq for AttributionMap {
    fn eq(&self, other: &AttributionMap) -> (r: bool) {
        self.same_counts(other)
    }
}

impl Eq for AttributionMap {}

impl vstd::std_specs::cmp::PartialEqSpecImpl for AttributionMap {
    open spec fn obeys_eq_spec() -> bool {
        true
    }

    open spec fn eq_spec(&self, other: &AttributionMap) -> bool {
        self@ == other@
    }
}

} // verus!

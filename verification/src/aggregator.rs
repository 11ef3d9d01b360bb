//! Reduction of the partial attribution maps of the units of work into one
//! map, and the laws that make the reduction independent of their order.

use crate::attribution::{count_of, counts_fit, merged, AttributionMap, LineCounts};
use crate::author::AuthorKey;
use crate::lines::{attributed, blame_read, lemma_attributed_by_blame, LineAnswer};
use crate::revision::RevisionId;
use vstd::prelude::*;
use vstd::seq_lib::{commutative_foldl, lemma_fold_left_permutation};

verus! {

/// The sum of a list of attribution maps, taken from the left.
pub open spec fn reduced(parts: Seq<LineCounts>) -> LineCounts {
    parts.fold_left(LineCounts::empty(), |sum: LineCounts, part: LineCounts| merged(sum, part))
}

/// The lines that the maps of a list attribute to `author`, added up.
pub open spec fn lines_across(parts: Seq<LineCounts>, author: AuthorKey) -> nat
    decreases parts.len(),
{
    if parts.len() == 0 {
        0
    } else {
        lines_across(parts.drop_last(), author) + count_of(parts.last(), author)
    }
}

/// The mathematical maps of a list of attribution maps.
pub open spec fn views_of(maps: Seq<AttributionMap>) -> Seq<LineCounts> {
    maps.map_values(|map: AttributionMap| map@)
}

/// Merging is commutative.
pub proof fn lemma_merged_commutative(a: LineCounts, b: LineCounts)
    ensures
        merged(a, b) == merged(b, a),
{
    assert(merged(a, b) =~= merged(b, a));
}

/// Merging is associative.
pub proof fn lemma_merged_associative(a: LineCounts, b: LineCounts, c: LineCounts)
    ensures
        merged(merged(a, b), c) == merged(a, merged(b, c)),
{
    assert(merged(merged(a, b), c) =~= merged(a, merged(b, c)));
}

/// The empty map is neutral for merging.
pub proof fn lemma_merged_empty(a: LineCounts)
    ensures
        merged(a, LineCounts::empty()) == a,
        merged(LineCounts::empty(), a) == a,
{
    assert(merged(a, LineCounts::empty()) =~= a);
    assert(merged(LineCounts::empty(), a) =~= a);
}

/// The sum of a list with one more map is the sum of the list merged with
/// that map.
pub proof fn lemma_reduced_push(parts: Seq<LineCounts>, part: LineCounts)
    ensures
        reduced(parts.push(part)) == merged(reduced(parts), part),
{
    assert(parts.push(part).drop_last() =~= parts);
}

/// The total of every contributor in the reduced map is the arithmetic sum
/// of their counts over all the maps.
pub proof fn lemma_reduced_count(parts: Seq<LineCounts>, author: AuthorKey)
    ensures
        count_of(reduced(parts), author) == lines_across(parts, author),
    decreases parts.len(),
{
    if parts.len() > 0 {
        lemma_reduced_count(parts.drop_last(), author);
    }
}

/// The reduced map holds a contributor exactly when one of the maps does.
pub proof fn lemma_reduced_held(parts: Seq<LineCounts>, author: AuthorKey)
    ensures
        reduced(parts).dom().contains(author) <==> exists|i: int|
            0 <= i < parts.len() && (#[trigger] parts[i]).dom().contains(author),
    decreases parts.len(),
{
    if parts.len() > 0 {
        let rest = parts.drop_last();
        lemma_reduced_held(rest, author);
        if reduced(parts).dom().contains(author) {
            if parts.last().dom().contains(author) {
                assert(parts[parts.len() - 1].dom().contains(author));
            } else {
                let i = choose|i: int|
                    0 <= i < rest.len() && (#[trigger] rest[i]).dom().contains(author);
                assert(parts[i] == rest[i]);
            }
        }
        if exists|i: int| 0 <= i < parts.len() && (#[trigger] parts[i]).dom().contains(author) {
            let i = choose|i: int|
                0 <= i < parts.len() && (#[trigger] parts[i]).dom().contains(author);
            if i < rest.len() {
                assert(rest[i] == parts[i]);
            }
        }
    }
}

/// The total of a contributor over the first maps of a list is at most their
/// total over all of them.
pub proof fn lemma_lines_across_prefix(parts: Seq<LineCounts>, n: int, author: AuthorKey)
    requires
        0 <= n <= parts.len(),
    ensures
        lines_across(parts.take(n), author) <= lines_across(parts, author),
    decreases parts.len(),
{
    if n == parts.len() {
        assert(parts.take(n) =~= parts);
    } else {
        lemma_lines_across_prefix(parts.drop_last(), n, author);
        assert(parts.drop_last().take(n) =~= parts.take(n));
    }
}

/// Reduction is independent of the order of the units of work: two lists that
/// hold the same partial maps, in any order, reduce to the same map.
pub proof fn lemma_reduced_permutation(a: Seq<LineCounts>, b: Seq<LineCounts>)
    requires
        a.to_multiset() == b.to_multiset(),
    ensures
        reduced(a) == reduced(b),
{
    let step = |sum: LineCounts, part: LineCounts| merged(sum, part);
    assert(commutative_foldl(step)) by {
        assert forall|x: LineCounts, y: LineCounts, v: LineCounts| #[trigger]
            step(step(v, x), y) == step(step(v, y), x) by {
            assert(merged(merged(v, x), y) =~= merged(merged(v, y), x));
        }
    }
    lemma_fold_left_permutation(a, b, step, LineCounts::empty());
}

/// The attribution map of a run, from what was answered for the lines of
/// each unit of work.
pub open spec fn run_counts(units: Seq<Seq<LineAnswer>>, boundary: Option<RevisionId>)
    -> LineCounts {
    reduced(units.map_values(|answers: Seq<LineAnswer>| attributed(answers, boundary)))
}

/// A run without a boundary can be repeated: two runs in which blame says
/// the same of every line of every unit end with the same attribution map.
pub proof fn lemma_run_repeatable(first: Seq<Seq<LineAnswer>>, second: Seq<Seq<LineAnswer>>)
    requires
        first.len() == second.len(),
        forall|u: int|
            0 <= u < first.len() ==> (#[trigger] first[u]).len() == second[u].len(),
        forall|u: int, i: int|
            0 <= u < first.len() && 0 <= i < first[u].len() ==> blame_read(
                #[trigger] first[u][i],
            ) == blame_read(second[u][i]),
    ensures
        run_counts(first, None) == run_counts(second, None),
{
    let partial = |answers: Seq<LineAnswer>| attributed(answers, None);
    assert forall|u: int| 0 <= u < first.len() implies #[trigger] first.map_values(partial)[u]
        == second.map_values(partial)[u] by {
        assert(first[u].len() == second[u].len());
        lemma_attributed_by_blame(first[u], second[u]);
    }
    assert(first.map_values(partial) =~= second.map_values(partial));
}

/// Reduces the partial maps of the units of work to the map of their sums.
/// There is no map when the total of some contributor does not fit the
/// counter.
pub fn aggregate(partials: &Vec<AttributionMap>) -> (total: Option<AttributionMap>)
    ensures
        total is Some == counts_fit(reduced(views_of(partials@))),
        total matches Some(map) ==> map@ == reduced(views_of(partials@)),
{
    let ghost parts = views_of(partials@);
    let mut sum = AttributionMap::new();
    let mut i: usize = 0;
    assert(parts.take(0) =~= Seq::<LineCounts>::empty());
    while i < partials.len()
        invariant
            0 <= i <= partials@.len(),
            parts == views_of(partials@),
            sum@ == reduced(parts.take(i as int)),
        decreases partials@.len() - i,
    {
        proof {
            assert(parts.take(i as int).push(parts[i as int]) =~= parts.take(i + 1));
            lemma_reduced_push(parts.take(i as int), parts[i as int]);
        }
        if !sum.can_merge(&partials[i]) {
            proof {
                let over = choose|author: AuthorKey|
                    #[trigger] count_of(reduced(parts.take(i + 1)), author) > u64::MAX;
                lemma_reduced_count(parts.take(i + 1), over);
                lemma_lines_across_prefix(parts, i + 1, over);
                lemma_reduced_count(parts, over);
            }
            return None;
        }
        sum.merge(&partials[i]);
        i += 1;
    }
    proof {
        assert(parts.take(i as int) =~= parts);
        sum.lemma_counts_fit();
    }
    Some(sum)
}

} // verus!

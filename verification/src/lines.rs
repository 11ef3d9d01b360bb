//! The attribution of the old lines of one file, from what the backend
//! answered for each of them.

use crate::attribution::{count_of, with_lines, AttributionMap, LineCounts};
use crate::author::{AuthorIdentity, AuthorKey};
use crate::boundary::{admits, boundary_admits};
use crate::revision::RevisionId;
use vstd::prelude::*;

verus! {

/// What blame says of one line: the commit that last touched it, and the
/// author of that commit where the backend has a signature for it.
#[derive(Clone, Debug, PartialEq, Eq)]
pub struct BlameLine {
    pub commit: RevisionId,
    pub author: Option<AuthorIdentity>,
}

/// What the backend answered for one old line of a hunk.
#[derive(Clone, Debug, PartialEq, Eq)]
pub struct LineAnswer {
    /// The number of the line in the old file.
    pub line: u64,
    /// The blame of the line, unless the blame result does not cover it.
    pub blame: Option<BlameLine>,
    /// The merge base of the boundary and the blamed commit, where the
    /// backend was asked for it and found one.
    pub merge_base: Option<RevisionId>,
}

/// The contributor of a signature, if there is a signature.
pub open spec fn signed_by(author: Option<AuthorIdentity>) -> Option<AuthorKey> {
    match author {
        Some(identity) => Some(identity@),
        None => None,
    }
}

/// The contributor to whom a line is attributed, if it is attributed at all.
/// A line that blame does not cover, a line outside the window of the
/// boundary and a line without a signature are attributed to nobody.
pub open spec fn contribution(answer: LineAnswer, boundary: Option<RevisionId>) -> Option<
    AuthorKey,
> {
    match answer.blame {
        None => None,
        Some(line) => match boundary {
            Some(stop) => if admits(stop, line.commit, answer.merge_base) {
                signed_by(line.author)
            } else {
                None
            },
            None => signed_by(line.author),
        },
    }
}

/// The number of lines, among those answered for, that are attributed to
/// `author`.
pub open spec fn lines_of(answers: Seq<LineAnswer>, boundary: Option<RevisionId>, author: AuthorKey)
    -> nat {
    answers.filter(|answer: LineAnswer| contribution(answer, boundary) == Some(author)).len()
}

/// The attribution map of one file: each contributor with the number of lines
/// attributed to them, for the contributors who have any.
pub open spec fn attributed(answers: Seq<LineAnswer>, boundary: Option<RevisionId>) -> LineCounts {
    Map::new(
        |author: AuthorKey| lines_of(answers, boundary, author) > 0,
        |author: AuthorKey| lines_of(answers, boundary, author),
    )
}

/// No contributor has more lines than were answered for.
pub proof fn lemma_lines_of_bound(
    answers: Seq<LineAnswer>,
    boundary: Option<RevisionId>,
    author: AuthorKey,
)
    ensures
        lines_of(answers, boundary, author) <= answers.len(),
        count_of(attributed(answers, boundary), author) == lines_of(answers, boundary, author),
{
    answers.lemma_filter_len(
        |answer: LineAnswer| contribution(answer, boundary) == Some(author),
    );
}

/// One more answer adds one line to the contributor of that line, if it has
/// one, and nothing otherwise.
pub proof fn lemma_attributed_push(
    answers: Seq<LineAnswer>,
    answer: LineAnswer,
    boundary: Option<RevisionId>,
)
    ensures
        attributed(answers.push(answer), boundary) == match contribution(answer, boundary) {
            Some(author) => with_lines(attributed(answers, boundary), author, 1),
            None => attributed(answers, boundary),
        },
{
    let expected = match contribution(answer, boundary) {
        Some(author) => with_lines(attributed(answers, boundary), author, 1),
        None => attributed(answers, boundary),
    };
    assert forall|author: AuthorKey|
        lines_of(answers.push(answer), boundary, author) == lines_of(answers, boundary, author) + (
        if contribution(answer, boundary) == Some(author) {
            1nat
        } else {
            0nat
        }) by {
        answers.lemma_filter_push(
            answer,
            |a: LineAnswer| contribution(a, boundary) == Some(author),
        );
    }
    assert(attributed(answers.push(answer), boundary) =~= expected);
}

/// Lines that are all attributed to one contributor give a map with that
/// contributor alone, and as many lines as were answered for.
pub proof fn lemma_single_author(
    answers: Seq<LineAnswer>,
    boundary: Option<RevisionId>,
    author: AuthorKey,
)
    requires
        answers.len() > 0,
        forall|i: int|
            0 <= i < answers.len() ==> contribution(#[trigger] answers[i], boundary) == Some(
                author,
            ),
    ensures
        attributed(answers, boundary) == LineCounts::empty().insert(author, answers.len()),
    decreases answers.len(),
{
    let rest = answers.drop_last();
    assert(rest.push(answers.last()) =~= answers);
    lemma_attributed_push(rest, answers.last(), boundary);
    if rest.len() == 0 {
        assert(attributed(rest, boundary) =~= LineCounts::empty());
    } else {
        lemma_single_author(rest, boundary, author);
    }
    assert(attributed(answers, boundary) =~= LineCounts::empty().insert(author, answers.len()));
}

/// Lines that are attributed alike, one by one, give the same attribution
/// map.
pub proof fn lemma_attributed_agree(
    a: Seq<LineAnswer>,
    a_boundary: Option<RevisionId>,
    b: Seq<LineAnswer>,
    b_boundary: Option<RevisionId>,
)
    requires
        a.len() == b.len(),
        forall|i: int|
            0 <= i < a.len() ==> contribution(#[trigger] a[i], a_boundary) == contribution(
                b[i],
                b_boundary,
            ),
    ensures
        attributed(a, a_boundary) == attributed(b, b_boundary),
    decreases a.len(),
{
    if a.len() == 0 {
        assert(a =~= b);
        assert(attributed(a, a_boundary) =~= attributed(b, b_boundary));
    } else {
        lemma_attributed_agree(a.drop_last(), a_boundary, b.drop_last(), b_boundary);
        lemma_attributed_push(a.drop_last(), a.last(), a_boundary);
        lemma_attributed_push(b.drop_last(), b.last(), b_boundary);
        assert(a.drop_last().push(a.last()) =~= a);
        assert(b.drop_last().push(b.last()) =~= b);
        assert(contribution(a[a.len() - 1], a_boundary) == contribution(
            b[a.len() - 1],
            b_boundary,
        ));
    }
}

/// What a blame of a line says, as far as the attribution reads it: the
/// commit and the contributor.
pub open spec fn said_of(blamed: Option<BlameLine>) -> Option<(RevisionId, Option<AuthorKey>)> {
    match blamed {
        Some(line) => Some((line.commit, signed_by(line.author))),
        None => None,
    }
}

/// What blame says of the line of an answer.
pub open spec fn blame_read(answer: LineAnswer) -> Option<(RevisionId, Option<AuthorKey>)> {
    said_of(answer.blame)
}

/// Without a boundary the attribution of a file is decided by blame alone:
/// whatever else was answered, lines with the same blame give the same map.
pub proof fn lemma_attributed_by_blame(a: Seq<LineAnswer>, b: Seq<LineAnswer>)
    requires
        a.len() == b.len(),
        forall|i: int| 0 <= i < a.len() ==> blame_read(#[trigger] a[i]) == blame_read(b[i]),
    ensures
        attributed(a, None) == attributed(b, None),
{
    assert forall|i: int| 0 <= i < a.len() implies contribution(#[trigger] a[i], None)
        == contribution(b[i], None) by {
        assert(blame_read(a[i]) == blame_read(b[i]));
    }
    lemma_attributed_agree(a, None, b, None);
}

/// The contributor to whom a line is attributed, if it is attributed.
pub fn line_author<'a>(answer: &'a LineAnswer, boundary: &Option<RevisionId>) -> (author: Option<
    &'a AuthorIdentity,
>)
    ensures
        signed_by_ref(author) == contribution(*answer, *boundary),
{
    match &answer.blame {
        None => None,
        Some(line) => {
            let admitted = match boundary {
                Some(stop) => boundary_admits(stop, &line.commit, &answer.merge_base),
                None => true,
            };
            if admitted {
                match &line.author {
                    Some(identity) => Some(identity),
                    None => None,
                }
            } else {
                None
            }
        },
    }
}

/// The contributor that a borrowed signature names.
pub open spec fn signed_by_ref(author: Option<&AuthorIdentity>) -> Option<AuthorKey> {
    match author {
        Some(identity) => Some(identity@),
        None => None,
    }
}

/// Counts the lines of one file by the contributor to whom each is
/// attributed.
pub fn attribute_lines(answers: &Vec<LineAnswer>, boundary: &Option<RevisionId>) -> (partial:
    AttributionMap)
    ensures
        partial@ == attributed(answers@, *boundary),
{
    let mut partial = AttributionMap::new();
    let mut i: usize = 0;
    assert(answers@.take(0) =~= Seq::<LineAnswer>::empty());
    assert(attributed(Seq::<LineAnswer>::empty(), *boundary) =~= LineCounts::empty());
    while i < answers.len()
        invariant
            0 <= i <= answers@.len(),
            partial@ == attributed(answers@.take(i as int), *boundary),
        decreases answers@.len() - i,
    {
        proof {
            assert(answers@.take(i as int).push(answers@[i as int]) =~= answers@.take(i + 1));
            lemma_attributed_push(answers@.take(i as int), answers@[i as int], *boundary);
        }
        match line_author(&answers[i], boundary) {
            Some(identity) => {
                proof {
                    lemma_lines_of_bound(answers@.take(i as int), *boundary, identity@);
                }
                partial.record_line(identity.clone());
            },
            None => {},
        }
        i += 1;
    }
    assert(answers@.take(i as int) =~= answers@);
    partial
}

} // verus!

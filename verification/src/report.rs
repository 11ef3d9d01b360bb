//! The report: the contributors ranked by the lines attributed to them, and
//! the line of text that shows each.
//!
//! Contributors with more lines come first. Contributors with equally many
//! lines are ordered by name and then by e-mail address, an unknown field
//! before a known one, and known fields by their UTF-8 bytes. The report is
//! thereby determined by the attribution map alone.

use crate::attribution::{
    author_at, distinct_authors, entry_counts, entry_of, has_entry, lemma_entry_counts_at,
    AttributionMap, AuthorLines,
};
use crate::author::{same_text, text_of, AuthorKey};
use vstd::prelude::*;
use vstd::utf8::{encode_utf8, encode_utf8_decode_utf8};

verus! {

/// The strict lexicographic order of byte strings.
pub open spec fn bytes_before(a: Seq<u8>, b: Seq<u8>) -> bool
    decreases a.len(),
{
    if b.len() == 0 {
        false
    } else if a.len() == 0 {
        true
    } else if a[0] != b[0] {
        a[0] < b[0]
    } else {
        bytes_before(a.drop_first(), b.drop_first())
    }
}

/// The order of text fields: an unknown field before every known one, and
/// known fields by their UTF-8 bytes.
pub open spec fn text_before(a: Option<Seq<char>>, b: Option<Seq<char>>) -> bool {
    match (a, b) {
        (None, None) => false,
        (None, Some(_)) => true,
        (Some(_), None) => false,
        (Some(x), Some(y)) => bytes_before(encode_utf8(x), encode_utf8(y)),
    }
}

/// The order of contributors: by name, then by e-mail address.
pub open spec fn author_before(a: AuthorKey, b: AuthorKey) -> bool {
    text_before(a.name, b.name) || (a.name == b.name && text_before(a.email, b.email))
}

/// The order of the report: more lines first, and among contributors with
/// equally many lines the order of contributors.
pub open spec fn ranks_before(a: AuthorLines, b: AuthorLines) -> bool {
    a.lines > b.lines || (a.lines == b.lines && author_before(a.author@, b.author@))
}

/// No entry comes after one that it ranks before.
pub open spec fn ranked_order(entries: Seq<AuthorLines>) -> bool {
    forall|i: int, j: int|
        0 <= i < j < entries.len() ==> !ranks_before(#[trigger] entries[j], #[trigger] entries[i])
}

/// Byte strings that agree on their first `n` bytes are ordered as what
/// follows those bytes.
proof fn lemma_bytes_before_skip(a: Seq<u8>, b: Seq<u8>, n: int)
    requires
        0 <= n <= a.len(),
        n <= b.len(),
        forall|i: int| 0 <= i < n ==> a[i] == b[i],
    ensures
        bytes_before(a, b) == bytes_before(a.skip(n), b.skip(n)),
    decreases n,
{
    if n == 0 {
        assert(a.skip(0) =~= a);
        assert(b.skip(0) =~= b);
    } else {
        assert(a[0] == b[0]);
        lemma_bytes_before_skip(a.drop_first(), b.drop_first(), n - 1);
        assert(a.drop_first().skip(n - 1) =~= a.skip(n));
        assert(b.drop_first().skip(n - 1) =~= b.skip(n));
    }
}

/// The order of byte strings is transitive.
pub proof fn lemma_bytes_before_transitive(a: Seq<u8>, b: Seq<u8>, c: Seq<u8>)
    requires
        bytes_before(a, b),
        bytes_before(b, c),
    ensures
        bytes_before(a, c),
    decreases a.len(),
{
    if a.len() > 0 && a[0] == b[0] && b[0] == c[0] {
        lemma_bytes_before_transitive(a.drop_first(), b.drop_first(), c.drop_first());
    }
}

/// No byte string comes before itself.
pub proof fn lemma_bytes_before_irreflexive(a: Seq<u8>)
    ensures
        !bytes_before(a, a),
    decreases a.len(),
{
    if a.len() > 0 {
        lemma_bytes_before_irreflexive(a.drop_first());
    }
}

/// No entry ranks before itself.
pub proof fn lemma_ranks_before_irreflexive(a: AuthorLines)
    ensures
        !ranks_before(a, a),
{
    let author = a.author@;
    if author.name is Some {
        lemma_bytes_before_irreflexive(encode_utf8(author.name->0));
    }
    if author.email is Some {
        lemma_bytes_before_irreflexive(encode_utf8(author.email->0));
    }
}

/// The order of the report is transitive.
pub proof fn lemma_ranks_before_transitive(a: AuthorLines, b: AuthorLines, c: AuthorLines)
    requires
        ranks_before(a, b),
        ranks_before(b, c),
    ensures
        ranks_before(a, c),
{
    if a.lines == b.lines && b.lines == c.lines {
        let (x, y, z) = (a.author@, b.author@, c.author@);
        if text_before(x.name, y.name) {
            if text_before(y.name, z.name) {
                lemma_text_before_transitive(x.name, y.name, z.name);
            }
        } else if !text_before(y.name, z.name) {
            lemma_text_before_transitive(x.email, y.email, z.email);
        }
    }
}

/// The order of text fields is transitive.
proof fn lemma_text_before_transitive(
    a: Option<Seq<char>>,
    b: Option<Seq<char>>,
    c: Option<Seq<char>>,
)
    requires
        text_before(a, b),
        text_before(b, c),
    ensures
        text_before(a, c),
{
    if a is Some {
        lemma_bytes_before_transitive(
            encode_utf8(a->0),
            encode_utf8(b->0),
            encode_utf8(c->0),
        );
    }
}

/// Of two different byte strings one comes before the other.
pub proof fn lemma_bytes_before_total(a: Seq<u8>, b: Seq<u8>)
    ensures
        a == b || bytes_before(a, b) || bytes_before(b, a),
    decreases a.len(),
{
    if a.len() == 0 || b.len() == 0 {
        if a.len() == b.len() {
            assert(a =~= b);
        }
    } else if a[0] == b[0] {
        lemma_bytes_before_total(a.drop_first(), b.drop_first());
        if a.drop_first() == b.drop_first() {
            assert(a =~= seq![a[0]] + a.drop_first());
            assert(b =~= seq![b[0]] + b.drop_first());
        }
    }
}

/// Of two different text fields one comes before the other.
proof fn lemma_text_before_total(a: Option<Seq<char>>, b: Option<Seq<char>>)
    ensures
        a == b || text_before(a, b) || text_before(b, a),
{
    if a is Some && b is Some {
        lemma_bytes_before_total(encode_utf8(a->0), encode_utf8(b->0));
        encode_utf8_decode_utf8(a->0);
        encode_utf8_decode_utf8(b->0);
    }
}

/// Of two different contributors one comes before the other.
pub proof fn lemma_author_before_total(a: AuthorKey, b: AuthorKey)
    ensures
        a == b || author_before(a, b) || author_before(b, a),
{
    lemma_text_before_total(a.name, b.name);
    lemma_text_before_total(a.email, b.email);
}

/// Of two entries of different contributors one ranks before the other.
pub proof fn lemma_ranks_before_total(a: AuthorLines, b: AuthorLines)
    ensures
        a.author@ == b.author@ || ranks_before(a, b) || ranks_before(b, a),
{
    lemma_author_before_total(a.author@, b.author@);
}

/// Every entry ranks before all that come after it.
pub open spec fn strictly_ranked(entries: Seq<AuthorLines>) -> bool {
    forall|i: int, j: int|
        0 <= i < j < entries.len() ==> ranks_before(#[trigger] entries[i], #[trigger] entries[j])
}

/// Entries of different contributors that are in the order of the report
/// are strictly so.
pub proof fn lemma_ranked_strictly(entries: Seq<AuthorLines>)
    requires
        distinct_authors(entries),
        ranked_order(entries),
    ensures
        strictly_ranked(entries),
{
    assert forall|i: int, j: int| 0 <= i < j < entries.len() implies ranks_before(
        #[trigger] entries[i],
        #[trigger] entries[j],
    ) by {
        assert(author_at(entries, i) != author_at(entries, j));
        lemma_ranks_before_total(entries[i], entries[j]);
    }
}

/// The place of the contributor of one list in another list of the same
/// attribution map is at or after their place in the first.
proof fn lemma_place_not_before(a: Seq<AuthorLines>, b: Seq<AuthorLines>, i: int)
    requires
        distinct_authors(a),
        distinct_authors(b),
        entry_counts(a) == entry_counts(b),
        strictly_ranked(a),
        strictly_ranked(b),
        0 <= i < a.len(),
    ensures
        has_entry(b, author_at(a, i)),
        i <= entry_of(b, author_at(a, i)) < b.len(),
        b[entry_of(b, author_at(a, i))].lines == a[i].lines,
    decreases i,
{
    lemma_entry_counts_at(a, i);
    assert(entry_counts(b).dom().contains(author_at(a, i)));
    let at = entry_of(b, author_at(a, i));
    assert(author_at(b, at) == author_at(a, i));
    lemma_entry_counts_at(b, at);
    if i > 0 {
        lemma_place_not_before(a, b, i - 1);
        let before = entry_of(b, author_at(a, i - 1));
        assert(author_at(b, before) == author_at(a, i - 1));
        assert(ranks_before(a[i - 1], a[i]));
        assert(ranks_before(b[before], b[at]));
        if at < before {
            assert(ranks_before(b[at], b[before]));
            lemma_ranks_before_transitive(b[at], b[before], b[at]);
            lemma_ranks_before_irreflexive(b[at]);
        } else if at == before {
            lemma_ranks_before_irreflexive(b[at]);
        }
    }
}

/// The report is determined by the attribution map: two lists that hold
/// every contributor of the same map once, both in the order of the report,
/// name the same contributors with the same lines at every place.
pub proof fn lemma_ranking_unique(a: Seq<AuthorLines>, b: Seq<AuthorLines>)
    requires
        distinct_authors(a),
        distinct_authors(b),
        entry_counts(a) == entry_counts(b),
        ranked_order(a),
        ranked_order(b),
    ensures
        a.len() == b.len(),
        forall|i: int|
            0 <= i < a.len() ==> #[trigger] author_at(a, i) == author_at(b, i) && a[i].lines
                == b[i].lines,
{
    lemma_ranked_strictly(a);
    lemma_ranked_strictly(b);
    if a.len() > 0 {
        lemma_place_not_before(a, b, a.len() - 1);
    }
    if b.len() > 0 {
        lemma_place_not_before(b, a, b.len() - 1);
    }
    assert forall|i: int| 0 <= i < a.len() implies #[trigger] author_at(a, i) == author_at(b, i)
        && a[i].lines == b[i].lines by {
        lemma_place_not_before(a, b, i);
        let there = entry_of(b, author_at(a, i));
        assert(author_at(b, there) == author_at(a, i));
        lemma_place_not_before(b, a, there);
        let back = entry_of(a, author_at(b, there));
        assert(author_at(a, back) == author_at(a, i));
        if back < i {
            assert(author_at(a, back) != author_at(a, i));
        } else if i < back {
            assert(author_at(a, i) != author_at(a, back));
        }
    }
}

/// Whether one byte string comes before another.
fn bytes_precede(a: &[u8], b: &[u8]) -> (before: bool)
    ensures
        before == bytes_before(a@, b@),
{
    let mut i: usize = 0;
    while i < a.len() && i < b.len()
        invariant
            0 <= i <= a@.len(),
            i <= b@.len(),
            forall|j: int| 0 <= j < i ==> a@[j] == b@[j],
        decreases a@.len() - i,
    {
        if a[i] != b[i] {
            proof {
                lemma_bytes_before_skip(a@, b@, i as int);
            }
            return a[i] < b[i];
        }
        i += 1;
    }
    proof {
        lemma_bytes_before_skip(a@, b@, i as int);
    }
    i < b.len()
}

/// Whether one text field comes before another.
fn text_precedes(a: &Option<String>, b: &Option<String>) -> (before: bool)
    ensures
        before == text_before(text_of(*a), text_of(*b)),
{
    match a {
        None => b.is_some(),
        Some(x) => match b {
            None => false,
            Some(y) => bytes_precede(x.as_str().as_bytes(), y.as_str().as_bytes()),
        },
    }
}

/// Whether one entry comes before another in the report.
pub fn precedes(a: &AuthorLines, b: &AuthorLines) -> (before: bool)
    ensures
        before == ranks_before(*a, *b),
{
    if a.lines != b.lines {
        return a.lines > b.lines;
    }
    if text_precedes(&a.author.name, &b.author.name) {
        return true;
    }
    same_text(&a.author.name, &b.author.name) && text_precedes(
        &a.author.email,
        &b.author.email,
    )
}

/// Puts the entries in the order of the report. The result holds the same
/// entries, each as often as the list did.
pub fn rank(entries: Vec<AuthorLines>) -> (ranked: Vec<AuthorLines>)
    ensures
        ranked@.to_multiset() == entries@.to_multiset(),
        ranked_order(ranked@),
{
    let mut rest = entries;
    let mut ranked: Vec<AuthorLines> = Vec::new();
    assert(ranked@.to_multiset().add(rest@.to_multiset()) =~= entries@.to_multiset()) by {
        broadcast use vstd::seq_lib::group_to_multiset_ensures;

    }
    while rest.len() > 0
        invariant
            ranked@.to_multiset().add(rest@.to_multiset()) == entries@.to_multiset(),
            ranked_order(ranked@),
        decreases rest@.len(),
    {
        let ghost held = rest@;
        let ghost sorted = ranked@;
        let entry = rest.pop().unwrap();
        let mut at: usize = 0;
        let mut found = false;
        while at < ranked.len() && !found
            invariant
                0 <= at <= ranked@.len(),
                ranked@ == sorted,
                forall|i: int| 0 <= i < at ==> !ranks_before(entry, #[trigger] ranked@[i]),
                found ==> at < ranked@.len() && ranks_before(entry, ranked@[at as int]),
            decreases ranked@.len() - at + (if found { 0int } else { 1int }),
        {
            if precedes(&entry, &ranked[at]) {
                found = true;
            } else {
                at += 1;
            }
        }
        ranked.insert(at, entry);
        proof {
            let after = ranked@;
            assert forall|i: int, j: int| 0 <= i < j < after.len() implies !ranks_before(
                #[trigger] after[j],
                #[trigger] after[i],
            ) by {
                if j == at {
                    assert(after[i] == sorted[i]);
                } else if i == at {
                    assert(after[j] == sorted[j - 1]);
                    if ranks_before(sorted[j - 1], entry) {
                        lemma_ranks_before_transitive(sorted[j - 1], entry, sorted[at as int]);
                        lemma_ranks_before_irreflexive(sorted[at as int]);
                    }
                } else {
                    let from = if i < at {
                        i
                    } else {
                        i - 1
                    };
                    let to = if j < at {
                        j
                    } else {
                        j - 1
                    };
                    assert(after[i] == sorted[from]);
                    assert(after[j] == sorted[to]);
                }
            }
            assert(held =~= rest@.push(entry));
            vstd::seq_lib::to_multiset_build(rest@, entry);
            vstd::seq_lib::to_multiset_insert(sorted, at as int, entry);
            assert(ranked@.to_multiset().add(rest@.to_multiset()) =~= sorted.to_multiset().add(
                held.to_multiset(),
            ));
        }
    }
    assert(ranked@.to_multiset().add(rest@.to_multiset()) =~= ranked@.to_multiset()) by {
        broadcast use vstd::seq_lib::group_to_multiset_ensures;

    }
    ranked
}

/// Lists that hold the same entries equally often stand for the same
/// attribution map, where no contributor has two entries.
pub proof fn lemma_same_entries_same_counts(a: Seq<AuthorLines>, b: Seq<AuthorLines>)
    requires
        a.to_multiset() == b.to_multiset(),
        distinct_authors(a),
    ensures
        distinct_authors(b),
        entry_counts(a) == entry_counts(b),
{
    broadcast use vstd::seq_lib::group_to_multiset_ensures;

    assert(a.no_duplicates()) by {
        assert forall|p: int, q: int| 0 <= p < a.len() && 0 <= q < a.len() && p != q implies a[p]
            != a[q] by {
            if p < q {
                assert(author_at(a, p) != author_at(a, q));
            } else {
                assert(author_at(a, q) != author_at(a, p));
            }
        }
    }
    a.lemma_multiset_has_no_duplicates();
    b.lemma_multiset_has_no_duplicates_conv();
    assert forall|i: int| 0 <= i < b.len() implies has_entry(a, #[trigger] author_at(b, i))
        && a[entry_of(a, author_at(b, i))] == b[i] by {
        assert(b.contains(b[i]));
        assert(a.to_multiset().count(b[i]) > 0);
        assert(a.contains(b[i]));
        let x = choose|x: int| 0 <= x < a.len() && a[x] == b[i];
        assert(author_at(a, x) == author_at(b, i));
        let y = entry_of(a, author_at(b, i));
        assert(author_at(a, y) == author_at(a, x));
        if x < y {
            assert(author_at(a, x) != author_at(a, y));
        } else if y < x {
            assert(author_at(a, y) != author_at(a, x));
        }
    }
    assert forall|i: int| 0 <= i < a.len() implies has_entry(b, #[trigger] author_at(a, i)) by {
        assert(a.contains(a[i]));
        assert(b.to_multiset().count(a[i]) > 0);
        assert(b.contains(a[i]));
        let x = choose|x: int| 0 <= x < b.len() && b[x] == a[i];
        assert(author_at(b, x) == author_at(a, i));
    }
    assert forall|i: int, j: int| 0 <= i < j < b.len() implies #[trigger] author_at(b, i)
        != #[trigger] author_at(b, j) by {
        if author_at(b, i) == author_at(b, j) {
            assert(a[entry_of(a, author_at(b, i))] == b[i]);
            assert(a[entry_of(a, author_at(b, j))] == b[j]);
            assert(b[i] == b[j]);
        }
    }
    assert forall|author: AuthorKey| #[trigger]
        entry_counts(a).dom().contains(author) == entry_counts(b).dom().contains(author) by {
        if has_entry(a, author) {
            let i = entry_of(a, author);
            assert(has_entry(b, author_at(a, i)));
        }
        if has_entry(b, author) {
            let i = entry_of(b, author);
            assert(has_entry(a, author_at(b, i)));
        }
    }
    assert forall|author: AuthorKey| #[trigger]
        entry_counts(a).dom().contains(author) implies entry_counts(a)[author] == entry_counts(
        b,
    )[author] by {
        assert(has_entry(b, author));
        let j = entry_of(b, author);
        assert(a[entry_of(a, author_at(b, j))] == b[j]);
    }
    assert(entry_counts(a) =~= entry_counts(b));
}

/// The entries of an attribution map in the order of the report: every
/// contributor of the map once, with the lines attributed to them.
pub fn ranked(map: &AttributionMap) -> (entries: Vec<AuthorLines>)
    ensures
        distinct_authors(entries@),
        entry_counts(entries@) == map@,
        strictly_ranked(entries@),
{
    let listed = map.entries();
    let entries = rank(listed);
    proof {
        lemma_same_entries_same_counts(listed@, entries@);
        lemma_ranked_strictly(entries@);
    }
    entries
}

/// The decimal digit of a number below ten.
pub open spec fn digit_char(digit: nat) -> char {
    if digit == 0 {
        '0'
    } else if digit == 1 {
        '1'
    } else if digit == 2 {
        '2'
    } else if digit == 3 {
        '3'
    } else if digit == 4 {
        '4'
    } else if digit == 5 {
        '5'
    } else if digit == 6 {
        '6'
    } else if digit == 7 {
        '7'
    } else if digit == 8 {
        '8'
    } else {
        '9'
    }
}

/// The decimal numeral of a number, without leading zeros.
pub open spec fn decimal(number: nat) -> Seq<char>
    decreases number,
{
    if number < 10 {
        seq![digit_char(number)]
    } else {
        decimal(number / 10).push(digit_char(number % 10))
    }
}

/// What is shown for a text field: the text, or a question mark where it is
/// unknown.
pub open spec fn shown(field: Option<Seq<char>>) -> Seq<char> {
    match field {
        Some(text) => text,
        None => seq!['?'],
    }
}

/// The line of the report for a contributor: the number of lines, a tab, the
/// name, a space and the e-mail address in angle brackets.
pub open spec fn line_text(lines: nat, author: AuthorKey) -> Seq<char> {
    decimal(lines) + seq!['\t'] + shown(author.name) + seq![' ', '<'] + shown(author.email)
        + seq!['>']
}

/// The text of a decimal digit.
fn digit_text(digit: u64) -> (text: &'static str)
    requires
        digit < 10,
    ensures
        text@ == seq![digit_char(digit as nat)],
{
    proof {
        reveal_strlit("0");
        reveal_strlit("1");
        reveal_strlit("2");
        reveal_strlit("3");
        reveal_strlit("4");
        reveal_strlit("5");
        reveal_strlit("6");
        reveal_strlit("7");
        reveal_strlit("8");
        reveal_strlit("9");
    }
    let text = if digit == 0 {
        "0"
    } else if digit == 1 {
        "1"
    } else if digit == 2 {
        "2"
    } else if digit == 3 {
        "3"
    } else if digit == 4 {
        "4"
    } else if digit == 5 {
        "5"
    } else if digit == 6 {
        "6"
    } else if digit == 7 {
        "7"
    } else if digit == 8 {
        "8"
    } else {
        "9"
    };
    assert(text@ =~= seq![digit_char(digit as nat)]);
    text
}

/// The decimal numeral of a number.
pub fn decimal_text(number: u64) -> (text: String)
    ensures
        text@ == decimal(number as nat),
    decreases number,
{
    if number < 10 {
        digit_text(number).to_owned()
    } else {
        let text = decimal_text(number / 10).concat(digit_text(number % 10));
        assert(text@ =~= decimal(number as nat));
        text
    }
}

/// What is shown for a text field.
pub fn display_text(field: &Option<String>) -> (text: String)
    ensures
        text@ == shown(text_of(*field)),
{
    match field {
        Some(known) => known.clone(),
        None => {
            proof {
                reveal_strlit("?");
            }
            let text = "?".to_owned();
            assert(text@ =~= seq!['?']);
            text
        },
    }
}

/// The line of the report for one entry.
pub fn report_line(entry: &AuthorLines) -> (line: String)
    ensures
        line@ == line_text(entry.lines as nat, entry.author@),
{
    proof {
        reveal_strlit("\t");
        reveal_strlit(" <");
        reveal_strlit(">");
    }
    let name = display_text(&entry.author.name);
    let email = display_text(&entry.author.email);
    let line = decimal_text(entry.lines).concat("\t").concat(name.as_str()).concat(" <").concat(
        email.as_str(),
    ).concat(">");
    assert(line@ =~= line_text(entry.lines as nat, entry.author@));
    line
}

/// The lines of a report: one line for every entry, in the order of the
/// entries.
pub fn report_lines(entries: &Vec<AuthorLines>) -> (lines: Vec<String>)
    ensures
        lines@.len() == entries@.len(),
        forall|i: int|
            0 <= i < entries@.len() ==> (#[trigger] lines@[i])@ == line_text(
                entries@[i].lines as nat,
                entries@[i].author@,
            ),
{
    let mut lines: Vec<String> = Vec::new();
    let mut i: usize = 0;
    while i < entries.len()
        invariant
            0 <= i <= entries@.len(),
            lines@.len() == i,
            forall|j: int|
                0 <= j < i ==> (#[trigger] lines@[j])@ == line_text(
                    entries@[j].lines as nat,
                    entries@[j].author@,
                ),
        decreases entries@.len() - i,
    {
        lines.push(report_line(&entries[i]));
        i += 1;
    }
    lines
}

} // verus!

use pr_authors::author::AuthorIdentity;
use pr_authors::lines::{attribute_lines, line_author, BlameLine, LineAnswer};
use pr_authors::revision::RevisionId;

fn rev(byte: u8) -> RevisionId {
    RevisionId::from_bytes([byte; 20])
}

fn author(name: &str) -> AuthorIdentity {
    AuthorIdentity::new(Some(name.to_string()), Some(format!("{}@example.org", name)))
}

fn blamed(line: u64, commit: u8, name: &str, merge_base: Option<u8>) -> LineAnswer {
    LineAnswer {
        line,
        blame: Some(BlameLine { commit: rev(commit), author: Some(author(name)) }),
        merge_base: merge_base.map(rev),
    }
}

fn uncovered(line: u64) -> LineAnswer {
    LineAnswer { line, blame: None, merge_base: None }
}

fn unsigned(line: u64, commit: u8) -> LineAnswer {
    LineAnswer { line, blame: Some(BlameLine { commit: rev(commit), author: None }), merge_base: None }
}

#[test]
fn no_lines_attribute_nothing() {
    assert!(attribute_lines(&vec![], &None).is_empty());
    assert!(attribute_lines(&vec![], &Some(rev(1))).is_empty());
}

#[test]
fn two_hunks_of_one_author_give_one_entry_with_all_their_lines() {
    let mut answers = Vec::new();
    for line in 1..4 {
        answers.push(blamed(line, 9, "ann", None));
    }
    for line in 8..11 {
        answers.push(blamed(line, 9, "ann", None));
    }
    let partial = attribute_lines(&answers, &None);
    assert_eq!(partial.entries().len(), 1);
    assert_eq!(partial.lines_for(&author("ann")), 6);
}

#[test]
fn every_line_counts_for_the_author_of_its_commit() {
    let answers = vec![
        blamed(3, 1, "ann", None),
        blamed(4, 2, "bob", None),
        blamed(5, 1, "ann", None),
        blamed(6, 3, "ann", None),
    ];
    let partial = attribute_lines(&answers, &None);
    assert_eq!(partial.lines_for(&author("ann")), 3);
    assert_eq!(partial.lines_for(&author("bob")), 1);
    assert_eq!(partial.entries().len(), 2);
}

#[test]
fn a_line_that_blame_does_not_cover_is_left_out() {
    let answers = vec![blamed(3, 1, "ann", None), uncovered(4), uncovered(5)];
    let partial = attribute_lines(&answers, &None);
    assert_eq!(partial.lines_for(&author("ann")), 1);
    assert_eq!(partial.entries().len(), 1);
    assert_eq!(line_author(&uncovered(4), &None), None);
    assert_eq!(line_author(&uncovered(4), &Some(rev(1))), None);
}

#[test]
fn a_line_without_a_signature_is_left_out() {
    let answers = vec![unsigned(3, 1), blamed(4, 1, "ann", None), unsigned(5, 2)];
    let partial = attribute_lines(&answers, &None);
    assert_eq!(partial.lines_for(&author("ann")), 1);
    assert_eq!(partial.lines_for(&AuthorIdentity::unknown()), 0);
    assert_eq!(partial.entries().len(), 1);
}

#[test]
fn a_signature_without_name_and_address_counts_for_the_unknown_author() {
    let answers = vec![
        LineAnswer {
            line: 1,
            blame: Some(BlameLine { commit: rev(1), author: Some(AuthorIdentity::unknown()) }),
            merge_base: None,
        },
        LineAnswer {
            line: 2,
            blame: Some(BlameLine {
                commit: rev(1),
                author: Some(AuthorIdentity::new(Some("ann".to_string()), None)),
            }),
            merge_base: None,
        },
    ];
    let partial = attribute_lines(&answers, &None);
    assert_eq!(partial.lines_for(&AuthorIdentity::unknown()), 1);
    assert_eq!(partial.lines_for(&AuthorIdentity::new(Some("ann".to_string()), None)), 1);
}

#[test]
fn the_boundary_admits_its_strict_descendants_only() {
    let boundary = Some(rev(5));
    let answers = vec![
        blamed(1, 5, "at_the_boundary", Some(5)),
        blamed(2, 6, "descendant", Some(5)),
        blamed(3, 6, "descendant", Some(5)),
        blamed(4, 7, "divergent", Some(2)),
        blamed(5, 8, "unrelated", None),
        blamed(6, 4, "older", Some(4)),
    ];
    let partial = attribute_lines(&answers, &boundary);
    assert_eq!(partial.lines_for(&author("descendant")), 2);
    assert_eq!(partial.entries().len(), 1);
    assert_eq!(line_author(&answers[0], &boundary), None);
    assert_eq!(line_author(&answers[1], &boundary), Some(&author("descendant")));
    assert_eq!(line_author(&answers[3], &boundary), None);
    assert_eq!(line_author(&answers[4], &boundary), None);
    assert_eq!(line_author(&answers[5], &boundary), None);
}

#[test]
fn without_a_boundary_the_merge_base_is_not_read() {
    let answers = vec![
        blamed(1, 5, "ann", Some(5)),
        blamed(2, 6, "ann", None),
        blamed(3, 7, "bob", Some(2)),
    ];
    let partial = attribute_lines(&answers, &None);
    assert_eq!(partial.lines_for(&author("ann")), 2);
    assert_eq!(partial.lines_for(&author("bob")), 1);
    let stripped: Vec<LineAnswer> = answers
        .iter()
        .map(|answer| LineAnswer { line: answer.line, blame: answer.blame.clone(), merge_base: None })
        .collect();
    assert_eq!(attribute_lines(&stripped, &None), partial);
}

#[test]
fn attributing_the_same_answers_twice_gives_the_same_map() {
    let answers = vec![blamed(1, 5, "ann", Some(5)), blamed(2, 6, "bob", Some(5)), uncovered(3)];
    assert_eq!(attribute_lines(&answers, &Some(rev(5))), attribute_lines(&answers, &Some(rev(5))));
    assert_eq!(attribute_lines(&answers, &None), attribute_lines(&answers, &None));
}

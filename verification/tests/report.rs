use pr_authors::attribution::{AttributionMap, AuthorLines};
use pr_authors::author::AuthorIdentity;
use pr_authors::report::{
    decimal_text, display_text, precedes, rank, ranked, report_line, report_lines,
};

fn entry(name: Option<&str>, email: Option<&str>, lines: u64) -> AuthorLines {
    AuthorLines {
        author: AuthorIdentity::new(name.map(String::from), email.map(String::from)),
        lines,
    }
}

fn shown(entries: &Vec<AuthorLines>) -> Vec<String> {
    report_lines(entries)
}

#[test]
fn numbers_are_written_in_decimal() {
    assert_eq!(decimal_text(0), "0");
    assert_eq!(decimal_text(7), "7");
    assert_eq!(decimal_text(10), "10");
    assert_eq!(decimal_text(1234567890), "1234567890");
    assert_eq!(decimal_text(100200), "100200");
    assert_eq!(decimal_text(u64::MAX), "18446744073709551615");
}

#[test]
fn an_unknown_field_is_shown_as_a_question_mark() {
    assert_eq!(display_text(&None), "?");
    assert_eq!(display_text(&Some("Ann".to_string())), "Ann");
    assert_eq!(display_text(&Some(String::new())), "");
}

#[test]
fn a_line_shows_the_count_the_name_and_the_address() {
    assert_eq!(
        report_line(&entry(Some("Ann Lee"), Some("ann@example.org"), 12)),
        "12\tAnn Lee <ann@example.org>"
    );
    assert_eq!(report_line(&entry(None, Some("ann@example.org"), 1)), "1\t? <ann@example.org>");
    assert_eq!(report_line(&entry(Some("Ann"), None, 3)), "3\tAnn <?>");
    assert_eq!(report_line(&entry(None, None, 40)), "40\t? <?>");
    assert_eq!(report_line(&entry(Some("Zoë"), Some("zoë@example.org"), 2)), "2\tZoë <zoë@example.org>");
}

#[test]
fn more_lines_come_first() {
    let ranked = rank(vec![
        entry(Some("a"), Some("a@x"), 1),
        entry(Some("b"), Some("b@x"), 30),
        entry(Some("c"), Some("c@x"), 2),
        entry(Some("d"), Some("d@x"), 100),
    ]);
    assert_eq!(shown(&ranked), vec!["100\td <d@x>", "30\tb <b@x>", "2\tc <c@x>", "1\ta <a@x>"]);
}

#[test]
fn equal_counts_are_ordered_by_name_and_then_by_address() {
    let ranked = rank(vec![
        entry(Some("bob"), Some("b@x"), 5),
        entry(Some("ann"), Some("z@x"), 5),
        entry(None, Some("n@x"), 5),
        entry(Some("ann"), Some("a@x"), 5),
        entry(Some("ann"), None, 5),
        entry(Some("an"), Some("z@x"), 5),
        entry(None, None, 5),
        entry(Some("Bob"), Some("b@x"), 5),
        entry(Some(""), Some(""), 5),
        entry(Some("zed"), Some("z@x"), 6),
    ]);
    assert_eq!(
        shown(&ranked),
        vec![
            "6\tzed <z@x>",
            "5\t? <?>",
            "5\t? <n@x>",
            "5\t <>",
            "5\tBob <b@x>",
            "5\tan <z@x>",
            "5\tann <?>",
            "5\tann <a@x>",
            "5\tann <z@x>",
            "5\tbob <b@x>",
        ]
    );
}

#[test]
fn the_order_before_ranking_does_not_matter() {
    let forwards = rank(vec![
        entry(Some("a"), Some("a@x"), 2),
        entry(Some("b"), Some("b@x"), 2),
        entry(Some("c"), Some("c@x"), 9),
    ]);
    let backwards = rank(vec![
        entry(Some("c"), Some("c@x"), 9),
        entry(Some("b"), Some("b@x"), 2),
        entry(Some("a"), Some("a@x"), 2),
    ]);
    assert_eq!(shown(&forwards), shown(&backwards));
    assert_eq!(shown(&forwards), vec!["9\tc <c@x>", "2\ta <a@x>", "2\tb <b@x>"]);
}

#[test]
fn an_entry_precedes_one_with_fewer_lines_or_a_later_name() {
    assert!(precedes(&entry(Some("b"), None, 3), &entry(Some("a"), None, 2)));
    assert!(!precedes(&entry(Some("a"), None, 2), &entry(Some("b"), None, 3)));
    assert!(precedes(&entry(Some("a"), None, 2), &entry(Some("b"), None, 2)));
    assert!(!precedes(&entry(Some("b"), None, 2), &entry(Some("a"), None, 2)));
    assert!(precedes(&entry(Some("a"), None, 2), &entry(Some("ab"), None, 2)));
    assert!(precedes(&entry(Some("a"), Some("x"), 2), &entry(Some("a"), Some("y"), 2)));
    assert!(!precedes(&entry(Some("a"), Some("x"), 2), &entry(Some("a"), Some("x"), 2)));
    assert!(precedes(&entry(None, Some("y"), 2), &entry(Some(""), Some("x"), 2)));
    assert!(precedes(&entry(Some("e"), None, 2), &entry(Some("é"), None, 2)));
}

#[test]
fn ranking_nothing_gives_nothing() {
    assert_eq!(rank(vec![]).len(), 0);
    assert_eq!(ranked(&AttributionMap::new()).len(), 0);
    assert_eq!(report_lines(&vec![]).len(), 0);
}

#[test]
fn the_report_of_a_map_lists_every_contributor_once() {
    let mut map = AttributionMap::new();
    map.add_lines(AuthorIdentity::new(Some("bob".to_string()), Some("b@x".to_string())), 2);
    map.add_lines(AuthorIdentity::new(Some("ann".to_string()), Some("a@x".to_string())), 2);
    map.add_lines(AuthorIdentity::unknown(), 1);
    map.add_lines(AuthorIdentity::new(Some("bob".to_string()), Some("b@x".to_string())), 5);
    assert_eq!(
        report_lines(&ranked(&map)),
        vec!["7\tbob <b@x>", "2\tann <a@x>", "1\t? <?>"]
    );
}

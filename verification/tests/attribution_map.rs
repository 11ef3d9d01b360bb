use pr_authors::attribution::AttributionMap;
use pr_authors::author::AuthorIdentity;

fn author(name: &str, email: &str) -> AuthorIdentity {
    AuthorIdentity::new(Some(name.to_string()), Some(email.to_string()))
}

#[test]
fn a_new_map_attributes_nothing() {
    let map = AttributionMap::new();
    assert!(map.is_empty());
    assert_eq!(map.lines_for(&AuthorIdentity::unknown()), 0);
    assert_eq!(map.entries().len(), 0);
}

#[test]
fn contributors_are_the_same_when_both_fields_are() {
    assert_eq!(author("Ann", "ann@x.org"), author("Ann", "ann@x.org"));
    assert_ne!(author("Ann", "ann@x.org"), author("Ann", "ann@y.org"));
    assert_ne!(author("Ann", "ann@x.org"), author("Bob", "ann@x.org"));
    assert_ne!(author("Ann", "ann@x.org"), AuthorIdentity::new(Some("Ann".to_string()), None));
    assert_ne!(author("", ""), AuthorIdentity::unknown());
    assert_eq!(AuthorIdentity::unknown(), AuthorIdentity::new(None, None));
    assert_eq!(
        AuthorIdentity::new(None, Some("a@x".to_string())),
        AuthorIdentity::new(None, Some("a@x".to_string()))
    );
    assert!(author("Ann", "a").same(&author("Ann", "a")));
    assert!(!author("Ann", "a").same(&author("Ann", "b")));
    assert_eq!(author("Ann", "a").clone(), author("Ann", "a"));
}

#[test]
fn recorded_lines_add_up_by_contributor() {
    let mut map = AttributionMap::new();
    map.record_line(author("Ann", "ann@x.org"));
    map.record_line(author("Bob", "bob@x.org"));
    map.record_line(author("Ann", "ann@x.org"));
    map.record_line(AuthorIdentity::unknown());
    map.add_lines(author("Bob", "bob@x.org"), 40);
    assert!(!map.is_empty());
    assert_eq!(map.lines_for(&author("Ann", "ann@x.org")), 2);
    assert_eq!(map.lines_for(&author("Bob", "bob@x.org")), 41);
    assert_eq!(map.lines_for(&AuthorIdentity::unknown()), 1);
    assert_eq!(map.lines_for(&author("Ann", "ann@y.org")), 0);
    assert_eq!(map.entries().len(), 3);
}

#[test]
fn a_counter_can_be_filled_to_its_end() {
    let mut map = AttributionMap::new();
    map.add_lines(author("Ann", "a"), u64::MAX - 1);
    map.record_line(author("Ann", "a"));
    assert_eq!(map.lines_for(&author("Ann", "a")), u64::MAX);
}

#[test]
fn merging_adds_the_counts_of_each_contributor() {
    let mut left = AttributionMap::new();
    left.add_lines(author("Ann", "a"), 3);
    left.add_lines(author("Bob", "b"), 5);
    let mut right = AttributionMap::new();
    right.add_lines(author("Bob", "b"), 7);
    right.add_lines(author("Cy", "c"), 1);
    assert!(left.can_merge(&right));
    left.merge(&right);
    assert_eq!(left.lines_for(&author("Ann", "a")), 3);
    assert_eq!(left.lines_for(&author("Bob", "b")), 12);
    assert_eq!(left.lines_for(&author("Cy", "c")), 1);
    assert_eq!(right.lines_for(&author("Bob", "b")), 7);
    assert_eq!(left.entries().len(), 3);
}

#[test]
fn merging_with_the_empty_map_changes_nothing() {
    let mut map = AttributionMap::new();
    map.add_lines(author("Ann", "a"), 3);
    map.merge(&AttributionMap::new());
    assert_eq!(map.lines_for(&author("Ann", "a")), 3);
    let mut empty = AttributionMap::new();
    empty.merge(&map);
    assert_eq!(empty, map);
}

#[test]
fn a_sum_that_does_not_fit_cannot_be_merged() {
    let mut left = AttributionMap::new();
    left.add_lines(author("Ann", "a"), u64::MAX - 2);
    let mut two = AttributionMap::new();
    two.add_lines(author("Ann", "a"), 2);
    let mut three = AttributionMap::new();
    three.add_lines(author("Bob", "b"), u64::MAX);
    three.add_lines(author("Ann", "a"), 3);
    assert!(left.can_merge(&two));
    assert!(!left.can_merge(&three));
    assert!(three.can_merge(&AttributionMap::new()));
}

#[test]
fn maps_are_equal_when_their_counts_are() {
    let mut left = AttributionMap::new();
    left.add_lines(author("Ann", "a"), 3);
    left.add_lines(author("Bob", "b"), 5);
    let mut right = AttributionMap::new();
    right.add_lines(author("Bob", "b"), 5);
    right.add_lines(author("Ann", "a"), 2);
    assert_ne!(left, right);
    assert!(!left.same_counts(&right));
    right.record_line(author("Ann", "a"));
    assert_eq!(left, right);
    assert!(left.same_counts(&right));
    right.record_line(author("Cy", "c"));
    assert_ne!(left, right);
    assert_ne!(right, left);
    assert_ne!(left, AttributionMap::new());
    assert_eq!(AttributionMap::new(), AttributionMap::new());
}

#[test]
fn the_entries_hold_every_contributor_once() {
    let mut map = AttributionMap::new();
    map.add_lines(author("Ann", "a"), 3);
    map.add_lines(author("Bob", "b"), 5);
    map.add_lines(author("Ann", "a"), 4);
    let entries = map.entries();
    assert_eq!(entries.len(), 2);
    let ann = entries.iter().find(|entry| entry.author == author("Ann", "a")).unwrap();
    let bob = entries.iter().find(|entry| entry.author == author("Bob", "b")).unwrap();
    assert_eq!(ann.lines, 7);
    assert_eq!(bob.lines, 5);
    assert_eq!(ann.clone().lines, 7);
    assert_eq!(ann.clone().author, author("Ann", "a"));
}

#[test]
fn adding_no_lines_leaves_the_map_as_it_was() {
    let mut map = AttributionMap::new();
    map.add_lines(author("Ann", "a"), 0);
    assert!(map.is_empty());
    assert_eq!(map.entries().len(), 0);
    map.add_lines(author("Ann", "a"), 3);
    map.add_lines(author("Ann", "a"), 0);
    map.add_lines(author("Bob", "b"), 0);
    assert_eq!(map.lines_for(&author("Ann", "a")), 3);
    assert_eq!(map.lines_for(&author("Bob", "b")), 0);
    assert_eq!(map.entries().len(), 1);
    let mut full = AttributionMap::new();
    full.add_lines(author("Ann", "a"), u64::MAX);
    full.add_lines(author("Ann", "a"), 0);
    assert_eq!(full.lines_for(&author("Ann", "a")), u64::MAX);
}

use pr_authors::boundary::{boundary_admits, settle_boundary, AncestryCache, BoundaryChoice};
use pr_authors::revision::RevisionId;

fn rev(byte: u8) -> RevisionId {
    RevisionId::from_bytes([byte; 20])
}

#[test]
fn revisions_are_equal_when_their_bytes_are() {
    let mut bytes = [7u8; 20];
    assert_eq!(RevisionId::from_bytes(bytes), rev(7));
    assert!(RevisionId::from_bytes(bytes).same(&rev(7)));
    bytes[19] = 8;
    assert_ne!(RevisionId::from_bytes(bytes), rev(7));
    assert!(!RevisionId::from_bytes(bytes).same(&rev(7)));
    bytes[19] = 7;
    bytes[0] = 0;
    assert_ne!(RevisionId::from_bytes(bytes), rev(7));
    assert_eq!(RevisionId::from_bytes(bytes).bytes, bytes);
}

#[test]
fn an_ancestor_is_its_own_boundary() {
    let choice = settle_boundary(rev(3), rev(3));
    assert_eq!(choice, BoundaryChoice { requested: rev(3), effective: rev(3) });
    assert!(!choice.is_substituted());
}

#[test]
fn a_revision_that_is_no_ancestor_gives_way_to_the_merge_base() {
    let choice = settle_boundary(rev(3), rev(9));
    assert_eq!(choice, BoundaryChoice { requested: rev(3), effective: rev(9) });
    assert_eq!(choice.effective, rev(9));
    assert!(choice.is_substituted());
}

#[test]
fn a_line_blamed_on_the_boundary_is_excluded() {
    assert!(!boundary_admits(&rev(1), &rev(1), &Some(rev(1))));
    assert!(!boundary_admits(&rev(1), &rev(1), &None));
}

#[test]
fn a_line_blamed_on_a_descendant_of_the_boundary_is_included() {
    assert!(boundary_admits(&rev(1), &rev(2), &Some(rev(1))));
}

#[test]
fn a_line_blamed_on_a_divergent_commit_is_excluded() {
    assert!(!boundary_admits(&rev(1), &rev(2), &Some(rev(0))));
    assert!(!boundary_admits(&rev(1), &rev(2), &Some(rev(2))));
}

#[test]
fn a_line_blamed_on_an_unrelated_commit_is_excluded() {
    assert!(!boundary_admits(&rev(1), &rev(2), &None));
}

#[test]
fn a_new_table_holds_no_answer() {
    let cache = AncestryCache::new();
    assert_eq!(cache.lookup(&rev(1), &rev(2)), None);
}

#[test]
fn a_remembered_answer_is_found_for_its_pair_only() {
    let mut cache = AncestryCache::new();
    cache.remember(rev(1), rev(2), Some(rev(1)));
    cache.remember(rev(1), rev(3), None);
    assert_eq!(cache.lookup(&rev(1), &rev(2)), Some(Some(rev(1))));
    assert_eq!(cache.lookup(&rev(1), &rev(3)), Some(None));
    assert_eq!(cache.lookup(&rev(2), &rev(1)), None);
    assert_eq!(cache.lookup(&rev(1), &rev(4)), None);
    assert_eq!(cache.lookup(&rev(3), &rev(3)), None);
}

#[test]
fn a_pair_keeps_its_first_answer() {
    let mut cache = AncestryCache::new();
    cache.remember(rev(1), rev(2), Some(rev(1)));
    cache.remember(rev(1), rev(2), None);
    cache.remember(rev(1), rev(2), Some(rev(5)));
    assert_eq!(cache.lookup(&rev(1), &rev(2)), Some(Some(rev(1))));
}

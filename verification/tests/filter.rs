use pr_authors::delta::{BlobMode, FileDelta, FileSide, Hunk, SidePath};
use pr_authors::filter::{filter_delta, FilterDecision};

fn side(path: &str, exists: bool, mode: BlobMode, binary: bool, size: u64) -> FileSide {
    FileSide { path: SidePath::Text(path.to_string()), exists, mode: Some(mode), binary, size }
}

fn text_delta(old_size: u64, new_size: u64) -> FileDelta {
    FileDelta {
        old_file: side("src/lib.rs", true, BlobMode::Blob, false, old_size),
        new_file: side("src/lib.rs", true, BlobMode::Blob, false, new_size),
        hunks: vec![Hunk { old_start: 3, old_lines: 4, new_start: 3, new_lines: 5 }],
    }
}

#[test]
fn a_modified_text_file_is_processed() {
    assert_eq!(filter_delta(&text_delta(100, 120), None), FilterDecision::Process);
    assert_eq!(filter_delta(&text_delta(100, 120), Some(120)), FilterDecision::Process);
}

#[test]
fn an_executable_file_is_processed() {
    let mut delta = text_delta(10, 10);
    delta.old_file.mode = Some(BlobMode::BlobExecutable);
    assert_eq!(filter_delta(&delta, None), FilterDecision::Process);
}

#[test]
fn a_created_file_is_skipped() {
    let mut delta = text_delta(0, 50);
    delta.old_file.exists = false;
    assert_eq!(filter_delta(&delta, None), FilterDecision::SkipCreated);
}

#[test]
fn a_deleted_file_is_skipped() {
    let mut delta = text_delta(50, 0);
    delta.new_file.exists = false;
    assert_eq!(filter_delta(&delta, None), FilterDecision::SkipDeleted);
}

#[test]
fn a_deleted_binary_file_reports_the_deletion() {
    let mut delta = text_delta(50, 0);
    delta.new_file.exists = false;
    delta.old_file.binary = true;
    delta.old_file.mode = Some(BlobMode::Link);
    assert_eq!(filter_delta(&delta, Some(0)), FilterDecision::SkipDeleted);
}

#[test]
fn a_file_that_neither_side_has_reports_the_creation() {
    let mut delta = text_delta(0, 0);
    delta.old_file.exists = false;
    delta.new_file.exists = false;
    assert_eq!(filter_delta(&delta, None), FilterDecision::SkipCreated);
}

#[test]
fn a_submodule_and_a_link_are_no_blobs() {
    for mode in [
        BlobMode::Commit,
        BlobMode::Link,
        BlobMode::Tree,
        BlobMode::Unreadable,
        BlobMode::BlobGroupWritable,
    ] {
        let mut delta = text_delta(10, 10);
        delta.old_file.mode = Some(mode);
        assert_eq!(filter_delta(&delta, None), FilterDecision::SkipNotBlob);
    }
}

#[test]
fn the_mode_of_the_new_side_does_not_matter() {
    let mut delta = text_delta(10, 10);
    delta.new_file.mode = Some(BlobMode::Link);
    assert_eq!(filter_delta(&delta, None), FilterDecision::Process);
}

#[test]
fn a_link_with_binary_content_reports_the_mode() {
    let mut delta = text_delta(10, 10);
    delta.old_file.mode = Some(BlobMode::Link);
    delta.new_file.binary = true;
    assert_eq!(filter_delta(&delta, None), FilterDecision::SkipNotBlob);
}

#[test]
fn a_binary_file_is_skipped_whichever_side_is_binary() {
    let mut old_binary = text_delta(10, 10);
    old_binary.old_file.binary = true;
    assert_eq!(filter_delta(&old_binary, None), FilterDecision::SkipBinary);
    let mut new_binary = text_delta(10, 10);
    new_binary.new_file.binary = true;
    assert_eq!(filter_delta(&new_binary, None), FilterDecision::SkipBinary);
}

#[test]
fn a_large_binary_file_reports_the_binary_content() {
    let mut delta = text_delta(1000, 1000);
    delta.old_file.binary = true;
    assert_eq!(filter_delta(&delta, Some(10)), FilterDecision::SkipBinary);
}

#[test]
fn the_larger_side_is_held_to_the_ceiling() {
    assert_eq!(filter_delta(&text_delta(100, 121), Some(120)), FilterDecision::SkipTooLarge);
    assert_eq!(filter_delta(&text_delta(121, 100), Some(120)), FilterDecision::SkipTooLarge);
    assert_eq!(filter_delta(&text_delta(120, 120), Some(120)), FilterDecision::Process);
    assert_eq!(filter_delta(&text_delta(u64::MAX, 0), None), FilterDecision::Process);
}

#[test]
fn a_ceiling_of_zero_skips_every_file_with_content() {
    assert_eq!(filter_delta(&text_delta(1, 0), Some(0)), FilterDecision::SkipTooLarge);
    assert_eq!(filter_delta(&text_delta(0, 1), Some(0)), FilterDecision::SkipTooLarge);
    assert_eq!(filter_delta(&text_delta(7, 9), Some(0)), FilterDecision::SkipTooLarge);
    assert_eq!(filter_delta(&text_delta(0, 0), Some(0)), FilterDecision::Process);
}

#[test]
fn regular_modes_are_the_two_blob_modes() {
    assert!(BlobMode::Blob.is_regular());
    assert!(BlobMode::BlobExecutable.is_regular());
    assert!(!BlobMode::BlobGroupWritable.is_regular());
    assert!(!BlobMode::Link.is_regular());
    assert!(!BlobMode::Commit.is_regular());
    assert!(!BlobMode::Tree.is_regular());
    assert!(!BlobMode::Unreadable.is_regular());
}

#[test]
fn a_delta_is_well_formed_when_an_old_side_that_exists_has_a_path() {
    let mut delta = text_delta(1, 1);
    assert!(delta.is_well_formed());
    delta.old_file.path = SidePath::Absent;
    assert!(!delta.is_well_formed());
    delta.old_file.path = SidePath::NotText;
    assert!(!delta.is_well_formed());
    delta.old_file.exists = false;
    assert!(delta.is_well_formed());
}

#[test]
fn a_file_of_a_mode_that_is_not_known_is_no_blob() {
    let mut delta = text_delta(10, 10);
    delta.old_file.mode = None;
    assert_eq!(filter_delta(&delta, None), FilterDecision::SkipNotBlob);
    assert!(!delta.old_file.is_regular());
    delta.old_file.mode = Some(BlobMode::Blob);
    delta.new_file.mode = None;
    assert_eq!(filter_delta(&delta, None), FilterDecision::Process);
    assert!(delta.old_file.is_regular());
}

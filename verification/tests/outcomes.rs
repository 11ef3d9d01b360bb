use pr_authors::delta::{
    mode_of, side_mode, side_path, BlobMode, FileDelta, FileSide, Hunk, SidePath,
};
use pr_authors::pipeline::{settle, unit_of, Purpose, RunError, UnitRead};

fn side(path: SidePath, exists: bool) -> FileSide {
    FileSide { path, exists, mode: Some(BlobMode::Blob), binary: false, size: 9 }
}

fn text(path: &str) -> SidePath {
    SidePath::Text(path.to_string())
}

fn delta(old_path: SidePath, old_exists: bool) -> FileDelta {
    FileDelta {
        old_file: side(old_path, old_exists),
        new_file: side(text("new.rs"), true),
        hunks: vec![Hunk { old_start: 1, old_lines: 2, new_start: 1, new_lines: 3 }],
    }
}

#[test]
fn an_answer_of_the_backend_is_kept() {
    assert_eq!(settle(Purpose::Repository, Ok(7)), Ok(7));
    assert_eq!(settle(Purpose::Revision { name: "main".to_string() }, Ok("id")), Ok("id"));
    assert_eq!(settle(Purpose::CommonAncestor, Ok(vec![1, 2])), Ok(vec![1, 2]));
    assert_eq!(settle(Purpose::ChangeSet, Ok(())), Ok(()));
}

#[test]
fn a_failure_of_the_backend_becomes_the_error_of_what_was_asked_for() {
    let reason = || "it went wrong".to_string();
    assert_eq!(
        settle::<u8>(Purpose::Repository, Err(reason())),
        Err(RunError::RepositoryNotFound { reason: reason() })
    );
    assert_eq!(
        settle::<u8>(Purpose::Revision { name: "topic".to_string() }, Err(reason())),
        Err(RunError::RevisionNotFound { name: "topic".to_string(), reason: reason() })
    );
    assert_eq!(
        settle::<u8>(Purpose::CommonAncestor, Err(reason())),
        Err(RunError::NoCommonAncestor { reason: reason() })
    );
    assert_eq!(
        settle::<u8>(Purpose::ChangeSet, Err(String::new())),
        Err(RunError::DiffComputationFailed { reason: String::new() })
    );
}

#[test]
fn a_unit_that_could_not_be_read_has_failed() {
    assert_eq!(unit_of(Err("no patch".to_string())), UnitRead::Failed("no patch".to_string()));
}

#[test]
fn a_unit_without_a_patch_is_unchanged() {
    assert_eq!(unit_of(Ok(None)), UnitRead::Unchanged);
}

#[test]
fn a_well_formed_delta_is_handed_out_as_it_was_read() {
    let read = delta(text("old.rs"), true);
    assert_eq!(unit_of(Ok(Some(read.clone()))), UnitRead::Delta(read));
    let created = delta(SidePath::Absent, false);
    assert_eq!(unit_of(Ok(Some(created.clone()))), UnitRead::Delta(created));
}

#[test]
fn a_delta_whose_old_side_has_no_path_fails_the_unit() {
    assert_eq!(
        unit_of(Ok(Some(delta(SidePath::Absent, true)))),
        UnitRead::Failed("the old side of the file has no path".to_string())
    );
}

#[test]
fn a_delta_whose_old_path_is_no_text_fails_the_unit_for_that_reason() {
    assert_eq!(
        unit_of(Ok(Some(delta(SidePath::NotText, true)))),
        UnitRead::Failed("the old path of the file is not valid UTF-8".to_string())
    );
    let created = delta(SidePath::NotText, false);
    assert_eq!(unit_of(Ok(Some(created.clone()))), UnitRead::Delta(created));
}

#[test]
fn the_seven_known_modes_have_names_and_no_other_has() {
    assert_eq!(mode_of(0o000000), Some(BlobMode::Unreadable));
    assert_eq!(mode_of(0o040000), Some(BlobMode::Tree));
    assert_eq!(mode_of(0o100644), Some(BlobMode::Blob));
    assert_eq!(mode_of(0o100664), Some(BlobMode::BlobGroupWritable));
    assert_eq!(mode_of(0o100755), Some(BlobMode::BlobExecutable));
    assert_eq!(mode_of(0o120000), Some(BlobMode::Link));
    assert_eq!(mode_of(0o160000), Some(BlobMode::Commit));
    assert_eq!(mode_of(0o100600), None);
    assert_eq!(mode_of(0o100775), None);
    assert_eq!(mode_of(0o100645), None);
    assert_eq!(mode_of(1), None);
    assert_eq!(mode_of(-1), None);
    assert_eq!(mode_of(i32::MAX), None);
    assert_eq!(mode_of(i32::MIN), None);
}

#[test]
fn a_side_has_the_mode_of_its_entry_where_it_exists() {
    assert_eq!(side_mode(true, Some(0o100755)), Some(BlobMode::BlobExecutable));
    assert_eq!(side_mode(true, Some(0o100600)), None);
    assert_eq!(side_mode(true, None), None);
    assert_eq!(side_mode(false, Some(0o100644)), None);
    assert_eq!(side_mode(false, None), None);
}

#[test]
fn a_path_is_text_or_no_text_or_absent() {
    assert_eq!(side_path(true, Some("a/b.rs".to_string())), text("a/b.rs"));
    assert_eq!(side_path(true, None), SidePath::NotText);
    assert_eq!(side_path(false, None), SidePath::Absent);
    assert_eq!(side_path(false, Some("a".to_string())), SidePath::Absent);
    assert_eq!(text("a/b.rs").text(), Some("a/b.rs"));
    assert_eq!(SidePath::NotText.text(), None);
    assert_eq!(SidePath::Absent.text(), None);
}

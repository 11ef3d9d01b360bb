use pr_authors::blame::{blame_range, plan_unit, BlameRequest, LineRange, UnitPlan};
use pr_authors::changes::{plan_diff, DiffRequest};
use pr_authors::delta::{BlobMode, FileDelta, FileSide, Hunk, SidePath};
use pr_authors::filter::FilterDecision;
use pr_authors::revision::RevisionId;

fn rev(byte: u8) -> RevisionId {
    RevisionId::from_bytes([byte; 20])
}

fn hunk(old_start: u32, old_lines: u32) -> Hunk {
    Hunk { old_start, old_lines, new_start: old_start, new_lines: old_lines }
}

fn delta(hunks: Vec<Hunk>) -> FileDelta {
    FileDelta {
        old_file: FileSide {
            path: SidePath::Text("old/name.rs".to_string()),
            exists: true,
            mode: Some(BlobMode::Blob),
            binary: false,
            size: 64,
        },
        new_file: FileSide {
            path: SidePath::Text("new/name.rs".to_string()),
            exists: true,
            mode: Some(BlobMode::Blob),
            binary: false,
            size: 80,
        },
        hunks,
    }
}

#[test]
fn no_hunks_have_no_range() {
    assert_eq!(blame_range(&vec![]), None);
}

#[test]
fn one_hunk_spans_itself() {
    assert_eq!(blame_range(&vec![hunk(5, 3)]), Some(LineRange { min_line: 5, max_line: 8 }));
}

#[test]
fn the_range_spans_all_the_hunks() {
    let hunks = vec![hunk(40, 7), hunk(3, 2), hunk(90, 1), hunk(12, 100)];
    assert_eq!(blame_range(&hunks), Some(LineRange { min_line: 3, max_line: 112 }));
}

#[test]
fn the_end_of_the_range_does_not_wrap() {
    let hunks = vec![hunk(u32::MAX, u32::MAX), hunk(1, 0)];
    assert_eq!(
        blame_range(&hunks),
        Some(LineRange { min_line: 1, max_line: 2 * (u32::MAX as u64) })
    );
    assert_eq!(hunk(u32::MAX, u32::MAX).old_end_line(), 8589934590);
}

#[test]
fn an_empty_hunk_counts_for_the_range() {
    let hunks = vec![hunk(10, 2), hunk(0, 0)];
    assert_eq!(blame_range(&hunks), Some(LineRange { min_line: 0, max_line: 12 }));
}

#[test]
fn an_eligible_delta_is_blamed_once_whatever_its_hunks() {
    for hunks in [vec![], vec![hunk(2, 3)], vec![hunk(2, 3), hunk(20, 3), hunk(11, 4)]] {
        let lines = blame_range(&hunks);
        let plan = plan_unit(&delta(hunks), rev(1), Some(rev(2)), Some(1000));
        assert_eq!(
            plan,
            UnitPlan::Blame(BlameRequest {
                path: "old/name.rs".to_string(),
                newest_commit: rev(1),
                oldest_commit: Some(rev(2)),
                lines,
                use_mailmap: true,
            })
        );
    }
}

#[test]
fn the_request_covers_both_hunks_with_one_range() {
    let plan = plan_unit(&delta(vec![hunk(8, 3), hunk(1, 3)]), rev(7), None, None);
    assert_eq!(
        plan,
        UnitPlan::Blame(BlameRequest {
            path: "old/name.rs".to_string(),
            newest_commit: rev(7),
            oldest_commit: None,
            lines: Some(LineRange { min_line: 1, max_line: 11 }),
            use_mailmap: true,
        })
    );
}

#[test]
fn a_deleted_file_is_never_blamed() {
    let mut deleted = delta(vec![hunk(1, 30)]);
    deleted.new_file.exists = false;
    assert_eq!(
        plan_unit(&deleted, rev(1), None, None),
        UnitPlan::Skip(FilterDecision::SkipDeleted)
    );
}

#[test]
fn a_binary_file_is_never_blamed() {
    let mut binary = delta(vec![]);
    binary.new_file.binary = true;
    assert_eq!(plan_unit(&binary, rev(1), None, None), UnitPlan::Skip(FilterDecision::SkipBinary));
}

#[test]
fn a_created_file_needs_no_path_on_the_old_side() {
    let mut created = delta(vec![hunk(0, 0)]);
    created.old_file.exists = false;
    created.old_file.path = SidePath::Absent;
    assert!(created.is_well_formed());
    assert_eq!(
        plan_unit(&created, rev(1), None, None),
        UnitPlan::Skip(FilterDecision::SkipCreated)
    );
}

#[test]
fn with_a_ceiling_of_zero_no_file_with_content_is_blamed() {
    assert_eq!(
        plan_unit(&delta(vec![hunk(1, 3)]), rev(1), None, Some(0)),
        UnitPlan::Skip(FilterDecision::SkipTooLarge)
    );
}

#[test]
fn the_change_set_goes_from_the_merge_base_to_the_revision_to_merge() {
    assert_eq!(
        plan_diff(rev(4), rev(6), 1),
        DiffRequest {
            old_commit: rev(4),
            new_commit: rev(6),
            context_lines: 1,
            ignore_submodules: true,
            detect_renames: true,
        }
    );
    assert_eq!(plan_diff(rev(4), rev(6), 0).context_lines, 0);
    assert_eq!(plan_diff(rev(4), rev(6), u32::MAX).context_lines, u32::MAX);
}

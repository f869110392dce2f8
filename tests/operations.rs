use cheese_core::fs::ops::{
    calculate_total_size, find_unique_name, CopyWalk, plan_copy, plan_move, same_filesystem,
    ConflictResolution, FileOperations, FileTransfer, MoveStep, ProgressTracker, TransferAction,
    TransferState,
};
use cheese_core::fs::require_directory;
use cheese_core::Error;

fn names(v: &[&str]) -> Vec<String> {
    v.iter().map(|s| s.to_string()).collect()
}

#[test]
fn rename_policy_numbers_three_copies() {
    let mut existing = names(&["report.txt"]);
    let mut made = Vec::new();
    for _ in 0..3 {
        let target = plan_copy("/dest", "/src/report.txt", ConflictResolution::Rename, &existing)
            .unwrap()
            .unwrap();
        let name = target.rsplit('/').next().unwrap().to_string();
        existing.push(name.clone());
        made.push(target);
    }
    assert_eq!(made, vec!["/dest/report (1).txt", "/dest/report (2).txt", "/dest/report (3).txt"]);
}

#[test]
fn unique_name_without_extension_and_with_gap() {
    let existing = names(&["notes", "notes (1)", "notes (3)"]);
    assert_eq!(find_unique_name("notes", &existing).unwrap(), "notes (2)");
    let existing = names(&["a.tar.gz"]);
    assert_eq!(find_unique_name("a.tar.gz", &existing).unwrap(), "a.tar (1).gz");
    let existing = names(&[".bashrc"]);
    assert_eq!(find_unique_name(".bashrc", &existing).unwrap(), ".bashrc (1)");
}

#[test]
fn unique_name_search_exhausted() {
    let mut existing = vec!["x.txt".to_string()];
    for n in 1..=9999 {
        existing.push(format!("x ({}).txt", n));
    }
    let r = find_unique_name("x.txt", &existing);
    assert!(matches!(r, Err(Error::InvalidOperation(_))));
}

#[test]
fn copy_policies_on_conflict() {
    let existing = names(&["a.txt"]);
    assert_eq!(plan_copy("/d", "/s/a.txt", ConflictResolution::Skip, &existing).unwrap(), None);
    assert_eq!(
        plan_copy("/d/", "/s/a.txt", ConflictResolution::Overwrite, &existing).unwrap(),
        Some("/d/a.txt".to_string())
    );
    assert_eq!(
        plan_copy("/d", "/s/b.txt", ConflictResolution::Skip, &existing).unwrap(),
        Some("/d/b.txt".to_string())
    );
}

#[test]
fn copy_source_without_name_is_invalid() {
    let r = plan_copy("/d", "/", ConflictResolution::Overwrite, &Vec::new());
    assert_eq!(r, Err(Error::InvalidPath { path: "/".to_string() }));
    let r = plan_copy("/d", "..", ConflictResolution::Overwrite, &Vec::new());
    assert!(matches!(r, Err(Error::InvalidPath { .. })));
}

#[test]
fn destination_must_be_directory() {
    assert!(require_directory("/d", true).is_ok());
    assert_eq!(require_directory("/f", false), Err(Error::InvalidPath { path: "/f".to_string() }));
}

#[test]
fn move_across_filesystems_copies() {
    let existing = names(&["a.txt"]);
    let r = plan_move("/d", "/s/a.txt", ConflictResolution::Rename, &existing, 1, 2).unwrap();
    assert!(matches!(r, MoveStep::CopyThenRemove));
    assert!(!same_filesystem(1, 2));
}

#[test]
fn move_within_filesystem_renames() {
    let existing = names(&["a.txt"]);
    match plan_move("/d", "/s/b.txt", ConflictResolution::Skip, &existing, 7, 7).unwrap() {
        MoveStep::Rename { target, replace } => {
            assert_eq!(target, "/d/b.txt");
            assert!(!replace);
        }
        _ => panic!("expected a rename"),
    }
    match plan_move("/d", "/s/a.txt", ConflictResolution::Overwrite, &existing, 7, 7).unwrap() {
        MoveStep::Rename { target, replace } => {
            assert_eq!(target, "/d/a.txt");
            assert!(replace);
        }
        _ => panic!("expected a rename"),
    }
    match plan_move("/d", "/s/a.txt", ConflictResolution::Rename, &existing, 7, 7).unwrap() {
        MoveStep::Rename { target, replace } => {
            assert_eq!(target, "/d/a (1).txt");
            assert!(!replace);
        }
        _ => panic!("expected a rename"),
    }
    assert!(matches!(
        plan_move("/d", "/s/a.txt", ConflictResolution::Skip, &existing, 7, 7).unwrap(),
        MoveStep::Skip
    ));
}

#[test]
fn total_size_sums_and_detects_overflow() {
    assert_eq!(calculate_total_size(&vec![]), Some(0));
    assert_eq!(calculate_total_size(&vec![10, 20, 30]), Some(60));
    assert_eq!(calculate_total_size(&vec![u64::MAX, 1]), None);
}

#[test]
fn progress_reaches_file_size() {
    let mut tracker = ProgressTracker::new(2_500_000, 1);
    let mut t = FileTransfer::start();
    let mut last = 0;
    for chunk in [1_048_576u64, 1_048_576, 402_848] {
        assert_eq!(t.poll(false), TransferAction::ReadChunk);
        let p = t.chunk_read(chunk, &mut tracker, "/s/big.bin").unwrap();
        assert!(p.current_bytes >= last);
        last = p.current_bytes;
        assert_eq!(p.total_bytes, 2_500_000);
        assert_eq!(t.delivered(true), TransferAction::ReadChunk);
    }
    assert_eq!(last, 2_500_000);
    assert_eq!(t.poll(false), TransferAction::ReadChunk);
    assert!(matches!(
        t.chunk_read(0, &mut tracker, "/s/big.bin"),
        Err(TransferAction::CopyPermissions)
    ));
    tracker.finish_file();
    assert_eq!(tracker.files_processed, 1);
    assert_eq!(t.outcome(), Ok(()));
}

#[test]
fn cancel_before_start_writes_nothing() {
    let mut t = FileTransfer::start();
    assert_eq!(t.poll(true), TransferAction::RemovePartial);
    assert_eq!(t.written, 0);
    assert_eq!(t.state, TransferState::Cancelled);
    assert_eq!(t.outcome(), Err(Error::Cancelled));
}

#[test]
fn cancel_midway_removes_partial() {
    let mut tracker = ProgressTracker::new(100, 1);
    let mut t = FileTransfer::start();
    assert_eq!(t.poll(false), TransferAction::ReadChunk);
    t.chunk_read(40, &mut tracker, "/s/f").unwrap();
    assert_eq!(t.delivered(true), TransferAction::ReadChunk);
    assert_eq!(t.poll(true), TransferAction::RemovePartial);
    assert!(t.outcome().unwrap_err().is_cancelled());
}

#[test]
fn receiver_gone_counts_as_cancel() {
    let mut tracker = ProgressTracker::new(100, 1);
    let mut t = FileTransfer::start();
    t.poll(false);
    t.chunk_read(40, &mut tracker, "/s/f").unwrap();
    assert_eq!(t.delivered(false), TransferAction::RemovePartial);
    assert_eq!(t.outcome(), Err(Error::Cancelled));
}

#[test]
fn delete_progress_counts_items() {
    let mut tracker = ProgressTracker::new(0, 2);
    let p1 = tracker.record_deleted("/a");
    let p2 = tracker.record_deleted("/b");
    assert_eq!((p1.files_processed, p2.files_processed), (1, 2));
    assert_eq!(p2.total_files, 2);
    assert_eq!(p2.current_file, "/b");
    assert_eq!(p2.current_bytes, 0);
}

#[test]
fn operations_keep_concurrency() {
    assert_eq!(FileOperations::new(8).max_concurrent(), 8);
    assert_eq!(FileOperations::default().max_concurrent(), 4);
}

#[test]
fn copy_walk_visits_children_into_their_target() {
    let mut walk = CopyWalk::new("/s/dir", "/d");
    assert_eq!(walk.next_item(), Some(("/s/dir".to_string(), "/d".to_string())));
    walk.descend(vec!["/s/dir/a".to_string(), "/s/dir/b".to_string()], "/d/dir");
    assert_eq!(walk.next_item(), Some(("/s/dir/b".to_string(), "/d/dir".to_string())));
    assert_eq!(walk.next_item(), Some(("/s/dir/a".to_string(), "/d/dir".to_string())));
    assert_eq!(walk.next_item(), None);
}

use winsysm::cleanup::{
    cleanup_totals, progress_due, safe_indices, selection_size, summarize_results, FileOutcome,
};
use winsysm::types::{CleanupCategory, CleanupResult, CleanupTarget};

fn target(id: &str, size: u64, files: usize, safe: bool) -> CleanupTarget {
    CleanupTarget {
        id: id.to_string(),
        path: format!("C:\\{}", id),
        description: format!("{} files", id),
        category: CleanupCategory::TempFiles,
        size_bytes: size,
        file_count: files,
        is_safe: safe,
        requires_admin: false,
    }
}

#[test]
fn totals_over_targets() {
    let t = vec![target("a", 100, 3, true), target("b", 50, 2, false), target("c", 7, 1, true)];
    let totals = cleanup_totals(&t);
    assert_eq!(totals.total_size, 157);
    assert_eq!(totals.total_files, 6);
    assert_eq!(totals.safe_size, 107);
    assert!(totals.needs_admin_note());
    let all_safe = cleanup_totals(&vec![target("a", 1, 1, true)]);
    assert!(!all_safe.needs_admin_note());
}

#[test]
fn unsafe_but_empty_needs_no_note() {
    let totals = cleanup_totals(&vec![target("a", 10, 1, true), target("b", 0, 0, false)]);
    assert_eq!(totals.total_size, totals.safe_size);
    assert!(!totals.needs_admin_note());
}

#[test]
fn safe_targets_and_selection() {
    let t = vec![target("a", 100, 3, true), target("b", 50, 2, false), target("c", 7, 1, true)];
    assert_eq!(safe_indices(&t), vec![0, 2]);
    assert_eq!(selection_size(&t, &vec![1, 2]), 57);
    assert_eq!(selection_size(&t, &vec![1, 1]), 100);
    assert_eq!(selection_size(&t, &vec![]), 0);
}

#[test]
fn pass_tally() {
    let mut r = CleanupResult::new("win-temp".to_string());
    r.record(FileOutcome::Freed(10));
    r.record(FileOutcome::Unreadable);
    for k in 0..7 {
        r.record(FileOutcome::Failed(format!("e{}", k)));
    }
    r.record(FileOutcome::Freed(5));
    assert_eq!(r.target_id, "win-temp");
    assert_eq!(r.freed_bytes, 15);
    assert_eq!(r.files_deleted, 2);
    assert_eq!(r.files_failed, 7);
    assert_eq!(r.errors, vec!["e0", "e1", "e2", "e3", "e4"]);
}

#[test]
fn progress_points() {
    assert!(progress_due(0, 1));
    assert!(progress_due(0, 250));
    assert!(!progress_due(1, 250));
    assert!(progress_due(100, 250));
    assert!(progress_due(249, 250));
    assert!(!progress_due(248, 250));
}

#[test]
fn summary_over_passes() {
    let mut a = CleanupResult::new("a".to_string());
    a.freed_bytes = 10;
    a.files_deleted = 1;
    a.files_failed = 3;
    a.errors = vec!["x1".to_string(), "x2".to_string(), "x3".to_string()];
    let mut b = CleanupResult::new("b".to_string());
    b.freed_bytes = 5;
    b.files_deleted = 2;
    b.files_failed = 4;
    b.errors = vec!["y1".to_string(), "y2".to_string(), "y3".to_string(), "y4".to_string()];
    let s = summarize_results(&vec![a, b]);
    assert_eq!(s.total_freed, 15);
    assert_eq!(s.total_deleted, 3);
    assert_eq!(s.total_failed, 7);
    assert_eq!(s.first_errors, vec!["x1", "x2", "x3", "y1", "y2"]);
    let none = summarize_results(&Vec::new());
    assert_eq!(none.total_freed, 0);
    assert!(none.first_errors.is_empty());
}

use winsysm::breakdown::{dir_size, file_type_breakdown, FileRecord};

fn f(ext: Option<&str>, size: u64) -> FileRecord {
    FileRecord { extension: ext.map(|s| s.to_string()), size_bytes: size }
}

#[test]
fn dir_size_sums_and_counts() {
    assert_eq!(dir_size(&vec![]), (0, 0));
    assert_eq!(dir_size(&vec![10, 20, 30]), (60, 3));
}

#[test]
fn dir_size_wraps_like_the_atomic_counter() {
    assert_eq!(dir_size(&vec![u64::MAX, 2]), (1, 2));
}

#[test]
fn breakdown_groups_by_lower_case_extension() {
    let files = vec![
        f(Some("TXT"), 10),
        f(Some("rs"), 50),
        f(None, 5),
        f(Some("txt"), 30),
        f(Some("Rs"), 1),
    ];
    let b = file_type_breakdown(&files, 20);
    assert_eq!(b.total_bytes, 96);
    let got: Vec<(&str, u64, usize)> =
        b.types.iter().map(|t| (t.extension.as_str(), t.total_bytes, t.file_count)).collect();
    assert_eq!(got, vec![("rs", 51, 2), ("txt", 40, 2), ("(no ext)", 5, 1)]);
}

#[test]
fn breakdown_truncates_but_total_covers_all() {
    let files = vec![f(Some("a"), 1), f(Some("b"), 2), f(Some("c"), 3)];
    let b = file_type_breakdown(&files, 2);
    assert_eq!(b.total_bytes, 6);
    let exts: Vec<&str> = b.types.iter().map(|t| t.extension.as_str()).collect();
    assert_eq!(exts, vec!["c", "b"]);
}

#[test]
fn breakdown_ties_in_first_appearance_order() {
    let files = vec![f(Some("x"), 4), f(Some("y"), 4), f(Some("z"), 4)];
    let b = file_type_breakdown(&files, 20);
    let exts: Vec<&str> = b.types.iter().map(|t| t.extension.as_str()).collect();
    assert_eq!(exts, vec!["x", "y", "z"]);
}

#[test]
fn breakdown_of_nothing() {
    let b = file_type_breakdown(&Vec::new(), 20);
    assert_eq!(b.total_bytes, 0);
    assert!(b.types.is_empty());
}

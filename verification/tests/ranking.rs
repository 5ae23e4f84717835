use winsysm::ranking::{
    entries_total, find_largest_files, find_smallest_files, scan_children, stable_rank,
};
use winsysm::types::SizedEntry;

fn e(path: &str, size: u64) -> SizedEntry {
    SizedEntry { path: path.to_string(), size_bytes: size, file_count: 1, is_dir: false }
}

fn paths(v: &[SizedEntry]) -> Vec<&str> {
    v.iter().map(|x| x.path.as_str()).collect()
}

#[test]
fn largest_first_with_ties_in_input_order() {
    let files = vec![e("a", 5), e("b", 9), e("c", 5), e("d", 1), e("e", 9)];
    let out = find_largest_files(files, 10);
    assert_eq!(paths(&out), vec!["b", "e", "a", "c", "d"]);
}

#[test]
fn largest_truncated() {
    let files = vec![e("a", 5), e("b", 9), e("c", 5), e("d", 1), e("e", 9)];
    let out = find_largest_files(files, 3);
    assert_eq!(paths(&out), vec!["b", "e", "a"]);
    assert!(find_largest_files(vec![e("x", 3)], 0).is_empty());
}

#[test]
fn smallest_first_with_ties_in_input_order() {
    let files = vec![e("a", 5), e("b", 9), e("c", 5), e("d", 1), e("e", 9)];
    let out = find_smallest_files(files, 4);
    assert_eq!(paths(&out), vec!["d", "a", "c", "b"]);
}

#[test]
fn children_largest_first() {
    let mut dir = e("dir", 100);
    dir.is_dir = true;
    dir.file_count = 7;
    let out = scan_children(vec![e("f", 3), dir, e("g", 50)], 25);
    assert_eq!(paths(&out), vec!["dir", "g", "f"]);
    assert!(out[0].is_dir);
    assert_eq!(out[0].file_count, 7);
}

#[test]
fn empty_listing() {
    assert!(scan_children(Vec::new(), 25).is_empty());
    assert_eq!(entries_total(&Vec::new()), 0);
}

#[test]
fn stable_rank_keeps_everything() {
    let out = stable_rank(vec![e("a", 2), e("b", 2), e("c", 3)], false);
    assert_eq!(paths(&out), vec!["a", "b", "c"]);
    let out = stable_rank(vec![e("a", 2), e("b", 2), e("c", 3)], true);
    assert_eq!(paths(&out), vec!["c", "a", "b"]);
}

#[test]
fn listing_total() {
    assert_eq!(entries_total(&vec![e("a", 2), e("b", 40), e("c", 3)]), 45);
}

#[test]
fn kept_entries_outrank_dropped_ones() {
    let files = vec![e("a", 4), e("b", 8), e("c", 1), e("d", 8), e("e", 3), e("f", 6)];
    let kept = find_largest_files(files.clone(), 3);
    let smallest_kept = kept.iter().map(|x| x.size_bytes).min().unwrap();
    for f in &files {
        if !kept.iter().any(|k| k.path == f.path) {
            assert!(f.size_bytes <= smallest_kept);
        }
    }
    assert_eq!(paths(&kept), vec!["b", "d", "f"]);
    let again = find_largest_files(files, 3);
    assert_eq!(paths(&again), paths(&kept));
}

use winsysm::targets::{
    candidate_paths, discover_targets, estimate_reclaimable, safe_size, EnvPaths, PathProbe,
};
use winsysm::types::{CleanupCategory, CleanupTarget};

fn paths() -> EnvPaths {
    EnvPaths::from_vars(
        Some("alice".to_string()),
        Some("C:\\Users\\alice".to_string()),
        None,
        None,
    )
}

fn probe(path: &str, size: u64, count: usize) -> PathProbe {
    PathProbe { path: path.to_string(), size_bytes: size, file_count: count }
}

#[test]
fn env_paths_fall_back_to_profile() {
    let p = paths();
    assert_eq!(p.local_appdata, "C:\\Users\\alice\\AppData\\Local");
    assert_eq!(p.appdata, "C:\\Users\\alice\\AppData\\Roaming");
}

#[test]
fn env_paths_fall_back_to_user_name() {
    let p = EnvPaths::from_vars(Some("bob".to_string()), None, None, None);
    assert_eq!(p.local_appdata, "C:\\Users\\bob\\AppData\\Local");
    let q = EnvPaths::from_vars(None, None, None, None);
    assert_eq!(q.appdata, "C:\\Users\\User\\AppData\\Roaming");
}

#[test]
fn env_paths_use_set_variables() {
    let p = EnvPaths::from_vars(None, None, Some("D:\\L".to_string()), Some("D:\\R".to_string()));
    assert_eq!(p.local_appdata, "D:\\L");
    assert_eq!(p.appdata, "D:\\R");
}

#[test]
fn candidate_paths_in_catalog_order() {
    let c = candidate_paths(&paths());
    assert_eq!(c.len(), 13);
    assert_eq!(c[0], "C:\\Windows\\Temp");
    assert_eq!(c[1], "C:\\Users\\alice\\AppData\\Local\\Temp");
    assert_eq!(c[6], "C:\\Users\\alice\\AppData\\Roaming\\Mozilla\\Firefox\\Profiles");
    assert_eq!(c[12], "C:\\$Recycle.Bin");
}

#[test]
fn nothing_found_gives_no_targets() {
    let t = discover_targets(&paths(), &Vec::new());
    assert!(t.is_empty());
    assert_eq!(estimate_reclaimable(&paths(), &Vec::new()), 0);
}

#[test]
fn only_measured_paths_become_targets() {
    let probes = vec![
        probe("C:\\$Recycle.Bin", 500, 5),
        probe("C:\\Windows\\Temp", 100, 2),
        probe("C:\\Users\\alice\\AppData\\Local\\CrashDumps", 40, 1),
    ];
    let t = discover_targets(&paths(), &probes);
    let ids: Vec<&str> = t.iter().map(|x| x.id.as_str()).collect();
    assert_eq!(ids, vec!["win-temp", "crash-dumps", "recycle-bin"]);
    assert_eq!(t[0].size_bytes, 100);
    assert_eq!(t[0].file_count, 2);
    assert_eq!(t[0].category, CleanupCategory::TempFiles);
    assert!(t[0].is_safe && t[0].requires_admin);
    assert_eq!(t[1].description, "Application crash dump files");
    assert!(t[1].is_safe && !t[1].requires_admin);
    assert_eq!(t[2].category, CleanupCategory::RecycleBin);
    assert!(!t[2].is_safe);
}

#[test]
fn reclaimable_counts_safe_targets_only() {
    let probes = vec![
        probe("C:\\$Recycle.Bin", 500, 5),
        probe("C:\\Windows\\Temp", 100, 2),
        probe("C:\\Windows\\Installer\\$PatchCache$", 7000, 3),
        probe("C:\\Users\\alice\\AppData\\Local\\Temp", 23, 4),
    ];
    assert_eq!(estimate_reclaimable(&paths(), &probes), 123);
}

#[test]
fn first_probe_of_a_path_wins() {
    let probes = vec![probe("C:\\Windows\\Prefetch", 10, 1), probe("C:\\Windows\\Prefetch", 99, 9)];
    let t = discover_targets(&paths(), &probes);
    assert_eq!(t.len(), 1);
    assert_eq!(t[0].id, "prefetch");
    assert_eq!(t[0].size_bytes, 10);
}

#[test]
fn safe_size_of_a_list() {
    let t = vec![
        CleanupTarget {
            id: "a".to_string(),
            path: "x".to_string(),
            description: "d".to_string(),
            category: CleanupCategory::LogFiles,
            size_bytes: 5,
            file_count: 1,
            is_safe: true,
            requires_admin: false,
        },
        CleanupTarget {
            id: "b".to_string(),
            path: "y".to_string(),
            description: "d".to_string(),
            category: CleanupCategory::LogFiles,
            size_bytes: 7,
            file_count: 1,
            is_safe: false,
            requires_admin: false,
        },
    ];
    assert_eq!(safe_size(&t), 5);
}

//! The catalog of cleanup locations and the discovery of the ones present on
//! this machine.
//!
//! Discovery works from two plain inputs: the user directories
//! ([`EnvPaths`]) and the measurements of the candidate paths that exist on
//! disk ([`PathProbe`]). The application asks [`candidate_paths`] which
//! paths to look at, measures the ones that exist, and hands the
//! measurements back to [`discover_targets`].

use vstd::prelude::*;
use crate::types::{CleanupCategory, CleanupTarget, CleanupTargetView};

verus! {

// ── Environment paths ────────────────────────────────────────────────────

/// The per-user directories that cleanup locations are relative to.
pub struct EnvPaths {
    pub local_appdata: String,
    pub appdata: String,
}

/// The value of an environment variable, or `default` when it is unset.
pub open spec fn var_or(var: Option<String>, default: Seq<char>) -> Seq<char> {
    match var {
        Some(v) => v@,
        None => default,
    }
}

/// The user's profile directory: `USERPROFILE`, or `C:\Users\<USERNAME>`
/// with `User` standing in for a missing user name.
pub open spec fn profile_dir(username: Option<String>, user_profile: Option<String>) -> Seq<char> {
    var_or(user_profile, "C:\\Users\\"@ + var_or(username, "User"@))
}

fn string_or(var: Option<String>, default: String) -> (s: String)
    ensures
        s@ == var_or(var, default@),
{
    match var {
        Some(v) => v,
        None => default,
    }
}

/// `base` followed by `suffix`.
fn joined(base: &String, suffix: &str) -> (s: String)
    ensures
        s@ == base@ + suffix@,
{
    let mut s = base.clone();
    s.append(suffix);
    s
}

impl EnvPaths {
    /// Resolves the directories from the values of the environment variables
    /// `USERNAME`, `USERPROFILE`, `LOCALAPPDATA` and `APPDATA` (`None` where a
    /// variable is unset), falling back to the standard locations under the
    /// user's profile.
    pub fn from_vars(
        username: Option<String>,
        user_profile: Option<String>,
        local_appdata: Option<String>,
        appdata: Option<String>,
    ) -> (p: EnvPaths)
        ensures
            p.local_appdata@ == var_or(
                local_appdata,
                profile_dir(username, user_profile) + "\\AppData\\Local"@,
            ),
            p.appdata@ == var_or(appdata, profile_dir(username, user_profile) + "\\AppData\\Roaming"@),
    {
        let user = string_or(username, String::from_str("User"));
        let profile = string_or(user_profile, String::from_str("C:\\Users\\").concat(user.as_str()));
        let local = string_or(local_appdata, joined(&profile, "\\AppData\\Local"));
        let roaming = string_or(appdata, joined(&profile, "\\AppData\\Roaming"));
        EnvPaths { local_appdata: local, appdata: roaming }
    }
}

// ── Probes of the file system ────────────────────────────────────────────

/// The measurement of a candidate path that exists on this machine: the
/// total size of the regular files under it and how many there are.
#[derive(Debug, Clone)]
pub struct PathProbe {
    pub path: String,
    pub size_bytes: u64,
    pub file_count: usize,
}

/// The first probe taken of `path`, if any.
pub open spec fn probe_of(probes: Seq<PathProbe>, path: Seq<char>) -> Option<PathProbe>
    decreases probes.len(),
{
    if probes.len() == 0 {
        None
    } else if probes[0].path@ == path {
        Some(probes[0])
    } else {
        probe_of(probes.drop_first(), path)
    }
}

fn find_probe(probes: &Vec<PathProbe>, path: &String) -> (r: Option<usize>)
    ensures
        match r {
            Some(i) => i < probes.len() && probe_of(probes@, path@) == Some(probes@[i as int]),
            None => probe_of(probes@, path@) is None,
        },
{
    let mut i: usize = 0;
    assert(probes@.skip(0) =~= probes@);
    while i < probes.len()
        invariant
            i <= probes.len(),
            probe_of(probes@, path@) == probe_of(probes@.skip(i as int), path@),
        decreases probes.len() - i,
    {
        assert(probes@.skip(i as int).drop_first() =~= probes@.skip(i + 1));
        if probes[i].path == *path {
            return Some(i);
        }
        i = i + 1;
    }
    None
}

// ── The catalog ──────────────────────────────────────────────────────────

/// A cleanup location that may or may not exist on this machine.
pub struct CatalogEntry {
    pub id: Seq<char>,
    pub path: Seq<char>,
    pub description: Seq<char>,
    pub category: CleanupCategory,
    pub is_safe: bool,
    pub requires_admin: bool,
}

pub open spec fn entry(
    id: Seq<char>,
    path: Seq<char>,
    description: Seq<char>,
    category: CleanupCategory,
    is_safe: bool,
    requires_admin: bool,
) -> CatalogEntry {
    CatalogEntry { id, path, description, category, is_safe, requires_admin }
}

/// Temporary files; Windows rebuilds the prefetch files after a reboot.
pub open spec fn temp_catalog(paths: EnvPaths) -> Seq<CatalogEntry> {
    seq![
        entry("win-temp"@, "C:\\Windows\\Temp"@, "Windows system temporary files"@,
            CleanupCategory::TempFiles, true, true),
        entry("user-temp"@, paths.local_appdata@ + "\\Temp"@, "User temporary files"@,
            CleanupCategory::TempFiles, true, false),
        entry("prefetch"@, "C:\\Windows\\Prefetch"@, "Windows Prefetch files"@,
            CleanupCategory::TempFiles, true, true),
    ]
}

/// Browser caches; Firefox profiles live under the roaming directory.
pub open spec fn browser_catalog(paths: EnvPaths) -> Seq<CatalogEntry> {
    seq![
        entry("chrome-cache"@,
            paths.local_appdata@ + "\\Google\\Chrome\\User Data\\Default\\Cache"@,
            "Google Chrome browser cache"@, CleanupCategory::BrowserCache, true, false),
        entry("chrome-code-cache"@,
            paths.local_appdata@ + "\\Google\\Chrome\\User Data\\Default\\Code Cache"@,
            "Google Chrome code cache"@, CleanupCategory::BrowserCache, true, false),
        entry("edge-cache"@,
            paths.local_appdata@ + "\\Microsoft\\Edge\\User Data\\Default\\Cache"@,
            "Microsoft Edge browser cache"@, CleanupCategory::BrowserCache, true, false),
        entry("firefox-cache"@, paths.appdata@ + "\\Mozilla\\Firefox\\Profiles"@,
            "Mozilla Firefox cache profiles"@, CleanupCategory::BrowserCache, true, false),
    ]
}

/// Downloaded Windows Update files.
pub open spec fn windows_update_catalog() -> Seq<CatalogEntry> {
    seq![
        entry("win-update-dl"@, "C:\\Windows\\SoftwareDistribution\\Download"@,
            "Windows Update downloaded files"@, CleanupCategory::WindowsUpdate, true, true),
    ]
}

/// The Explorer thumbnail cache.
pub open spec fn thumbnail_catalog(paths: EnvPaths) -> Seq<CatalogEntry> {
    seq![
        entry("thumbnails"@, paths.local_appdata@ + "\\Microsoft\\Windows\\Explorer"@,
            "Windows Explorer thumbnail cache — regenerated automatically"@,
            CleanupCategory::Thumbnails, true, false),
    ]
}

/// Application crash dumps and Windows minidumps.
pub open spec fn crash_dump_catalog(paths: EnvPaths) -> Seq<CatalogEntry> {
    seq![
        entry("crash-dumps"@, paths.local_appdata@ + "\\CrashDumps"@,
            "Application crash dump files"@, CleanupCategory::CrashDumps, true, false),
        entry("win-minidumps"@, "C:\\Windows\\Minidump"@, "Windows minidump files"@,
            CleanupCategory::CrashDumps, true, true),
    ]
}

/// The installer patch cache: not safe, deleting it may break uninstall or
/// repair of older software.
pub open spec fn installer_catalog() -> Seq<CatalogEntry> {
    seq![
        entry("installer-cache"@, "C:\\Windows\\Installer\\$PatchCache$"@,
            "Windows Installer patch cache — may affect uninstall/repair of some programs"@,
            CleanupCategory::InstallerCache, false, true),
    ]
}

/// The recycle bin: not safe, its files are gone for good once deleted.
pub open spec fn recycle_bin_catalog() -> Seq<CatalogEntry> {
    seq![
        entry("recycle-bin"@, "C:\\$Recycle.Bin"@,
            "Recycle Bin contents — permanently deleted, cannot be recovered"@,
            CleanupCategory::RecycleBin, false, true),
    ]
}

/// Every cleanup location, in the order in which targets are listed.
pub open spec fn target_catalog(paths: EnvPaths) -> Seq<CatalogEntry> {
    temp_catalog(paths) + browser_catalog(paths) + windows_update_catalog() + thumbnail_catalog(
        paths,
    ) + crash_dump_catalog(paths) + installer_catalog() + recycle_bin_catalog()
}

/// The target that a catalog entry becomes once its path has been measured.
pub open spec fn target_view(e: CatalogEntry, p: PathProbe) -> CleanupTargetView {
    CleanupTargetView {
        id: e.id,
        path: e.path,
        description: e.description,
        category: e.category,
        size_bytes: p.size_bytes,
        file_count: p.file_count,
        is_safe: e.is_safe,
        requires_admin: e.requires_admin,
    }
}

/// The targets for the entries whose path was found, in catalog order.
pub open spec fn discovered(entries: Seq<CatalogEntry>, probes: Seq<PathProbe>) -> Seq<
    CleanupTargetView,
>
    decreases entries.len(),
{
    if entries.len() == 0 {
        seq![]
    } else {
        let earlier = discovered(entries.drop_last(), probes);
        match probe_of(probes, entries.last().path) {
            Some(p) => earlier.push(target_view(entries.last(), p)),
            None => earlier,
        }
    }
}

pub open spec fn target_views(ts: Seq<CleanupTarget>) -> Seq<CleanupTargetView> {
    ts.map_values(|t: CleanupTarget| t@)
}

/// Discovery over two runs of catalog entries is the discovery over each.
pub proof fn lemma_discovered_concat(a: Seq<CatalogEntry>, b: Seq<CatalogEntry>, probes: Seq<PathProbe>)
    ensures
        discovered(a + b, probes) == discovered(a, probes) + discovered(b, probes),
    decreases b.len(),
{
    if b.len() == 0 {
        assert(a + b =~= a);
        assert(discovered(a, probes) + discovered(b, probes) =~= discovered(a, probes));
    } else {
        lemma_discovered_concat(a, b.drop_last(), probes);
        assert((a + b).drop_last() =~= a + b.drop_last());
        assert((a + b).last() == b.last());
        match probe_of(probes, b.last().path) {
            Some(p) => {
                assert(discovered(a, probes) + discovered(b, probes) =~= (discovered(a, probes)
                    + discovered(b.drop_last(), probes)).push(target_view(b.last(), p)));
            },
            None => {},
        }
    }
}

/// Only measured paths become targets: every discovered target carries the
/// size and file count of the first probe of its path, and there is at most
/// one target per catalog entry.
pub proof fn lemma_discovered_measured(entries: Seq<CatalogEntry>, probes: Seq<PathProbe>)
    ensures
        discovered(entries, probes).len() <= entries.len(),
        forall|i: int|
            0 <= i < discovered(entries, probes).len() ==> {
                let t = #[trigger] discovered(entries, probes)[i];
                &&& probe_of(probes, t.path) is Some
                &&& t.size_bytes == probe_of(probes, t.path)->0.size_bytes
                &&& t.file_count == probe_of(probes, t.path)->0.file_count
            },
    decreases entries.len(),
{
    if entries.len() > 0 {
        lemma_discovered_measured(entries.drop_last(), probes);
    }
}

// ── Discovery ────────────────────────────────────────────────────────────

/// Adds a target only if its path was found on this machine, with the size
/// and file count measured there.
pub fn add_target(
    targets: &mut Vec<CleanupTarget>,
    probes: &Vec<PathProbe>,
    id: &str,
    path: String,
    description: &str,
    category: CleanupCategory,
    is_safe: bool,
    requires_admin: bool,
)
    ensures
        target_views(final(targets)@) == target_views(old(targets)@) + discovered(
            seq![entry(id@, path@, description@, category, is_safe, requires_admin)],
            probes@,
        ),
{
    let ghost e = entry(id@, path@, description@, category, is_safe, requires_admin);
    assert(seq![e].drop_last() =~= Seq::<CatalogEntry>::empty());
    assert(discovered(Seq::<CatalogEntry>::empty(), probes@) =~= Seq::<CleanupTargetView>::empty());
    match find_probe(probes, &path) {
        Some(i) => {
            let target = CleanupTarget {
                id: String::from_str(id),
                path,
                description: String::from_str(description),
                category,
                size_bytes: probes[i].size_bytes,
                file_count: probes[i].file_count,
                is_safe,
                requires_admin,
            };
            let ghost before = targets@;
            targets.push(target);
            assert(target_views(targets@) =~= target_views(before) + discovered(seq![e], probes@));
        },
        None => {
            assert(target_views(targets@) =~= target_views(old(targets)@) + discovered(
                seq![e],
                probes@,
            ));
        },
    }
}

pub fn add_temp_targets(targets: &mut Vec<CleanupTarget>, paths: &EnvPaths, probes: &Vec<PathProbe>)
    ensures
        target_views(final(targets)@) == target_views(old(targets)@) + discovered(
            temp_catalog(*paths),
            probes@,
        ),
{
    let ghost c = temp_catalog(*paths);
    add_target(
        targets,
        probes,
        "win-temp",
        String::from_str("C:\\Windows\\Temp"),
        "Windows system temporary files",
        CleanupCategory::TempFiles,
        true,
        true,
    );
    add_target(
        targets,
        probes,
        "user-temp",
        joined(&paths.local_appdata, "\\Temp"),
        "User temporary files",
        CleanupCategory::TempFiles,
        true,
        false,
    );
    add_target(
        targets,
        probes,
        "prefetch",
        String::from_str("C:\\Windows\\Prefetch"),
        "Windows Prefetch files",
        CleanupCategory::TempFiles,
        true,
        true,
    );
    proof {
        assert(c =~= seq![c[0]] + seq![c[1]] + seq![c[2]]);
        lemma_discovered_concat(seq![c[0]], seq![c[1]], probes@);
        lemma_discovered_concat(seq![c[0]] + seq![c[1]], seq![c[2]], probes@);
    }
}

pub fn add_browser_targets(targets: &mut Vec<CleanupTarget>, paths: &EnvPaths, probes: &Vec<PathProbe>)
    ensures
        target_views(final(targets)@) == target_views(old(targets)@) + discovered(
            browser_catalog(*paths),
            probes@,
        ),
{
    let ghost c = browser_catalog(*paths);
    add_target(
        targets,
        probes,
        "chrome-cache",
        joined(&paths.local_appdata, "\\Google\\Chrome\\User Data\\Default\\Cache"),
        "Google Chrome browser cache",
        CleanupCategory::BrowserCache,
        true,
        false,
    );
    add_target(
        targets,
        probes,
        "chrome-code-cache",
        joined(&paths.local_appdata, "\\Google\\Chrome\\User Data\\Default\\Code Cache"),
        "Google Chrome code cache",
        CleanupCategory::BrowserCache,
        true,
        false,
    );
    add_target(
        targets,
        probes,
        "edge-cache",
        joined(&paths.local_appdata, "\\Microsoft\\Edge\\User Data\\Default\\Cache"),
        "Microsoft Edge browser cache",
        CleanupCategory::BrowserCache,
        true,
        false,
    );
    // Firefox profiles live under APPDATA (Roaming), not LOCALAPPDATA
    add_target(
        targets,
        probes,
        "firefox-cache",
        joined(&paths.appdata, "\\Mozilla\\Firefox\\Profiles"),
        "Mozilla Firefox cache profiles",
        CleanupCategory::BrowserCache,
        true,
        false,
    );
    proof {
        assert(c =~= seq![c[0]] + seq![c[1]] + seq![c[2]] + seq![c[3]]);
        lemma_discovered_concat(seq![c[0]], seq![c[1]], probes@);
        lemma_discovered_concat(seq![c[0]] + seq![c[1]], seq![c[2]], probes@);
        lemma_discovered_concat(seq![c[0]] + seq![c[1]] + seq![c[2]], seq![c[3]], probes@);
    }
}

pub fn add_windows_update_targets(targets: &mut Vec<CleanupTarget>, probes: &Vec<PathProbe>)
    ensures
        target_views(final(targets)@) == target_views(old(targets)@) + discovered(
            windows_update_catalog(),
            probes@,
        ),
{
    add_target(
        targets,
        probes,
        "win-update-dl",
        String::from_str("C:\\Windows\\SoftwareDistribution\\Download"),
        "Windows Update downloaded files",
        CleanupCategory::WindowsUpdate,
        true,
        true,
    );
}

pub fn add_thumbnail_targets(targets: &mut Vec<CleanupTarget>, paths: &EnvPaths, probes: &Vec<PathProbe>)
    ensures
        target_views(final(targets)@) == target_views(old(targets)@) + discovered(
            thumbnail_catalog(*paths),
            probes@,
        ),
{
    add_target(
        targets,
        probes,
        "thumbnails",
        joined(&paths.local_appdata, "\\Microsoft\\Windows\\Explorer"),
        "Windows Explorer thumbnail cache — regenerated automatically",
        CleanupCategory::Thumbnails,
        true,
        false,
    );
}

pub fn add_crash_dump_targets(targets: &mut Vec<CleanupTarget>, paths: &EnvPaths, probes: &Vec<PathProbe>)
    ensures
        target_views(final(targets)@) == target_views(old(targets)@) + discovered(
            crash_dump_catalog(*paths),
            probes@,
        ),
{
    let ghost c = crash_dump_catalog(*paths);
    add_target(
        targets,
        probes,
        "crash-dumps",
        joined(&paths.local_appdata, "\\CrashDumps"),
        "Application crash dump files",
        CleanupCategory::CrashDumps,
        true,
        false,
    );
    add_target(
        targets,
        probes,
        "win-minidumps",
        String::from_str("C:\\Windows\\Minidump"),
        "Windows minidump files",
        CleanupCategory::CrashDumps,
        true,
        true,
    );
    proof {
        assert(c =~= seq![c[0]] + seq![c[1]]);
        lemma_discovered_concat(seq![c[0]], seq![c[1]], probes@);
    }
}

pub fn add_installer_targets(targets: &mut Vec<CleanupTarget>, probes: &Vec<PathProbe>)
    ensures
        target_views(final(targets)@) == target_views(old(targets)@) + discovered(
            installer_catalog(),
            probes@,
        ),
{
    // Mild risk: deleting this may break uninstall/repair for some older software
    add_target(
        targets,
        probes,
        "installer-cache",
        String::from_str("C:\\Windows\\Installer\\$PatchCache$"),
        "Windows Installer patch cache — may affect uninstall/repair of some programs",
        CleanupCategory::InstallerCache,
        false,
        true,
    );
}

pub fn add_recycle_bin_targets(targets: &mut Vec<CleanupTarget>, probes: &Vec<PathProbe>)
    ensures
        target_views(final(targets)@) == target_views(old(targets)@) + discovered(
            recycle_bin_catalog(),
            probes@,
        ),
{
    // Files here are permanently deleted — the user must explicitly confirm
    add_target(
        targets,
        probes,
        "recycle-bin",
        String::from_str("C:\\$Recycle.Bin"),
        "Recycle Bin contents — permanently deleted, cannot be recovered",
        CleanupCategory::RecycleBin,
        false,
        true,
    );
}

/// Builds the list of cleanup targets present on this machine: the catalog
/// entries, in catalog order, whose path `probes` measured.
pub fn discover_targets(paths: &EnvPaths, probes: &Vec<PathProbe>) -> (targets: Vec<CleanupTarget>)
    ensures
        target_views(targets@) == discovered(target_catalog(*paths), probes@),
        forall|i: int|
            0 <= i < targets@.len() ==> (#[trigger] targets@[i]).is_safe == !is_unsafe_id(
                targets@[i].id@,
            ),
{
    let mut targets: Vec<CleanupTarget> = Vec::new();
    assert(target_views(targets@) =~= Seq::<CleanupTargetView>::empty());
    add_temp_targets(&mut targets, paths, probes);
    add_browser_targets(&mut targets, paths, probes);
    add_windows_update_targets(&mut targets, probes);
    add_thumbnail_targets(&mut targets, paths, probes);
    add_crash_dump_targets(&mut targets, paths, probes);
    add_installer_targets(&mut targets, probes);
    add_recycle_bin_targets(&mut targets, probes);
    proof {
        let p = probes@;
        let c1 = temp_catalog(*paths);
        let c2 = browser_catalog(*paths);
        let c3 = windows_update_catalog();
        let c4 = thumbnail_catalog(*paths);
        let c5 = crash_dump_catalog(*paths);
        let c6 = installer_catalog();
        let c7 = recycle_bin_catalog();
        lemma_discovered_concat(c1, c2, p);
        lemma_discovered_concat(c1 + c2, c3, p);
        lemma_discovered_concat(c1 + c2 + c3, c4, p);
        lemma_discovered_concat(c1 + c2 + c3 + c4, c5, p);
        lemma_discovered_concat(c1 + c2 + c3 + c4 + c5, c6, p);
        lemma_discovered_concat(c1 + c2 + c3 + c4 + c5 + c6, c7, p);
        assert(Seq::<CleanupTargetView>::empty() + discovered(c1, p) =~= discovered(c1, p));
        lemma_discovered_safety_by_id(*paths, p);
        assert forall|i: int| 0 <= i < targets@.len() implies (#[trigger] targets@[i]).is_safe
            == !is_unsafe_id(targets@[i].id@) by {
            assert(target_views(targets@)[i] == targets@[i]@);
        }
    }
    targets
}

/// The paths that discovery looks at, in catalog order: the application
/// measures those that exist and passes the measurements to
/// [`discover_targets`].
pub fn candidate_paths(paths: &EnvPaths) -> (out: Vec<String>)
    ensures
        out@.len() == target_catalog(*paths).len(),
        forall|i: int| 0 <= i < out@.len() ==> #[trigger] out@[i]@ == target_catalog(*paths)[i].path,
{
    let mut out: Vec<String> = Vec::new();
    out.push(String::from_str("C:\\Windows\\Temp"));
    out.push(joined(&paths.local_appdata, "\\Temp"));
    out.push(String::from_str("C:\\Windows\\Prefetch"));
    out.push(joined(&paths.local_appdata, "\\Google\\Chrome\\User Data\\Default\\Cache"));
    out.push(joined(&paths.local_appdata, "\\Google\\Chrome\\User Data\\Default\\Code Cache"));
    out.push(joined(&paths.local_appdata, "\\Microsoft\\Edge\\User Data\\Default\\Cache"));
    out.push(joined(&paths.appdata, "\\Mozilla\\Firefox\\Profiles"));
    out.push(String::from_str("C:\\Windows\\SoftwareDistribution\\Download"));
    out.push(joined(&paths.local_appdata, "\\Microsoft\\Windows\\Explorer"));
    out.push(joined(&paths.local_appdata, "\\CrashDumps"));
    out.push(String::from_str("C:\\Windows\\Minidump"));
    out.push(String::from_str("C:\\Windows\\Installer\\$PatchCache$"));
    out.push(String::from_str("C:\\$Recycle.Bin"));
    out
}

// ── Reclaimable space ────────────────────────────────────────────────────

/// The total size of the targets that are safe to delete.
pub open spec fn safe_size_total(ts: Seq<CleanupTargetView>) -> nat
    decreases ts.len(),
{
    if ts.len() == 0 {
        0
    } else {
        safe_size_total(ts.drop_last()) + if ts.last().is_safe {
            ts.last().size_bytes as nat
        } else {
            0
        }
    }
}

pub proof fn lemma_safe_size_total_prefix(ts: Seq<CleanupTargetView>, i: int)
    requires
        0 <= i <= ts.len(),
    ensures
        safe_size_total(ts.take(i)) <= safe_size_total(ts),
    decreases ts.len() - i,
{
    if i < ts.len() {
        lemma_safe_size_total_prefix(ts, i + 1);
        assert(ts.take(i + 1).drop_last() =~= ts.take(i));
    } else {
        assert(ts.take(i) =~= ts);
    }
}

/// The space that deleting every safe target would free.
pub open spec fn reclaimable(paths: EnvPaths, probes: Seq<PathProbe>) -> nat {
    safe_size_total(discovered(target_catalog(paths), probes))
}

/// Sum of the sizes of the safe targets among `targets`.
pub fn safe_size(targets: &Vec<CleanupTarget>) -> (total: u64)
    requires
        safe_size_total(target_views(targets@)) <= u64::MAX,
    ensures
        total == safe_size_total(target_views(targets@)),
{
    let ghost views = target_views(targets@);
    let mut total: u64 = 0;
    let mut i: usize = 0;
    while i < targets.len()
        invariant
            i <= targets.len(),
            views == target_views(targets@),
            safe_size_total(views) <= u64::MAX,
            total == safe_size_total(views.take(i as int)),
        decreases targets.len() - i,
    {
        assert(views.take(i + 1).drop_last() =~= views.take(i as int));
        proof {
            lemma_safe_size_total_prefix(views, i + 1);
        }
        if targets[i].is_safe {
            total = total + targets[i].size_bytes;
        }
        i = i + 1;
    }
    assert(views.take(i as int) =~= views);
    total
}

/// Quick estimate of the total reclaimable space: the summed size of the
/// safe targets that discovery finds.
pub fn estimate_reclaimable(paths: &EnvPaths, probes: &Vec<PathProbe>) -> (total: u64)
    requires
        reclaimable(*paths, probes@) <= u64::MAX,
    ensures
        total == reclaimable(*paths, probes@),
        total == size_outside_unsafe_ids(discovered(target_catalog(*paths), probes@)),
{
    let targets = discover_targets(paths, probes);
    proof {
        lemma_reclaimable_by_id(*paths, probes@);
    }
    safe_size(&targets)
}

// ── Which locations are safe ─────────────────────────────────────────────

/// The ids of the locations whose files must not be deleted without an
/// explicit choice: the installer patch cache and the recycle bin. Every
/// other location only holds files that are rebuilt or no longer needed.
pub open spec fn is_unsafe_id(id: Seq<char>) -> bool {
    id == "installer-cache"@ || id == "recycle-bin"@
}

/// Each entry is safe exactly when its id is not an unsafe one.
pub open spec fn safety_follows_id(es: Seq<CatalogEntry>) -> bool {
    forall|k: int| 0 <= k < es.len() ==> (#[trigger] es[k]).is_safe == !is_unsafe_id(es[k].id)
}

proof fn lemma_safety_follows_id_concat(a: Seq<CatalogEntry>, b: Seq<CatalogEntry>)
    requires
        safety_follows_id(a),
        safety_follows_id(b),
    ensures
        safety_follows_id(a + b),
{
    assert forall|k: int| 0 <= k < (a + b).len() implies (#[trigger] (a + b)[k]).is_safe
        == !is_unsafe_id((a + b)[k].id) by {
        if k < a.len() {
            assert((a + b)[k] == a[k]);
        } else {
            assert((a + b)[k] == b[k - a.len()]);
        }
    }
}

proof fn lemma_catalog_safety_follows_id(paths: EnvPaths)
    ensures
        safety_follows_id(target_catalog(paths)),
{
    reveal_strlit("installer-cache");
    reveal_strlit("recycle-bin");
    reveal_strlit("win-temp");
    reveal_strlit("user-temp");
    reveal_strlit("prefetch");
    reveal_strlit("chrome-cache");
    reveal_strlit("chrome-code-cache");
    reveal_strlit("edge-cache");
    reveal_strlit("firefox-cache");
    reveal_strlit("win-update-dl");
    reveal_strlit("thumbnails");
    reveal_strlit("crash-dumps");
    reveal_strlit("win-minidumps");
    let c1 = temp_catalog(paths);
    let c2 = browser_catalog(paths);
    let c3 = windows_update_catalog();
    let c4 = thumbnail_catalog(paths);
    let c5 = crash_dump_catalog(paths);
    let c6 = installer_catalog();
    let c7 = recycle_bin_catalog();
    assert("win-temp"@[0] != "installer-cache"@[0] && "win-temp"@[0] != "recycle-bin"@[0]);
    assert("user-temp"@[0] != "installer-cache"@[0] && "user-temp"@[0] != "recycle-bin"@[0]);
    assert("prefetch"@[0] != "installer-cache"@[0] && "prefetch"@[0] != "recycle-bin"@[0]);
    assert("chrome-cache"@[0] != "installer-cache"@[0] && "chrome-cache"@[0] != "recycle-bin"@[0]);
    assert("chrome-code-cache"@[0] != "installer-cache"@[0] && "chrome-code-cache"@[0]
        != "recycle-bin"@[0]);
    assert("edge-cache"@[0] != "installer-cache"@[0] && "edge-cache"@[0] != "recycle-bin"@[0]);
    assert("firefox-cache"@[0] != "installer-cache"@[0] && "firefox-cache"@[0] != "recycle-bin"@[0]);
    assert("win-update-dl"@[0] != "installer-cache"@[0] && "win-update-dl"@[0] != "recycle-bin"@[0]);
    assert("thumbnails"@[0] != "installer-cache"@[0] && "thumbnails"@[0] != "recycle-bin"@[0]);
    assert("crash-dumps"@[0] != "installer-cache"@[0] && "crash-dumps"@[0] != "recycle-bin"@[0]);
    assert("win-minidumps"@[0] != "installer-cache"@[0] && "win-minidumps"@[0] != "recycle-bin"@[0]);
    assert("installer-cache"@[0] != "recycle-bin"@[0]);
    assert(safety_follows_id(c1));
    assert(safety_follows_id(c2));
    assert(safety_follows_id(c3));
    assert(safety_follows_id(c4));
    assert(safety_follows_id(c5));
    assert(safety_follows_id(c6));
    assert(safety_follows_id(c7));
    lemma_safety_follows_id_concat(c1, c2);
    lemma_safety_follows_id_concat(c1 + c2, c3);
    lemma_safety_follows_id_concat(c1 + c2 + c3, c4);
    lemma_safety_follows_id_concat(c1 + c2 + c3 + c4, c5);
    lemma_safety_follows_id_concat(c1 + c2 + c3 + c4 + c5, c6);
    lemma_safety_follows_id_concat(c1 + c2 + c3 + c4 + c5 + c6, c7);
}

proof fn lemma_discovered_keeps_safety(entries: Seq<CatalogEntry>, probes: Seq<PathProbe>)
    requires
        safety_follows_id(entries),
    ensures
        forall|i: int|
            0 <= i < discovered(entries, probes).len() ==> (#[trigger] discovered(entries, probes)[i]).is_safe
                == !is_unsafe_id(discovered(entries, probes)[i].id),
    decreases entries.len(),
{
    if entries.len() > 0 {
        let rest = entries.drop_last();
        assert(safety_follows_id(rest)) by {
            assert forall|k: int| 0 <= k < rest.len() implies (#[trigger] rest[k]).is_safe
                == !is_unsafe_id(rest[k].id) by {
                assert(rest[k] == entries[k]);
            }
        }
        lemma_discovered_keeps_safety(rest, probes);
        assert(entries.last() == entries[entries.len() - 1]);
    }
}

/// A discovered target is safe to delete exactly when it is neither the
/// installer patch cache nor the recycle bin, whatever was measured.
pub proof fn lemma_discovered_safety_by_id(paths: EnvPaths, probes: Seq<PathProbe>)
    ensures
        forall|i: int|
            0 <= i < discovered(target_catalog(paths), probes).len() ==> (#[trigger] discovered(
                target_catalog(paths),
                probes,
            )[i]).is_safe == !is_unsafe_id(discovered(target_catalog(paths), probes)[i].id),
{
    lemma_catalog_safety_follows_id(paths);
    lemma_discovered_keeps_safety(target_catalog(paths), probes);
}

/// The summed size of the targets that are neither the installer patch
/// cache nor the recycle bin.
pub open spec fn size_outside_unsafe_ids(ts: Seq<CleanupTargetView>) -> nat
    decreases ts.len(),
{
    if ts.len() == 0 {
        0
    } else {
        size_outside_unsafe_ids(ts.drop_last()) + if is_unsafe_id(ts.last().id) {
            0
        } else {
            ts.last().size_bytes as nat
        }
    }
}

proof fn lemma_safe_total_by_id(ts: Seq<CleanupTargetView>)
    requires
        forall|i: int| 0 <= i < ts.len() ==> (#[trigger] ts[i]).is_safe == !is_unsafe_id(ts[i].id),
    ensures
        safe_size_total(ts) == size_outside_unsafe_ids(ts),
    decreases ts.len(),
{
    if ts.len() > 0 {
        let rest = ts.drop_last();
        assert forall|i: int| 0 <= i < rest.len() implies (#[trigger] rest[i]).is_safe
            == !is_unsafe_id(rest[i].id) by {
            assert(rest[i] == ts[i]);
        }
        lemma_safe_total_by_id(rest);
        assert(ts.last() == ts[ts.len() - 1]);
    }
}

/// The reclaimable space is the summed size of every discovered target
/// except the installer patch cache and the recycle bin.
pub proof fn lemma_reclaimable_by_id(paths: EnvPaths, probes: Seq<PathProbe>)
    ensures
        reclaimable(paths, probes) == size_outside_unsafe_ids(discovered(target_catalog(paths), probes)),
{
    lemma_discovered_safety_by_id(paths, probes);
    lemma_safe_total_by_id(discovered(target_catalog(paths), probes));
}

} // verus!

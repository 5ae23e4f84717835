//! Plain data types shared by the scanner, cleanup and security modules.
//!
//! File system paths are carried as `String`s: the application crate turns
//! them into `PathBuf`s where it talks to the operating system.

use vstd::prelude::*;

verus! {

// ── Disk types ───────────────────────────────────────────────────────────

/// A folder or file with its measured size.
#[derive(Debug, Clone)]
pub struct SizedEntry {
    pub path: String,
    pub size_bytes: u64,
    pub file_count: usize,
    pub is_dir: bool,
}

// ── Process types ────────────────────────────────────────────────────────

/// How to sort the process list.
#[derive(Debug, Clone, Copy, PartialEq, Eq, Structural)]
pub enum ProcessSortBy {
    Cpu,
    Memory,
    Name,
    Pid,
}

// ── Cleanup types ────────────────────────────────────────────────────────

/// Categories of junk files.
#[derive(Debug, Clone, Copy, PartialEq, Eq, Structural)]
pub enum CleanupCategory {
    TempFiles,
    BrowserCache,
    WindowsUpdate,
    LogFiles,
    RecycleBin,
    Thumbnails,
    CrashDumps,
    InstallerCache,
}

impl CleanupCategory {
    /// The human readable name of the category.
    pub open spec fn display_text(self) -> Seq<char> {
        match self {
            CleanupCategory::TempFiles => "Temp Files"@,
            CleanupCategory::BrowserCache => "Browser Cache"@,
            CleanupCategory::WindowsUpdate => "Windows Update"@,
            CleanupCategory::LogFiles => "Log Files"@,
            CleanupCategory::RecycleBin => "Recycle Bin"@,
            CleanupCategory::Thumbnails => "Thumbnails"@,
            CleanupCategory::CrashDumps => "Crash Dumps"@,
            CleanupCategory::InstallerCache => "Installer Cache"@,
        }
    }

    /// The text shown for the category in tables.
    pub fn to_display_string(&self) -> (s: String)
        ensures
            s@ == self.display_text(),
    {
        match self {
            CleanupCategory::TempFiles => String::from_str("Temp Files"),
            CleanupCategory::BrowserCache => String::from_str("Browser Cache"),
            CleanupCategory::WindowsUpdate => String::from_str("Windows Update"),
            CleanupCategory::LogFiles => String::from_str("Log Files"),
            CleanupCategory::RecycleBin => String::from_str("Recycle Bin"),
            CleanupCategory::Thumbnails => String::from_str("Thumbnails"),
            CleanupCategory::CrashDumps => String::from_str("Crash Dumps"),
            CleanupCategory::InstallerCache => String::from_str("Installer Cache"),
        }
    }
}

/// A location that can be cleaned up.
#[derive(Debug, Clone)]
pub struct CleanupTarget {
    pub id: String,
    pub path: String,
    pub description: String,
    pub category: CleanupCategory,
    pub size_bytes: u64,
    pub file_count: usize,
    pub is_safe: bool,
    pub requires_admin: bool,
}

/// The mathematical content of a [`CleanupTarget`].
pub struct CleanupTargetView {
    pub id: Seq<char>,
    pub path: Seq<char>,
    pub description: Seq<char>,
    pub category: CleanupCategory,
    pub size_bytes: u64,
    pub file_count: usize,
    pub is_safe: bool,
    pub requires_admin: bool,
}

impl View for CleanupTarget {
    type V = CleanupTargetView;

    open spec fn view(&self) -> CleanupTargetView {
        CleanupTargetView {
            id: self.id@,
            path: self.path@,
            description: self.description@,
            category: self.category,
            size_bytes: self.size_bytes,
            file_count: self.file_count,
            is_safe: self.is_safe,
            requires_admin: self.requires_admin,
        }
    }
}

/// Result of a cleanup operation.
#[derive(Debug, Clone)]
pub struct CleanupResult {
    pub target_id: String,
    pub freed_bytes: u64,
    pub files_deleted: usize,
    pub files_failed: usize,
    pub errors: Vec<String>,
}

// ── Security types ───────────────────────────────────────────────────────

/// Threat severity levels, declared from the least to the most severe so
/// that the derived order ranks `Critical` highest.
#[derive(Debug, Clone, Copy, PartialEq, Eq, Structural, PartialOrd, Ord)]
pub enum ThreatLevel {
    Info,
    Low,
    Medium,
    High,
    Critical,
}

impl ThreatLevel {
    /// Numeric severity: `Info` is 0 and `Critical` is 4.
    pub open spec fn spec_severity(self) -> u8 {
        match self {
            ThreatLevel::Info => 0,
            ThreatLevel::Low => 1,
            ThreatLevel::Medium => 2,
            ThreatLevel::High => 3,
            ThreatLevel::Critical => 4,
        }
    }

    /// Numeric severity: `Info` is 0 and `Critical` is 4.
    #[verifier::when_used_as_spec(spec_severity)]
    pub fn severity(self) -> (n: u8)
        ensures
            n == self.spec_severity(),
    {
        match self {
            ThreatLevel::Info => 0,
            ThreatLevel::Low => 1,
            ThreatLevel::Medium => 2,
            ThreatLevel::High => 3,
            ThreatLevel::Critical => 4,
        }
    }

    /// The upper-case label of the level.
    pub open spec fn display_text(self) -> Seq<char> {
        match self {
            ThreatLevel::Critical => "CRITICAL"@,
            ThreatLevel::High => "HIGH"@,
            ThreatLevel::Medium => "MEDIUM"@,
            ThreatLevel::Low => "LOW"@,
            ThreatLevel::Info => "INFO"@,
        }
    }

    /// The text shown for the level.
    pub fn to_display_string(&self) -> (s: String)
        ensures
            s@ == self.display_text(),
    {
        match self {
            ThreatLevel::Critical => String::from_str("CRITICAL"),
            ThreatLevel::High => String::from_str("HIGH"),
            ThreatLevel::Medium => String::from_str("MEDIUM"),
            ThreatLevel::Low => String::from_str("LOW"),
            ThreatLevel::Info => String::from_str("INFO"),
        }
    }
}

/// What kind of threat was detected.
#[derive(Debug, Clone, Copy, PartialEq, Eq, Structural)]
pub enum ThreatSource {
    /// Name mimics a system process.
    ProcessMimic,
    /// Running from Temp or Downloads.
    SuspiciousPath,
    /// Random-looking file name.
    RandomName,
    /// High CPU use from an unknown process.
    HighCpuUnknown,
    /// Startup entry from a bad location.
    SuspiciousStartup,
    /// An executable in temp, appdata or programdata.
    ExecutableInBadDir,
    /// Unknown process with network connections.
    NetworkActivity,
    /// Too many copies of a system process.
    MultipleInstances,
}

impl ThreatSource {
    /// The human readable name of the threat source.
    pub open spec fn display_text(self) -> Seq<char> {
        match self {
            ThreatSource::ProcessMimic => "Process Name Mimicry"@,
            ThreatSource::SuspiciousPath => "Suspicious Exe Location"@,
            ThreatSource::RandomName => "Random Process Name"@,
            ThreatSource::HighCpuUnknown => "High CPU Unknown Process"@,
            ThreatSource::SuspiciousStartup => "Suspicious Startup Entry"@,
            ThreatSource::ExecutableInBadDir => "Executable in Bad Directory"@,
            ThreatSource::NetworkActivity => "Suspicious Network Activity"@,
            ThreatSource::MultipleInstances => "Multiple Instances"@,
        }
    }

    /// The text shown for the threat source.
    pub fn to_display_string(&self) -> (s: String)
        ensures
            s@ == self.display_text(),
    {
        match self {
            ThreatSource::ProcessMimic => String::from_str("Process Name Mimicry"),
            ThreatSource::SuspiciousPath => String::from_str("Suspicious Exe Location"),
            ThreatSource::RandomName => String::from_str("Random Process Name"),
            ThreatSource::HighCpuUnknown => String::from_str("High CPU Unknown Process"),
            ThreatSource::SuspiciousStartup => String::from_str("Suspicious Startup Entry"),
            ThreatSource::ExecutableInBadDir => String::from_str("Executable in Bad Directory"),
            ThreatSource::NetworkActivity => String::from_str("Suspicious Network Activity"),
            ThreatSource::MultipleInstances => String::from_str("Multiple Instances"),
        }
    }
}

/// A single detected threat.
#[derive(Debug, Clone)]
pub struct Threat {
    pub level: ThreatLevel,
    pub source: ThreatSource,
    pub process_name: Option<String>,
    pub pid: Option<u32>,
    pub path: Option<String>,
    pub description: String,
    pub recommendation: String,
}

// ── Health types ─────────────────────────────────────────────────────────

/// Health status for a single check.
#[derive(Debug, Clone, Copy, PartialEq, Eq, Structural)]
pub enum HealthStatus {
    Good,
    Warning,
    Critical,
}

impl HealthStatus {
    /// The badge shown for the status.
    pub open spec fn display_text(self) -> Seq<char> {
        match self {
            HealthStatus::Good => "✅ GOOD"@,
            HealthStatus::Warning => "⚠️  WARNING"@,
            HealthStatus::Critical => "🔴 CRITICAL"@,
        }
    }

    /// The text shown for the status.
    pub fn to_display_string(&self) -> (s: String)
        ensures
            s@ == self.display_text(),
    {
        match self {
            HealthStatus::Good => String::from_str("✅ GOOD"),
            HealthStatus::Warning => String::from_str("⚠️  WARNING"),
            HealthStatus::Critical => String::from_str("🔴 CRITICAL"),
        }
    }
}

/// A single health check result.
#[derive(Debug, Clone)]
pub struct HealthCheck {
    pub category: String,
    pub status: HealthStatus,
    pub score_impact: i32,
    pub message: String,
    pub detail: Option<String>,
}

// ── Configuration ────────────────────────────────────────────────────────

/// User-configurable settings (saved to config.json).
#[derive(Debug, Clone)]
pub struct AppConfig {
    pub scan_depth: usize,
    pub top_n_results: usize,
    pub cleanup_dry_run_default: bool,
    pub log_file_max_age_days: u32,
    pub security_check_network: bool,
    pub health_export_path: Option<String>,
}

impl Default for AppConfig {
    fn default() -> (c: Self)
        ensures
            c.scan_depth == 1,
            c.top_n_results == 20,
            c.cleanup_dry_run_default,
            c.log_file_max_age_days == 30,
            c.security_check_network,
            c.health_export_path is None,
    {
        AppConfig {
            scan_depth: 1,
            top_n_results: 20,
            cleanup_dry_run_default: true,
            log_file_max_age_days: 30,
            security_check_network: true,
            health_export_path: None,
        }
    }
}

} // verus!

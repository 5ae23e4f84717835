use winsysm::types::{
    AppConfig, CleanupCategory, HealthStatus, ProcessSortBy, ThreatLevel, ThreatSource,
};

#[test]
fn category_names() {
    assert_eq!(CleanupCategory::TempFiles.to_display_string(), "Temp Files");
    assert_eq!(CleanupCategory::BrowserCache.to_display_string(), "Browser Cache");
    assert_eq!(CleanupCategory::WindowsUpdate.to_display_string(), "Windows Update");
    assert_eq!(CleanupCategory::LogFiles.to_display_string(), "Log Files");
    assert_eq!(CleanupCategory::RecycleBin.to_display_string(), "Recycle Bin");
    assert_eq!(CleanupCategory::Thumbnails.to_display_string(), "Thumbnails");
    assert_eq!(CleanupCategory::CrashDumps.to_display_string(), "Crash Dumps");
    assert_eq!(CleanupCategory::InstallerCache.to_display_string(), "Installer Cache");
}

#[test]
fn threat_level_names_and_order() {
    assert_eq!(ThreatLevel::Critical.to_display_string(), "CRITICAL");
    assert_eq!(ThreatLevel::High.to_display_string(), "HIGH");
    assert_eq!(ThreatLevel::Medium.to_display_string(), "MEDIUM");
    assert_eq!(ThreatLevel::Low.to_display_string(), "LOW");
    assert_eq!(ThreatLevel::Info.to_display_string(), "INFO");
    assert!(ThreatLevel::Critical > ThreatLevel::High);
    assert!(ThreatLevel::High > ThreatLevel::Medium);
    assert!(ThreatLevel::Medium > ThreatLevel::Low);
    assert!(ThreatLevel::Low > ThreatLevel::Info);
    assert_eq!(ThreatLevel::Critical.severity(), 4);
    assert_eq!(ThreatLevel::Info.severity(), 0);
    let mut levels = vec![ThreatLevel::Low, ThreatLevel::Critical, ThreatLevel::Info];
    levels.sort();
    assert_eq!(levels, vec![ThreatLevel::Info, ThreatLevel::Low, ThreatLevel::Critical]);
}

#[test]
fn threat_source_names() {
    assert_eq!(ThreatSource::ProcessMimic.to_display_string(), "Process Name Mimicry");
    assert_eq!(ThreatSource::SuspiciousPath.to_display_string(), "Suspicious Exe Location");
    assert_eq!(ThreatSource::RandomName.to_display_string(), "Random Process Name");
    assert_eq!(ThreatSource::HighCpuUnknown.to_display_string(), "High CPU Unknown Process");
    assert_eq!(ThreatSource::SuspiciousStartup.to_display_string(), "Suspicious Startup Entry");
    assert_eq!(
        ThreatSource::ExecutableInBadDir.to_display_string(),
        "Executable in Bad Directory"
    );
    assert_eq!(ThreatSource::NetworkActivity.to_display_string(), "Suspicious Network Activity");
    assert_eq!(ThreatSource::MultipleInstances.to_display_string(), "Multiple Instances");
}

#[test]
fn health_status_badges() {
    assert_eq!(HealthStatus::Good.to_display_string(), "✅ GOOD");
    assert_eq!(HealthStatus::Warning.to_display_string(), "⚠️  WARNING");
    assert_eq!(HealthStatus::Critical.to_display_string(), "🔴 CRITICAL");
}

#[test]
fn default_config() {
    let c = AppConfig::default();
    assert_eq!(c.scan_depth, 1);
    assert_eq!(c.top_n_results, 20);
    assert!(c.cleanup_dry_run_default);
    assert_eq!(c.log_file_max_age_days, 30);
    assert!(c.security_check_network);
    assert!(c.health_export_path.is_none());
}

#[test]
fn process_sort_keys_compare() {
    assert_eq!(ProcessSortBy::Cpu, ProcessSortBy::Cpu);
    assert_ne!(ProcessSortBy::Memory, ProcessSortBy::Name);
    assert_ne!(ProcessSortBy::Pid, ProcessSortBy::Cpu);
}

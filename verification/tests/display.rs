use winsysm::text::parse_unsigned;
use winsysm::display::{
    decimal_string, fmt_size, header_lines, health_card, pad_center, pad_left, pad_right,
    progress_bar_cells, signed_decimal_string, size_tone, table_row, table_separator,
    target_rows, threat_badge, ScoreColor, SizeTone,
};
use winsysm::types::{CleanupCategory, CleanupTarget, ThreatLevel};

#[test]
fn numbers() {
    assert_eq!(decimal_string(0), "0");
    assert_eq!(decimal_string(7), "7");
    assert_eq!(decimal_string(1024), "1024");
    assert_eq!(decimal_string(u64::MAX), u64::MAX.to_string());
    assert_eq!(signed_decimal_string(-42), "-42");
    assert_eq!(signed_decimal_string(i32::MIN), i32::MIN.to_string());
    assert_eq!(signed_decimal_string(100), "100");
}

#[test]
fn human_sizes() {
    assert_eq!(fmt_size(0), "0 B");
    assert_eq!(fmt_size(1023), "1023 B");
    assert_eq!(fmt_size(1024), "1 KiB");
    assert_eq!(fmt_size(1536), "1.50 KiB");
    assert_eq!(fmt_size(5 * 1024 * 1024 * 1024), "5 GiB");
}

#[test]
fn size_tones() {
    assert_eq!(size_tone(0), SizeTone::Small);
    assert_eq!(size_tone(1024 * 1024 * 1024), SizeTone::Small);
    assert_eq!(size_tone(1024 * 1024 * 1024 + 1), SizeTone::Moderate);
    assert_eq!(size_tone(10 * 1024 * 1024 * 1024), SizeTone::Moderate);
    assert_eq!(size_tone(10 * 1024 * 1024 * 1024 + 1), SizeTone::Large);
}

#[test]
fn progress_bar_of_three_quarters() {
    // 75% of 30 cells rounds to 22 full cells
    assert_eq!(progress_bar_cells(22, 30), "██████████████████████░░░░░░░░");
    assert_eq!(progress_bar_cells(0, 3), "░░░");
    assert_eq!(progress_bar_cells(5, 3), "█████");
}

#[test]
fn padding() {
    assert_eq!(pad_right("ab", 4), "ab  ");
    assert_eq!(pad_right("abcdef", 4), "abcdef");
    assert_eq!(pad_left("7", 2), " 7");
    assert_eq!(pad_left("12", 2), "12");
    assert_eq!(pad_center("ab", 5), " ab  ");
    assert_eq!(pad_center("é", 3), format!("{:^3}", "é"));
    for w in 0..8 {
        assert_eq!(pad_right("xyz", w), format!("{:<width$}", "xyz", width = w));
        assert_eq!(pad_left("xyz", w), format!("{:>width$}", "xyz", width = w));
        assert_eq!(pad_center("xyz", w), format!("{:^width$}", "xyz", width = w));
    }
}

#[test]
fn table_lines() {
    let cells = vec!["NAME".to_string(), "SIZE".to_string(), "extra".to_string()];
    assert_eq!(table_row(&cells, &vec![6, 5]), "NAME    SIZE ");
    assert_eq!(table_row(&Vec::new(), &vec![3]), "");
    assert_eq!(table_separator(&vec![2, 3]), "──────────".chars().take(7).collect::<String>());
    assert_eq!(table_separator(&vec![]), "");
}

#[test]
fn section_header() {
    let lines = header_lines("🔍", "DISK SCANNER");
    assert_eq!(lines.len(), 3);
    assert_eq!(lines[0], format!("┏{}┓", "━".repeat(54)));
    let inner = format!("  {} {}", "🔍", "DISK SCANNER");
    assert_eq!(lines[1], format!("┃{}{}┃", inner, " ".repeat(54 - inner.len())));
    assert_eq!(lines[2], format!("┗{}┛", "━".repeat(54)));
}

#[test]
fn health_cards() {
    let (color, lines) = health_card(95, "Excellent");
    assert_eq!(color, ScoreColor::Green);
    assert_eq!(lines.len(), 5);
    assert_eq!(lines[0], format!("╔{}╗", "═".repeat(44)));
    assert_eq!(lines[1], format!("║{:^44}║", "SYSTEM HEALTH SCORE"));
    assert_eq!(lines[2], format!("║{:^44}║", "95/100"));
    assert_eq!(lines[3], format!("║{:^44}║", "🟢 Excellent"));
    assert_eq!(health_card(75, "Good").0, ScoreColor::Green);
    assert_eq!(health_card(75, "Good").1[3], format!("║{:^44}║", "🟡 Good"));
    assert_eq!(health_card(55, "Fair").0, ScoreColor::Yellow);
    assert_eq!(health_card(35, "Poor").0, ScoreColor::Red);
    assert_eq!(health_card(-5, "Bad").1[2], format!("║{:^44}║", "-5/100"));
    assert_eq!(health_card(101, "?").1[3], format!("║{:^44}║", "💀 ?"));
}

#[test]
fn threat_badges() {
    assert_eq!(threat_badge(ThreatLevel::Critical), "🔴 CRITICAL");
    assert_eq!(threat_badge(ThreatLevel::High), "🟠 HIGH");
    assert_eq!(threat_badge(ThreatLevel::Medium), "🟡 MEDIUM");
    assert_eq!(threat_badge(ThreatLevel::Low), "🟢 LOW");
    assert_eq!(threat_badge(ThreatLevel::Info), "🔵 INFO");
}

#[test]
fn cleanup_target_listing() {
    let t = vec![CleanupTarget {
        id: "win-temp".to_string(),
        path: "C:\\Windows\\Temp".to_string(),
        description: "Windows system temporary files".to_string(),
        category: CleanupCategory::TempFiles,
        size_bytes: 1536,
        file_count: 12,
        is_safe: true,
        requires_admin: true,
    }];
    let rows = target_rows(&t);
    assert_eq!(
        rows,
        vec![vec![
            " 1".to_string(),
            "Windows system temporary files".to_string(),
            "Temp Files".to_string(),
            "1.50 KiB".to_string(),
            "12".to_string(),
            "✅ 🔒".to_string(),
        ]]
    );
}

#[test]
fn decimal_text_reads_back() {
    for n in [0u64, 9, 10, 99, 100, 12345, u64::MAX] {
        assert_eq!(parse_unsigned(&decimal_string(n), u64::MAX), Some(n));
    }
}

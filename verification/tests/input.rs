use winsysm::input::{
    is_affirmative, parse_cleanup_command, parse_drill_command, pick_multiple, pick_option,
    scan_root_from_reply, CleanupCommand, DrillCommand,
};
use winsysm::types::SizedEntry;

#[test]
fn yes_answers() {
    for a in ["y", "Y", "yes", "YeS"] {
        assert!(is_affirmative(a), "{}", a);
    }
    for a in ["", "n", "no", "yess", "ye", "y "] {
        assert!(!is_affirmative(a), "{}", a);
    }
}

#[test]
fn pick_one_option() {
    assert_eq!(pick_option("1", 3), Some(0));
    assert_eq!(pick_option("3", 3), Some(2));
    assert_eq!(pick_option("0", 3), None);
    assert_eq!(pick_option("4", 3), None);
    assert_eq!(pick_option("two", 3), None);
    assert_eq!(pick_option("+2", 3), Some(1));
}

#[test]
fn pick_several_options() {
    assert_eq!(pick_multiple("1,3,5", 5), vec![0, 2, 4]);
    assert_eq!(pick_multiple(" 2 , x, 9,1", 3), vec![1, 0]);
    assert_eq!(pick_multiple("3,3", 3), vec![2, 2]);
    assert_eq!(pick_multiple("", 3), Vec::<usize>::new());
    assert_eq!(pick_multiple("a", 3), vec![0, 1, 2]);
    assert_eq!(pick_multiple("ALL", 2), vec![0, 1]);
    assert_eq!(pick_multiple("all", 0), Vec::<usize>::new());
}

#[test]
fn cleanup_commands() {
    assert_eq!(parse_cleanup_command("0"), CleanupCommand::Back);
    assert_eq!(parse_cleanup_command("Q"), CleanupCommand::Back);
    assert_eq!(parse_cleanup_command("a"), CleanupCommand::DeleteAll);
    assert_eq!(parse_cleanup_command("All"), CleanupCommand::DeleteAll);
    assert_eq!(parse_cleanup_command("s"), CleanupCommand::SelectTargets);
    assert_eq!(parse_cleanup_command("SELECT"), CleanupCommand::SelectTargets);
    assert_eq!(parse_cleanup_command("d"), CleanupCommand::DryRun);
    assert_eq!(parse_cleanup_command("dry"), CleanupCommand::DryRun);
    assert_eq!(parse_cleanup_command("x"), CleanupCommand::Unknown);
}

fn entry(dir: bool) -> SizedEntry {
    SizedEntry { path: "p".to_string(), size_bytes: 1, file_count: 1, is_dir: dir }
}

#[test]
fn drill_commands() {
    let listing = vec![entry(true), entry(false)];
    assert_eq!(parse_drill_command("quit", &listing), DrillCommand::Quit);
    assert_eq!(parse_drill_command("0", &listing), DrillCommand::Quit);
    assert_eq!(parse_drill_command("..", &listing), DrillCommand::Up);
    assert_eq!(parse_drill_command("B", &listing), DrillCommand::Up);
    assert_eq!(parse_drill_command("T", &listing), DrillCommand::FileTypes);
    assert_eq!(parse_drill_command("files", &listing), DrillCommand::LargestFiles);
    assert_eq!(parse_drill_command("1", &listing), DrillCommand::EnterFolder(0));
    assert_eq!(parse_drill_command("2", &listing), DrillCommand::ShowFile(1));
    assert_eq!(parse_drill_command("3", &listing), DrillCommand::InvalidNumber);
    assert_eq!(parse_drill_command("-1", &listing), DrillCommand::Unknown);
    assert_eq!(parse_drill_command("what", &listing), DrillCommand::Unknown);
}

#[test]
fn scan_root_reply() {
    assert_eq!(scan_root_from_reply(""), "C:\\");
    assert_eq!(scan_root_from_reply("D"), "D:\\");
    assert_eq!(scan_root_from_reply("E::"), "E:\\");
}

use facts::commands::{confirms_deletion, list_line, may_export, unused_versions};
use facts::interrupt::{InterruptAction, InterruptState, EXIT_FAULT, EXIT_INTERRUPTED};
use facts::version::{Version, VersionReq};

#[test]
fn deletion_is_confirmed_by_the_name() {
    assert!(confirms_deletion("home\n", "home"));
    assert!(confirms_deletion("home", "home"));
    assert!(confirms_deletion("home \t\r\n", "home"));
    assert!(confirms_deletion("my world\u{a0}\n", "my world"));
    assert!(confirms_deletion("\n", ""));
    assert!(!confirms_deletion(" home\n", "home"));
    assert!(!confirms_deletion("hom\n", "home"));
    assert!(!confirms_deletion("home!\n", "home"));
    assert!(!confirms_deletion("Home\n", "home"));
    assert!(!confirms_deletion("\n", "home"));
    assert!(!confirms_deletion("home\n", "home "));
}

#[test]
fn export_does_not_overwrite_unless_forced() {
    assert!(may_export(false, false));
    assert!(may_export(false, true));
    assert!(may_export(true, true));
    assert!(!may_export(true, false));
}

#[test]
fn versions_without_a_server_are_pruned() {
    let installed = vec![Version(0, 17, 79), Version(0, 18, 1), Version(0, 16, 51), Version(0, 18, 1)];
    let used = vec![Version(0, 18, 1), Version(1, 0, 0)];
    assert_eq!(unused_versions(&installed, &used), vec![Version(0, 17, 79), Version(0, 16, 51)]);
    assert_eq!(unused_versions(&installed, &Vec::new()), installed);
    assert_eq!(unused_versions(&Vec::new(), &used), vec![]);
    assert_eq!(unused_versions(&installed, &installed), vec![]);
}

#[test]
fn list_shows_name_version_and_requirement() {
    let line = list_line("home", Version(0, 17, 79), &VersionReq::Stable);
    assert_eq!(line, "home                 0.17.79  [latest stable]");
    assert_eq!(line, format!("{:<20} {}  [{}]", "home", "0.17.79", "latest stable"));
    let long = "a-server-with-a-long-name";
    assert_eq!(
        list_line(long, Version(1, 0, 0), &VersionReq::Specific("1.0".to_string())),
        format!("{:<20} {}  [{}]", long, "1.0.0", "1.0")
    );
    let exact = "exactly-twenty-chars";
    assert_eq!(exact.len(), 20);
    assert_eq!(
        list_line(exact, Version(1, 0, 0), &VersionReq::Experimental),
        "exactly-twenty-chars 1.0.0  [latest experimental]"
    );
    assert_eq!(
        list_line("\u{e9}t\u{e9}", Version(1, 0, 0), &VersionReq::Stable),
        format!("{:<20} {}  [{}]", "\u{e9}t\u{e9}", "1.0.0", "latest stable")
    );
}

#[test]
fn first_caught_interrupt_shuts_down_and_the_second_exits() {
    let mut state = InterruptState::new();
    assert!(!state.interrupted && !state.catching);
    state.catch();
    assert!(state.catching);
    assert_eq!(state.interrupt(), InterruptAction::ShutDown);
    assert!(state.interrupted);
    assert_eq!(state.interrupt(), InterruptAction::Exit);
    assert!(state.interrupted);
    assert_eq!(state.interrupt(), InterruptAction::Exit);
}

#[test]
fn interrupt_that_is_not_caught_exits() {
    let mut state = InterruptState::new();
    assert_eq!(state.interrupt(), InterruptAction::Exit);
    assert_eq!(state, InterruptState::new());
    assert_eq!(EXIT_INTERRUPTED, 2);
    assert_eq!(EXIT_FAULT, 1);
}

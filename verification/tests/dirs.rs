use facts::dirs::{list_versions, version_data, world_dir};
use facts::error::InvalidVersionNumber;
use facts::version::Version;

#[test]
fn world_is_kept_under_its_safe_name() {
    assert_eq!(world_dir("home"), vec!["worlds", "home"]);
    assert_eq!(world_dir("My World-2_a.b"), vec!["worlds", "My World-2_a.b"]);
    assert_eq!(world_dir("../etc"), vec!["worlds", ",46,.,47,etc"]);
    assert_eq!(world_dir("a/b\\c:d"), vec!["worlds", "a,47,b,92,c,58,d"]);
    assert_eq!(world_dir("\u{1f600}"), vec!["worlds", ",128512,"]);
    assert_eq!(world_dir(""), vec!["worlds", ""]);
}

#[test]
fn version_is_kept_under_its_text() {
    assert_eq!(version_data(Version(0, 17, 79)), vec!["versions", "0.17.79"]);
}

#[test]
fn versions_are_listed_by_their_directories() {
    let names = vec!["0.17.79".to_string(), "0.18.1".to_string()];
    assert_eq!(list_versions(&names).unwrap(), vec![Version(0, 17, 79), Version(0, 18, 1)]);
    assert_eq!(list_versions(&Vec::new()).unwrap(), vec![]);
    let names = vec!["0.17.79".to_string(), "tmp".to_string(), "x".to_string()];
    match list_versions(&names) {
        Err(InvalidVersionNumber::Version(rejected)) => assert_eq!(rejected, "tmp"),
        other => panic!("{:?}", other),
    }
}

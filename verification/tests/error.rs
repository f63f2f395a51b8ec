use facts::error::{
    DowngradingNotAllowed, InternalDataModified, InvalidVersionNumber, LoginFailed,
    NoDownloadAvailable, NoMatchingModVersions, NoSuchMod, NoSuchWorld, NotLoggedIn, ServerError,
    WorldAlreadyExists,
};
use facts::version::{Version, VersionReq};

#[test]
fn faults_are_said_in_words() {
    assert_eq!(WorldAlreadyExists("home".to_string()).message(), "World home already exists");
    assert_eq!(NoSuchWorld("home".to_string()).message(), "World home does not exist");
    assert_eq!(
        NoDownloadAvailable(Version(0, 17, 79)).message(),
        "No download link available for version Version(0, 17, 79)"
    );
    assert_eq!(NoSuchMod("rso".to_string()).message(), "No mod named \"rso\"");
    assert_eq!(
        NoMatchingModVersions("rso".to_string(), Version(1, 0, 0)).message(),
        "No supported versions of mod \"rso\" for Factorio version Version(1, 0, 0)"
    );
    assert_eq!(
        DowngradingNotAllowed {
            current: Version(0, 18, 1),
            requested: VersionReq::Specific("0.17.79".to_string()),
        }
        .message(),
        "Current server version (0.18.1) is newer than the requested one (0.17.79)"
    );
    assert_eq!(
        InternalDataModified("mod file name".to_string()).message(),
        "Internal data was modified incorrectly: mod file name"
    );
    assert_eq!(NotLoggedIn.message(), "Log in first with `facts login USERNAME PASSWORD`");
    assert_eq!(LoginFailed("wrong password".to_string()).message(), "Login failed: wrong password");
}

#[test]
fn rejected_texts_are_quoted() {
    assert_eq!(
        InvalidVersionNumber::Version("1.2".to_string()).message(),
        "Invalid version number: \"1.2\" (required major.minor.patch)"
    );
    assert_eq!(
        InvalidVersionNumber::Version2("1".to_string()).message(),
        "Invalid version number: \"1\" (required major.minor)"
    );
    assert_eq!(
        InvalidVersionNumber::Version("a\"b\n".to_string()).message(),
        "Invalid version number: \"a\\\"b\\n\" (required major.minor.patch)"
    );
    assert_eq!(NoSuchMod("a\\b".to_string()).message(), "No mod named \"a\\\\b\"");
}

#[test]
fn faults_of_a_run_are_said_in_words() {
    assert_eq!(
        ServerError::PortUnavailable.message(),
        "UDP port already in use. Is there another server running?"
    );
    assert_eq!(
        ServerError::UnknownError("out of \"luck\"".to_string()).message(),
        "Unknown Factorio server error: \"out of \\\"luck\\\"\""
    );
    assert_eq!(ServerError::UnknownState("Flying".to_string()).message(), "Unknown state Flying");
    assert_eq!(ServerError::MissingPlayerName.message(), "Event names no player");
    assert!(ServerError::PortUnavailable.is_recoverable());
    assert!(!ServerError::UnknownState("Flying".to_string()).is_recoverable());
    assert!(!ServerError::MissingPlayerName.is_recoverable());
}

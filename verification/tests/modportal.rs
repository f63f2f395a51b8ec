use facts::error::{InvalidVersionNumber, NoMatchingModVersions};
use facts::modportal::{
    api_url, download_url, is_login_page, latest_version, ModInfo, ModListJson, ModListJsonMod, ModLookupError, ModRelease,
    ModReleaseInfoJson,
};
use facts::version::Version;

fn rel(version: &str, game: &str) -> ModRelease {
    ModRelease {
        download_url: format!("/download/{}", version),
        version: version.to_string(),
        info_json: ModReleaseInfoJson { factorio_version: game.to_string() },
    }
}

#[test]
fn mod_is_read_from_the_name_of_its_file() {
    let info = ModInfo::from_file_name("rso-mod_1.2.3.zip").unwrap();
    assert_eq!(info.name, "rso-mod");
    assert_eq!(info.version, Version(1, 2, 3));
    let info = ModInfo::from_file_name("my_long_name_0.17.0.zip").unwrap();
    assert_eq!(info.name, "my_long_name");
    assert_eq!(info.version, Version(0, 17, 0));
    let info = ModInfo::from_file_name("_0.0.1.zip").unwrap();
    assert_eq!(info.name, "");
    let info = ModInfo::from_file_name("a.b__1.0.0.zip").unwrap();
    assert_eq!(info.name, "a.b_");
    let info = ModInfo::try_from_file_name("x_1.0.0.zip").unwrap();
    assert_eq!((info.name.as_str(), info.version), ("x", Version(1, 0, 0)));
}

#[test]
fn other_names_are_no_mod_files() {
    let bad = [
        "", "zip", ".zip", "x.zip", "1.2.3.zip", "x_1.2.zip", "x_1.2.3", "x_1.2.3.tar",
        "x_1.2.3.zip ", "x_1.2.3.ZIP", "x_01.2.3.zip", "x-1.2.3.zip", "x_1.2.3_.zip", "x_1.2.3zip",
        "x_.zip",
    ];
    for name in bad {
        assert!(ModInfo::from_file_name(name).is_none(), "{:?}", name);
        match ModInfo::try_from_file_name(name) {
            Err(e) => {
                assert_eq!(e.0, "mod file name");
                assert_eq!(e.message(), "Internal data was modified incorrectly: mod file name");
            },
            Ok(info) => panic!("{:?} for {:?}", info, name),
        }
    }
}

#[test]
fn mod_file_is_named_safely() {
    let info = ModInfo { name: "rso-mod".to_string(), version: Version(1, 2, 3) };
    assert_eq!(info.file_name(), "rso-mod_1.2.3.zip");
    assert_eq!(info.path(), vec!["mods".to_string(), "rso-mod_1.2.3.zip".to_string()]);
    let odd = ModInfo { name: ".a/b!\u{e9}".to_string(), version: Version(0, 0, 1) };
    assert_eq!(odd.file_name(), ",46,a,47,b,33,,233,_0.0.1.zip");
    let spaced = ModInfo { name: "A b_c.d-9".to_string(), version: Version(10, 0, 0) };
    assert_eq!(spaced.file_name(), "A b_c.d-9_10.0.0.zip");
    let copy = spaced.clone();
    assert_eq!((copy.name, copy.version), (spaced.name, spaced.version));
}

#[test]
fn last_release_for_the_game_is_chosen() {
    let releases = vec![rel("1.0.0", "0.16"), rel("1.1.0", "0.17"), rel("1.2.0", "0.17"), rel("2.0.0", "0.18")];
    let (info, url) = latest_version("rso", Version(0, 17, 79), &releases).unwrap();
    assert_eq!(info.name, "rso");
    assert_eq!(info.version, Version(1, 2, 0));
    assert_eq!(url, "/download/1.2.0");
    let (info, url) = latest_version("rso", Version(0, 16, 0), &releases).unwrap();
    assert_eq!((info.version, url.as_str()), (Version(1, 0, 0), "/download/1.0.0"));
    let unordered = vec![rel("3.0.0", "0.17"), rel("1.0.0", "0.17")];
    let (info, _) = latest_version("rso", Version(0, 17, 0), &unordered).unwrap();
    assert_eq!(info.version, Version(1, 0, 0));
}

#[test]
fn no_release_for_the_game_is_no_match() {
    let releases = vec![rel("1.0.0", "0.16"), rel("2.0.0", "0.18")];
    match latest_version("rso", Version(0, 17, 79), &releases) {
        Err(ModLookupError::NoMatch(NoMatchingModVersions(name, version))) => {
            assert_eq!(name, "rso");
            assert_eq!(version, Version(0, 17, 79));
        },
        other => panic!("{:?}", other),
    }
    assert!(matches!(
        latest_version("rso", Version(0, 17, 79), &Vec::new()),
        Err(ModLookupError::NoMatch(_))
    ));
}

#[test]
fn releases_in_undue_form_are_reported() {
    let releases = vec![rel("1.0.0", "0.17"), rel("1.1.0", "0.17.0"), rel("1.2.0", "x")];
    match latest_version("rso", Version(0, 17, 79), &releases) {
        Err(ModLookupError::InvalidData(InvalidVersionNumber::Version2(text))) => {
            assert_eq!(text, "0.17.0")
        },
        other => panic!("{:?}", other),
    }
    let releases = vec![rel("1.0", "0.17"), rel("1.1.0", "0.16")];
    match latest_version("rso", Version(0, 17, 79), &releases) {
        Err(ModLookupError::InvalidData(InvalidVersionNumber::Version(text))) => {
            assert_eq!(text, "1.0")
        },
        other => panic!("{:?}", other),
    }
    // A release that is not chosen need not have a version in due form.
    let releases = vec![rel("1.0", "0.16"), rel("1.1.0", "0.17")];
    assert!(latest_version("rso", Version(0, 17, 79), &releases).is_ok());
}

#[test]
fn enabled_mods_but_the_game_are_wanted() {
    let entry = |name: &str, enabled: bool| ModListJsonMod { name: name.to_string(), enabled };
    let list = ModListJson {
        mods: vec![
            entry("base", true),
            entry("rso", true),
            entry("bobs", false),
            entry("Base", true),
            entry("rso", true),
            entry("base", false),
        ],
    };
    assert_eq!(list.enabled_mods(), vec!["rso", "Base", "rso"]);
    assert_eq!(ModListJson { mods: Vec::new() }.enabled_mods(), Vec::<String>::new());
}

#[test]
fn mod_portal_is_asked_at_its_addresses() {
    assert_eq!(api_url("rso-mod"), "https://mods.factorio.com/api/mods/rso-mod");
    assert_eq!(
        download_url("/download/rso-mod/5a5f1ae6adcc441024d73f38"),
        "https://mods.factorio.com/download/rso-mod/5a5f1ae6adcc441024d73f38"
    );
}

#[test]
fn page_to_log_in_on_is_no_mod() {
    assert!(is_login_page("text/html; charset=utf-8"));
    assert!(is_login_page("text/html"));
    assert!(!is_login_page("application/octet-stream"));
    assert!(!is_login_page(" text/html"));
    assert!(!is_login_page("text/htm"));
    assert!(!is_login_page(""));
}

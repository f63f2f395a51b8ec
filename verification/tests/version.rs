use facts::download::LatestReleases;
use facts::error::InvalidVersionNumber;
use facts::version::{ResolveError, ResolvedVersionReq, Version, Version2, VersionReq};

fn v2(s: &str) -> Version2 {
    Version2::try_from_str(s).unwrap()
}

fn v3(s: &str) -> Version {
    Version::try_from_str(s).unwrap()
}

#[test]
fn version2range_includes() {
    let v01 = v2("0.1");
    let v02 = v2("0.2");
    let v03 = v2("0.3");
    let v10 = v2("1.0");
    let v20 = v2("2.0");

    let vr0 = v01.to(v02);
    assert!(!vr0.includes(v3("0.0.9")));
    assert!(vr0.includes(v3("0.1.0")));
    assert!(vr0.includes(v3("0.1.3")));
    assert!(vr0.includes(v3("0.2.0")));
    assert!(vr0.includes(v3("0.2.3")));
    assert!(!vr0.includes(v3("0.3.0")));

    let vr1 = v10.to(v20);
    assert!(!vr1.includes(v3("0.0.9")));
    assert!(!vr1.includes(v3("0.1.0")));
    assert!(!vr1.includes(v3("0.1.3")));
    assert!(!vr1.includes(v3("0.2.0")));
    assert!(!vr1.includes(v3("0.2.3")));
    assert!(!vr1.includes(v3("0.3.0")));
    assert!(!vr1.includes(v3("0.9.0")));
    assert!(vr1.includes(v3("1.0.2")));
    assert!(vr1.includes(v3("1.3.4")));
    assert!(vr1.includes(v3("2.0.6")));
    assert!(!vr1.includes(v3("2.3.8")));
    assert!(!vr1.includes(v3("3.0.0")));

    let vr2 = v10.to(v10);
    assert!(!vr2.includes(v3("0.9.0")));
    assert!(vr2.includes(v3("1.0.2")));
    assert!(!vr2.includes(v3("1.3.4")));
    assert!(!vr2.includes(v3("2.0.6")));
    assert!(!vr2.includes(v3("2.3.8")));
    assert!(!vr2.includes(v3("3.0.0")));

    let vr3 = v02.to(v03);
    assert!(!vr3.includes(v3("0.1.0")));
    assert!(vr3.includes(v3("0.2.0")));
    assert!(vr3.includes(v3("0.2.5")));
    assert!(vr3.includes(v3("0.3.0")));
    assert!(vr3.includes(v3("0.3.5")));
    assert!(!vr3.includes(v3("1.0.2")));
    assert!(!vr3.includes(v3("1.3.4")));
    assert!(!vr3.includes(v3("2.0.6")));
    assert!(!vr3.includes(v3("2.3.8")));
    assert!(!vr3.includes(v3("3.0.0")));
}

#[test]
fn version_is_read_from_its_text() {
    assert_eq!(v3("0.17.79"), Version(0, 17, 79));
    assert_eq!(v3("1.0.0"), Version(1, 0, 0));
    assert_eq!(v3("4294967295.0.4294967295"), Version(u32::MAX, 0, u32::MAX));
    assert_eq!(v2("0.17"), Version2(0, 17));
    assert_eq!(v2("10.0"), Version2(10, 0));
}

#[test]
fn version_text_and_back() {
    for version in [Version(0, 0, 0), Version(1, 2, 3), Version(10, 200, 3000), Version(u32::MAX, 9, 10)] {
        let text = version.to_string();
        assert_eq!(Version::try_from_str(&text).unwrap(), version);
    }
    assert_eq!(Version(0, 17, 79).to_string(), "0.17.79");
    assert_eq!(Version(u32::MAX, 0, 100).to_string(), "4294967295.0.100");
    assert_eq!(Version2(1, 20).to_string(), "1.20");
    assert_eq!(Version(1, 2, 3).debug_string(), format!("{:?}", Version(1, 2, 3)));
    assert_eq!(Version(1, 2, 3).debug_string(), "Version(1, 2, 3)");
}

#[test]
fn texts_that_are_no_version_are_rejected() {
    let bad = [
        "", ".", "..", "1", "1.2", "1.2.", ".1.2", "1..2", "1.2.3.4", "01.2.3", "1.02.3", "1.2.03",
        "1.2.3 ", " 1.2.3", "1.2.3\n", "+1.2.3", "-1.2.3", "1.2.x", "a.b.c", "1,2,3",
        "4294967296.0.0", "0.4294967296.0", "0.0.4294967296", "99999999999999999999.0.0",
        "\u{661}.2.3", "1.2.3.zip",
    ];
    for text in bad {
        match Version::try_from_str(text) {
            Err(InvalidVersionNumber::Version(rejected)) => assert_eq!(rejected, text),
            other => panic!("{:?} for {:?}", other, text),
        }
    }
    let bad2 = ["", "1", "1.", ".1", "1.2.3", "01.2", "1.02", "1.2 ", "a.b", "4294967296.0", "0.4294967296"];
    for text in bad2 {
        match Version2::try_from_str(text) {
            Err(InvalidVersionNumber::Version2(rejected)) => assert_eq!(rejected, text),
            other => panic!("{:?} for {:?}", other, text),
        }
    }
}

#[test]
fn versions_are_ordered_part_by_part() {
    assert!(v3("0.17.79") < v3("0.18.0"));
    assert!(v3("0.18.0") < v3("1.0.0"));
    assert!(v3("1.0.9") < v3("1.0.10"));
    assert!(v3("1.2.3") <= v3("1.2.3"));
    assert!(!(v3("1.2.3") < v3("1.2.3")));
    assert!(v3("2.0.0") > v3("1.99.99"));
    assert!(v3("1.2.3").is_before(&v3("1.3.0")));
    assert!(!v3("1.3.0").is_before(&v3("1.2.3")));
    assert_eq!(v3("1.2.3").partial_cmp(&v3("1.2.3")), Some(std::cmp::Ordering::Equal));
    assert_eq!(v3("1.2.3").cmp(&v3("1.2.4")), std::cmp::Ordering::Less);
    assert_eq!(v3("1.2.3").max(v3("1.10.0")), v3("1.10.0"));
}

#[test]
fn group_includes_its_versions_only() {
    let group = v2("0.17");
    assert!(group.includes(v3("0.17.0")));
    assert!(group.includes(v3("0.17.79")));
    assert!(group.includes(Version(0, 17, u32::MAX)));
    assert!(!group.includes(v3("0.16.51")));
    assert!(!group.includes(v3("0.18.0")));
    assert!(!group.includes(v3("1.17.0")));
    assert_eq!(group.extend_start(), v3("0.17.0"));
    assert_eq!(group.extend_after(), v3("0.18.0"));
    let last = Version2(3, u32::MAX);
    assert!(last.includes(Version(3, u32::MAX, 7)));
    assert!(!last.includes(Version(4, 0, 0)));
}

#[test]
fn requirement_is_read_from_its_text() {
    assert_eq!(VersionReq::from_str("s"), Ok(VersionReq::Stable));
    assert_eq!(VersionReq::from_str("stable"), Ok(VersionReq::Stable));
    assert_eq!(VersionReq::from_str("e"), Ok(VersionReq::Experimental));
    assert_eq!(VersionReq::from_str("experimental"), Ok(VersionReq::Experimental));
    for text in ["0", "1", "1.2", "1.2.3", "0.17.79", "99999999999.0"] {
        assert_eq!(VersionReq::from_str(text), Ok(VersionReq::Specific(text.to_string())));
    }
    for text in ["", "S", "latest", "1.", "1.2.3.4", "01", "1.02", "1.2.3 ", "stable ", "v1"] {
        assert_eq!(VersionReq::from_str(text), Err(format!("Invalid version {:?}", text)));
    }
    assert_eq!(VersionReq::from_str("a\"b"), Err("Invalid version \"a\\\"b\"".to_string()));
}

#[test]
fn requirement_is_written_for_a_reader() {
    assert_eq!(VersionReq::Stable.to_string(), "latest stable");
    assert_eq!(VersionReq::Experimental.to_string(), "latest experimental");
    assert_eq!(VersionReq::Specific("0.17".to_string()).to_string(), "0.17");
    assert_eq!(VersionReq::Specific("0.17".to_string()).clone(), VersionReq::Specific("0.17".to_string()));
}

#[test]
fn requirement_resolves_to_a_version() {
    let latest = LatestReleases { experimental: Version(0, 18, 1), stable: Version(0, 17, 79) };
    assert_eq!(
        VersionReq::Stable.resolve(Some(latest)).unwrap(),
        ResolvedVersionReq { version: Version(0, 17, 79), stability_hint: Some(true) }
    );
    assert_eq!(
        VersionReq::Experimental.resolve(Some(latest)).unwrap(),
        ResolvedVersionReq { version: Version(0, 18, 1), stability_hint: Some(false) }
    );
    let specific = VersionReq::Specific("0.16.51".to_string());
    let resolved = ResolvedVersionReq { version: Version(0, 16, 51), stability_hint: None };
    assert_eq!(specific.resolve(Some(latest)).unwrap(), resolved);
    assert_eq!(specific.resolve(None).unwrap(), resolved);
    match VersionReq::Specific("0.16".to_string()).resolve(Some(latest)) {
        Err(ResolveError::Invalid(InvalidVersionNumber::Version(rejected))) => {
            assert_eq!(rejected, "0.16")
        },
        other => panic!("{:?}", other),
    }
    assert!(matches!(VersionReq::Stable.resolve(None), Err(ResolveError::LatestUnknown)));
    assert!(matches!(VersionReq::Experimental.resolve(None), Err(ResolveError::LatestUnknown)));
    assert!(VersionReq::Stable.follows_latest());
    assert!(VersionReq::Experimental.follows_latest());
    assert!(!VersionReq::Specific("1.0.0".to_string()).follows_latest());
}

#[test]
fn texts_are_accepted_as_the_regular_expressions_accept_them() {
    let three = regex::Regex::new(r"^(0|[1-9][0-9]*)\.(0|[1-9][0-9]*)\.(0|[1-9][0-9]*)$").unwrap();
    let two = regex::Regex::new(r"^(0|[1-9][0-9]*)\.(0|[1-9][0-9]*)$").unwrap();
    let upto = regex::Regex::new(r"^(0|[1-9][0-9]*)(\.(0|[1-9][0-9]*)(\.(0|[1-9][0-9]*))?)?$").unwrap();
    let pieces = ["", "0", "1", "9", "10", "00", "01", ".", "..", " ", "\n", "a", "-", "4294967295", "4294967296", "\u{663}"];
    let mut texts: Vec<String> = Vec::new();
    for a in pieces {
        for b in pieces {
            for c in pieces {
                texts.push(format!("{}{}{}", a, b, c));
                texts.push(format!("{}.{}.{}", a, b, c));
                texts.push(format!("{}.{}{}", a, b, c));
            }
        }
    }
    for text in texts {
        let fits = |cap: &regex::Captures, n: usize| -> bool {
            (1..=n).all(|i| cap[i].parse::<u32>().is_ok())
        };
        let as_three = three.captures(&text).map(|cap| fits(&cap, 3)).unwrap_or(false);
        assert_eq!(Version::try_from_str(&text).is_ok(), as_three, "{:?}", text);
        let as_two = two.captures(&text).map(|cap| fits(&cap, 2)).unwrap_or(false);
        assert_eq!(Version2::try_from_str(&text).is_ok(), as_two, "{:?}", text);
        let specific = upto.is_match(&text);
        assert_eq!(
            VersionReq::from_str(&text) == Ok(VersionReq::Specific(text.clone())),
            specific,
            "{:?}",
            text
        );
        assert_eq!(VersionReq::from_str(&text).is_ok(), specific, "{:?}", text);
    }
}

use facts::download::{
    is_archive, require_resolved, InvalidIndex, InvalidListing, LatestReleases, Release,
    EXPERIMENTAL_RELEASES_URL, LATEST_RELEASES_URL, STABLE_RELEASES_URL,
};
use facts::error::{InvalidVersionNumber, NoDownloadAvailable};
use facts::version::{ResolvedVersionReq, Version};

fn release(major: u32, minor: u32, patch: u32) -> Release {
    Release { version: Version(major, minor, patch) }
}

#[test]
fn release_is_downloaded_from_its_address() {
    assert_eq!(
        release(0, 17, 79).url(),
        "https://www.factorio.com/get-download/0.17.79/headless/linux64"
    );
}

#[test]
fn latest_releases_are_read_from_the_index() {
    let index = "{\"experimental\":{\"alpha\":\"0.18.2\",\"demo\":\"0.18.2\",\"headless\":\"0.18.1\"},\
        \"stable\":{\"alpha\":\"0.17.79\",\"demo\":\"0.17.79\",\"headless\":\"0.17.79\"}}";
    assert_eq!(
        LatestReleases::get(index).unwrap(),
        LatestReleases { experimental: Version(0, 18, 1), stable: Version(0, 17, 79) }
    );
}

#[test]
fn release_index_in_undue_form_is_rejected() {
    assert!(matches!(LatestReleases::get(""), Err(InvalidIndex::NoExperimental)));
    assert!(matches!(LatestReleases::get("[]"), Err(InvalidIndex::NoExperimental)));
    assert!(matches!(
        LatestReleases::get("{\"experimental\":{\"headless\":7}}"),
        Err(InvalidIndex::NoExperimental)
    ));
    assert!(matches!(
        LatestReleases::get("{\"experimental\":{\"headless\":\"0.18.1\"}}"),
        Err(InvalidIndex::NoStable)
    ));
    assert!(matches!(
        LatestReleases::get("{\"experimental\":{\"headless\":\"0.18.1\"},\"stable\":\"0.17.79\"}"),
        Err(InvalidIndex::NoStable)
    ));
    match LatestReleases::get("{\"experimental\":{\"headless\":\"0.18\"},\"stable\":{\"headless\":\"0.17.79\"}}") {
        Err(InvalidIndex::Version(InvalidVersionNumber::Version(rejected))) => assert_eq!(rejected, "0.18"),
        other => panic!("{:?}", other),
    }
    match LatestReleases::get("{\"experimental\":{\"headless\":\"0.18.1\"},\"stable\":{\"headless\":\"none\"}}") {
        Err(InvalidIndex::Version(InvalidVersionNumber::Version(rejected))) => assert_eq!(rejected, "none"),
        other => panic!("{:?}", other),
    }
}

#[test]
fn archives_are_known_by_their_ending() {
    assert!(is_archive("attachment; filename=factorio_headless_x64_0.17.79.tar.xz"));
    assert!(is_archive(".tar.xz"));
    assert!(!is_archive("attachment; filename=factorio.tar.gz"));
    assert!(!is_archive("tar.xz"));
    assert!(!is_archive(""));
    assert!(!is_archive("x.tar.xz "));
}

#[test]
fn releases_are_found_at_the_game_s_site() {
    assert_eq!(LATEST_RELEASES_URL, "https://factorio.com/api/latest-releases");
    assert_eq!(STABLE_RELEASES_URL, "https://www.factorio.com/download-headless");
    assert_eq!(EXPERIMENTAL_RELEASES_URL, "https://www.factorio.com/download-headless/experimental");
}

#[test]
fn download_page_lists_its_releases() {
    let html = "<!DOCTYPE html><html><head><title>Download</title></head><body>\
        <h1>Headless</h1>\
        <div><h3>0.17.79 (Stable)</h3><ul><li>1.2.3</li></ul></div>\
        <div><h3>\n   0.17.78\n</h3></div>\
        <h3><a href=\"/x\">0.16.51</a> older</h3>\
        <h2>9.9.9</h2>\
        </body></html>";
    assert_eq!(
        Release::get_all_from(html).unwrap(),
        vec![release(0, 17, 79), release(0, 17, 78), release(0, 16, 51)]
    );
    assert_eq!(Release::get_all_from("<p>nothing</p>").unwrap(), vec![]);
    assert_eq!(Release::get_all_from("").unwrap(), vec![]);
}

#[test]
fn download_page_without_versions_is_rejected() {
    match Release::get_all_from("<h3>0.17.79</h3><h3></h3><h3>0.17.78</h3>") {
        Err(InvalidListing::EmptyHeading(at)) => assert_eq!(at, 1),
        other => panic!("{:?}", other),
    }
    match Release::get_all_from("<h3>0.17.79</h3><h3>  \n </h3>") {
        Err(InvalidListing::EmptyHeading(at)) => assert_eq!(at, 1),
        other => panic!("{:?}", other),
    }
    match Release::get_all_from("<h3>Latest 0.17.79</h3>") {
        Err(InvalidListing::Version(at, InvalidVersionNumber::Version(rejected))) => {
            assert_eq!(at, 0);
            assert_eq!(rejected, "Latest");
        },
        other => panic!("{:?}", other),
    }
}

#[test]
fn headings_name_releases_by_their_first_word() {
    let texts = |items: &[&str]| -> Vec<String> { items.iter().map(|s| s.to_string()).collect() };
    let headings = vec![texts(&["1.2.3 (Stable)"]), texts(&["\t4.5.6", "7.8.9"])];
    assert_eq!(Release::from_headings(&headings).unwrap(), vec![release(1, 2, 3), release(4, 5, 6)]);
    let headings = vec![texts(&["1.2.3"]), texts(&[])];
    assert!(matches!(Release::from_headings(&headings), Err(InvalidListing::EmptyHeading(1))));
    // Only the first text of a heading counts.
    let headings = vec![texts(&[" ", "1.2.3"])];
    assert!(matches!(Release::from_headings(&headings), Err(InvalidListing::EmptyHeading(0))));
    assert_eq!(Release::from_headings(&Vec::new()).unwrap(), vec![]);
}

#[test]
fn download_page_is_read_by_the_first_text_of_each_heading() {
    assert_eq!(
        Release::get_all_from("<h3>1.2.3<b>4.5.6</b></h3>").unwrap(),
        vec![release(1, 2, 3)]
    );
    match Release::get_all_from("<h3> <b>4.5.6</b></h3>") {
        Err(InvalidListing::EmptyHeading(at)) => assert_eq!(at, 0),
        other => panic!("{:?}", other),
    }
}

#[test]
fn releases_are_looked_through_by_stability() {
    let experimentals = vec![release(0, 18, 1), release(0, 18, 0)];
    let stables = vec![release(0, 17, 79)];
    assert_eq!(
        Release::get_all_by_hint(None, experimentals.clone(), stables.clone()),
        vec![release(0, 18, 1), release(0, 18, 0), release(0, 17, 79)]
    );
    assert_eq!(
        Release::get_all_by_hint(Some(true), experimentals.clone(), stables.clone()),
        vec![release(0, 17, 79)]
    );
    assert_eq!(
        Release::get_all_by_hint(Some(false), experimentals.clone(), stables.clone()),
        vec![release(0, 18, 1), release(0, 18, 0)]
    );
    assert!(Release::wants_experimentals(None) && Release::wants_stables(None));
    assert!(!Release::wants_experimentals(Some(true)) && Release::wants_stables(Some(true)));
    assert!(Release::wants_experimentals(Some(false)) && !Release::wants_stables(Some(false)));
}

#[test]
fn resolved_version_is_found_among_the_releases() {
    let releases = vec![release(0, 18, 1), release(0, 17, 79), release(0, 17, 79)];
    let wanted = ResolvedVersionReq { version: Version(0, 17, 79), stability_hint: None };
    assert_eq!(
        require_resolved(wanted, &releases).unwrap(),
        "https://www.factorio.com/get-download/0.17.79/headless/linux64"
    );
    let missing = ResolvedVersionReq { version: Version(0, 17, 78), stability_hint: Some(true) };
    assert_eq!(require_resolved(missing, &releases), Err(NoDownloadAvailable(Version(0, 17, 78))));
    assert_eq!(require_resolved(missing, &Vec::new()), Err(NoDownloadAvailable(Version(0, 17, 78))));
}

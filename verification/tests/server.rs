use facts::config::{AutoUpdate, MetaConfig, MetaConfigUpdate};
use facts::modportal::ModInfo;
use facts::server::run_once::{RunAction, RunPhase};
use facts::server::serve::{Serve, ServeAction};
use facts::server::{merge_admins, AdminListError, Server, ServerInfo, SERVER_INFO_VERSION};
use facts::version::{ResolvedVersionReq, Version, VersionReq};

fn config() -> MetaConfig {
    MetaConfig {
        factorio: VersionReq::Stable,
        autoupdate: AutoUpdate::Enabled,
        autoupdate_interval_minutes: 60,
    }
}

fn server() -> Server {
    Server::create("home".to_string(), "/data/worlds/home".to_string(), config(), Version(0, 17, 79))
}

fn resolved(major: u32, minor: u32, patch: u32) -> ResolvedVersionReq {
    ResolvedVersionReq { version: Version(major, minor, patch), stability_hint: Some(true) }
}

fn info(name: &str, major: u32, minor: u32, patch: u32) -> ModInfo {
    ModInfo { name: name.to_string(), version: Version(major, minor, patch) }
}

fn pairs(mods: &[ModInfo]) -> Vec<(String, Version)> {
    mods.iter().map(|m| (m.name.clone(), m.version)).collect()
}

fn strings(items: &[&str]) -> Vec<String> {
    items.iter().map(|s| s.to_string()).collect()
}

#[test]
fn new_server_keeps_what_it_is_given() {
    let server = server();
    assert_eq!(server.name, "home");
    assert_eq!(server.dir, "/data/worlds/home");
    assert_eq!(server.info.format, SERVER_INFO_VERSION);
    assert_eq!(SERVER_INFO_VERSION, 1);
    assert_eq!(server.info.config, config());
    assert_eq!(server.info.current_version, Version(0, 17, 79));
    assert!(server.info.is_supported());
}

#[test]
fn server_data_of_another_format_is_not_read() {
    let good = ServerInfo { format: 1, config: config(), current_version: Version(1, 0, 0) };
    let server = Server::get("home".to_string(), "/d".to_string(), good).unwrap();
    assert_eq!(server.info.current_version, Version(1, 0, 0));
    let bad = ServerInfo { format: 2, config: config(), current_version: Version(1, 0, 0) };
    assert!(!bad.is_supported());
    assert!(Server::get("home".to_string(), "/d".to_string(), bad).is_none());
}

#[test]
fn update_is_available_when_the_latest_is_newer() {
    let server = server();
    assert_eq!(server.update_available(Some(resolved(0, 17, 80))), Some(resolved(0, 17, 80)));
    assert_eq!(server.update_available(Some(resolved(1, 0, 0))), Some(resolved(1, 0, 0)));
    assert_eq!(server.update_available(Some(resolved(0, 17, 79))), None);
    assert_eq!(server.update_available(Some(resolved(0, 16, 99))), None);
    assert_eq!(server.update_available(None), None);
}

#[test]
fn server_does_not_go_back_to_an_older_version() {
    let server = server();
    assert!(server.check_downgrade(resolved(0, 17, 79)).is_ok());
    assert!(server.check_downgrade(resolved(0, 18, 0)).is_ok());
    let refused = server.check_downgrade(resolved(0, 17, 78)).unwrap_err();
    assert_eq!(refused.current, Version(0, 17, 79));
    assert_eq!(refused.requested, VersionReq::Stable);
    assert_eq!(
        refused.message(),
        "Current server version (0.17.79) is newer than the requested one (latest stable)"
    );
}

#[test]
fn changed_configuration_is_finished_by_an_update_or_refused() {
    let server = server();
    assert_eq!(server.finish_update_config(None).unwrap(), None);
    assert_eq!(
        server.finish_update_config(Some(resolved(0, 17, 79))).unwrap(),
        Some(resolved(0, 17, 79))
    );
    assert_eq!(
        server.finish_update_config(Some(resolved(0, 18, 0))).unwrap(),
        Some(resolved(0, 18, 0))
    );
    let mut changed = self::server();
    changed.update_config(MetaConfigUpdate {
        factorio: Some(VersionReq::Specific("0.16.51".to_string())),
        autoupdate: None,
        autoupdate_interval_minutes: None,
    });
    let refused = changed.finish_update_config(Some(resolved(0, 16, 51))).unwrap_err();
    assert_eq!(refused.current, Version(0, 17, 79));
    assert_eq!(refused.requested, VersionReq::Specific("0.16.51".to_string()));
    assert_eq!(changed.info.current_version, Version(0, 17, 79));
}

#[test]
fn update_records_the_new_version() {
    let mut server = server();
    server.update(Version(0, 18, 1));
    assert_eq!(server.info.current_version, Version(0, 18, 1));
    assert_eq!(server.info.config, config());
    assert_eq!(server.name, "home");
}

#[test]
fn configuration_is_changed_field_by_field() {
    let mut server = server();
    server.update_config(MetaConfigUpdate {
        factorio: None,
        autoupdate: Some(AutoUpdate::Forced),
        autoupdate_interval_minutes: None,
    });
    assert_eq!(server.info.config.autoupdate, AutoUpdate::Forced);
    assert_eq!(server.info.config.factorio, VersionReq::Stable);
    assert_eq!(server.info.config.autoupdate_interval_minutes, 60);
    server.update_config(MetaConfigUpdate {
        factorio: Some(VersionReq::Specific("0.17.79".to_string())),
        autoupdate: None,
        autoupdate_interval_minutes: Some(5),
    });
    assert_eq!(server.info.config.factorio, VersionReq::Specific("0.17.79".to_string()));
    assert_eq!(server.info.config.autoupdate, AutoUpdate::Forced);
    assert_eq!(server.info.config.autoupdate_interval_minutes, 5);
    assert_eq!(server.info.current_version, Version(0, 17, 79));
}

#[test]
fn serving_begins_with_the_server_s_policy() {
    assert_eq!(server().serve(), Serve::start(AutoUpdate::Enabled));
    assert_eq!(server().serve().1, ServeAction::CheckUpdate);
    let mut fixed = server();
    fixed.info.config.autoupdate = AutoUpdate::Disabled;
    assert_eq!(fixed.serve().1, ServeAction::RunOnce);
}

#[test]
fn run_begins_with_the_server_s_policy() {
    let (run, action) = server().begin_run().unwrap();
    assert_eq!(action, RunAction::Receive);
    assert_eq!(run.policy, AutoUpdate::Enabled);
    assert_eq!(run.ticks, 72000);
    assert_eq!(run.phase, RunPhase::AwaitingStartup);
    let mut endless = server();
    endless.info.config.autoupdate_interval_minutes = u64::MAX;
    assert!(endless.begin_run().is_none());
}

#[test]
fn game_is_called_with_the_files_that_are_there() {
    assert_eq!(
        Server::generate_args(false, false),
        vec!["--config", "config.ini", "--create", "world"]
    );
    assert_eq!(
        Server::generate_args(true, false),
        vec!["--config", "config.ini", "--create", "world", "--map-gen-settings", "map-gen-settings.json"]
    );
    assert_eq!(
        Server::generate_args(false, true),
        vec!["--config", "config.ini", "--create", "world", "--map-settings", "map-settings.json"]
    );
    assert_eq!(
        Server::generate_args(true, true),
        vec![
            "--config", "config.ini", "--create", "world", "--map-gen-settings",
            "map-gen-settings.json", "--map-settings", "map-settings.json"
        ]
    );
    let start = vec![
        "--config", "config.ini", "--start-server", "world.zip", "--mod-directory",
        "factorio/mods/", "--server-adminlist", "server-adminlist.json",
    ];
    assert_eq!(Server::start_args(false), start);
    let mut with_settings = start.clone();
    with_settings.push("--server-settings");
    with_settings.push("server-settings.json");
    assert_eq!(Server::start_args(true), with_settings);
}

#[test]
fn game_keeps_its_data_in_the_server_s_directory() {
    assert_eq!(
        server().config_ini(),
        "[path]\nread-data=__PATH__executable__/../../data\nwrite-data=/data/worlds/home\n"
    );
    assert_eq!(
        server().command_base(),
        vec!["versions", "0.17.79", "factorio", "bin", "x64", "factorio"]
    );
}

#[test]
fn administrators_are_named_first_and_then_read() {
    assert_eq!(
        Server::import_handle_files(&strings(&["alice", "bob"]), None).unwrap(),
        "[\"alice\",\"bob\"]"
    );
    assert_eq!(
        Server::import_handle_files(&strings(&["alice"]), Some(" [ \"carol\" , \"a\\\"b\" ] ")).unwrap(),
        "[\"alice\",\"carol\",\"a\\\"b\"]"
    );
    assert_eq!(Server::import_handle_files(&Vec::new(), None).unwrap(), "[]");
    assert_eq!(Server::import_handle_files(&Vec::new(), Some("[]")).unwrap(), "[]");
    assert_eq!(
        merge_admins(&strings(&["a", "b"]), strings(&["c", "a"])),
        strings(&["a", "b", "c", "a"])
    );
}

#[test]
fn administrators_in_undue_form_are_reported() {
    for text in ["", "{}", "[1]", "[\"a\"", "\"a\"", "[\"a\"] x", "null"] {
        assert_eq!(
            Server::import_handle_files(&strings(&["alice"]), Some(text)),
            Err(AdminListError::Unreadable),
            "{:?}",
            text
        );
    }
}

#[test]
fn installed_mods_are_those_of_the_files() {
    let files = strings(&["rso_1.2.3.zip", "notes.txt", "bobs_0.17.0.zip", "broken_1.2.zip", "rso_1.2.4.zip"]);
    assert_eq!(
        pairs(&Server::mods(&files)),
        vec![
            ("rso".to_string(), Version(1, 2, 3)),
            ("bobs".to_string(), Version(0, 17, 0)),
            ("rso".to_string(), Version(1, 2, 4)),
        ]
    );
    assert!(Server::mods(&Vec::new()).is_empty());
}

#[test]
fn linking_a_mod_unlinks_its_other_versions() {
    let installed = vec![info("rso", 1, 2, 3), info("bobs", 1, 2, 4), info("rso", 1, 2, 4), info("rso", 1, 0, 0)];
    assert_eq!(
        pairs(&Server::link_mod(&installed, &info("rso", 1, 2, 4))),
        vec![("rso".to_string(), Version(1, 2, 3)), ("rso".to_string(), Version(1, 0, 0))]
    );
    assert!(Server::link_mod(&installed, &info("angels", 1, 0, 0)).is_empty());
    assert!(Server::link_mod(&installed, &info("bobs", 1, 2, 4)).is_empty());
}

#[test]
fn removing_mods_unlinks_the_first_of_each_name() {
    let installed = vec![info("rso", 1, 2, 3), info("bobs", 1, 0, 0), info("rso", 1, 2, 4)];
    assert_eq!(
        pairs(&Server::remove_mods(&installed, &strings(&["bobs", "none", "rso", "rso"]))),
        vec![
            ("bobs".to_string(), Version(1, 0, 0)),
            ("rso".to_string(), Version(1, 2, 3)),
            ("rso".to_string(), Version(1, 2, 3)),
        ]
    );
    assert!(Server::remove_mods(&installed, &Vec::new()).is_empty());
    assert!(Server::remove_mods(&Vec::new(), &strings(&["rso"])).is_empty());
}

#[test]
fn updating_mods_fetches_every_installed_mod() {
    let installed = vec![info("rso", 1, 2, 3), info("bobs", 1, 0, 0), info("rso", 1, 2, 4)];
    assert_eq!(Server::update_mods(&installed), strings(&["rso", "bobs", "rso"]));
}

//! A server: its name, its directory, what is kept of it, and what is
//! decided for it: whether to update, which mods to link and unlink, how to
//! call the game.

use vstd::prelude::*;
use vstd::string::StringExecFns;
use crate::config::{MetaConfig, MetaConfigUpdate};
use crate::error::DowngradingNotAllowed;
use crate::json::{json_strings, read_strings, strings_json, write_strings};
use crate::modportal::{file_text, ModInfo};
use crate::server::run_once::{RunAction, RunOnce};
use crate::server::serve::{Serve, ServeAction};
use crate::text::strings_view;
use crate::version::{ResolvedVersionReq, Version};

pub mod run_once;
pub mod serve;

verus! {

/// The format of the data that is kept of a server.
pub const SERVER_INFO_VERSION: u64 = 1;

/// What is kept of a server between two runs of the program.
#[derive(Debug, Clone)]
pub struct ServerInfo {
    /// The format of this data.
    pub format: u64,
    pub config: MetaConfig,
    pub current_version: Version,
}

/// A server.
#[derive(Debug)]
pub struct Server {
    pub name: String,
    /// The directory of the server's world.
    pub dir: String,
    pub info: ServerInfo,
}

/// The list of administrators cannot be written.
#[derive(Debug, Clone, Copy, PartialEq, Eq, Structural)]
pub enum AdminListError {
    /// The list that was given as a file is no JSON array of strings.
    Unreadable,
    /// The list has no JSON text.
    Unwritable,
}

/// The texts of a list of string literals.
pub open spec fn literals_view(args: Seq<&'static str>) -> Seq<Seq<char>> {
    args.map_values(|s: &'static str| s@)
}

/// The arguments that have the game create a world.
pub open spec fn generate_args_text(has_map_gen_settings: bool, has_map_settings: bool) -> Seq<
    Seq<char>,
> {
    seq!["--config"@, "config.ini"@, "--create"@, "world"@] + (if has_map_gen_settings {
        seq!["--map-gen-settings"@, "map-gen-settings.json"@]
    } else {
        Seq::empty()
    }) + (if has_map_settings {
        seq!["--map-settings"@, "map-settings.json"@]
    } else {
        Seq::empty()
    })
}

/// The arguments that have the game serve a world.
pub open spec fn start_args_text(has_server_settings: bool) -> Seq<Seq<char>> {
    seq![
        "--config"@,
        "config.ini"@,
        "--start-server"@,
        "world.zip"@,
        "--mod-directory"@,
        "factorio/mods/"@,
        "--server-adminlist"@,
        "server-adminlist.json"@,
    ] + (if has_server_settings {
        seq!["--server-settings"@, "server-settings.json"@]
    } else {
        Seq::empty()
    })
}

/// Name and version of each mod of a list.
pub open spec fn mods_view(mods: Seq<ModInfo>) -> Seq<(Seq<char>, Version)> {
    mods.map_values(|m: ModInfo| (m.name@, m.version))
}

/// Whether `name` is the name of a mod's file, as mods are distributed.
pub open spec fn is_mod_file(name: Seq<char>) -> bool {
    exists|mod_name: Seq<char>, version: Version| name == file_text(mod_name, version)
}

/// The mod that a file holds, by the file's name.
pub open spec fn mod_of_file(name: Seq<char>) -> (Seq<char>, Version) {
    choose|m: (Seq<char>, Version)| name == file_text(m.0, m.1)
}

/// The mods that the files of a directory hold, by the files' names, in
/// their order. Files that are not named as mods are distributed are left
/// out.
pub open spec fn mods_of_files(names: Seq<Seq<char>>) -> Seq<(Seq<char>, Version)>
    decreases names.len(),
{
    if names.len() == 0 {
        Seq::empty()
    } else if is_mod_file(names.last()) {
        mods_of_files(names.drop_last()).push(mod_of_file(names.last()))
    } else {
        mods_of_files(names.drop_last())
    }
}

/// The mods of `installed` that have to go when `wanted` is linked: the
/// other versions of the same mod, in their order.
pub open spec fn superseded(installed: Seq<ModInfo>, wanted: ModInfo) -> Seq<(Seq<char>, Version)>
    decreases installed.len(),
{
    if installed.len() == 0 {
        Seq::empty()
    } else {
        let last = installed.last();
        if last.name@ == wanted.name@ && last.version != wanted.version {
            superseded(installed.drop_last(), wanted).push((last.name@, last.version))
        } else {
            superseded(installed.drop_last(), wanted)
        }
    }
}

/// The position of the first mod of `installed` that is named `name`, from
/// position `from` on; the length of `installed` if there is none.
pub open spec fn first_named(installed: Seq<ModInfo>, name: Seq<char>, from: int) -> int
    decreases installed.len() - from,
{
    if 0 <= from < installed.len() && installed[from].name@ != name {
        first_named(installed, name, from + 1)
    } else {
        from
    }
}

/// The mods of `installed` to unlink when the mods named in `names` are
/// removed: for each name in its turn the first mod of that name, if there
/// is one.
pub open spec fn removed(installed: Seq<ModInfo>, names: Seq<Seq<char>>) -> Seq<
    (Seq<char>, Version),
>
    decreases names.len(),
{
    if names.len() == 0 {
        Seq::empty()
    } else {
        let at = first_named(installed, names.last(), 0);
        if at < installed.len() {
            removed(installed, names.drop_last()).push(
                (installed[at].name@, installed[at].version),
            )
        } else {
            removed(installed, names.drop_last())
        }
    }
}

/// A file's name is the name of at most one mod in one version.
pub proof fn lemma_file_text_injective(
    name1: Seq<char>,
    version1: Version,
    name2: Seq<char>,
    version2: Version,
)
    requires
        file_text(name1, version1) == file_text(name2, version2),
    ensures
        name1 == name2,
        version1 == version2,
{
    crate::modportal::lemma_file_text_shape(name1, version1);
    crate::modportal::lemma_file_text_shape(name2, version2);
    let s = file_text(name1, version1);
    if name1.len() < name2.len() {
        assert(s[name2.len() as int] == '_');
    }
    if name2.len() < name1.len() {
        assert(s[name1.len() as int] == '_');
    }
    version1.lemma_text_injective(version2);
}

/// The list of administrators of a server: those that were named, and
/// after them those of the list that was given as a file.
pub fn merge_admins(add_admin: &Vec<String>, file_admins: Vec<String>) -> (r: Vec<String>)
    ensures
        strings_view(r@) == strings_view(add_admin@) + strings_view(file_admins@),
{
    let mut admins = add_admin.clone();
    let mut file_admins = file_admins;
    let ghost second = file_admins@;
    proof {
        assert forall|i: int| 0 <= i < admins.len() implies admins[i] == add_admin[i] by {
            assert(cloned::<String>(add_admin[i], admins[i]));
        }
    }
    admins.append(&mut file_admins);
    assert(strings_view(admins@) =~= strings_view(add_admin@) + strings_view(second));
    admins
}

impl ServerInfo {
    /// Whether the data is in the format that this program reads.
    pub fn is_supported(&self) -> (r: bool)
        ensures
            r == (self.format == SERVER_INFO_VERSION),
    {
        self.format == SERVER_INFO_VERSION
    }
}

impl Server {
    /// A new server with the given configuration, at the version of the
    /// game that was fetched for it.
    pub fn create(name: String, dir: String, config: MetaConfig, current_version: Version) -> (r:
        Server)
        ensures
            r.name == name,
            r.dir == dir,
            r.info.format == SERVER_INFO_VERSION,
            r.info.config == config,
            r.info.current_version == current_version,
    {
        Server {
            name,
            dir,
            info: ServerInfo { format: SERVER_INFO_VERSION, config, current_version },
        }
    }

    /// The server whose data was read from its directory, if the data is in
    /// the format that this program reads.
    pub fn get(name: String, dir: String, info: ServerInfo) -> (r: Option<Server>)
        ensures
            match r {
                Some(server) => info.format == SERVER_INFO_VERSION && server.name == name
                    && server.dir == dir && server.info == info,
                None => info.format != SERVER_INFO_VERSION,
            },
    {
        if info.is_supported() {
            Some(Server { name, dir, info })
        } else {
            None
        }
    }

    /// Changes the configuration of the server.
    pub fn update_config(&mut self, meta: MetaConfigUpdate)
        ensures
            final(self).name == old(self).name,
            final(self).dir == old(self).dir,
            final(self).info.format == old(self).info.format,
            final(self).info.current_version == old(self).info.current_version,
            final(self).info.config.factorio == (match meta.factorio {
                Some(v) => v,
                None => old(self).info.config.factorio,
            }),
            final(self).info.config.autoupdate == (match meta.autoupdate {
                Some(v) => v,
                None => old(self).info.config.autoupdate,
            }),
            final(self).info.config.autoupdate_interval_minutes == (
            match meta.autoupdate_interval_minutes {
                Some(v) => v,
                None => old(self).info.config.autoupdate_interval_minutes,
            }),
    {
        self.info.config.apply_update(meta);
    }

    /// Whether the server may change to the version that its requirement
    /// was resolved to: it may not go back to an older one.
    pub fn check_downgrade(&self, resolved: ResolvedVersionReq) -> (r: Result<
        (),
        DowngradingNotAllowed,
    >)
        ensures
            match r {
                Ok(()) => !resolved.version.precedes(self.info.current_version),
                Err(e) => {
                    &&& resolved.version.precedes(self.info.current_version)
                    &&& e.current == self.info.current_version
                    &&& e.requested == self.info.config.factorio
                },
            },
    {
        if resolved.version < self.info.current_version {
            Err(
                DowngradingNotAllowed {
                    current: self.info.current_version,
                    requested: self.info.config.factorio.clone(),
                },
            )
        } else {
            Ok(())
        }
    }

    /// What is to be done once the configuration of the server has been
    /// changed, where `latest` is what the server's requirement resolves to
    /// now, if that is known. The server does not go back: a version older
    /// than the one in use is refused, and nothing is to be done then. Else
    /// the server is to be brought to `latest`, whether it is newer than
    /// the version in use or the same; without it there is only the
    /// configuration to keep.
    pub fn finish_update_config(&self, latest: Option<ResolvedVersionReq>) -> (r: Result<
        Option<ResolvedVersionReq>,
        DowngradingNotAllowed,
    >)
        ensures
            match r {
                Ok(update) => {
                    &&& update == latest
                    &&& latest matches Some(resolved) ==> !resolved.version.precedes(
                        self.info.current_version,
                    )
                },
                Err(e) => {
                    &&& latest matches Some(resolved)
                    &&& resolved.version.precedes(self.info.current_version)
                    &&& e.current == self.info.current_version
                    &&& e.requested == self.info.config.factorio
                },
            },
    {
        match latest {
            Some(resolved) => match self.check_downgrade(resolved) {
                Ok(()) => Ok(latest),
                Err(e) => Err(e),
            },
            None => Ok(None),
        }
    }

    /// The update that is available, where `latest` is what the server's
    /// requirement resolves to now, if that is known: `latest` itself if its
    /// version is newer than the server's.
    pub fn update_available(&self, latest: Option<ResolvedVersionReq>) -> (r: Option<
        ResolvedVersionReq,
    >)
        ensures
            r == (match latest {
                Some(resolved) => if self.info.current_version.precedes(resolved.version) {
                    Some(resolved)
                } else {
                    None
                },
                None => None,
            }),
    {
        match latest {
            Some(resolved) => {
                if resolved.version > self.info.current_version {
                    Some(resolved)
                } else {
                    None
                }
            },
            None => None,
        }
    }

    /// Records that the server now uses `version` of the game.
    pub fn update(&mut self, version: Version)
        ensures
            final(self).info.current_version == version,
            final(self).info.config == old(self).info.config,
            final(self).info.format == old(self).info.format,
            final(self).name == old(self).name,
            final(self).dir == old(self).dir,
    {
        self.info.current_version = version;
    }

    /// Begins the serving of the server, with its update policy.
    pub fn serve(&self) -> (r: (Serve, ServeAction))
        ensures
            r == Serve::spec_start(self.info.config.autoupdate),
    {
        Serve::start(self.info.config.autoupdate)
    }

    /// Begins one run of the server, with its update policy and its time
    /// between two checks; nothing where that time is too long to count.
    pub fn begin_run(&self) -> (r: Option<(RunOnce, RunAction)>)
        ensures
            r == (if self.info.config.autoupdate_interval_minutes * run_once::TICKS_PER_MINUTE
                <= u64::MAX {
                Some(
                    RunOnce::spec_start(
                        self.info.config.autoupdate,
                        self.info.config.autoupdate_interval_minutes,
                    ),
                )
            } else {
                None
            }),
    {
        if RunOnce::can_count(self.info.config.autoupdate_interval_minutes) {
            Some(
                RunOnce::start(
                    self.info.config.autoupdate,
                    self.info.config.autoupdate_interval_minutes,
                ),
            )
        } else {
            None
        }
    }

    /// The text of the file `config.ini` that has the game keep its data in
    /// the server's directory.
    pub fn config_ini(&self) -> (r: String)
        ensures
            r@ == "[path]\nread-data=__PATH__executable__/../../data\nwrite-data="@ + self.dir@
                + "\n"@,
    {
        let mut out = "[path]\nread-data=__PATH__executable__/../../data\nwrite-data=".to_owned();
        out.append(self.dir.as_str());
        out.append("\n");
        out
    }

    /// The game's program for the server's version, below the data
    /// directory, as the names on the way.
    pub fn command_base(&self) -> (r: Vec<String>)
        ensures
            strings_view(r@) == seq![
                "versions"@,
                self.info.current_version.text(),
                "factorio"@,
                "bin"@,
                "x64"@,
                "factorio"@,
            ],
    {
        let mut path: Vec<String> = Vec::new();
        path.push("versions".to_owned());
        path.push(self.info.current_version.to_string());
        path.push("factorio".to_owned());
        path.push("bin".to_owned());
        path.push("x64".to_owned());
        path.push("factorio".to_owned());
        assert(strings_view(path@) =~= seq![
            "versions"@,
            self.info.current_version.text(),
            "factorio"@,
            "bin"@,
            "x64"@,
            "factorio"@,
        ]);
        path
    }

    /// The arguments that have the game create the world, with the settings
    /// files that are there.
    pub fn generate_args(has_map_gen_settings: bool, has_map_settings: bool) -> (r: Vec<
        &'static str,
    >)
        ensures
            literals_view(r@) == generate_args_text(has_map_gen_settings, has_map_settings),
    {
        let mut args: Vec<&'static str> = Vec::new();
        args.push("--config");
        args.push("config.ini");
        args.push("--create");
        args.push("world");
        if has_map_gen_settings {
            args.push("--map-gen-settings");
            args.push("map-gen-settings.json");
        }
        if has_map_settings {
            args.push("--map-settings");
            args.push("map-settings.json");
        }
        assert(literals_view(args@) =~= generate_args_text(has_map_gen_settings, has_map_settings));
        args
    }

    /// The arguments that have the game serve the world, with the settings
    /// file if it is there.
    pub fn start_args(has_server_settings: bool) -> (r: Vec<&'static str>)
        ensures
            literals_view(r@) == start_args_text(has_server_settings),
    {
        let mut args: Vec<&'static str> = Vec::new();
        args.push("--config");
        args.push("config.ini");
        args.push("--start-server");
        args.push("world.zip");
        args.push("--mod-directory");
        args.push("factorio/mods/");
        args.push("--server-adminlist");
        args.push("server-adminlist.json");
        if has_server_settings {
            args.push("--server-settings");
            args.push("server-settings.json");
        }
        assert(literals_view(args@) =~= start_args_text(has_server_settings));
        args
    }

    /// The JSON text of the server's list of administrators: those that
    /// were named and, after them, those of the list that was given as a
    /// file with the text `existing`.
    pub fn import_handle_files(add_admin: &Vec<String>, existing: Option<&str>) -> (r: Result<
        String,
        AdminListError,
    >)
        ensures
            match existing {
                Some(text) => match json_strings(text@) {
                    Some(list) => match strings_json(strings_view(add_admin@) + list) {
                        Some(json) => r matches Ok(out) && out@ == json,
                        None => r == Err::<String, AdminListError>(AdminListError::Unwritable),
                    },
                    None => r == Err::<String, AdminListError>(AdminListError::Unreadable),
                },
                None => match strings_json(strings_view(add_admin@)) {
                    Some(json) => r matches Ok(out) && out@ == json,
                    None => r == Err::<String, AdminListError>(AdminListError::Unwritable),
                },
            },
    {
        let file_admins = match existing {
            Some(text) => match read_strings(text) {
                Ok(list) => list,
                Err(_) => {
                    return Err(AdminListError::Unreadable);
                },
            },
            None => Vec::new(),
        };
        let admins = merge_admins(add_admin, file_admins);
        proof {
            if existing.is_none() {
                assert(strings_view(admins@) =~= strings_view(add_admin@));
            }
        }
        match write_strings(&admins) {
            Ok(json) => Ok(json),
            Err(_) => Err(AdminListError::Unwritable),
        }
    }

    /// The mods that are installed, by the names of the files in the
    /// server's directory of mods.
    pub fn mods(file_names: &Vec<String>) -> (r: Vec<ModInfo>)
        ensures
            mods_view(r@) == mods_of_files(strings_view(file_names@)),
    {
        let mut mods: Vec<ModInfo> = Vec::new();
        let mut i: usize = 0;
        let ghost names = strings_view(file_names@);
        assert(names.take(0) =~= Seq::empty());
        while i < file_names.len()
            invariant
                i <= file_names.len(),
                names == strings_view(file_names@),
                mods_view(mods@) =~= mods_of_files(names.take(i as int)),
            decreases file_names.len() - i,
        {
            proof {
                let next = names.take(i + 1);
                assert(next.drop_last() =~= names.take(i as int));
                assert(next.last() == file_names[i as int]@);
            }
            match ModInfo::from_file_name(file_names[i].as_str()) {
                Some(info) => {
                    let ghost before = mods@;
                    let ghost found = (info.name@, info.version);
                    proof {
                        let name = file_names[i as int]@;
                        assert(name == file_text(found.0, found.1));
                        assert(is_mod_file(name));
                        let chosen = mod_of_file(name);
                        lemma_file_text_injective(chosen.0, chosen.1, found.0, found.1);
                        assert(chosen == found);
                    }
                    mods.push(info);
                    proof {
                        assert(mods_view(mods@) =~= mods_view(before).push(found));
                    }
                },
                None => {},
            }
            i += 1;
        }
        assert(names.take(i as int) =~= names);
        mods
    }

    /// The mods to unlink when `mod_info` is linked: the other versions of
    /// the same mod.
    pub fn link_mod(installed: &Vec<ModInfo>, mod_info: &ModInfo) -> (r: Vec<ModInfo>)
        ensures
            mods_view(r@) == superseded(installed@, *mod_info),
    {
        let mut unlink: Vec<ModInfo> = Vec::new();
        let mut i: usize = 0;
        assert(installed@.take(0) =~= Seq::empty());
        while i < installed.len()
            invariant
                i <= installed.len(),
                mods_view(unlink@) =~= superseded(installed@.take(i as int), *mod_info),
            decreases installed.len() - i,
        {
            proof {
                let next = installed@.take(i + 1);
                assert(next.drop_last() =~= installed@.take(i as int));
                assert(next.last() == installed@[i as int]);
            }
            if installed[i].name == mod_info.name && installed[i].version != mod_info.version {
                let ghost before = unlink@;
                unlink.push(installed[i].clone());
                proof {
                    assert(mods_view(unlink@) =~= mods_view(before).push(
                        (installed[i as int].name@, installed[i as int].version),
                    ));
                }
            }
            i += 1;
        }
        assert(installed@.take(i as int) =~= installed@);
        unlink
    }

    /// The position of the first mod of `installed` that is named `name`.
    fn find_mod(installed: &Vec<ModInfo>, name: &String) -> (at: usize)
        ensures
            at == first_named(installed@, name@, 0),
            at <= installed.len(),
    {
        let mut at: usize = 0;
        while at < installed.len() && installed[at].name != *name
            invariant
                at <= installed.len(),
                first_named(installed@, name@, at as int) == first_named(installed@, name@, 0),
            decreases installed.len() - at,
        {
            at += 1;
        }
        at
    }

    /// The mods to unlink when the mods named in `mods` are removed.
    pub fn remove_mods(installed: &Vec<ModInfo>, mods: &Vec<String>) -> (r: Vec<ModInfo>)
        ensures
            mods_view(r@) == removed(installed@, strings_view(mods@)),
    {
        let mut unlink: Vec<ModInfo> = Vec::new();
        let mut i: usize = 0;
        let ghost names = strings_view(mods@);
        assert(names.take(0) =~= Seq::empty());
        while i < mods.len()
            invariant
                i <= mods.len(),
                names == strings_view(mods@),
                mods_view(unlink@) =~= removed(installed@, names.take(i as int)),
            decreases mods.len() - i,
        {
            proof {
                let next = names.take(i + 1);
                assert(next.drop_last() =~= names.take(i as int));
                assert(next.last() == mods[i as int]@);
            }
            let at = Server::find_mod(installed, &mods[i]);
            if at < installed.len() {
                let ghost before = unlink@;
                unlink.push(installed[at].clone());
                proof {
                    assert(mods_view(unlink@) =~= mods_view(before).push(
                        (installed[at as int].name@, installed[at as int].version),
                    ));
                }
            }
            i += 1;
        }
        assert(names.take(i as int) =~= names);
        unlink
    }

    /// The names of the mods to fetch again when the mods are updated:
    /// those of the mods that are installed.
    pub fn update_mods(installed: &Vec<ModInfo>) -> (r: Vec<String>)
        ensures
            r.len() == installed.len(),
            forall|i: int| 0 <= i < installed.len() ==> (#[trigger] r[i])@ == installed[i].name@,
    {
        let mut names: Vec<String> = Vec::new();
        let mut i: usize = 0;
        while i < installed.len()
            invariant
                i <= installed.len(),
                names.len() == i,
                forall|k: int| 0 <= k < i ==> (#[trigger] names[k])@ == installed[k].name@,
            decreases installed.len() - i,
        {
            names.push(installed[i].name.clone());
            i += 1;
        }
        names
    }
}

} // verus!

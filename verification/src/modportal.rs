//! Mods: the files they are kept in, the releases that the mod portal
//! offers, and the list of mods that a game wrote.

use vstd::prelude::*;
use vstd::string::StringExecFns;
use crate::dirs::{sanitized, sanitized_text};
use crate::error::{InternalDataModified, InvalidVersionNumber, NoMatchingModVersions};
use crate::text::{chars_of, equals, has_at, matches_at, strings_view, substring};
use crate::version::{Version, Version2};

verus! {

/// A mod in one of its versions.
#[derive(Debug)]
pub struct ModInfo {
    pub name: String,
    pub version: Version,
}

impl Clone for ModInfo {
    fn clone(&self) -> (r: ModInfo)
        ensures
            r == *self,
    {
        ModInfo { name: self.name.clone(), version: self.version }
    }
}

/// The name of the file that holds the mod `name` in the version `version`,
/// as mods are distributed: name, underscore, version and `.zip`.
pub open spec fn file_text(name: Seq<char>, version: Version) -> Seq<char> {
    name + seq!['_'] + version.text() + ".zip"@
}

/// Where name and version begin and end in the name of a mod's file.
pub proof fn lemma_file_text_shape(name: Seq<char>, version: Version)
    ensures
        ({
            let s = file_text(name, version);
            let n = s.len() as int;
            &&& n == name.len() + 1 + version.text().len() + 4
            &&& s.subrange(n - 4, n) == ".zip"@
            &&& s[name.len() as int] == '_'
            &&& forall|k: int| name.len() < k < n - 4 ==> s[k] != '_'
            &&& s.subrange(0, name.len() as int) == name
            &&& s.subrange(name.len() as int + 1, n - 4) == version.text()
        }),
{
    reveal_strlit(".zip");
    let s = file_text(name, version);
    let n = s.len() as int;
    let t = version.text();
    version.lemma_text_chars();
    assert(s.subrange(n - 4, n) =~= ".zip"@);
    assert(s.subrange(0, name.len() as int) =~= name);
    assert(s.subrange(name.len() as int + 1, n - 4) =~= t);
    assert forall|k: int| name.len() < k < n - 4 implies s[k] != '_' by {
        assert(s[k] == t[k - name.len() - 1]);
    }
}

impl ModInfo {
    /// The name of the file that the mod was distributed in.
    pub open spec fn distributed_as(self) -> Seq<char> {
        file_text(self.name@, self.version)
    }

    /// The name of the file that the mod is kept in: as it is distributed,
    /// with the mod's name made safe for the name of a file.
    pub open spec fn file_name_text(self) -> Seq<char> {
        file_text(sanitized_text(self.name@), self.version)
    }

    /// Reads a mod and its version from the name of a file. The names that
    /// are accepted are those that `file_text` gives: what stands before the
    /// last underscore is the mod's name.
    pub fn from_file_name(s: &str) -> (r: Option<ModInfo>)
        ensures
            match r {
                Some(info) => s@ == info.distributed_as(),
                None => forall|name: Seq<char>, version: Version|
                    s@ != #[trigger] file_text(name, version),
            },
    {
        let v = chars_of(s);
        let n = v.len();
        if n < 4 || !matches_at(&v, n - 4, ".zip") {
            proof {
                assert forall|name: Seq<char>, version: Version|
                    s@ != #[trigger] file_text(name, version) by {
                    lemma_file_text_shape(name, version);
                }
            }
            return None;
        }
        let stem = n - 4;
        let mut u: usize = stem;
        while u > 0 && v[u - 1] != '_'
            invariant
                u <= stem,
                stem == v.len() - 4,
                forall|k: int| u <= k < stem ==> v[k] != '_',
            decreases u,
        {
            u -= 1;
        }
        if u == 0 {
            proof {
                assert forall|name: Seq<char>, version: Version|
                    s@ != #[trigger] file_text(name, version) by {
                    lemma_file_text_shape(name, version);
                }
            }
            return None;
        }
        let version_text = substring(s, u, stem);
        match Version::try_from_str(version_text.as_str()) {
            Ok(version) => {
                let name = substring(s, 0, u - 1);
                proof {
                    reveal_strlit(".zip");
                    assert(s@ =~= file_text(name@, version));
                }
                Some(ModInfo { name, version })
            },
            Err(_) => {
                proof {
                    assert forall|name: Seq<char>, version: Version|
                        s@ != #[trigger] file_text(name, version) by {
                        lemma_file_text_shape(name, version);
                    }
                }
                None
            },
        }
    }

    /// Reads a mod and its version from the name of a file that the program
    /// wrote itself. A name that `file_text` does not give is reported as
    /// data that was modified.
    pub fn try_from_file_name(s: &str) -> (r: Result<ModInfo, InternalDataModified>)
        ensures
            match r {
                Ok(info) => s@ == info.distributed_as(),
                Err(e) => {
                    &&& forall|name: Seq<char>, version: Version|
                        s@ != #[trigger] file_text(name, version)
                    &&& e.0@ == "mod file name"@
                },
            },
    {
        match ModInfo::from_file_name(s) {
            Some(info) => Ok(info),
            None => Err(InternalDataModified("mod file name".to_owned())),
        }
    }

    /// The name of the file that the mod is kept in.
    pub fn file_name(&self) -> (r: String)
        ensures
            r@ == self.file_name_text(),
    {
        proof {
            reveal_strlit("_");
        }
        let mut out = sanitized(self.name.as_str());
        out.append("_");
        out.append(self.version.to_string().as_str());
        out.append(".zip");
        assert(out@ =~= self.file_name_text());
        out
    }

    /// The file that the mod is kept in, below the data directory, as the
    /// names on the way: `mods` and the name of the file.
    pub fn path(&self) -> (r: Vec<String>)
        ensures
            r.len() == 2,
            r[0]@ == "mods"@,
            r[1]@ == self.file_name_text(),
    {
        let mut path: Vec<String> = Vec::new();
        path.push("mods".to_owned());
        path.push(self.file_name());
        path
    }
}

/// What the mod portal says of a release: the version of the game that it
/// is made for.
#[derive(Debug, Clone)]
pub struct ModReleaseInfoJson {
    pub factorio_version: String,
}

/// A release of a mod, as the mod portal describes it.
#[derive(Debug, Clone)]
pub struct ModRelease {
    pub download_url: String,
    pub version: String,
    pub info_json: ModReleaseInfoJson,
}

/// A mod, as the mod portal describes it.
#[derive(Debug, Clone)]
pub struct Mod {
    pub name: String,
    pub releases: Vec<ModRelease>,
}

/// Why no release of a mod was chosen.
#[derive(Debug, Clone)]
pub enum ModLookupError {
    /// The mod portal gave a version that is none.
    InvalidData(InvalidVersionNumber),
    /// No release supports the version of the game.
    NoMatch(NoMatchingModVersions),
}

impl ModRelease {
    /// Whether the release says in due form which versions of the game it is
    /// made for.
    pub open spec fn is_stated(self) -> bool {
        Version2::is_text(self.info_json.factorio_version@)
    }

    /// Whether the release is made for the version `game_version` of the
    /// game: it is made for the group of versions that this one belongs to.
    pub open spec fn supports(self, game_version: Version) -> bool {
        exists|group: Version2|
            self.info_json.factorio_version@ == group.text() && group.spec_includes(game_version)
    }
}

/// Whether every release in `releases` up to position `to` says in due form
/// which versions of the game it is made for.
pub open spec fn all_stated(releases: Seq<ModRelease>, to: int) -> bool {
    forall|i: int| 0 <= i < to ==> (#[trigger] releases[i]).is_stated()
}

/// Whether the release at position `at` is the last in `releases` that
/// supports `game_version`.
pub open spec fn is_last_supporting(releases: Seq<ModRelease>, game_version: Version, at: int) -> bool {
    &&& 0 <= at < releases.len()
    &&& releases[at].supports(game_version)
    &&& forall|i: int| at < i < releases.len() ==> !(#[trigger] releases[i]).supports(game_version)
}

/// The release of the mod `name` to use with the version `game_version` of
/// the game, and where to download it: the last of `releases` that supports
/// this version.
///
/// Every release has to say in due form which versions of the game it is
/// made for: the first that does not is reported. Then, without a release
/// that supports the version, there is no match. The version of the release
/// that is chosen has to be in due form, too.
pub fn latest_version(name: &str, game_version: Version, releases: &Vec<ModRelease>) -> (r: Result<
    (ModInfo, String),
    ModLookupError,
>)
    ensures
        match r {
            Ok((info, url)) => {
                &&& all_stated(releases@, releases.len() as int)
                &&& exists|at: int|
                    {
                        &&& is_last_supporting(releases@, game_version, at)
                        &&& releases[at].version@ == info.version.text()
                        &&& releases[at].download_url@ == url@
                    }
                &&& info.name@ == name@
            },
            Err(ModLookupError::InvalidData(InvalidVersionNumber::Version2(t))) => exists|at: int|
                {
                    &&& 0 <= at < releases.len()
                    &&& all_stated(releases@, at)
                    &&& !(#[trigger] releases[at]).is_stated()
                    &&& t@ == releases[at].info_json.factorio_version@
                },
            Err(ModLookupError::InvalidData(InvalidVersionNumber::Version(t))) => {
                &&& all_stated(releases@, releases.len() as int)
                &&& exists|at: int|
                    {
                        &&& is_last_supporting(releases@, game_version, at)
                        &&& !Version::is_text(releases[at].version@)
                        &&& t@ == releases[at].version@
                    }
            },
            Err(ModLookupError::NoMatch(e)) => {
                &&& all_stated(releases@, releases.len() as int)
                &&& forall|i: int|
                    0 <= i < releases.len() ==> !(#[trigger] releases[i]).supports(game_version)
                &&& e.0@ == name@
                &&& e.1 == game_version
            },
        },
{
    let mut last: Option<usize> = None;
    let mut i: usize = 0;
    while i < releases.len()
        invariant
            i <= releases.len(),
            all_stated(releases@, i as int),
            match last {
                Some(at) => {
                    &&& at < i
                    &&& releases[at as int].supports(game_version)
                    &&& forall|k: int|
                        at < k < i ==> !(#[trigger] releases[k]).supports(game_version)
                },
                None => forall|k: int|
                    0 <= k < i ==> !(#[trigger] releases[k]).supports(game_version),
            },
        decreases releases.len() - i,
    {
        match Version2::try_from_str(releases[i].info_json.factorio_version.as_str()) {
            Ok(group) => {
                proof {
                    assert forall|other: Version2|
                        releases[i as int].info_json.factorio_version@
                            == other.text() implies other == group by {
                        other.lemma_text_injective(group);
                    }
                }
                if group.includes(game_version) {
                    last = Some(i);
                }
            },
            Err(e) => {
                return Err(ModLookupError::InvalidData(e));
            },
        }
        i += 1;
    }
    match last {
        Some(at) => {
            match Version::try_from_str(releases[at].version.as_str()) {
                Ok(version) => {
                    let info = ModInfo { name: name.to_owned(), version };
                    let url = releases[at].download_url.clone();
                    proof {
                        assert(is_last_supporting(releases@, game_version, at as int));
                    }
                    Ok((info, url))
                },
                Err(e) => {
                    proof {
                        assert(is_last_supporting(releases@, game_version, at as int));
                    }
                    Err(ModLookupError::InvalidData(e))
                },
            }
        },
        None => Err(ModLookupError::NoMatch(NoMatchingModVersions(name.to_owned(), game_version))),
    }
}

/// The address that the mod portal describes the mod `name` at.
pub fn api_url(name: &str) -> (r: String)
    ensures
        r@ == "https://mods.factorio.com/api/mods/"@ + name@,
{
    let mut out = "https://mods.factorio.com/api/mods/".to_owned();
    out.append(name);
    out
}

/// The address that a release is downloaded from, where the mod portal
/// gives `path` for it.
pub fn download_url(path: &str) -> (r: String)
    ensures
        r@ == "https://mods.factorio.com"@ + path@,
{
    let mut out = "https://mods.factorio.com".to_owned();
    out.append(path);
    out
}

/// Whether the mod portal answered a download with a page to log in on,
/// and not with the mod: the type of what it sent begins with `text/html`.
pub fn is_login_page(content_type: &str) -> (r: bool)
    ensures
        r == has_at(content_type@, 0, "text/html"@),
{
    let v = chars_of(content_type);
    matches_at(&v, 0, "text/html")
}

/// One entry of the list of mods that a game wrote.
#[derive(Debug, Clone)]
pub struct ModListJsonMod {
    pub name: String,
    pub enabled: bool,
}

/// The list of mods that a game wrote.
#[derive(Debug, Clone)]
pub struct ModListJson {
    pub mods: Vec<ModListJsonMod>,
}

impl ModListJsonMod {
    /// Whether the entry names a mod to install: one that is enabled and is
    /// not the game itself, which the list calls `base`.
    pub open spec fn is_wanted(self) -> bool {
        self.name@ != "base"@ && self.enabled
    }
}

/// The names of the entries of `mods` that name a mod to install, in their
/// order.
pub open spec fn wanted_names(mods: Seq<ModListJsonMod>) -> Seq<Seq<char>>
    decreases mods.len(),
{
    if mods.len() == 0 {
        Seq::empty()
    } else if mods.last().is_wanted() {
        wanted_names(mods.drop_last()).push(mods.last().name@)
    } else {
        wanted_names(mods.drop_last())
    }
}

impl ModListJson {
    /// The names of the mods to install.
    pub fn enabled_mods(&self) -> (r: Vec<String>)
        ensures
            strings_view(r@) == wanted_names(self.mods@),
    {
        let mut names: Vec<String> = Vec::new();
        let mut i: usize = 0;
        assert(self.mods@.take(0) =~= Seq::empty());
        while i < self.mods.len()
            invariant
                i <= self.mods.len(),
                strings_view(names@) =~= wanted_names(self.mods@.take(i as int)),
            decreases self.mods.len() - i,
        {
            let entry = &self.mods[i];
            let v = chars_of(entry.name.as_str());
            proof {
                let next = self.mods@.take(i + 1);
                assert(next.drop_last() =~= self.mods@.take(i as int));
                assert(next.last() == self.mods@[i as int]);
            }
            if !equals(&v, "base") && entry.enabled {
                let ghost before = names@;
                names.push(entry.name.clone());
                proof {
                    assert(strings_view(names@) =~= strings_view(before).push(entry.name@));
                }
            }
            i += 1;
        }
        assert(self.mods@.take(i as int) =~= self.mods@);
        names
    }
}

} // verus!

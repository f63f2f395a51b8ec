//! The releases of the game that can be downloaded: what the release index
//! and the download pages say, and where a release is fetched from.

use vstd::prelude::*;
use vstd::string::StringExecFns;
use crate::error::{InvalidVersionNumber, NoDownloadAvailable};
use crate::json::{json_string_in, read_string_in};
use crate::text::{chars_of, first_word, first_word_of, has_at, matches_at, strings_view};
use crate::version::{ResolvedVersionReq, Version};

verus! {

/// The latest release of each kind.
#[derive(Debug, Clone, Copy, PartialEq, Eq, Structural)]
pub struct LatestReleases {
    pub experimental: Version,
    pub stable: Version,
}

/// One release of the game.
#[derive(Debug, Clone, Copy, PartialEq, Eq, Structural)]
pub struct Release {
    pub version: Version,
}

/// Where the release index is read.
pub const LATEST_RELEASES_URL: &'static str = "https://factorio.com/api/latest-releases";

/// Where the stable releases are listed.
pub const STABLE_RELEASES_URL: &'static str = "https://www.factorio.com/download-headless";

/// Where the experimental releases are listed.
pub const EXPERIMENTAL_RELEASES_URL: &'static str =
    "https://www.factorio.com/download-headless/experimental";

/// A release index that does not name the latest releases as expected.
#[derive(Debug, Clone)]
pub enum InvalidIndex {
    /// The index names no experimental release of the headless server.
    NoExperimental,
    /// The index names no stable release of the headless server.
    NoStable,
    /// What the index names as a release is no version.
    Version(InvalidVersionNumber),
}

/// A download page that does not list releases as expected.
#[derive(Debug, Clone)]
pub enum InvalidListing {
    /// The selector for the headings is none.
    Selector,
    /// The heading at this position holds no text, or no word in its first
    /// text.
    EmptyHeading(usize),
    /// The heading at this position does not begin with a version.
    Version(usize, InvalidVersionNumber),
}

/// The texts of each element of an HTML document that a CSS selector
/// selects: for each element, in the order in which the selection yields
/// them, the text nodes below it; nothing for a selector that is none.
pub uninterp spec fn selected_texts(html: Seq<char>, selector: Seq<char>) -> Option<
    Seq<Seq<Seq<char>>>,
>;

/// The texts of a list of lists of strings.
pub open spec fn texts_view(texts: Seq<Vec<String>>) -> Seq<Seq<Seq<char>>> {
    texts.map_values(|t: Vec<String>| strings_view(t@))
}

/// Has `scraper` parse `html` as a document and `selector` as a group of CSS
/// selectors, and collects, for each element that `Html::select` yields,
/// the text nodes that `ElementRef::text` yields. The result is named, not
/// described: it is `selected_texts` of the two texts.
#[verifier::external_body]
fn select_texts(html: &str, selector: &str) -> (r: Option<Vec<Vec<String>>>)
    ensures
        match r {
            Some(texts) => selected_texts(html@, selector@) == Some(texts_view(texts@)),
            None => selected_texts(html@, selector@).is_none(),
        },
{
    let document = scraper::Html::parse_document(html);
    match scraper::Selector::parse(selector) {
        Ok(selector) => Some(
            document.select(&selector).map(|e| e.text().map(|t| t.to_owned()).collect()).collect(),
        ),
        Err(_) => None,
    }
}

impl LatestReleases {
    /// What a release index is read as. The index is a JSON text that
    /// holds, for `experimental` and for `stable`, the latest version of the
    /// `headless` server, among others; the experimental one is read first.
    pub open spec fn reads(index: Seq<char>, r: Result<LatestReleases, InvalidIndex>) -> bool {
        match json_string_in(index, "experimental"@, "headless"@) {
            None => r matches Err(InvalidIndex::NoExperimental),
            Some(experimental) => if !Version::is_text(experimental) {
                &&& r matches Err(InvalidIndex::Version(InvalidVersionNumber::Version(t)))
                &&& t@ == experimental
            } else {
                match json_string_in(index, "stable"@, "headless"@) {
                    None => r matches Err(InvalidIndex::NoStable),
                    Some(stable) => if !Version::is_text(stable) {
                        &&& r matches Err(InvalidIndex::Version(InvalidVersionNumber::Version(t)))
                        &&& t@ == stable
                    } else {
                        &&& r matches Ok(latest)
                        &&& experimental == latest.experimental.text()
                        &&& stable == latest.stable.text()
                    },
                }
            },
        }
    }

    /// The latest releases, from the text of the release index.
    pub fn get(index: &str) -> (r: Result<LatestReleases, InvalidIndex>)
        ensures
            LatestReleases::reads(index@, r),
    {
        let experimental = match read_string_in(index, "experimental", "headless") {
            Some(text) => text,
            None => {
                return Err(InvalidIndex::NoExperimental);
            },
        };
        let experimental = match Version::try_from_str(experimental.as_str()) {
            Ok(version) => version,
            Err(e) => {
                return Err(InvalidIndex::Version(e));
            },
        };
        let stable = match read_string_in(index, "stable", "headless") {
            Some(text) => text,
            None => {
                return Err(InvalidIndex::NoStable);
            },
        };
        let stable = match Version::try_from_str(stable.as_str()) {
            Ok(version) => version,
            Err(e) => {
                return Err(InvalidIndex::Version(e));
            },
        };
        Ok(LatestReleases { experimental, stable })
    }
}

/// Whether what is offered for download is an archive as the game is
/// distributed in: the header that describes it ends with `.tar.xz`.
pub fn is_archive(content_disposition: &str) -> (r: bool)
    ensures
        r == (content_disposition@.len() >= 7 && has_at(
            content_disposition@,
            content_disposition@.len() - 7,
            ".tar.xz"@,
        )),
{
    proof {
        reveal_strlit(".tar.xz");
    }
    let v = chars_of(content_disposition);
    v.len() >= 7 && matches_at(&v, v.len() - 7, ".tar.xz")
}

impl Release {
    /// The address that a release is downloaded from.
    pub open spec fn url_text(self) -> Seq<char> {
        "https://www.factorio.com/get-download/"@ + self.version.text() + "/headless/linux64"@
    }

    /// The address that the release is downloaded from.
    pub fn url(&self) -> (r: String)
        ensures
            r@ == self.url_text(),
    {
        let mut out = "https://www.factorio.com/get-download/".to_owned();
        out.append(self.version.to_string().as_str());
        out.append("/headless/linux64");
        out
    }

    /// Whether a heading of a download page names this release: the first
    /// word of the heading's first text is the text of the release's
    /// version.
    pub open spec fn named_by(self, heading: Seq<Seq<char>>) -> bool {
        heading.len() > 0 && first_word(heading[0]) == Some(self.version.text())
    }

    /// Whether a heading of a download page names a release.
    pub open spec fn is_named_by(heading: Seq<Seq<char>>) -> bool {
        exists|release: Release| release.named_by(heading)
    }

    /// Whether the headings of a download page name these releases, one
    /// each, in their order.
    pub open spec fn listed(releases: Seq<Release>, headings: Seq<Seq<Seq<char>>>) -> bool {
        &&& releases.len() == headings.len()
        &&& forall|i: int|
            0 <= i < headings.len() ==> (#[trigger] releases[i]).named_by(headings[i])
    }

    /// Whether the heading at `at` is the first that names no release.
    pub open spec fn first_unnamed(headings: Seq<Seq<Seq<char>>>, at: int) -> bool {
        &&& 0 <= at < headings.len()
        &&& forall|i: int| 0 <= i < at ==> Release::is_named_by(#[trigger] headings[i])
        &&& !Release::is_named_by(headings[at])
    }

    /// Whether `r` is what the headings of a download page are read as,
    /// each heading given by its texts: the releases that they name, in
    /// their order, where every heading names one; else the first heading
    /// that names none, as empty if it holds no text or its first text no
    /// word, and with that word if it is no version.
    pub open spec fn reads(
        headings: Seq<Seq<Seq<char>>>,
        r: Result<Vec<Release>, InvalidListing>,
    ) -> bool {
        match r {
            Ok(releases) => Release::listed(releases@, headings),
            Err(InvalidListing::Selector) => false,
            Err(InvalidListing::EmptyHeading(at)) => {
                &&& Release::first_unnamed(headings, at as int)
                &&& headings[at as int].len() > 0 ==> first_word(headings[at as int][0]).is_none()
            },
            Err(InvalidListing::Version(at, e)) => {
                &&& Release::first_unnamed(headings, at as int)
                &&& headings[at as int].len() > 0
                &&& first_word(headings[at as int][0]) matches Some(word)
                &&& e matches InvalidVersionNumber::Version(t)
                &&& t@ == word
            },
        }
    }

    /// The releases that the headings of a download page name, in their
    /// order, each heading given by its texts.
    pub fn from_headings(headings: &Vec<Vec<String>>) -> (r: Result<Vec<Release>, InvalidListing>)
        ensures
            Release::reads(texts_view(headings@), r),
    {
        let mut releases: Vec<Release> = Vec::new();
        let mut i: usize = 0;
        while i < headings.len()
            invariant
                i <= headings.len(),
                releases.len() == i,
                forall|k: int|
                    0 <= k < i ==> (#[trigger] releases[k]).named_by(texts_view(headings@)[k]),
                forall|k: int|
                    0 <= k < i ==> Release::is_named_by(#[trigger] texts_view(headings@)[k]),
            decreases headings.len() - i,
        {
            let ghost heading = texts_view(headings@)[i as int];
            let texts = &headings[i];
            proof {
                assert(heading == strings_view(texts@));
                if texts.len() > 0 {
                    assert(heading[0] == texts[0]@);
                }
            }
            let word = if texts.len() > 0 {
                first_word_of(texts[0].as_str())
            } else {
                None
            };
            let word = match word {
                Some(w) => w,
                None => {
                    return Err(InvalidListing::EmptyHeading(i));
                },
            };
            let version = match Version::try_from_str(word.as_str()) {
                Ok(v) => v,
                Err(e) => {
                    return Err(InvalidListing::Version(i, e));
                },
            };
            proof {
                assert(Release { version }.named_by(heading));
            }
            releases.push(Release { version });
            i += 1;
        }
        Ok(releases)
    }

    /// The selector of the headings that name the releases on a download
    /// page.
    pub open spec fn heading_selector() -> Seq<char> {
        "h3"@
    }

    /// The releases that a download page lists: those that its headings
    /// name.
    pub fn get_all_from(html: &str) -> (r: Result<Vec<Release>, InvalidListing>)
        ensures
            match selected_texts(html@, Release::heading_selector()) {
                None => r matches Err(InvalidListing::Selector),
                Some(headings) => Release::reads(headings, r),
            },
    {
        match select_texts(html, "h3") {
            Some(headings) => Release::from_headings(&headings),
            None => Err(InvalidListing::Selector),
        }
    }

    /// Whether the experimental releases are among those to look through
    /// for a version of the given stability: they are unless the version is
    /// known to be stable.
    pub fn wants_experimentals(stability_hint: Option<bool>) -> (r: bool)
        ensures
            r == (stability_hint != Some(true)),
    {
        match stability_hint {
            Some(true) => false,
            _ => true,
        }
    }

    /// Whether the stable releases are among those to look through for a
    /// version of the given stability: they are unless the version is known
    /// to be experimental.
    pub fn wants_stables(stability_hint: Option<bool>) -> (r: bool)
        ensures
            r == (stability_hint != Some(false)),
    {
        match stability_hint {
            Some(false) => false,
            _ => true,
        }
    }

    /// The releases to look through for a version of the given stability:
    /// the experimental ones, where they are wanted, and then the stable
    /// ones, where they are.
    pub fn get_all_by_hint(
        stability_hint: Option<bool>,
        experimentals: Vec<Release>,
        stables: Vec<Release>,
    ) -> (r: Vec<Release>)
        ensures
            r@ == (if stability_hint != Some(true) {
                experimentals@
            } else {
                Seq::empty()
            }) + (if stability_hint != Some(false) {
                stables@
            } else {
                Seq::empty()
            }),
    {
        let mut result: Vec<Release> = Vec::new();
        let mut experimentals = experimentals;
        let mut stables = stables;
        if Release::wants_experimentals(stability_hint) {
            result.append(&mut experimentals);
        }
        if Release::wants_stables(stability_hint) {
            result.append(&mut stables);
        }
        result
    }
}

/// Where the version that was resolved is downloaded from: the address of
/// the first of `releases` that has this version. Without such a release
/// there is no download.
pub fn require_resolved(resolved: ResolvedVersionReq, releases: &Vec<Release>) -> (r: Result<
    String,
    NoDownloadAvailable,
>)
    ensures
        match r {
            Ok(url) => {
                &&& exists|i: int|
                    0 <= i < releases.len() && (#[trigger] releases[i]).version == resolved.version
                &&& url@ == Release { version: resolved.version }.url_text()
            },
            Err(e) => {
                &&& forall|i: int|
                    0 <= i < releases.len() ==> (#[trigger] releases[i]).version
                        != resolved.version
                &&& e == NoDownloadAvailable(resolved.version)
            },
        },
{
    let mut i: usize = 0;
    while i < releases.len()
        invariant
            i <= releases.len(),
            forall|k: int| 0 <= k < i ==> (#[trigger] releases[k]).version != resolved.version,
        decreases releases.len() - i,
    {
        if releases[i].version == resolved.version {
            return Ok(releases[i].url());
        }
        i += 1;
    }
    Err(NoDownloadAvailable(resolved.version))
}

} // verus!

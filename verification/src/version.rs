//! Version numbers of the game: exact three-part versions, two-part groups
//! of compatible versions, and the requirement that a server states.

use vstd::prelude::*;
use std::cmp::Ordering;
use crate::decimal::{decimal, lemma_decimal_value, lemma_decimal_injective, parse_u32, push_decimal};
use crate::download::LatestReleases;
use crate::error::InvalidVersionNumber;
use crate::text::{chars_of, debug_string, debug_text, digits_end, equals, is_digit, lemma_digits_end_is, skip_digits};
use vstd::string::StringExecFns;

verus! {

/// A three-part version number: an exact released version.
#[derive(Debug, Clone, Copy, PartialEq, Eq, Ord, Hash, Structural)]
pub struct Version(pub u32, pub u32, pub u32);

/// A two-part version number: a group of compatible versions.
#[derive(Debug, Clone, Copy, PartialEq, Eq, PartialOrd, Ord, Hash, Structural)]
pub struct Version2(pub u32, pub u32);

/// The versions from the first of one group to the last of another.
#[derive(Debug, Clone, Copy, PartialEq, Eq, Structural)]
pub struct Version2Range {
    pub first: Version2,
    pub last: Version2,
}

/// A version requirement that has been resolved to an exact version.
#[derive(Debug, Clone, Copy, PartialEq, Eq, Structural)]
pub struct ResolvedVersionReq {
    pub version: Version,
    /// Stability, if known.
    pub stability_hint: Option<bool>,
}

/// Why a requirement was not resolved.
#[derive(Debug, Clone)]
pub enum ResolveError {
    /// The requirement names a specific version that is no full version.
    Invalid(InvalidVersionNumber),
    /// The requirement follows the latest releases, and they are not known.
    LatestUnknown,
}

/// The version that a server asks for.
#[derive(Debug, PartialEq, Eq)]
pub enum VersionReq {
    /// The latest stable version.
    Stable,
    /// The latest experimental version.
    Experimental,
    /// A specific version, possibly without its minor or patch part.
    Specific(String),
}

/// Whether the triple `a` comes before the triple `b`, part by part.
pub open spec fn triple_lt(a: (int, int, int), b: (int, int, int)) -> bool {
    a.0 < b.0 || (a.0 == b.0 && (a.1 < b.1 || (a.1 == b.1 && a.2 < b.2)))
}

/// Whether the triple `a` is `b` or comes before it.
pub open spec fn triple_le(a: (int, int, int), b: (int, int, int)) -> bool {
    a == b || triple_lt(a, b)
}

/// Whether `s` holds, from position `i` to its end, `fields` numbers in
/// decimal notation with a full stop between each two of them.
pub open spec fn is_dotted(s: Seq<char>, i: int, fields: nat) -> bool
    decreases fields,
{
    let j = digits_end(s, i);
    &&& 0 <= i <= s.len()
    &&& crate::decimal::is_number(s.subrange(i, j))
    &&& if fields <= 1 {
        j == s.len()
    } else {
        j < s.len() && s[j] == '.' && is_dotted(s, j + 1, (fields - 1) as nat)
    }
}

/// A number in decimal notation at the start of a text ends where the digits
/// end, if no digit follows it.
proof fn lemma_number_then(n: nat, rest: Seq<char>)
    requires
        rest.len() > 0 ==> !is_digit(rest[0]),
    ensures
        digits_end(decimal(n) + rest, 0) == decimal(n).len(),
        (decimal(n) + rest).subrange(0, decimal(n).len() as int) == decimal(n),
        (decimal(n) + rest).subrange(decimal(n).len() as int, (decimal(n) + rest).len() as int)
            == rest,
{
    let d = decimal(n);
    let s = d + rest;
    lemma_decimal_value(n);
    assert forall|k: int| 0 <= k < d.len() implies is_digit(#[trigger] s[k]) by {
        assert(s[k] == d[k]);
    }
    if rest.len() > 0 {
        assert(s[d.len() as int] == rest[0]);
    }
    lemma_digits_end_is(s, 0, d.len() as int);
    assert(s.subrange(0, d.len() as int) =~= d);
    assert(s.subrange(d.len() as int, s.len() as int) =~= rest);
}

/// The run of digits that starts at `i` is the same in a text and in what is
/// left of it from an earlier position `base` on.
proof fn lemma_digits_end_shift(s: Seq<char>, base: int, i: int)
    requires
        0 <= base <= i <= s.len(),
    ensures
        digits_end(s, i) == digits_end(s.subrange(base, s.len() as int), i - base) + base,
    decreases s.len() - i,
{
    let t = s.subrange(base, s.len() as int);
    if i < s.len() {
        assert(t[i - base] == s[i]);
        if is_digit(s[i]) {
            lemma_digits_end_shift(s, base, i + 1);
        }
    }
}

/// One number at position `i` of `v`, and the position after it.
fn parse_field(v: &Vec<char>, i: usize) -> (r: Option<(u32, usize)>)
    requires
        i <= v.len(),
    ensures
        match r {
            Some((n, j)) => j == digits_end(v@, i as int) && i <= j <= v.len() && v@.subrange(
                i as int,
                j as int,
            ) == decimal(n as nat),
            None => forall|n: u32|
                v@.subrange(i as int, digits_end(v@, i as int)) != decimal(n as nat),
        },
{
    let j = skip_digits(v, i);
    match parse_u32(v, i, j) {
        Some(n) => Some((n, j)),
        None => None,
    }
}

impl Version {
    /// The three parts as mathematical integers.
    pub open spec fn parts(self) -> (int, int, int) {
        (self.0 as int, self.1 as int, self.2 as int)
    }

    /// The order of versions: by major, then minor, then patch number.
    pub open spec fn precedes(self, other: Version) -> bool {
        triple_lt(self.parts(), other.parts())
    }

    /// The text of a version: its three parts in decimal notation, with a
    /// full stop between them.
    pub open spec fn text(self) -> Seq<char> {
        decimal(self.0 as nat) + (seq!['.'] + (decimal(self.1 as nat) + (seq!['.'] + decimal(
            self.2 as nat,
        ))))
    }

    /// Whether `s` is the text of a version.
    pub open spec fn is_text(s: Seq<char>) -> bool {
        exists|version: Version| s == version.text()
    }

    /// Where the parts of a version's text begin and end.
    proof fn lemma_text_shape(self)
        ensures
            ({
                let s = self.text();
                let a = decimal(self.0 as nat).len() as int;
                let b = a + 1 + decimal(self.1 as nat).len();
                &&& digits_end(s, 0) == a
                &&& s.subrange(0, a) == decimal(self.0 as nat)
                &&& a < s.len() && s[a] == '.'
                &&& digits_end(s, a + 1) == b
                &&& s.subrange(a + 1, b) == decimal(self.1 as nat)
                &&& b < s.len() && s[b] == '.'
                &&& digits_end(s, b + 1) == s.len()
                &&& s.subrange(b + 1, s.len() as int) == decimal(self.2 as nat)
            }),
    {
        let s = self.text();
        let d0 = decimal(self.0 as nat);
        let d1 = decimal(self.1 as nat);
        let d2 = decimal(self.2 as nat);
        let a = d0.len() as int;
        let b = a + 1 + d1.len();
        let r1 = seq!['.'] + (d1 + (seq!['.'] + d2));
        let r2 = seq!['.'] + d2;
        lemma_number_then(self.0 as nat, r1);
        let t1 = d1 + r2;
        assert(s.subrange(a + 1, s.len() as int) =~= t1);
        lemma_number_then(self.1 as nat, r2);
        lemma_digits_end_shift(s, a + 1, a + 1);
        assert(s.subrange(a + 1, b) =~= t1.subrange(0, d1.len() as int));
        let t2 = d2 + Seq::<char>::empty();
        assert(t2 =~= d2);
        assert(s.subrange(b + 1, s.len() as int) =~= t2);
        lemma_number_then(self.2 as nat, Seq::<char>::empty());
        lemma_digits_end_shift(s, b + 1, b + 1);
        assert(s[a] == r1[0]);
        assert(s[b] == t1[d1.len() as int]);
        assert(t1[d1.len() as int] == r2[0]);
    }

    /// The text of a version holds digits and full stops only.
    pub proof fn lemma_text_chars(self)
        ensures
            forall|k: int|
                0 <= k < self.text().len() ==> is_digit(#[trigger] self.text()[k])
                    || self.text()[k] == '.',
    {
        lemma_decimal_value(self.0 as nat);
        lemma_decimal_value(self.1 as nat);
        lemma_decimal_value(self.2 as nat);
    }

    /// Two versions with the same text are the same version.
    pub proof fn lemma_text_injective(self, other: Version)
        requires
            self.text() == other.text(),
        ensures
            self == other,
    {
        self.lemma_text_shape();
        other.lemma_text_shape();
        lemma_decimal_injective(self.0 as nat, other.0 as nat);
        lemma_decimal_injective(self.1 as nat, other.1 as nat);
        lemma_decimal_injective(self.2 as nat, other.2 as nat);
    }

    /// Whether `self` comes before `other`.
    pub fn is_before(&self, other: &Version) -> (r: bool)
        ensures
            r == self.precedes(*other),
    {
        self.0 < other.0 || (self.0 == other.0 && (self.1 < other.1 || (self.1 == other.1 && self.2
            < other.2)))
    }

    /// Reads the characters of `v` as a version.
    fn from_chars(v: &Vec<char>) -> (r: Option<Version>)
        ensures
            match r {
                Some(version) => v@ == version.text(),
                None => forall|version: Version| v@ != version.text(),
            },
    {
        let ghost s = v@;
        let first = parse_field(v, 0);
        let (major, a) = match first {
            Some(f) => f,
            None => {
                proof {
                    assert forall|version: Version| s != version.text() by {
                        version.lemma_text_shape();
                    }
                }
                return None;
            },
        };
        if a >= v.len() || v[a] != '.' {
            proof {
                assert forall|version: Version| s != version.text() by {
                    version.lemma_text_shape();
                }
            }
            return None;
        }
        let second = parse_field(v, a + 1);
        let (minor, b) = match second {
            Some(f) => f,
            None => {
                proof {
                    assert forall|version: Version| s != version.text() by {
                        version.lemma_text_shape();
                    }
                }
                return None;
            },
        };
        if b >= v.len() || v[b] != '.' {
            proof {
                assert forall|version: Version| s != version.text() by {
                    version.lemma_text_shape();
                }
            }
            return None;
        }
        let third = parse_field(v, b + 1);
        let (patch, c) = match third {
            Some(f) => f,
            None => {
                proof {
                    assert forall|version: Version| s != version.text() by {
                        version.lemma_text_shape();
                    }
                }
                return None;
            },
        };
        if c != v.len() {
            proof {
                assert forall|version: Version| s != version.text() by {
                    version.lemma_text_shape();
                }
            }
            return None;
        }
        let version = Version(major, minor, patch);
        proof {
            let t = version.text();
            assert(s =~= s.subrange(0, a as int) + (seq!['.'] + (s.subrange(a + 1, b as int) + (
            seq!['.'] + s.subrange(b + 1, c as int)))));
        }
        Some(version)
    }

    /// Reads a version from its text. The texts that are accepted are those
    /// that `text` gives: three numbers in decimal notation that fit 32 bits
    /// each, without sign or leading zeros, with a full stop between them.
    pub fn try_from_str(s: &str) -> (r: Result<Version, InvalidVersionNumber>)
        ensures
            match r {
                Ok(version) => s@ == version.text(),
                Err(e) => {
                    &&& !Version::is_text(s@)
                    &&& e matches InvalidVersionNumber::Version(t)
                    &&& t@ == s@
                },
            },
    {
        let v = chars_of(s);
        match Version::from_chars(&v) {
            Some(version) => Ok(version),
            None => Err(InvalidVersionNumber::Version(s.to_owned())),
        }
    }

    /// Writes the version as text.
    pub fn to_string(&self) -> (r: String)
        ensures
            r@ == self.text(),
    {
        proof {
            reveal_strlit(".");
        }
        let mut out = String::new();
        push_decimal(&mut out, self.0);
        out.append(".");
        push_decimal(&mut out, self.1);
        out.append(".");
        push_decimal(&mut out, self.2);
        assert(out@ =~= self.text());
        out
    }

    /// The version as a program would write it: the type's name and the
    /// three parts in round brackets.
    pub open spec fn debug_text(self) -> Seq<char> {
        "Version("@ + decimal(self.0 as nat) + ", "@ + decimal(self.1 as nat) + ", "@ + decimal(
            self.2 as nat,
        ) + ")"@
    }

    /// Writes the version as a program would write it.
    pub fn debug_string(&self) -> (r: String)
        ensures
            r@ == self.debug_text(),
    {
        let mut out = "Version(".to_owned();
        push_decimal(&mut out, self.0);
        out.append(", ");
        push_decimal(&mut out, self.1);
        out.append(", ");
        push_decimal(&mut out, self.2);
        out.append(")");
        out
    }
}

impl PartialOrd for Version {
    fn partial_cmp(&self, other: &Version) -> (r: Option<Ordering>) {
        if self.is_before(other) {
            Some(Ordering::Less)
        } else if other.is_before(self) {
            Some(Ordering::Greater)
        } else {
            Some(Ordering::Equal)
        }
    }
}

impl vstd::std_specs::cmp::PartialOrdSpecImpl for Version {
    open spec fn obeys_partial_cmp_spec() -> bool {
        true
    }

    open spec fn partial_cmp_spec(&self, other: &Version) -> Option<Ordering> {
        if self.precedes(*other) {
            Some(Ordering::Less)
        } else if other.precedes(*self) {
            Some(Ordering::Greater)
        } else {
            Some(Ordering::Equal)
        }
    }
}

impl Version2 {
    /// The text of a group: its two parts in decimal notation, with a full
    /// stop between them.
    pub open spec fn text(self) -> Seq<char> {
        decimal(self.0 as nat) + (seq!['.'] + decimal(self.1 as nat))
    }

    /// The first version of the group, as a triple.
    pub open spec fn start_parts(self) -> (int, int, int) {
        (self.0 as int, self.1 as int, 0)
    }

    /// The first version after the group, as a triple.
    pub open spec fn after_parts(self) -> (int, int, int) {
        (self.0 as int, self.1 + 1, 0)
    }

    /// Whether `version` belongs to the group: it is the group's first
    /// version or a later one, and comes before the next group's first.
    pub open spec fn spec_includes(self, version: Version) -> bool {
        triple_le(self.start_parts(), version.parts()) && triple_lt(
            version.parts(),
            self.after_parts(),
        )
    }

    /// Whether `s` is the text of a group of versions.
    pub open spec fn is_text(s: Seq<char>) -> bool {
        exists|group: Version2| s == group.text()
    }

    /// Where the parts of a group's text begin and end.
    proof fn lemma_text_shape(self)
        ensures
            ({
                let s = self.text();
                let a = decimal(self.0 as nat).len() as int;
                &&& digits_end(s, 0) == a
                &&& s.subrange(0, a) == decimal(self.0 as nat)
                &&& a < s.len() && s[a] == '.'
                &&& digits_end(s, a + 1) == s.len()
                &&& s.subrange(a + 1, s.len() as int) == decimal(self.1 as nat)
            }),
    {
        let s = self.text();
        let d0 = decimal(self.0 as nat);
        let d1 = decimal(self.1 as nat);
        let a = d0.len() as int;
        let r1 = seq!['.'] + d1;
        lemma_number_then(self.0 as nat, r1);
        let t1 = d1 + Seq::<char>::empty();
        assert(t1 =~= d1);
        assert(s.subrange(a + 1, s.len() as int) =~= t1);
        lemma_number_then(self.1 as nat, Seq::<char>::empty());
        lemma_digits_end_shift(s, a + 1, a + 1);
        assert(s[a] == r1[0]);
    }

    /// Two groups with the same text are the same group.
    pub proof fn lemma_text_injective(self, other: Version2)
        requires
            self.text() == other.text(),
        ensures
            self == other,
    {
        self.lemma_text_shape();
        other.lemma_text_shape();
        lemma_decimal_injective(self.0 as nat, other.0 as nat);
        lemma_decimal_injective(self.1 as nat, other.1 as nat);
    }

    /// Reads the characters of `v` as a group of versions.
    fn from_chars(v: &Vec<char>) -> (r: Option<Version2>)
        ensures
            match r {
                Some(group) => v@ == group.text(),
                None => forall|group: Version2| v@ != group.text(),
            },
    {
        let ghost s = v@;
        let first = parse_field(v, 0);
        let (major, a) = match first {
            Some(f) => f,
            None => {
                proof {
                    assert forall|group: Version2| s != group.text() by {
                        group.lemma_text_shape();
                    }
                }
                return None;
            },
        };
        if a >= v.len() || v[a] != '.' {
            proof {
                assert forall|group: Version2| s != group.text() by {
                    group.lemma_text_shape();
                }
            }
            return None;
        }
        let second = parse_field(v, a + 1);
        let (minor, b) = match second {
            Some(f) => f,
            None => {
                proof {
                    assert forall|group: Version2| s != group.text() by {
                        group.lemma_text_shape();
                    }
                }
                return None;
            },
        };
        if b != v.len() {
            proof {
                assert forall|group: Version2| s != group.text() by {
                    group.lemma_text_shape();
                }
            }
            return None;
        }
        let group = Version2(major, minor);
        proof {
            assert(s =~= s.subrange(0, a as int) + (seq!['.'] + s.subrange(a + 1, b as int)));
        }
        Some(group)
    }

    /// Reads a group of versions from its text. The texts that are accepted
    /// are those that `text` gives.
    pub fn try_from_str(s: &str) -> (r: Result<Version2, InvalidVersionNumber>)
        ensures
            match r {
                Ok(group) => s@ == group.text(),
                Err(e) => {
                    &&& !Version2::is_text(s@)
                    &&& e matches InvalidVersionNumber::Version2(t)
                    &&& t@ == s@
                },
            },
    {
        let v = chars_of(s);
        match Version2::from_chars(&v) {
            Some(group) => Ok(group),
            None => Err(InvalidVersionNumber::Version2(s.to_owned())),
        }
    }

    /// Writes the group as text.
    pub fn to_string(&self) -> (r: String)
        ensures
            r@ == self.text(),
    {
        proof {
            reveal_strlit(".");
        }
        let mut out = String::new();
        push_decimal(&mut out, self.0);
        out.append(".");
        push_decimal(&mut out, self.1);
        assert(out@ =~= self.text());
        out
    }

    /// Whether `version` belongs to this group.
    #[verifier::when_used_as_spec(spec_includes)]
    pub fn includes(self, version: Version) -> (r: bool)
        ensures
            r == self.spec_includes(version),
    {
        version.0 == self.0 && version.1 == self.1
    }

    /// The first version of this group: the one with patch number zero.
    pub fn extend_start(self) -> (r: Version)
        ensures
            r.parts() == self.start_parts(),
    {
        Version(self.0, self.1, 0)
    }

    /// The first version after this group, such as 0.2.0 after 0.1.
    pub fn extend_after(self) -> (r: Version)
        requires
            self.1 < u32::MAX,
        ensures
            r.parts() == self.after_parts(),
    {
        Version(self.0, self.1 + 1, 0)
    }

    /// The range of versions from the first of this group to the last of the
    /// group `last`.
    pub fn to(self, last: Version2) -> (r: Version2Range)
        ensures
            r.first == self,
            r.last == last,
    {
        Version2Range { first: self, last }
    }
}

impl Version2Range {
    /// Whether `version` lies in the range: it is the first version of the
    /// first group or a later one, and comes before the first version after
    /// the last group.
    pub open spec fn spec_includes(self, version: Version) -> bool {
        triple_le(self.first.start_parts(), version.parts()) && triple_lt(
            version.parts(),
            self.last.after_parts(),
        )
    }

    /// Whether `version` lies in this range.
    #[verifier::when_used_as_spec(spec_includes)]
    pub fn includes(self, version: Version) -> (r: bool)
        ensures
            r == self.spec_includes(version),
    {
        let from_first = version.0 > self.first.0 || (version.0 == self.first.0 && version.1
            >= self.first.1);
        let up_to_last = version.0 < self.last.0 || (version.0 == self.last.0 && version.1
            <= self.last.1);
        from_first && up_to_last
    }
}

impl VersionReq {
    /// Whether `s` is the text of a specific version: one, two or three
    /// numbers in decimal notation, with a full stop between them.
    pub open spec fn is_specific(s: Seq<char>) -> bool {
        is_dotted(s, 0, 1) || is_dotted(s, 0, 2) || is_dotted(s, 0, 3)
    }

    /// What a text asks for, if it is a version requirement.
    pub open spec fn parse(s: Seq<char>) -> Option<VersionReqView> {
        if s == "s"@ || s == "stable"@ {
            Some(VersionReqView::Stable)
        } else if s == "e"@ || s == "experimental"@ {
            Some(VersionReqView::Experimental)
        } else if Self::is_specific(s) {
            Some(VersionReqView::Specific(s))
        } else {
            None
        }
    }

    /// Reads a version requirement: `s` or `stable`, `e` or `experimental`,
    /// or a specific version. Any other text is rejected, with a message that
    /// quotes it.
    pub fn from_str(input: &str) -> (r: Result<VersionReq, String>)
        ensures
            match r {
                Ok(req) => Self::parse(input@) == Some(req@),
                Err(msg) => Self::parse(input@).is_none() && msg@ == "Invalid version "@
                    + debug_text(input@),
            },
    {
        let v = chars_of(input);
        if equals(&v, "s") || equals(&v, "stable") {
            Ok(VersionReq::Stable)
        } else if equals(&v, "e") || equals(&v, "experimental") {
            Ok(VersionReq::Experimental)
        } else if dotted_fields(&v) {
            Ok(VersionReq::Specific(input.to_owned()))
        } else {
            let mut msg = "Invalid version ".to_owned();
            let quoted = debug_string(input);
            msg.append(quoted.as_str());
            Err(msg)
        }
    }

    /// What the requirement resolves to. A specific version is read from
    /// its text; it has to be a full version. The others are taken from the
    /// latest releases, and cannot be resolved without them.
    pub open spec fn resolves(
        self,
        latest: Option<LatestReleases>,
        r: Result<ResolvedVersionReq, ResolveError>,
    ) -> bool {
        match self {
            VersionReq::Specific(s) => match r {
                Ok(resolved) => s@ == resolved.version.text() && resolved.stability_hint
                    == None::<bool>,
                Err(ResolveError::Invalid(InvalidVersionNumber::Version(t))) => !Version::is_text(
                    s@,
                ) && t@ == s@,
                Err(_) => false,
            },
            VersionReq::Stable => match latest {
                Some(latest) => r matches Ok(resolved) && resolved == (ResolvedVersionReq {
                    version: latest.stable,
                    stability_hint: Some(true),
                }),
                None => r matches Err(ResolveError::LatestUnknown),
            },
            VersionReq::Experimental => match latest {
                Some(latest) => r matches Ok(resolved) && resolved == (ResolvedVersionReq {
                    version: latest.experimental,
                    stability_hint: Some(false),
                }),
                None => r matches Err(ResolveError::LatestUnknown),
            },
        }
    }

    /// Resolves the requirement to an exact version, with the latest
    /// releases where they are known.
    pub fn resolve(&self, latest: Option<LatestReleases>) -> (r: Result<
        ResolvedVersionReq,
        ResolveError,
    >)
        ensures
            self.resolves(latest, r),
    {
        match self {
            VersionReq::Specific(s) => {
                match Version::try_from_str(s.as_str()) {
                    Ok(version) => Ok(ResolvedVersionReq { version, stability_hint: None }),
                    Err(e) => Err(ResolveError::Invalid(e)),
                }
            },
            VersionReq::Stable => match latest {
                Some(latest) => Ok(
                    ResolvedVersionReq { version: latest.stable, stability_hint: Some(true) },
                ),
                None => Err(ResolveError::LatestUnknown),
            },
            VersionReq::Experimental => match latest {
                Some(latest) => Ok(
                    ResolvedVersionReq {
                        version: latest.experimental,
                        stability_hint: Some(false),
                    },
                ),
                None => Err(ResolveError::LatestUnknown),
            },
        }
    }

    /// Whether resolving this requirement reads the latest releases.
    pub fn follows_latest(&self) -> (r: bool)
        ensures
            r == !(self@ is Specific),
    {
        match self {
            VersionReq::Specific(_) => false,
            _ => true,
        }
    }

    /// The requirement in words.
    pub open spec fn display_text(self) -> Seq<char> {
        match self {
            VersionReq::Specific(s) => s@,
            VersionReq::Stable => "latest stable"@,
            VersionReq::Experimental => "latest experimental"@,
        }
    }

    /// Writes the requirement for a reader.
    pub fn to_string(&self) -> (r: String)
        ensures
            r@ == self.display_text(),
    {
        match self {
            VersionReq::Specific(s) => s.clone(),
            VersionReq::Stable => "latest stable".to_owned(),
            VersionReq::Experimental => "latest experimental".to_owned(),
        }
    }
}

impl Clone for VersionReq {
    fn clone(&self) -> (r: VersionReq)
        ensures
            r == *self,
    {
        match self {
            VersionReq::Stable => VersionReq::Stable,
            VersionReq::Experimental => VersionReq::Experimental,
            VersionReq::Specific(s) => VersionReq::Specific(s.clone()),
        }
    }
}

/// What a version requirement holds, with its text as a sequence of
/// characters.
pub enum VersionReqView {
    Stable,
    Experimental,
    Specific(Seq<char>),
}

impl View for VersionReq {
    type V = VersionReqView;

    open spec fn view(&self) -> VersionReqView {
        match self {
            VersionReq::Stable => VersionReqView::Stable,
            VersionReq::Experimental => VersionReqView::Experimental,
            VersionReq::Specific(s) => VersionReqView::Specific(s@),
        }
    }
}

/// Whether `v` holds one, two or three numbers in decimal notation, with a
/// full stop between them.
fn dotted_fields(v: &Vec<char>) -> (r: bool)
    ensures
        r == VersionReq::is_specific(v@),
{
    proof {
        reveal_with_fuel(is_dotted, 4);
    }
    if v.len() == 0 {
        return false;
    }
    let a = number_end(v, 0);
    if a == 0 {
        return false;
    }
    if a == v.len() {
        return true;
    }
    if v[a] != '.' {
        return false;
    }
    let b = number_end(v, a + 1);
    if b == a + 1 {
        return false;
    }
    if b == v.len() {
        return true;
    }
    if v[b] != '.' {
        return false;
    }
    let c = number_end(v, b + 1);
    if c == b + 1 {
        return false;
    }
    c == v.len()
}

/// The end of the number in decimal notation that starts at `i`, or `i` if
/// none starts there.
fn number_end(v: &Vec<char>, i: usize) -> (j: usize)
    requires
        i <= v.len(),
    ensures
        i <= j <= v.len(),
        j == i || j == digits_end(v@, i as int),
        (j != i) == crate::decimal::is_number(v@.subrange(i as int, digits_end(v@, i as int))),
{
    let j = skip_digits(v, i);
    let ghost sub = v@.subrange(i as int, j as int);
    if j == i {
        i
    } else if v[i] == '0' && j - i > 1 {
        proof {
            assert(sub[0] == '0');
        }
        i
    } else {
        proof {
            assert(sub[0] == v[i as int]);
            assert forall|k: int| 0 <= k < sub.len() implies is_digit(#[trigger] sub[k]) by {
                assert(sub[k] == v[i + k]);
            }
        }
        j
    }
}

} // verus!

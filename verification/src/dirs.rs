//! Where the program keeps its data, below its data directory: the names of
//! the directories of worlds and of versions.

use vstd::prelude::*;
use crate::decimal::decimal;
use crate::error::InvalidVersionNumber;
use crate::version::Version;

verus! {

/// Whether the character `c` at position `i` of a name can stand in the
/// name of a file on every system: letters, digits, space, hyphen and
/// underscore can, and a full stop that is not the first character.
pub open spec fn is_file_safe(c: char, i: int) -> bool {
    ||| 'a' <= c <= 'z'
    ||| 'A' <= c <= 'Z'
    ||| '0' <= c <= '9'
    ||| c == ' '
    ||| c == '-'
    ||| c == '_'
    ||| (c == '.' && i != 0)
}

/// What stands for the character `c` at position `i` in the name of a file:
/// the character itself where it is safe, else its number between commas.
pub open spec fn sanitized_char(c: char, i: int) -> Seq<char> {
    if is_file_safe(c, i) {
        seq![c]
    } else {
        seq![','] + decimal(c as u32 as nat) + seq![',']
    }
}

/// A name made safe for the name of a file, character by character.
pub open spec fn sanitized_text(name: Seq<char>) -> Seq<char>
    decreases name.len(),
{
    if name.len() == 0 {
        Seq::empty()
    } else {
        sanitized_text(name.drop_last()) + sanitized_char(name.last(), name.len() - 1)
    }
}

/// Calls `app_dirs::sanitized`, which keeps the characters that
/// `is_file_safe` accepts and writes each other one as a comma, the decimal
/// number of the character and a comma.
#[verifier::external_body]
pub(crate) fn sanitized(component: &str) -> (r: String)
    ensures
        r@ == sanitized_text(component@),
{
    app_dirs::sanitized(component)
}

/// The directory of the world `name` below the data directory, as the names
/// on the way: `worlds` and the name made safe.
pub fn world_dir(name: &str) -> (r: Vec<String>)
    ensures
        r.len() == 2,
        r[0]@ == "worlds"@,
        r[1]@ == sanitized_text(name@),
{
    let mut path: Vec<String> = Vec::new();
    path.push("worlds".to_owned());
    path.push(sanitized(name));
    path
}

/// The directory of the version `version` below the data directory, as the
/// names on the way: `versions` and the version's text.
pub fn version_data(version: Version) -> (r: Vec<String>)
    ensures
        r.len() == 2,
        r[0]@ == "versions"@,
        r[1]@ == version.text(),
{
    let mut path: Vec<String> = Vec::new();
    path.push("versions".to_owned());
    path.push(version.to_string());
    path
}

/// The versions that the directories below `versions` stand for, in their
/// order. Every name has to be the text of a version: the first that is not
/// is reported.
pub fn list_versions(names: &Vec<String>) -> (r: Result<Vec<Version>, InvalidVersionNumber>)
    ensures
        match r {
            Ok(versions) => {
                &&& versions.len() == names.len()
                &&& forall|i: int|
                    0 <= i < names.len() ==> (#[trigger] names[i])@ == versions[i].text()
            },
            Err(e) => exists|at: int|
                {
                    &&& 0 <= at < names.len()
                    &&& forall|i: int| 0 <= i < at ==> Version::is_text((#[trigger] names[i])@)
                    &&& !Version::is_text(names[at]@)
                    &&& e matches InvalidVersionNumber::Version(t)
                    &&& t@ == names[at]@
                },
        },
{
    let mut versions: Vec<Version> = Vec::new();
    let mut i: usize = 0;
    while i < names.len()
        invariant
            i <= names.len(),
            versions.len() == i,
            forall|k: int| 0 <= k < i ==> (#[trigger] names[k])@ == versions[k].text(),
        decreases names.len() - i,
    {
        match Version::try_from_str(names[i].as_str()) {
            Ok(version) => {
                versions.push(version);
            },
            Err(e) => {
                proof {
                    assert forall|k: int| 0 <= k < i implies Version::is_text(
                        (#[trigger] names[k])@,
                    ) by {
                        assert(names[k]@ == versions[k].text());
                    }
                }
                return Err(e);
            },
        }
        i += 1;
    }
    Ok(versions)
}

} // verus!

//! What the commands of the program decide, apart from what they read and
//! write.

use vstd::prelude::*;
use vstd::string::{StrSliceExecFns, StringExecFns};
use crate::text::{char_is_space, chars_of, is_space};
use crate::version::{Version, VersionReq};

verus! {

/// The end of what a text holds before the white space at its end.
pub open spec fn content_end(s: Seq<char>) -> int
    decreases s.len(),
{
    if s.len() > 0 && is_space(s.last()) {
        content_end(s.drop_last())
    } else {
        s.len() as int
    }
}

/// A text without the white space at its end.
pub open spec fn trimmed_end(s: Seq<char>) -> Seq<char> {
    s.subrange(0, content_end(s))
}

/// Whether what was typed confirms that the server `name` is to be deleted:
/// it is the server's name, with nothing but white space after it.
pub fn confirms_deletion(typed: &str, name: &str) -> (r: bool)
    ensures
        r == (trimmed_end(typed@) == name@),
{
    let v = chars_of(typed);
    let n = chars_of(name);
    let mut e: usize = v.len();
    assert(v@.subrange(0, e as int) =~= v@);
    while e > 0 && char_is_space(v[e - 1])
        invariant
            e <= v.len(),
            content_end(v@.subrange(0, e as int)) == content_end(v@),
        decreases e,
    {
        proof {
            let here = v@.subrange(0, e as int);
            assert(here.last() == v[e - 1]);
            assert(here.drop_last() =~= v@.subrange(0, e - 1));
        }
        e -= 1;
    }
    proof {
        let here = v@.subrange(0, e as int);
        if e > 0 {
            assert(here.last() == v[e - 1]);
        }
        assert(content_end(here) == e);
        assert(trimmed_end(v@) == here);
    }
    if e != n.len() {
        return false;
    }
    let mut k: usize = 0;
    while k < e
        invariant
            k <= e == n.len(),
            e <= v.len(),
            v@ == typed@,
            n@ == name@,
            trimmed_end(typed@) == v@.subrange(0, e as int),
            forall|m: int| 0 <= m < k ==> v[m] == n[m],
        decreases e - k,
    {
        if v[k] != n[k] {
            proof {
                assert(v@.subrange(0, e as int)[k as int] == v[k as int]);
            }
            return false;
        }
        k += 1;
    }
    assert(v@.subrange(0, e as int) =~= n@);
    true
}

/// Whether a world may be written to a file: not over a file that exists,
/// unless that is asked for.
pub fn may_export(target_exists: bool, force: bool) -> (r: bool)
    ensures
        r == (!target_exists || force),
{
    !target_exists || force
}

/// The versions of `installed` that are not among `used`, in their order.
pub open spec fn unused(installed: Seq<Version>, used: Seq<Version>) -> Seq<Version>
    decreases installed.len(),
{
    if installed.len() == 0 {
        Seq::empty()
    } else if used.contains(installed.last()) {
        unused(installed.drop_last(), used)
    } else {
        unused(installed.drop_last(), used).push(installed.last())
    }
}

/// The versions to delete when the data directory is pruned: those that
/// are installed and that no server uses.
pub fn unused_versions(installed: &Vec<Version>, used: &Vec<Version>) -> (r: Vec<Version>)
    ensures
        r@ == unused(installed@, used@),
{
    let mut prune: Vec<Version> = Vec::new();
    let mut i: usize = 0;
    assert(installed@.take(0) =~= Seq::empty());
    while i < installed.len()
        invariant
            i <= installed.len(),
            prune@ =~= unused(installed@.take(i as int), used@),
        decreases installed.len() - i,
    {
        proof {
            let next = installed@.take(i + 1);
            assert(next.drop_last() =~= installed@.take(i as int));
            assert(next.last() == installed@[i as int]);
        }
        let version = installed[i];
        let mut k: usize = 0;
        let mut found = false;
        while k < used.len() && !found
            invariant
                k <= used.len(),
                found ==> used@.contains(version),
                !found ==> forall|m: int| 0 <= m < k ==> used[m] != version,
            decreases used.len() - k + (if found { 0int } else { 1int }),
        {
            if used[k] == version {
                found = true;
                assert(used@[k as int] == version);
            } else {
                k += 1;
            }
        }
        if !found {
            prune.push(version);
        }
        i += 1;
    }
    assert(installed@.take(i as int) =~= installed@);
    prune
}

/// So many spaces.
pub open spec fn spaces(n: nat) -> Seq<char> {
    Seq::new(n, |i: int| ' ')
}

/// The line that the list of servers shows for a server: its name, filled
/// up with spaces to twenty characters, its version, and what it asks for
/// in square brackets.
pub open spec fn list_line_text(world: Seq<char>, version: Version, requested: VersionReq) -> Seq<
    char,
> {
    world + spaces(if world.len() < 20 {
        (20 - world.len()) as nat
    } else {
        0
    }) + " "@ + version.text() + "  ["@ + requested.display_text() + "]"@
}

/// The line that the list of servers shows for a server.
pub fn list_line(world: &str, version: Version, requested: &VersionReq) -> (r: String)
    ensures
        r@ == list_line_text(world@, version, *requested),
{
    proof {
        reveal_strlit(" ");
    }
    let mut out = world.to_owned();
    let n = world.unicode_len();
    let mut k: usize = n;
    while k < 20
        invariant
            n == world@.len(),
            n <= k,
            k <= 20 || k == n,
            out@ =~= world@ + spaces((k - n) as nat),
        decreases 20 - k,
    {
        out.append(" ");
        proof {
            reveal_strlit(" ");
            assert(spaces((k - n) as nat) + " "@ =~= spaces((k + 1 - n) as nat));
        }
        k += 1;
    }
    proof {
        if n < 20 {
            assert(k == 20);
        } else {
            assert(k == n);
        }
    }
    out.append(" ");
    out.append(version.to_string().as_str());
    out.append("  [");
    out.append(requested.to_string().as_str());
    out.append("]");
    assert(out@ =~= list_line_text(world@, version, *requested));
    out
}

} // verus!

//! Composition of paths as text, with the separator of the host.
use crate::text::{ends_with, starts_with};
use crate::utils::OSType;
use vstd::prelude::*;

verus! {

/// The character that the host writes between the parts of a path.
pub open spec fn path_separator(os: OSType) -> char {
    if os == OSType::Windows {
        '\\'
    } else {
        '/'
    }
}

/// Whether the host reads `c` as a separator of path parts: the slash
/// everywhere, the backslash on Windows as well.
pub open spec fn is_path_separator(c: char, os: OSType) -> bool {
    c == '/' || (os == OSType::Windows && c == '\\')
}

/// The path `rel` below the directory `base`: the two texts with one
/// separator of the host between them, which is left out where `base` is empty
/// or already ends in a separator.
pub open spec fn joined_path(base: Seq<char>, rel: Seq<char>, os: OSType) -> Seq<char> {
    if base.len() == 0 || is_path_separator(base.last(), os) {
        base + rel
    } else {
        base.push(path_separator(os)) + rel
    }
}

/// The path `rel` below the directory `base`, written for the host `os`.
pub fn join_path(base: &str, rel: &str, os: OSType) -> (out: String)
    ensures
        out@ == joined_path(base@, rel@, os),
{
    let n: usize = base.unicode_len();
    let mut out = String::from_str(base);
    if n > 0 {
        let last: char = base.get_char(n - 1);
        let ends_in_separator = last == '/' || (os == OSType::Windows && last == '\\');
        if !ends_in_separator {
            proof {
                reveal_strlit("\\");
                reveal_strlit("/");
            }
            if os == OSType::Windows {
                out.append("\\");
            } else {
                out.append("/");
            }
            assert(out@ =~= base@.push(path_separator(os)));
        }
    }
    out.append(rel);
    out
}

/// A joined path begins with its directory and ends with the path that was
/// put below it.
pub proof fn lemma_joined_path_ends(base: Seq<char>, rel: Seq<char>, os: OSType)
    ensures
        starts_with(joined_path(base, rel, os), base),
        ends_with(joined_path(base, rel, os), rel),
{
    let whole = joined_path(base, rel, os);
    assert(whole.subrange(0, base.len() as int) =~= base);
    assert(whole.subrange(whole.len() - rel.len(), whole.len() as int) =~= rel);
}

} // verus!

//! Mirrored output paths: where a file found under the input root is written
//! when an output root was given.
//!
//! Paths are handled as plain strings with `/` as the separator. The
//! relative-path computation itself is delegated to an outside routine that
//! compares paths component by component; for the paths a traversal yields —
//! the root followed by a separator and a normalized remainder — its result
//! is pinned down exactly.

use vstd::prelude::*;
use vstd::string::StrSliceExecFns;
use vstd::string::StringExecFns;

verus! {

/// No two adjacent separators anywhere in the sequence.
pub open spec fn no_double_sep(s: Seq<char>) -> bool {
    forall|i: int| 0 <= i < s.len() - 1 ==> !(#[trigger] s[i] == '/' && s[i + 1] == '/')
}

/// Some component of the sequence is exactly `.`.
pub open spec fn has_dot_component(s: Seq<char>) -> bool {
    exists|i: int|
        0 <= i < s.len() && #[trigger] s[i] == '.' && (i == 0 || s[i - 1] == '/') && (i + 1
            == s.len() || s[i + 1] == '/')
}

/// Some component of the sequence is exactly `..`.
pub open spec fn has_dotdot_component(s: Seq<char>) -> bool {
    exists|i: int|
        0 <= i + 1 < s.len() && #[trigger] s[i] == '.' && s[i + 1] == '.' && (i == 0 || s[i - 1]
            == '/') && (i + 2 == s.len() || s[i + 2] == '/')
}

/// A normalized relative path: non-empty, neither starting nor ending with a
/// separator, without empty, `.` or `..` components. Paths a directory walk
/// produces relative to its root have this shape.
pub open spec fn clean_rel_path(s: Seq<char>) -> bool {
    &&& s.len() > 0
    &&& s[0] != '/'
    &&& s[s.len() - 1] != '/'
    &&& no_double_sep(s)
    &&& !has_dot_component(s)
    &&& !has_dotdot_component(s)
}

/// The path is the base, a separator, and a non-empty remainder, literally.
pub open spec fn strict_prefix_sep(path: Seq<char>, base: Seq<char>) -> bool {
    &&& base.len() > 0
    &&& path.len() > base.len() + 1
    &&& path.take(base.len() as int) == base
    &&& path[base.len() as int] == '/'
}

/// The remainder of a path under a base, as [`strict_prefix_sep`] shapes it.
pub open spec fn rest_under(path: Seq<char>, base: Seq<char>) -> Seq<char> {
    path.skip(base.len() as int + 1)
}

/// Joining a base directory and a relative path, the way path concatenation
/// works: a separator is inserted unless the base is empty or already ends
/// with one.
pub open spec fn join_path_spec(base: Seq<char>, rel: Seq<char>) -> Seq<char> {
    if base.len() == 0 || base[base.len() - 1] == '/' {
        base + rel
    } else {
        base + "/"@ + rel
    }
}

/// Joins a base directory and a relative path.
pub fn join_path(base: &str, rel: &str) -> (r: String)
    ensures
        r@ == join_path_spec(base@, rel@),
{
    let n = base.unicode_len();
    let mut s = base.to_owned();
    if n > 0 && base.get_char(n - 1) != '/' {
        s.append("/");
    }
    s.append(rel);
    s
}

/// What the outside relative-path routine returns for two paths; a function
/// of the two character sequences alone.
pub uninterp spec fn path_diff(path: Seq<char>, base: Seq<char>) -> Option<Seq<char>>;

/// Relies on `pathdiff::diff_paths`: it walks the two paths' components and,
/// when the base's components are a strict prefix of the path's, returns the
/// remaining components joined by separators. For a path that is literally
/// the base, a separator, and a normalized remainder, that is the remainder
/// itself. Both arguments being UTF-8, the returned path converts back to a
/// string losslessly.
#[verifier::external_body]
fn diff_path(path: &str, base: &str) -> (r: Option<String>)
    ensures
        r.deep_view() == path_diff(path@, base@),
        strict_prefix_sep(path@, base@) && clean_rel_path(rest_under(path@, base@))
            ==> r.deep_view() == Some(rest_under(path@, base@)),
{
    pathdiff::diff_paths(path, base).map(|p| p.to_string_lossy().into_owned())
}

/// Computes where a file found under the input root is written below the
/// output root: the output root joined with the file's path relative to the
/// input root. A file the relative-path routine cannot place yields `None`.
pub fn mirror_output(file: &String, root: &String, out_root: &String) -> (r: Option<String>)
    ensures
        (match path_diff(file@, root@) {
            Some(rel) => r matches Some(out) && out@ == join_path_spec(out_root@, rel),
            None => r is None,
        }),
        strict_prefix_sep(file@, root@) && clean_rel_path(rest_under(file@, root@)) ==> {
            &&& path_diff(file@, root@) == Some(rest_under(file@, root@))
            &&& (r matches Some(out) && out@ == join_path_spec(
                out_root@,
                rest_under(file@, root@),
            ))
        },
{
    match diff_path(file.as_str(), root.as_str()) {
        Some(rel) => Some(join_path(out_root.as_str(), rel.as_str())),
        None => None,
    }
}

} // verus!

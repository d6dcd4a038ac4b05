//! The traversal filter: which file paths count as candidate images.
//!
//! The filter works on the extension only; it is a cheap pre-filter, and the
//! authoritative format of each file is identified later from its content.

use vstd::prelude::*;
use vstd::string::is_ascii;
use vstd::string::StrSliceExecFns;
use vstd::string::StringExecFns;
use vstd::utf8::is_ascii_chars;

use crate::text::{caseless_eq, eq_ignore_ascii_case_any, lemma_caseless_eq_ascii};

verus! {

/// The extensions the traversal accepts, ASCII case-insensitively; `gif`
/// only when GIF handling was requested.
pub open spec fn spec_eligible_extension(e: Seq<char>, allow_gif: bool) -> bool {
    ||| caseless_eq(e, "jpg"@)
    ||| caseless_eq(e, "jpeg"@)
    ||| caseless_eq(e, "png"@)
    ||| caseless_eq(e, "webp"@)
    ||| caseless_eq(e, "ico"@)
    ||| caseless_eq(e, "pgm"@)
    ||| (allow_gif && caseless_eq(e, "gif"@))
}

/// Decides whether an extension names a candidate image file.
pub fn is_eligible_extension(ext: &str, allow_gif: bool) -> (r: bool)
    ensures
        r == spec_eligible_extension(ext@, allow_gif),
{
    proof {
        reveal_strlit("jpg");
        reveal_strlit("jpeg");
        reveal_strlit("png");
        reveal_strlit("webp");
        reveal_strlit("ico");
        reveal_strlit("pgm");
        reveal_strlit("gif");
    }
    if !ext.is_ascii() {
        proof {
            if caseless_eq(ext@, "jpg"@) {
                lemma_caseless_eq_ascii(ext@, "jpg"@);
            }
            if caseless_eq(ext@, "jpeg"@) {
                lemma_caseless_eq_ascii(ext@, "jpeg"@);
            }
            if caseless_eq(ext@, "png"@) {
                lemma_caseless_eq_ascii(ext@, "png"@);
            }
            if caseless_eq(ext@, "webp"@) {
                lemma_caseless_eq_ascii(ext@, "webp"@);
            }
            if caseless_eq(ext@, "ico"@) {
                lemma_caseless_eq_ascii(ext@, "ico"@);
            }
            if caseless_eq(ext@, "pgm"@) {
                lemma_caseless_eq_ascii(ext@, "pgm"@);
            }
            if caseless_eq(ext@, "gif"@) {
                lemma_caseless_eq_ascii(ext@, "gif"@);
            }
        }
        return false;
    }
    let mut options: Vec<String> = Vec::new();
    options.push(String::from_str("jpg"));
    options.push(String::from_str("jpeg"));
    options.push(String::from_str("png"));
    options.push(String::from_str("webp"));
    options.push(String::from_str("ico"));
    options.push(String::from_str("pgm"));
    if allow_gif {
        options.push(String::from_str("gif"));
    }
    let r = eq_ignore_ascii_case_any(ext, &options);
    proof {
        assert(options.deep_view()[0] == "jpg"@);
        assert(options.deep_view()[1] == "jpeg"@);
        assert(options.deep_view()[2] == "png"@);
        assert(options.deep_view()[3] == "webp"@);
        assert(options.deep_view()[4] == "ico"@);
        assert(options.deep_view()[5] == "pgm"@);
        if allow_gif {
            assert(options.deep_view()[6] == "gif"@);
        }
    }
    r.is_some()
}

/// The final path component: everything after the last separator, and empty
/// for a path that ends with one.
pub open spec fn file_part(p: Seq<char>) -> Seq<char>
    decreases p.len(),
{
    if p.len() == 0 {
        p
    } else if p[p.len() - 1] == '/' {
        Seq::empty()
    } else {
        file_part(p.drop_last()).push(p[p.len() - 1])
    }
}

/// Everything after the last dot of a name, or `None` when it has no dot.
pub open spec fn after_last_dot(f: Seq<char>) -> Option<Seq<char>>
    decreases f.len(),
{
    if f.len() == 0 {
        None
    } else if f[f.len() - 1] == '.' {
        Some(Seq::empty())
    } else {
        match after_last_dot(f.drop_last()) {
            Some(e) => Some(e.push(f[f.len() - 1])),
            None => None,
        }
    }
}

/// The extension of a path: the part of its final component after the last
/// dot, provided that dot is not the component's first character, and that
/// the component is not the parent-directory name.
pub open spec fn extension_of_spec(p: Seq<char>) -> Option<Seq<char>> {
    let f = file_part(p);
    if f.len() == 2 && f[0] == '.' && f[1] == '.' {
        None
    } else {
        match after_last_dot(f) {
            Some(e) => if e.len() < f.len() - 1 {
                Some(e)
            } else {
                None
            },
            None => None,
        }
    }
}

proof fn lemma_file_part_suffix(p: Seq<char>, k: int)
    requires
        0 <= k <= p.len(),
        k == 0 || p[k - 1] == '/',
        forall|i: int| k <= i < p.len() ==> p[i] != '/',
    ensures
        file_part(p) == p.skip(k),
    decreases p.len() - k, p.len(),
{
    if p.len() == k {
        if p.len() == 0 {
            assert(file_part(p) =~= p.skip(k));
        } else {
            assert(p[p.len() - 1] == '/');
            assert(file_part(p) =~= p.skip(k));
        }
    } else {
        assert(p[p.len() - 1] != '/');
        lemma_file_part_suffix(p.drop_last(), k);
        assert(file_part(p) =~= p.skip(k));
    }
}

proof fn lemma_after_last_dot_suffix(f: Seq<char>, k: int)
    requires
        1 <= k <= f.len(),
        f[k - 1] == '.',
        forall|i: int| k <= i < f.len() ==> f[i] != '.',
    ensures
        after_last_dot(f) == Some(f.skip(k)),
    decreases f.len() - k,
{
    if f.len() == k {
        assert(after_last_dot(f) == Some(Seq::<char>::empty()));
        assert(f.skip(k) =~= Seq::<char>::empty());
    } else {
        assert(f[f.len() - 1] != '.');
        lemma_after_last_dot_suffix(f.drop_last(), k);
        assert(f.drop_last().skip(k).push(f[f.len() - 1]) =~= f.skip(k));
    }
}

proof fn lemma_after_last_dot_none(f: Seq<char>)
    requires
        forall|i: int| 0 <= i < f.len() ==> f[i] != '.',
    ensures
        after_last_dot(f) is None,
    decreases f.len(),
{
    if f.len() > 0 {
        lemma_after_last_dot_none(f.drop_last());
    }
}

/// Extracts the extension of a path, as [`extension_of_spec`] defines it.
pub fn extension_of(path: &str) -> (r: Option<String>)
    ensures
        match r {
            Some(e) => extension_of_spec(path@) == Some(e@),
            None => extension_of_spec(path@) is None,
        },
{
    let n = path.unicode_len();
    let mut i: usize = n;
    let mut dot: Option<usize> = None;
    // Scan backwards to the last separator, remembering the last dot seen.
    loop
        invariant
            0 <= i <= n,
            n == path@.len(),
            forall|j: int| i <= j < n ==> path@[j] != '/',
            match dot {
                Some(d) => {
                    &&& i < d <= n
                    &&& path@[d - 1] == '.'
                    &&& forall|j: int| d <= j < n ==> path@[j] != '.'
                },
                None => forall|j: int| i <= j < n ==> path@[j] != '.',
            },
        ensures
            0 <= i <= n,
            n == path@.len(),
            i == 0 || path@[i - 1] == '/',
            forall|j: int| i <= j < n ==> path@[j] != '/',
            match dot {
                Some(d) => {
                    &&& i < d <= n
                    &&& path@[d - 1] == '.'
                    &&& forall|j: int| d <= j < n ==> path@[j] != '.'
                },
                None => forall|j: int| i <= j < n ==> path@[j] != '.',
            },
        decreases i,
    {
        if i == 0 {
            break ;
        }
        let c = path.get_char(i - 1);
        if c == '/' {
            break ;
        }
        if c == '.' && dot.is_none() {
            dot = Some(i);
        }
        i = i - 1;
    }
    let fstart = i;
    proof {
        lemma_file_part_suffix(path@, fstart as int);
    }
    let ghost f = path@.skip(fstart as int);
    if n - fstart == 2 {
        let c1 = path.get_char(fstart);
        let c2 = path.get_char(fstart + 1);
        if c1 == '.' && c2 == '.' {
            return None;
        }
    }
    match dot {
        None => {
            proof {
                assert forall|j: int| 0 <= j < f.len() implies f[j] != '.' by {
                    assert(f[j] == path@[j + fstart]);
                }
                lemma_after_last_dot_none(f);
            }
            None
        },
        Some(d) => {
            proof {
                assert(f[d - fstart - 1] == path@[d - 1]);
                assert forall|j: int| d - fstart <= j < f.len() implies f[j] != '.' by {
                    assert(f[j] == path@[j + fstart]);
                }
                lemma_after_last_dot_suffix(f, d - fstart);
            }
            if d > fstart + 1 {
                let e = path.substring_char(d, n);
                proof {
                    assert(e@ =~= f.skip(d - fstart));
                }
                Some(e.to_owned())
            } else {
                None
            }
        },
    }
}

/// A path is worth queuing when its extension is eligible; a path without an
/// extension never is.
pub open spec fn spec_eligible_file(p: Seq<char>, allow_gif: bool) -> bool {
    match extension_of_spec(p) {
        Some(e) => spec_eligible_extension(e, allow_gif),
        None => false,
    }
}

/// Decides whether a file path is a candidate for conversion.
pub fn is_eligible_file(path: &str, allow_gif: bool) -> (r: bool)
    ensures
        r == spec_eligible_file(path@, allow_gif),
{
    match extension_of(path) {
        Some(e) => is_eligible_extension(e.as_str(), allow_gif),
        None => false,
    }
}

} // verus!

//! ASCII case-insensitive text comparison, shared by the traversal filter
//! and the overwrite prompt.

use vstd::prelude::*;
use vstd::string::is_ascii;
use vstd::utf8::is_ascii_chars;

use starts_ends_with_caseless::StartsWithCaseless;
use str_utils::EqIgnoreAsciiCaseMultiple;

verus! {

/// An ASCII upper-case letter mapped to its lower-case form; every other
/// character is left alone.
pub open spec fn lower_char(c: char) -> char {
    if 'A' <= c && c <= 'Z' {
        (((c as u8) + 32) as char)
    } else {
        c
    }
}

/// Character sequences that are equal once ASCII letters are lowered.
pub open spec fn caseless_eq(a: Seq<char>, b: Seq<char>) -> bool {
    a.len() == b.len() && forall|i: int| 0 <= i < a.len() ==> lower_char(a[i]) == lower_char(b[i])
}

/// A sequence can only be caseless-equal to an ASCII sequence if it is
/// itself ASCII: lowering never turns a non-ASCII character into an ASCII one.
pub proof fn lemma_caseless_eq_ascii(a: Seq<char>, b: Seq<char>)
    requires
        caseless_eq(a, b),
        is_ascii_chars(b),
    ensures
        is_ascii_chars(a),
{
    assert forall|i: int| 0 <= i < a.len() implies '\0' <= #[trigger] a[i] <= '\u{7f}' by {
        assert(lower_char(a[i]) == lower_char(b[i]));
        assert('\0' <= b[i] <= '\u{7f}');
    }
}

/// Relies on `str_utils::EqIgnoreAsciiCaseMultiple::eq_ignore_ascii_case_multiple`:
/// it returns the position of the first candidate whose bytes match the
/// subject's bytes under ASCII case folding (via the standard library's
/// `eq_ignore_ascii_case`), or `None` when none matches. For ASCII strings
/// the byte-level comparison coincides with `caseless_eq` on the views.
#[verifier::external_body]
pub(crate) fn eq_ignore_ascii_case_any(s: &str, options: &Vec<String>) -> (r: Option<usize>)
    requires
        is_ascii(s),
        forall|i: int| 0 <= i < options.len() ==> is_ascii_chars(options.deep_view()[i]),
    ensures
        match r {
            Some(i) => i < options.len() && caseless_eq(s@, options.deep_view()[i as int])
                && forall|j: int| 0 <= j < i ==> !caseless_eq(s@, options.deep_view()[j]),
            None => forall|j: int|
                0 <= j < options.len() ==> !caseless_eq(s@, options.deep_view()[j]),
        },
{
    s.eq_ignore_ascii_case_multiple(options.as_slice())
}

/// Relies on `starts_ends_with_caseless::StartsWithCaseless::starts_with_caseless_ascii`:
/// for a one-character ASCII prefix it compares the subject's first byte with
/// the prefix under ASCII case folding, and returns false on an empty subject.
/// The subject's first character must be ASCII, because the crate slices the
/// subject at the prefix's byte length.
#[verifier::external_body]
fn starts_with_caseless_char(s: &str, p: &str) -> (r: bool)
    requires
        is_ascii(p),
        p@.len() == 1,
        s@.len() == 0 || '\0' <= s@[0] <= '\u{7f}',
    ensures
        r == (s@.len() > 0 && lower_char(s@[0]) == lower_char(p@[0])),
{
    s.starts_with_caseless_ascii(p)
}

/// Decides whether the subject's first character matches the given ASCII
/// character, ignoring ASCII case. Non-ASCII first characters never match.
pub fn first_char_matches(s: &str, p: &str) -> (r: bool)
    requires
        is_ascii(p),
        p@.len() == 1,
        '\0' <= p@[0] <= '\u{7f}',
    ensures
        r == (s@.len() > 0 && lower_char(s@[0]) == lower_char(p@[0])),
{
    if s.is_empty() {
        return false;
    }
    let c = s.get_char(0);
    if (c as u32) >= 128 {
        proof {
            assert(lower_char(s@[0]) == s@[0]);
            assert(lower_char(p@[0]) <= '\u{00ff}');
        }
        return false;
    }
    starts_with_caseless_char(s, p)
}

/// String equality, decided through the standard library's `String` comparison.
pub fn str_eq(a: &str, b: &str) -> (r: bool)
    ensures
        r == (a@ == b@),
{
    let sa = a.to_owned();
    let sb = b.to_owned();
    sa == sb
}

} // verus!

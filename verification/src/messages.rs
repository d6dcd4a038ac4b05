//! The two lines the tool shows per item: the overwrite question and the
//! success confirmation.

use vstd::prelude::*;
use vstd::string::StringExecFns;

verus! {

/// The overwrite question for one output path, as one prompt line.
pub open spec fn prompt_line_spec(path: Seq<char>) -> Seq<char> {
    "`"@ + path + "` exists, do you want to overwrite it? [y/n] "@
}

/// Builds the overwrite question naming the given output path.
pub fn prompt_line(path: &str) -> (r: String)
    ensures
        r@ == prompt_line_spec(path@),
{
    let mut s = "`".to_owned();
    s.append(path);
    s.append("` exists, do you want to overwrite it? [y/n] ");
    s
}

/// The confirmation printed after one successful conversion.
pub open spec fn resized_message_spec(path: Seq<char>) -> Seq<char> {
    "`"@ + path + "` has been resized."@
}

/// Builds the confirmation line naming the given output path.
pub fn resized_message(path: &str) -> (r: String)
    ensures
        r@ == resized_message_spec(path@),
{
    let mut s = "`".to_owned();
    s.append(path);
    s.append("` has been resized.");
    s
}

} // verus!

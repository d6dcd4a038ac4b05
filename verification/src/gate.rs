//! The overwrite-confirmation protocol: how a candidate output path that
//! already exists is approved or skipped.
//!
//! The interactive side (locking the prompt, printing, reading standard
//! input) happens outside this crate; here the protocol itself is defined
//! over the stream of tokens the terminal supplies, so that every caller
//! reaches the same decision the interactive loop would.

use vstd::prelude::*;

use crate::text::{first_char_matches, lower_char};

verus! {

/// The outcome for one candidate output path.
#[derive(Debug, Clone, Copy, PartialEq, Eq, Structural)]
pub enum Decision {
    /// Writing the output may go ahead.
    Proceed,
    /// The item is dropped without writing.
    Skip,
}

/// How one typed token answers the overwrite question.
#[derive(Debug, Clone, Copy, PartialEq, Eq, Structural)]
pub enum Answer {
    /// The token starts with `y` or `Y`: overwrite.
    Yes,
    /// The token starts with `n` or `N`: do not overwrite.
    No,
    /// Anything else: ask again.
    Other,
}

/// The reading of one token: only its first character counts, ASCII
/// case-insensitively. An empty token answers nothing.
pub open spec fn classify_spec(t: Seq<char>) -> Answer {
    if t.len() > 0 && lower_char(t[0]) == 'y' {
        Answer::Yes
    } else if t.len() > 0 && lower_char(t[0]) == 'n' {
        Answer::No
    } else {
        Answer::Other
    }
}

/// Classifies one typed token.
pub fn classify_token(t: &str) -> (a: Answer)
    ensures
        a == classify_spec(t@),
{
    proof {
        reveal_strlit("y");
        reveal_strlit("n");
    }
    if first_char_matches(t, "y") {
        Answer::Yes
    } else if first_char_matches(t, "n") {
        Answer::No
    } else {
        Answer::Other
    }
}

/// The decision the prompt loop reaches on a given token stream: the first
/// decisive token wins, and a stream that ends without one means skip.
pub open spec fn first_decision(tokens: Seq<Seq<char>>) -> Decision
    decreases tokens.len(),
{
    if tokens.len() == 0 {
        Decision::Skip
    } else {
        match classify_spec(tokens[0]) {
            Answer::Yes => Decision::Proceed,
            Answer::No => Decision::Skip,
            Answer::Other => first_decision(tokens.drop_first()),
        }
    }
}

/// How many tokens the prompt loop reads before it stops: every undecisive
/// token costs one more prompt iteration.
pub open spec fn tokens_consumed(tokens: Seq<Seq<char>>) -> int
    decreases tokens.len(),
{
    if tokens.len() == 0 {
        0
    } else if classify_spec(tokens[0]) == Answer::Other {
        1 + tokens_consumed(tokens.drop_first())
    } else {
        1
    }
}

/// The position of the first decisive token, if the stream holds one.
pub open spec fn first_decisive_index(tokens: Seq<Seq<char>>) -> Option<int>
    decreases tokens.len(),
{
    if tokens.len() == 0 {
        None
    } else if classify_spec(tokens[0]) != Answer::Other {
        Some(0int)
    } else {
        match first_decisive_index(tokens.drop_first()) {
            Some(i) => Some(i + 1),
            None => None,
        }
    }
}

/// The whole resolution, as a function of the facts it depends on: whether
/// the output exists, whether overwriting is forced, and what the terminal
/// would answer. The pair holds the decision and the number of tokens read.
pub open spec fn resolve_spec(force: bool, output_exists: bool, tokens: Seq<Seq<char>>) -> (Decision, int) {
    if !output_exists || force {
        (Decision::Proceed, 0int)
    } else {
        (first_decision(tokens), tokens_consumed(tokens))
    }
}

/// Resolves one overwrite question against a token stream held in memory,
/// reading tokens from the front exactly as the interactive loop reads them
/// from the terminal.
pub fn resolve_with_tokens(force: bool, output_exists: bool, tokens: &Vec<String>) -> (r: (
    Decision,
    usize,
))
    ensures
        r.0 == resolve_spec(force, output_exists, tokens.deep_view()).0,
        r.1 as int == resolve_spec(force, output_exists, tokens.deep_view()).1,
{
    if !output_exists || force {
        return (Decision::Proceed, 0);
    }
    let ghost all = tokens.deep_view();
    let mut i: usize = 0;
    proof {
        assert(all.skip(0) =~= all);
    }
    loop
        invariant
            output_exists && !force,
            0 <= i <= tokens.len(),
            all == tokens.deep_view(),
            all.len() == tokens.len(),
            first_decision(all) == first_decision(all.skip(i as int)),
            tokens_consumed(all) == i + tokens_consumed(all.skip(i as int)),
            forall|j: int| 0 <= j < i ==> classify_spec(all[j]) == Answer::Other,
        decreases tokens.len() - i,
    {
        if i >= tokens.len() {
            return (Decision::Skip, i);
        }
        proof {
            assert(all[i as int] == tokens[i as int].deep_view());
            assert(all.skip(i as int)[0] == all[i as int]);
            assert(all.skip(i as int).drop_first() =~= all.skip(i as int + 1));
        }
        match classify_token(tokens[i].as_str()) {
            Answer::Yes => {
                return (Decision::Proceed, i + 1);
            },
            Answer::No => {
                return (Decision::Skip, i + 1);
            },
            Answer::Other => {
                i = i + 1;
            },
        }
    }
}

/// A forced run never consults the terminal: whatever the token stream
/// holds and whether or not the output already exists, the resolution is to
/// proceed, and no input is read.
pub proof fn lemma_force_never_prompts(output_exists: bool, tokens: Seq<Seq<char>>)
    ensures
        resolve_spec(true, output_exists, tokens).0 == Decision::Proceed,
        resolve_spec(true, output_exists, tokens).1 == 0,
{
}

/// For an existing output without force, the resolution is to skip exactly
/// when the first decisive token answers no, or when the stream ends before
/// any decisive token; every undecisive token before that point costs one
/// more prompt iteration.
pub proof fn lemma_prompt_decision(tokens: Seq<Seq<char>>)
    ensures
        match first_decisive_index(tokens) {
            Some(i) => {
                &&& 0 <= i < tokens.len()
                &&& forall|j: int| 0 <= j < i ==> classify_spec(tokens[j]) == Answer::Other
                &&& classify_spec(tokens[i]) != Answer::Other
                &&& (resolve_spec(false, true, tokens).0 == Decision::Skip <==> classify_spec(
                    tokens[i],
                ) == Answer::No)
                &&& resolve_spec(false, true, tokens).1 == i + 1
            },
            None => {
                &&& forall|j: int| 0 <= j < tokens.len() ==> classify_spec(tokens[j]) == Answer::Other
                &&& resolve_spec(false, true, tokens).0 == Decision::Skip
                &&& resolve_spec(false, true, tokens).1 == tokens.len()
            },
        },
    decreases tokens.len(),
{
    if tokens.len() == 0 {
    } else if classify_spec(tokens[0]) != Answer::Other {
    } else {
        lemma_prompt_decision(tokens.drop_first());
        assert forall|j: int|
            0 <= j < tokens.len() && classify_spec(
                tokens.drop_first()[j - 1],
            ) == Answer::Other implies classify_spec(tokens[j]) == Answer::Other || j == 0 by {
            assert(j > 0 ==> tokens.drop_first()[j - 1] == tokens[j]);
        }
        match first_decisive_index(tokens.drop_first()) {
            Some(i) => {
                assert(tokens.drop_first()[i] == tokens[i + 1]);
                assert forall|j: int| 0 <= j < i + 1 implies classify_spec(
                    tokens[j],
                ) == Answer::Other by {
                    if j > 0 {
                        assert(tokens.drop_first()[j - 1] == tokens[j]);
                    }
                }
            },
            None => {
                assert forall|j: int| 0 <= j < tokens.len() implies classify_spec(
                    tokens[j],
                ) == Answer::Other by {
                    if j > 0 {
                        assert(tokens.drop_first()[j - 1] == tokens[j]);
                    }
                }
            },
        }
    }
}

} // verus!

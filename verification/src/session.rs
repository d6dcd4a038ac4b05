//! A model of the serialized confirmation session.
//!
//! When several workers hold items whose outputs already exist, the prompt
//! lock makes their confirmation exchanges run strictly one after another
//! against the one shared input stream. This module runs that serialized
//! order directly and records the full terminal transcript, so that its
//! shape — one complete, uninterleaved question-and-answer cycle per item —
//! is a proved property of the protocol rather than a hope about the lock.

use vstd::prelude::*;
use vstd::seq_lib::lemma_flatten_concat;

use crate::gate::{
    classify_spec,
    classify_token,
    first_decision,
    first_decisive_index,
    lemma_prompt_decision,
    tokens_consumed,
    Answer,
    Decision,
};
use crate::messages::{prompt_line, prompt_line_spec};

verus! {

/// One prompt iteration as the terminal shows it: the question printed for
/// one path, and the token typed in reply — `None` when input ended.
#[derive(Debug)]
pub struct PromptEvent {
    pub prompt: String,
    pub reply: Option<String>,
}

impl View for PromptEvent {
    type V = (Seq<char>, Option<Seq<char>>);

    open spec fn view(&self) -> Self::V {
        (self.prompt@, self.reply.deep_view())
    }
}

impl DeepView for PromptEvent {
    type V = (Seq<char>, Option<Seq<char>>);

    open spec fn deep_view(&self) -> Self::V {
        self.view()
    }
}

/// A complete question-and-answer cycle for one path: at least one
/// iteration, every question names that path, every reply before the last
/// leaves the question open, and the last settles it or is the end of input.
pub open spec fn is_complete_cycle(
    events: Seq<(Seq<char>, Option<Seq<char>>)>,
    path: Seq<char>,
) -> bool {
    &&& events.len() > 0
    &&& forall|j: int| 0 <= j < events.len() ==> (#[trigger] events[j]).0 == prompt_line_spec(path)
    &&& forall|j: int|
        0 <= j < events.len() - 1 ==> ((#[trigger] events[j]).1 matches Some(t) && classify_spec(t)
            == Answer::Other)
    &&& match events[events.len() - 1].1 {
        Some(t) => classify_spec(t) != Answer::Other,
        None => true,
    }
}

/// The events of one cycle on a given token stream: one answered question
/// per consumed token, plus a final unanswered question when the stream
/// ends before a decisive token.
pub open spec fn cycle_events(path: Seq<char>, tokens: Seq<Seq<char>>) -> Seq<
    (Seq<char>, Option<Seq<char>>),
> {
    let answered = tokens.take(tokens_consumed(tokens)).map_values(
        |t: Seq<char>| (prompt_line_spec(path), Some(t)),
    );
    if first_decisive_index(tokens) is None {
        answered.push((prompt_line_spec(path), None::<Seq<char>>))
    } else {
        answered
    }
}

/// The prompt loop never reads past the end of the stream.
pub proof fn lemma_consumed_bound(tokens: Seq<Seq<char>>)
    ensures
        0 <= tokens_consumed(tokens) <= tokens.len(),
    decreases tokens.len(),
{
    if tokens.len() > 0 && classify_spec(tokens[0]) == Answer::Other {
        lemma_consumed_bound(tokens.drop_first());
    }
}

/// Every cycle the prompt loop produces is complete.
pub proof fn lemma_cycle_complete(path: Seq<char>, tokens: Seq<Seq<char>>)
    ensures
        is_complete_cycle(cycle_events(path, tokens), path),
{
    lemma_prompt_decision(tokens);
    lemma_consumed_bound(tokens);
    let events = cycle_events(path, tokens);
    let c = tokens_consumed(tokens);
    match first_decisive_index(tokens) {
        Some(i) => {
            assert(events.len() == i + 1);
            assert forall|j: int| 0 <= j < events.len() - 1 implies ((#[trigger] events[j]).1
                matches Some(t) && classify_spec(t) == Answer::Other) by {
                assert(events[j].1 == Some(tokens[j]));
            }
            assert(events[events.len() - 1].1 == Some(tokens[i]));
        },
        None => {
            assert(events.len() == tokens.len() + 1);
            assert forall|j: int| 0 <= j < events.len() - 1 implies ((#[trigger] events[j]).1
                matches Some(t) && classify_spec(t) == Answer::Other) by {
                assert(events[j].1 == Some(tokens[j]));
            }
        },
    }
}

/// The per-item cycles of a whole batch, run one after another against one
/// shared token stream: each cycle consumes its tokens before the next
/// cycle starts.
pub open spec fn batch_cycles(paths: Seq<Seq<char>>, tokens: Seq<Seq<char>>) -> Seq<
    Seq<(Seq<char>, Option<Seq<char>>)>,
>
    decreases paths.len(),
{
    if paths.len() == 0 {
        Seq::empty()
    } else {
        seq![cycle_events(paths[0], tokens)] + batch_cycles(
            paths.drop_first(),
            tokens.skip(tokens_consumed(tokens)),
        )
    }
}

/// The decision each item of the batch receives, in the same order.
pub open spec fn batch_decisions(paths: Seq<Seq<char>>, tokens: Seq<Seq<char>>) -> Seq<Decision>
    decreases paths.len(),
{
    if paths.len() == 0 {
        Seq::empty()
    } else {
        seq![first_decision(tokens)] + batch_decisions(
            paths.drop_first(),
            tokens.skip(tokens_consumed(tokens)),
        )
    }
}

/// A serialized batch shows exactly one complete cycle per item, in item
/// order: as many cycles as items, the i-th naming the i-th item's path.
/// This is the shape the prompt lock preserves: never fragments of two
/// items' exchanges interleaved.
pub proof fn lemma_batch_transcript(paths: Seq<Seq<char>>, tokens: Seq<Seq<char>>)
    ensures
        batch_cycles(paths, tokens).len() == paths.len(),
        forall|i: int|
            0 <= i < paths.len() ==> is_complete_cycle(
                #[trigger] batch_cycles(paths, tokens)[i],
                paths[i],
            ),
    decreases paths.len(),
{
    if paths.len() > 0 {
        lemma_cycle_complete(paths[0], tokens);
        lemma_consumed_bound(tokens);
        lemma_batch_transcript(paths.drop_first(), tokens.skip(tokens_consumed(tokens)));
        assert forall|i: int| 0 <= i < paths.len() implies is_complete_cycle(
            #[trigger] batch_cycles(paths, tokens)[i],
            paths[i],
        ) by {
            if i > 0 {
                assert(batch_cycles(paths, tokens)[i] == batch_cycles(
                    paths.drop_first(),
                    tokens.skip(tokens_consumed(tokens)),
                )[i - 1]);
                assert(paths[i] == paths.drop_first()[i - 1]);
            }
        }
    }
}

/// Runs one confirmation cycle for one path, reading tokens from `start`:
/// ask, read, and ask again until a decisive token or the end of input.
fn run_one_cycle(path: &String, tokens: &Vec<String>, start: usize) -> (r: (
    Vec<PromptEvent>,
    Decision,
    usize,
))
    requires
        start <= tokens.len(),
    ensures
        r.0.deep_view() == cycle_events(path@, tokens.deep_view().skip(start as int)),
        r.1 == first_decision(tokens.deep_view().skip(start as int)),
        r.2 as int == start + tokens_consumed(tokens.deep_view().skip(start as int)),
        r.2 <= tokens.len(),
{
    let ghost all = tokens.deep_view();
    let ghost sub = all.skip(start as int);
    let mut events: Vec<PromptEvent> = Vec::new();
    let mut pos: usize = start;
    proof {
        assert(sub.skip(0) =~= sub);
        assert(events.deep_view() =~= sub.take(0).map_values(
            |t: Seq<char>| (prompt_line_spec(path@), Some(t)),
        ));
    }
    loop
        invariant
            start <= pos <= tokens.len(),
            all == tokens.deep_view(),
            all.len() == tokens.len(),
            sub == all.skip(start as int),
            forall|j: int| 0 <= j < pos - start ==> classify_spec(#[trigger] sub[j]) == Answer::Other,
            first_decision(sub) == first_decision(sub.skip(pos - start)),
            tokens_consumed(sub) == (pos - start) + tokens_consumed(sub.skip(pos - start)),
            (match first_decisive_index(sub.skip(pos - start)) {
                Some(i) => first_decisive_index(sub) == Some(i + pos - start),
                None => first_decisive_index(sub) is None,
            }),
            events.deep_view() == sub.take(pos - start).map_values(
                |t: Seq<char>| (prompt_line_spec(path@), Some(t)),
            ),
        decreases tokens.len() - pos,
    {
        let question = prompt_line(path.as_str());
        let ghost rest = sub.skip(pos - start);
        if pos >= tokens.len() {
            proof {
                assert(rest =~= Seq::<Seq<char>>::empty());
            }
            let ghost before = events.deep_view();
            events.push(PromptEvent { prompt: question, reply: None });
            proof {
                assert(events.deep_view() =~= before.push(
                    (prompt_line_spec(path@), None::<Seq<char>>),
                ));
                assert(sub.take(pos - start) =~= sub.take(tokens_consumed(sub)));
                assert(events.deep_view() =~= cycle_events(path@, sub));
            }
            return (events, Decision::Skip, pos);
        }
        let t = &tokens[pos];
        proof {
            assert(rest[0] == sub[pos - start]);
            assert(sub[pos - start] == all[pos as int]);
            assert(all[pos as int] == t.deep_view());
            assert(rest.drop_first() =~= sub.skip(pos - start + 1));
        }
        let ghost before = events.deep_view();
        events.push(PromptEvent { prompt: question, reply: Some(t.clone()) });
        proof {
            assert(events.deep_view() =~= before.push((prompt_line_spec(path@), Some(t@))));
            assert(sub.take(pos - start + 1) =~= sub.take(pos - start).push(sub[pos - start]));
            assert(sub.take(pos - start + 1).map_values(
                |x: Seq<char>| (prompt_line_spec(path@), Some(x)),
            ) =~= sub.take(pos - start).map_values(
                |x: Seq<char>| (prompt_line_spec(path@), Some(x)),
            ).push((prompt_line_spec(path@), Some(sub[pos - start]))));
        }
        match classify_token(t.as_str()) {
            Answer::Yes => {
                proof {
                    assert(sub.take(pos - start + 1) =~= sub.take(tokens_consumed(sub)));
                    assert(events.deep_view() =~= cycle_events(path@, sub));
                }
                return (events, Decision::Proceed, pos + 1);
            },
            Answer::No => {
                proof {
                    assert(sub.take(pos - start + 1) =~= sub.take(tokens_consumed(sub)));
                    assert(events.deep_view() =~= cycle_events(path@, sub));
                }
                return (events, Decision::Skip, pos + 1);
            },
            Answer::Other => {
                pos = pos + 1;
            },
        }
    }
}

/// Runs the confirmation exchanges of a whole batch of items whose outputs
/// already exist, strictly one after another against the one shared token
/// stream — the order the prompt lock enforces — and records the whole
/// terminal transcript together with each item's decision.
pub fn confirm_existing_batch(paths: &Vec<String>, tokens: &Vec<String>) -> (r: (
    Vec<PromptEvent>,
    Vec<Decision>,
))
    ensures
        r.0.deep_view() == batch_cycles(paths.deep_view(), tokens.deep_view()).flatten(),
        r.1@ == batch_decisions(paths.deep_view(), tokens.deep_view()),
        r.1.len() == paths.len(),
{
    let ghost pseq = paths.deep_view();
    let ghost tseq = tokens.deep_view();
    let mut transcript: Vec<PromptEvent> = Vec::new();
    let mut decisions: Vec<Decision> = Vec::new();
    let mut i: usize = 0;
    let mut pos: usize = 0;
    proof {
        assert(pseq.skip(0) =~= pseq);
        assert(tseq.skip(0) =~= tseq);
    }
    while i < paths.len()
        invariant
            0 <= i <= paths.len(),
            0 <= pos <= tokens.len(),
            pseq == paths.deep_view(),
            tseq == tokens.deep_view(),
            pseq.len() == paths.len(),
            tseq.len() == tokens.len(),
            decisions.len() == i,
            transcript.deep_view() + batch_cycles(pseq.skip(i as int), tseq.skip(pos as int)).flatten()
                == batch_cycles(pseq, tseq).flatten(),
            decisions@ + batch_decisions(pseq.skip(i as int), tseq.skip(pos as int))
                == batch_decisions(pseq, tseq),
        decreases paths.len() - i,
    {
        let ghost rest_paths = pseq.skip(i as int);
        let ghost rest_tokens = tseq.skip(pos as int);
        proof {
            assert(rest_paths[0] == pseq[i as int]);
            assert(pseq[i as int] == paths[i as int].deep_view());
            assert(rest_paths.drop_first() =~= pseq.skip(i as int + 1));
        }
        let (events, decision, newpos) = run_one_cycle(&paths[i], tokens, pos);
        proof {
            lemma_consumed_bound(rest_tokens);
            assert(tseq.skip(newpos as int) =~= rest_tokens.skip(tokens_consumed(rest_tokens)));
            let cycle = cycle_events(rest_paths[0], rest_tokens);
            let tail = batch_cycles(rest_paths.drop_first(), rest_tokens.skip(
                tokens_consumed(rest_tokens),
            ));
            assert(batch_cycles(rest_paths, rest_tokens) == seq![cycle] + tail);
            lemma_flatten_concat(seq![cycle], tail);
            seq![cycle].lemma_flatten_one_element();
            assert(batch_cycles(rest_paths, rest_tokens).flatten() == cycle + tail.flatten());
        }
        let ghost t_before = transcript.deep_view();
        let ghost d_before = decisions@;
        let mut events = events;
        transcript.append(&mut events);
        decisions.push(decision);
        pos = newpos;
        proof {
            assert(transcript.deep_view() =~= t_before + cycle_events(
                rest_paths[0],
                rest_tokens,
            ));
            assert(decisions@ =~= d_before.push(first_decision(rest_tokens)));
            assert(d_before.push(first_decision(rest_tokens)) =~= d_before + seq![
                first_decision(rest_tokens),
            ]);
            assert((t_before + cycle_events(rest_paths[0], rest_tokens)) + batch_cycles(
                pseq.skip(i as int + 1),
                tseq.skip(pos as int),
            ).flatten() =~= t_before + batch_cycles(rest_paths, rest_tokens).flatten());
            assert((d_before + seq![first_decision(rest_tokens)]) + batch_decisions(
                pseq.skip(i as int + 1),
                tseq.skip(pos as int),
            ) =~= d_before + batch_decisions(rest_paths, rest_tokens));
        }
        i = i + 1;
    }
    proof {
        assert(pseq.skip(paths.len() as int) =~= Seq::<Seq<char>>::empty());
        assert(batch_cycles(Seq::empty(), tseq.skip(pos as int)).flatten() =~= Seq::<
            (Seq<char>, Option<Seq<char>>),
        >::empty());
        assert(transcript.deep_view() =~= transcript.deep_view() + Seq::empty());
        assert(decisions@ =~= decisions@ + Seq::<Decision>::empty());
    }
    (transcript, decisions)
}

} // verus!

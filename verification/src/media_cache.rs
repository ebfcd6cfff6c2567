//! What an engine's caches hold while a run fills them with a prompt that carries
//! images, and what is therefore true of every such run.

use vstd::prelude::*;

use crate::cache::{agree_on, cells, chore_done, chores_done, records, Cell, Engine};
use crate::media::HeadView;
use crate::multimodal::{
    every_answer_brings_the_media_run_closer, every_event_keeps_a_media_run_well_formed,
    media_answers, media_begun, media_steps_left, MediaAction,
    MediaEventView, MediaPhase, MediaView,
};
use crate::prefill::ChoreView;
use crate::session::SessionView;
use crate::settings::ModelSettings;
use crate::token::LlamaToken;
use crate::window::ModelFacts;

verus! {

/// A media head and the tokens behind it, position by position.
pub open spec fn media_cells(head: HeadView, tail: Seq<LlamaToken>) -> Seq<Cell> {
    Seq::new(head.n_pos as nat, |i: int| Cell::Media(head, i)) + cells(tail)
}

/// Whether an engine that held `e`, asked by a run for an action, can have answered
/// with that event and now hold `f`. What evaluation puts in a cache is a function
/// of the spans and the images: where the run can describe them, and the engine
/// ends where the description does, it is that head with those tokens behind it.
pub open spec fn media_answered(
    e: Engine,
    s: MediaView,
    event: MediaEventView,
    f: Engine,
) -> bool {
    match (s.action(), event) {
        (MediaAction::CreateContext { .. }, MediaEventView::Context(made)) => f == (Engine {
            retained: if made is Ok {
                Some(Seq::empty())
            } else {
                e.retained
            },
            ..e
        }),
        (MediaAction::Trim { pos }, MediaEventView::Trimmed(done)) => f == (Engine {
            retained: match e.retained {
                Some(held) => if done && pos <= held.len() {
                    Some(held.take(pos as int))
                } else {
                    Some(held)
                },
                None => None,
            },
            ..e
        }),
        (MediaAction::Decode { from, .. }, MediaEventView::Decoded(done)) => if done is Ok {
            f == (Engine {
                retained: Some(e.retained->0 + cells(s.split->0.tail.skip(from as int))),
                ..e
            })
        } else {
            f.retained is Some && f.throwaway == e.throwaway
        },
        (MediaAction::EvaluateSpans, MediaEventView::Evaluated(done)) => {
            &&& f.retained is Some
            &&& f.throwaway == e.throwaway
            &&& done matches Ok(n_past) ==> s.retainable(n_past) ==> f.retained == Some(
                media_cells(s.head(), s.split->0.tail),
            )
        },
        _ => f == e,
    }
}

/// What holds of every run and the engine that it runs on, between one answer and
/// the next.
pub open spec fn media_in_step(s: MediaView, e: Engine) -> bool {
    &&& agree_on(s.session, s.transient, e)
    &&& match s.phase {
        MediaPhase::ReuseDecode { kept, .. } => e.retained == Some(
            media_cells(s.head(), s.split->0.tail.take(kept as int)),
        ),
        MediaPhase::Evaluate => e.retained == Some(Seq::<Cell>::empty()),
        MediaPhase::Done => s.failure is None && s.transient is None ==> s.session is Some
            && e.retained->0.len() == s.session->0.occupied(),
        _ => true,
    }
}

proof fn no_chores(e: Engine, s: MediaView)
    ensures
        chores_done(e, s.fresh().chores) == e,
{
}

proof fn releasing_is_in_step(s: MediaView, f: Engine)
    requires
        s.session is Some <==> f.retained is Some,
        s.transient is None,
        f.throwaway is None,
        s.chores.len() == 0,
    ensures
        media_in_step(s.rebuilding(), chores_done(f, s.rebuilding().chores)),
        chores_done(f, s.released().chores).retained is None,
        chores_done(f, s.released().chores).throwaway is None,
{
    let one = s.chores.push(ChoreView::ReleaseContext);
    assert(one.drop_last() =~= s.chores);
    assert(chores_done(f, s.chores) == f);
    assert(chores_done(f, one) == chore_done(f, ChoreView::ReleaseContext));
}

/// The ledger of a run is a prefix of the cache at its start.
pub proof fn a_media_run_starts_in_step(
    session: Option<SessionView>,
    has_mtmd: bool,
    images: Seq<Seq<u8>>,
    settings: ModelSettings,
    facts: ModelFacts,
    context_limit: usize,
    e: Engine,
)
    requires
        agree_on(session, None, e),
    ensures
        ({
            let s = media_begun(session, has_mtmd, images, settings, facts, context_limit);
            media_in_step(s, chores_done(e, s.chores))
        }),
{
}

/// The ledger is a prefix of the cache at every step, whatever the engine answers
/// and whatever a failed operation leaves behind. A run that is done, did not fail
/// and retains its cache has there exactly the media head of its prompt, from the
/// images of its request, and the tokens behind it.
pub proof fn the_media_ledger_is_always_a_prefix_of_the_cache(
    s: MediaView,
    e: Engine,
    event: MediaEventView,
    f: Engine,
)
    requires
        s.wf(),
        media_in_step(s, e),
        media_answers(event, s.phase),
        media_answered(e, s, event, f),
    ensures
        ({
            let t = s.after(event);
            let g = chores_done(f, t.chores);
            &&& media_in_step(t, g)
            &&& t.phase is Done && t.failure is None && t.transient is None ==> {
                &&& s.split is Some
                &&& t.session matches Some(kv) && kv.head == Some(s.head()) && kv.tokens
                    == s.split->0.tail
                &&& g.retained == Some(media_cells(s.head(), s.split->0.tail))
            }
        }),
{
    let t = s.fresh();
    no_chores(f, s);
    every_event_keeps_a_media_run_well_formed(s, event);
    match (s.phase, event) {
        (MediaPhase::Images, MediaEventView::Images(done)) => {},
        (MediaPhase::Tokenize, MediaEventView::Tokenized(done)) => {
            if let Ok((spans, reading)) = done {
                let cut = MediaView {
                    prompt_tokens: spans.total_tokens,
                    window: t.window_now(reading),
                    split: crate::multimodal::described_split(spans.chunks),
                    ..t
                };
                releasing_is_in_step(cut, f);
            }
        },
        (MediaPhase::ReuseTrim { resume, kept }, MediaEventView::Trimmed(done)) => {
            if done {
                let kv = s.session->0;
                let tail = s.split->0.tail;
                let held = e.retained->0.take(resume as int);
                let want = media_cells(s.head(), tail.take(kept as int));
                assert(held =~= want) by {
                    assert forall|i: int| 0 <= i < resume implies held[i] == want[i] by {
                        assert(held[i] == e.retained->0[i]);
                        if i >= kv.media_pos() {
                            let k = i - kv.media_pos();
                            assert(kv.tokens.take(kept as int)[k] == kv.tokens[k]);
                            assert(tail.take(kept as int)[k] == tail[k]);
                        }
                    }
                }
                head_and_tokens_are_recorded(
                    s.after(event).session->0,
                    s.head(),
                    tail.take(kept as int),
                );
            } else {
                releasing_is_in_step(t, f);
            }
        },
        (MediaPhase::ReuseDecode { resume, kept }, MediaEventView::Decoded(done)) => {
            let tail = s.split->0.tail;
            let k = kept as int;
            if done is Ok {
                assert(s.recorded().take(k) =~= s.recorded());
                assert(tail.take(k) + tail.skip(k) =~= tail);
                assert(media_cells(s.head(), tail.take(k)) + cells(tail.skip(k)) =~= media_cells(
                    s.head(),
                    tail,
                ));
                head_and_tokens_are_recorded(s.after(event).session->0, s.head(), tail);
            } else {
                releasing_is_in_step(t, f);
            }
        },
        (MediaPhase::Create, MediaEventView::Context(made)) => {},
        (MediaPhase::Evaluate, MediaEventView::Evaluated(done)) => {
            match done {
                Ok(n_past) => {
                    if s.retainable(n_past) {
                        head_and_tokens_are_recorded(
                            s.after(event).session->0,
                            s.head(),
                            s.split->0.tail,
                        );
                    } else {
                        let one = t.chores.push(ChoreView::DetachContext);
                        assert(one.drop_last() =~= t.chores);
                        assert(chores_done(f, one) == chore_done(f, ChoreView::DetachContext));
                    }
                },
                Err(m) => {
                    releasing_is_in_step(t, f);
                },
            }
        },
        _ => {},
    }
}

proof fn head_and_tokens_are_recorded(kv: SessionView, head: HeadView, tail: Seq<LlamaToken>)
    requires
        kv.head == Some(head),
        kv.tokens == tail,
    ensures
        records(kv, media_cells(head, tail)),
        media_cells(head, tail).len() == kv.occupied(),
{
}

/// A decode behind a retained head starts exactly where the cache ends, behind
/// exactly the media and the tokens that the prompt has there, and a token is left
/// to decode.
pub proof fn a_media_decode_continues_where_the_cache_ends(s: MediaView, e: Engine)
    requires
        s.wf(),
        media_in_step(s, e),
    ensures
        s.action() matches MediaAction::Decode { from, start } ==> {
            &&& e.retained == Some(media_cells(s.head(), s.split->0.tail.take(from as int)))
            &&& e.retained->0.len() == start
            &&& from < s.split->0.tail.len()
        },
{
}

/// A context is created only while no other is held.
pub proof fn media_contexts_are_never_doubled(s: MediaView, e: Engine)
    requires
        s.wf(),
        media_in_step(s, e),
    ensures
        s.action() is CreateContext ==> e.retained is None && e.throwaway is None,
{
}

/// A retained head is never the reason for a failure: a run fails for its request,
/// or for a context that was built anew.
pub proof fn a_retained_head_never_fails_a_turn(s: MediaView, event: MediaEventView)
    requires
        s.wf(),
        s.failure is None,
        s.after(event).failure is Some,
    ensures
        !(s.phase is ReuseTrim) && !(s.phase is ReuseDecode),
{
}

/// What an engine answered, one action after the other: each event, and what the
/// engine held once it had happened.
pub type MediaAnswers = Seq<(MediaEventView, Engine)>;

/// A run and the engine after these answers and the chores that they left.
pub open spec fn media_played(s: MediaView, e: Engine, given: MediaAnswers) -> (MediaView, Engine)
    decreases given.len(),
{
    if given.len() == 0 {
        (s, e)
    } else {
        let (event, f) = given.first();
        let t = s.after(event);
        media_played(t, chores_done(f, t.chores), given.drop_first())
    }
}

/// Whether an engine can have given these answers to a run.
pub open spec fn media_possible(s: MediaView, e: Engine, given: MediaAnswers) -> bool
    decreases given.len(),
{
    if given.len() == 0 {
        true
    } else {
        let (event, f) = given.first();
        let t = s.after(event);
        &&& media_answers(event, s.phase)
        &&& media_answered(e, s, event, f)
        &&& media_possible(t, chores_done(f, t.chores), given.drop_first())
    }
}

/// Whatever an engine answers, a run ends after at most so many answers, and its
/// ledger is a prefix of the cache at every point.
pub proof fn every_media_run_ends_in_step(s: MediaView, e: Engine, given: MediaAnswers)
    requires
        s.wf(),
        media_in_step(s, e),
        media_possible(s, e, given),
    ensures
        ({
            let (t, g) = media_played(s, e, given);
            &&& given.len() + media_steps_left(t.phase) <= media_steps_left(s.phase)
            &&& t.wf()
            &&& media_in_step(t, g)
        }),
    decreases given.len(),
{
    if given.len() > 0 {
        let (event, f) = given.first();
        let t = s.after(event);
        the_media_ledger_is_always_a_prefix_of_the_cache(s, e, event, f);
        every_event_keeps_a_media_run_well_formed(s, event);
        every_answer_brings_the_media_run_closer(s, event);
        every_media_run_ends_in_step(t, chores_done(f, t.chores), given.drop_first());
    }
}

} // verus!

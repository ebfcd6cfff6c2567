//! What an engine's caches hold while a run fills them, and what is therefore true
//! of every run.
//!
//! The engine is modelled by what its sequences hold, position by position. An
//! operation that succeeds does what it says; one that fails may leave anything.

use vstd::prelude::*;

use crate::error::ErrorView;
use crate::media::HeadView;
use crate::prefill::{
    a_begun_run_is_well_formed, answers, begun, every_answer_brings_the_end_closer,
    every_event_keeps_a_run_well_formed, removals, steps_left, ActionView, ChoreView, EventView,
    Phase, PrefillView, PrefilledView,
};
use crate::session::{empty_session, SessionView};
use crate::settings::ModelSettings;
use crate::slot::{a_restored_file_is_a_proper_prefix, shape_of, verdict, LoadVerdict, SlotView};
use crate::token::LlamaToken;
use crate::window::sacrificial_window;

verus! {

/// What one position of a cache holds.
pub enum Cell {
    Token(LlamaToken),
    /// A position of a media head.
    Media(HeadView, int),
}

/// What the caches of the engine hold, where there are contexts.
#[verifier::ext_equal]
pub struct Engine {
    pub retained: Option<Seq<Cell>>,
    pub throwaway: Option<Seq<Cell>>,
}

/// Tokens, one position each.
pub open spec fn cells(tokens: Seq<LlamaToken>) -> Seq<Cell> {
    tokens.map_values(|t: LlamaToken| Cell::Token(t))
}

/// Whether what is recorded of a context is what it holds: the head at its start,
/// and the tokens behind the head. It may hold more behind them.
pub open spec fn records(kv: SessionView, held: Seq<Cell>) -> bool {
    &&& kv.occupied() <= held.len()
    &&& forall|i: int|
        0 <= i < kv.media_pos() ==> #[trigger] held[i] == Cell::Media(kv.head->0, i)
    &&& forall|i: int|
        kv.media_pos() <= i < kv.occupied() ==> #[trigger] held[i] == Cell::Token(
            kv.tokens[i - kv.media_pos()],
        )
}

/// The engine after one chore.
pub open spec fn chore_done(e: Engine, chore: ChoreView) -> Engine {
    match chore {
        ChoreView::ReleaseContext => Engine { retained: None, ..e },
        ChoreView::ReleaseThrowaway => Engine { throwaway: None, ..e },
        ChoreView::DetachContext => Engine { retained: None, throwaway: e.retained },
        ChoreView::ClearCache | ChoreView::ClearSequence => Engine {
            retained: match e.retained {
                Some(_) => Some(Seq::empty()),
                None => None,
            },
            ..e
        },
        ChoreView::RemoveFile(_) | ChoreView::SaveIndex => e,
    }
}

/// The engine after each chore in turn.
pub open spec fn chores_done(e: Engine, chores: Seq<ChoreView>) -> Engine
    decreases chores.len(),
{
    if chores.len() == 0 {
        e
    } else {
        chore_done(chores_done(e, chores.drop_last()), chores.last())
    }
}

/// Whether an engine that held `e`, asked for an action, can have answered with
/// that event and now hold `f`.
pub open spec fn answered(
    e: Engine,
    action: ActionView,
    prompt: Seq<LlamaToken>,
    event: EventView,
    f: Engine,
) -> bool {
    match (action, event) {
        (ActionView::CreateContext { .. }, EventView::Context(made)) => f == (Engine {
            retained: if made is Ok {
                Some(Seq::empty())
            } else {
                e.retained
            },
            ..e
        }),
        (ActionView::CreateThrowaway { .. }, EventView::Context(made)) => f == (Engine {
            throwaway: if made is Ok {
                Some(Seq::empty())
            } else {
                e.throwaway
            },
            ..e
        }),
        (ActionView::Read { .. }, EventView::Read { tokens, .. }) => match tokens {
            Some(tokens) => f == (Engine { retained: Some(cells(tokens)), ..e }),
            None => f.retained is Some && f.throwaway == e.throwaway,
        },
        (ActionView::Trim { pos }, EventView::Trimmed(done)) => f == (Engine {
            retained: match e.retained {
                Some(held) => if done && pos <= held.len() {
                    Some(held.take(pos as int))
                } else {
                    Some(held)
                },
                None => None,
            },
            ..e
        }),
        (ActionView::Decode { from, .. }, EventView::Decoded(done)) => if done is Ok {
            f == (Engine {
                retained: Some(e.retained->0 + cells(prompt.skip(from as int))),
                ..e
            })
        } else {
            f.retained is Some && f.throwaway == e.throwaway
        },
        (ActionView::DecodeThrowaway, EventView::Decoded(done)) => if done is Ok {
            f == (Engine { throwaway: Some(e.throwaway->0 + cells(prompt)), ..e })
        } else {
            f.throwaway is Some && f.retained == e.retained
        },
        _ => f == e,
    }
}

/// Whether a ledger and the engine agree on which contexts there are, and on what
/// the retained one holds.
pub open spec fn agree_on(
    session: Option<SessionView>,
    transient: Option<SessionView>,
    e: Engine,
) -> bool {
    &&& session is Some <==> e.retained is Some
    &&& transient is Some <==> e.throwaway is Some
    &&& session matches Some(kv) ==> records(kv, e.retained->0)
}

/// Whether a run and the engine agree on which contexts there are, and on what the
/// retained one holds.
pub open spec fn agree(s: PrefillView, e: Engine) -> bool {
    agree_on(s.session, s.transient, e)
}

/// Whether the retained context holds exactly the first `n` tokens of the prompt.
pub open spec fn holds_exactly(s: PrefillView, e: Engine, n: int) -> bool {
    e.retained matches Some(held) && held == cells(s.prompt.take(n))
}

/// What holds of every run and the engine that it runs on, between one answer and
/// the next.
pub open spec fn in_step(s: PrefillView, e: Engine) -> bool {
    &&& agree(s, e)
    &&& match s.phase {
        Phase::SeedLookup { .. } | Phase::SeedRead { .. } | Phase::FullDecode { .. } =>
            holds_exactly(s, e, 0),
        Phase::SeedDecode { restored } => holds_exactly(s, e, restored as int),
        Phase::ReuseDecode { kept, .. } => holds_exactly(s, e, kept as int),
        Phase::SnapshotTrim { .. } => holds_exactly(s, e, s.prompt.len() as int),
        Phase::SnapshotDir { keep, .. } | Phase::SnapshotSave { keep, .. }
        | Phase::SnapshotRename { keep, .. } | Phase::SnapshotRestore { keep } => holds_exactly(
            s,
            e,
            keep as int,
        ),
        Phase::ThrowawayDecode { .. } => e.throwaway == Some(Seq::<Cell>::empty()),
        Phase::Done => s.failure is None ==> match s.transient {
            Some(_) => e.throwaway == Some(cells(s.prompt)),
            None => holds_exactly(s, e, s.prompt.len() as int),
        },
        _ => true,
    }
}

proof fn one_more_chore(e: Engine, s: PrefillView, chore: ChoreView)
    ensures
        chores_done(e, s.leaving(chore).chores) == chore_done(chores_done(e, s.chores), chore),
{
    assert(s.chores.push(chore).drop_last() =~= s.chores);
}

proof fn removals_change_nothing(e: Engine, chores: Seq<ChoreView>, files: Seq<Seq<char>>)
    ensures
        chores_done(e, chores + removals(files)) == chores_done(e, chores),
    decreases files.len(),
{
    if files.len() == 0 {
        assert(chores + removals(files) =~= chores);
    } else {
        removals_change_nothing(e, chores, files.drop_last());
        assert((chores + removals(files)).drop_last() =~= chores + removals(files.drop_last()));
    }
}

proof fn release_keeps_agreement(s: PrefillView, e: Engine)
    requires
        agree(s, chores_done(e, s.chores)),
    ensures
        agree(s.released(), chores_done(e, s.released().chores)),
        chores_done(e, s.released().chores).throwaway == chores_done(e, s.chores).throwaway,
{
    one_more_chore(e, PrefillView { session: None, ..s }, ChoreView::ReleaseContext);
}

proof fn decode_all_is_in_step(s: PrefillView, e: Engine, retry: bool)
    requires
        s.transient is Some <==> chores_done(e, s.chores).throwaway is Some,
        chores_done(e, s.chores).retained is Some,
    ensures
        in_step(s.decode_all(retry), chores_done(e, s.decode_all(retry).chores)),
{
    let t = PrefillView { phase: Phase::FullDecode { retry }, ..s.created() };
    one_more_chore(e, t, ChoreView::ClearCache);
    assert(cells(s.prompt.take(0)) =~= Seq::<Cell>::empty());
}

proof fn attempt_is_in_step(s: PrefillView, e: Engine, retry: bool)
    requires
        agree(s, chores_done(e, s.chores)),
    ensures
        in_step(s.attempt(retry), chores_done(e, s.attempt(retry).chores)),
{
    if s.session is Some && s.session->0.n_ctx == s.n_ctx {
        decode_all_is_in_step(s, e, retry);
    } else {
        release_keeps_agreement(s, e);
    }
}

proof fn full_failed_is_in_step(s: PrefillView, e: Engine, retry: bool, error: ErrorView)
    requires
        s.transient is None,
        chores_done(e, s.chores).throwaway is None,
        s.session is None ==> chores_done(e, s.chores).retained is None,
        s.session is Some ==> chores_done(e, s.chores).retained is Some,
    ensures
        in_step(
            s.full_failed(retry, error),
            chores_done(e, s.full_failed(retry, error).chores),
        ),
{
    let r = s.released();
    one_more_chore(e, PrefillView { session: None, ..s }, ChoreView::ReleaseContext);
    assert(agree(r, chores_done(e, r.chores)));
    if retry {
        attempt_is_in_step(r, e, false);
    }
}

proof fn holding_the_prompt_is_in_step(s: PrefillView, e: Engine, reused: usize)
    requires
        s.holds_prefix(s.prompt.len() as int),
        s.transient is None,
        agree(s, chores_done(e, s.chores)),
        holds_exactly(s, chores_done(e, s.chores), s.prompt.len() as int),
    ensures
        in_step(s.filled(reused), chores_done(e, s.filled(reused).chores)),
{
}

proof fn exact_cells_are_recorded(s: PrefillView, n: int, held: Seq<Cell>)
    requires
        s.holds_prefix(n),
        held == cells(s.prompt.take(n)),
    ensures
        records(s.session->0, held),
{
}

proof fn decoding_on_fills(prompt: Seq<LlamaToken>, n: int)
    requires
        0 <= n <= prompt.len(),
    ensures
        cells(prompt.take(n)) + cells(prompt.skip(n)) == cells(
            prompt.take(prompt.len() as int),
        ),
        prompt.take(n) + prompt.skip(n) == prompt,
        prompt.take(prompt.len() as int) == prompt,
{
    assert(cells(prompt.take(n)) + cells(prompt.skip(n)) =~= cells(
        prompt.take(prompt.len() as int),
    ));
    assert(prompt.take(n) + prompt.skip(n) =~= prompt);
    assert(prompt.take(prompt.len() as int) =~= prompt);
}

proof fn observed_is_in_step(s: PrefillView, e: Engine)
    requires
        s.transient is None,
        agree(s, chores_done(e, s.chores)),
    ensures
        in_step(s.observed(), chores_done(e, s.observed().chores)),
{
    let o = PrefillView {
        slot: match s.slot {
            Some(slot) => Some(slot.observed(s.prompt)),
            None => None,
        },
        ..s
    };
    attempt_is_in_step(o, e, o.session is Some);
    release_keeps_agreement(o, e);
}

/// The ledger of a run is a prefix of the cache at its start: whatever the run
/// releases or clears first, what it records is what the engine holds.
pub proof fn a_run_starts_in_step(
    session: Option<SessionView>,
    slot: Option<SlotView>,
    kept: bool,
    model_path: Seq<char>,
    settings: ModelSettings,
    prompt: Seq<LlamaToken>,
    effective_ctx: usize,
    e: Engine,
)
    requires
        session is Some <==> e.retained is Some,
        session matches Some(kv) ==> records(kv, e.retained->0),
        e.throwaway is None,
    ensures
        ({
            let s = begun(session, slot, kept, model_path, settings, prompt, effective_ctx);
            in_step(s, chores_done(e, s.chores))
        }),
{
    let s = PrefillView {
        session,
        slot,
        key: None,
        model_path,
        settings,
        prompt,
        effective_ctx,
        n_ctx: if effective_ctx <= u32::MAX {
            effective_ctx as u32
        } else {
            0
        },
        phase: Phase::StatModel,
        chosen: Seq::empty(),
        reused: 0,
        transient: None,
        failure: None,
        chores: Seq::empty(),
    };
    observed_is_in_step(s, e);
}

/// The ledger is a prefix of the cache at every step: whatever the engine answers,
/// and whatever a failed operation leaves behind, what the run records of a context
/// is what the context holds once the chores are done. A run that is done and did
/// not fail has its whole prompt in the context that it generates on, and nothing
/// else.
pub proof fn the_ledger_is_always_a_prefix_of_the_cache(
    s: PrefillView,
    e: Engine,
    event: EventView,
    f: Engine,
)
    requires
        s.wf(),
        in_step(s, e),
        answers(event, s.phase),
        answered(e, s.action(), s.prompt, event, f),
    ensures
        in_step(s.after(event), chores_done(f, s.after(event).chores)),
{
    let t = s.fresh();
    assert(chores_done(f, t.chores) == f);
    let n = s.prompt.len() as int;
    every_event_keeps_a_run_well_formed(s, event);
    match (s.phase, event) {
        (Phase::StatModel, EventView::ModelFile(file)) => {
            observed_is_in_step(t, f);
        },
        (Phase::ReadIndex, EventView::Index(index)) => {
            let with_slot = PrefillView {
                key: None,
                slot: Some(
                    SlotView {
                        key: s.key->0,
                        index: match index {
                            Some(index) => index,
                            None => Seq::empty(),
                        },
                        buckets: Map::empty(),
                    },
                ),
                ..t
            };
            observed_is_in_step(with_slot, f);
        },
        (Phase::SeedCreate, EventView::Context(made)) => {
            if made is Ok {
                assert(cells(s.prompt.take(0)) =~= Seq::<Cell>::empty());
                attempt_is_in_step(t.created(), f, true);
            } else {
                attempt_is_in_step(t, f, false);
            }
        },
        (Phase::SeedLookup { capacity }, EventView::Present(there)) => {
            if !there {
                let forgot = PrefillView { slot: Some(t.slot->0.forgot(t.chosen)), ..t };
                one_more_chore(f, forgot, ChoreView::SaveIndex);
                attempt_is_in_step(forgot.leaving(ChoreView::SaveIndex), f, true);
            }
        },
        (Phase::SeedRead { capacity }, EventView::Read { tokens, now }) => {
            reading_stays_in_step(s, f, tokens, now);
        },
        (Phase::SeedDecode { restored }, EventView::Decoded(done)) => {
            decoding_on_fills(s.prompt, restored as int);
            if done is Err {
                let r = t.released();
                one_more_chore(f, PrefillView { session: None, ..t }, ChoreView::ReleaseContext);
                attempt_is_in_step(r, f, false);
            }
        },
        (Phase::ReuseTrim { resume, kept }, EventView::Trimmed(done)) => {
            if done {
                let held = e.retained->0.take(kept as int);
                assert(held =~= cells(s.prompt.take(kept as int))) by {
                    assert forall|i: int| 0 <= i < kept implies held[i] == cells(
                        s.prompt.take(kept as int),
                    )[i] by {
                        assert(e.retained->0[i] == Cell::Token(s.session->0.tokens[i]));
                        assert(s.session->0.tokens.take(kept as int)[i]
                            == s.session->0.tokens[i]);
                    }
                }
                exact_cells_are_recorded(s.after(event), kept as int, held);
            } else {
                attempt_is_in_step(t, f, true);
            }
        },
        (Phase::ReuseDecode { resume, kept }, EventView::Decoded(done)) => {
            decoding_on_fills(s.prompt, kept as int);
            if done is Ok {
                let filled = t.recording(t.recorded() + t.prompt.skip(kept as int));
                exact_cells_are_recorded(filled, n, f.retained->0);
                holding_the_prompt_is_in_step(filled, f, resume);
            } else {
                let r = t.released();
                one_more_chore(f, PrefillView { session: None, ..t }, ChoreView::ReleaseContext);
                attempt_is_in_step(r, f, false);
            }
        },
        (Phase::ThrowawayCreate { window }, EventView::Context(made)) => {
            if made is Err {
                attempt_is_in_step(t, f, true);
            }
        },
        (Phase::ThrowawayDecode { window }, EventView::Decoded(done)) => {
            if done is Err {
                let gone = PrefillView { transient: None, ..t };
                one_more_chore(f, gone, ChoreView::ReleaseThrowaway);
                attempt_is_in_step(gone.leaving(ChoreView::ReleaseThrowaway), f, true);
            } else {
                assert(Seq::<Cell>::empty() + cells(s.prompt) =~= cells(s.prompt));
            }
        },
        (Phase::FullCreate { retry }, EventView::Context(made)) => {
            match made {
                Ok(_) => {
                    decode_all_is_in_step(t, f, retry);
                },
                Err(m) => {
                    full_failed_is_in_step(
                        t,
                        f,
                        retry,
                        ErrorView::ExecutionError("Failed to create context: "@ + m),
                    );
                },
            }
        },
        (Phase::FullDecode { retry }, EventView::Decoded(done)) => {
            decoding_on_fills(s.prompt, 0);
            assert(s.prompt.skip(0) =~= s.prompt);
            match done {
                Ok(_) => {
                    let filled = t.recording(t.prompt);
                    exact_cells_are_recorded(filled, n, f.retained->0);
                    holding_the_prompt_is_in_step(filled, f, 0);
                },
                Err(m) => {
                    full_failed_is_in_step(t, f, retry, m);
                },
            }
        },
        (Phase::SnapshotTrim { keep }, EventView::Trimmed(done)) => {
            if done {
                let held = e.retained->0.take(keep as int);
                assert(held =~= cells(s.prompt.take(keep as int)));
            }
        },
        (Phase::SnapshotDir { keep, shape }, EventView::Dir(made)) => {},
        (Phase::SnapshotSave { keep, shape }, EventView::Saved(done)) => {
            one_more_chore(f, t, ChoreView::RemoveFile(t.part_name(shape)));
        },
        (Phase::SnapshotRename { keep, shape }, EventView::Renamed { done, now }) => {
            one_more_chore(f, t, ChoreView::RemoveFile(t.part_name(shape)));
            if done {
                let files = crate::index::evicted_by_cap(
                    t.slot->0.index_with(shape, t.recorded(), now),
                );
                removals_change_nothing(f, t.chores, files);
                let with_removals = PrefillView { chores: t.chores + removals(files), ..t };
                one_more_chore(f, with_removals, ChoreView::SaveIndex);
            }
        },
        (Phase::SnapshotRestore { keep }, EventView::Decoded(done)) => {
            decoding_on_fills(s.prompt, keep as int);
            if done is Err {
                let r = t.released();
                one_more_chore(f, PrefillView { session: None, ..t }, ChoreView::ReleaseContext);
                attempt_is_in_step(r, f, false);
            }
        },
        _ => {},
    }
}

proof fn retiring_empties(t: PrefillView, f: Engine)
    requires
        t.chores.len() == 0,
        t.session is Some,
        f.retained is Some,
    ensures
        chores_done(f, t.retiring().chores) == (Engine { retained: Some(Seq::empty()), ..f }),
{
    let a = PrefillView { slot: Some(t.slot->0.retired(t.chosen)), ..t };
    let b = a.leaving(ChoreView::RemoveFile(t.chosen));
    let c = b.leaving(ChoreView::SaveIndex);
    one_more_chore(f, a, ChoreView::RemoveFile(t.chosen));
    one_more_chore(f, b, ChoreView::SaveIndex);
    one_more_chore(f, c, ChoreView::ClearSequence);
}

proof fn reading_stays_in_step(
    s: PrefillView,
    f: Engine,
    tokens: Option<Seq<LlamaToken>>,
    now: u64,
)
    requires
        s.wf(),
        s.phase is SeedRead,
        f.throwaway is None,
        f.retained is Some,
        tokens is Some ==> f.retained == Some(cells(tokens->0)),
    ensures
        in_step(
            s.fresh().after_read(tokens, now),
            chores_done(f, s.fresh().after_read(tokens, now).chores),
        ),
{
    let t = s.fresh();
    retiring_empties(t, f);
    let r = t.retiring();
    assert(agree(r, chores_done(f, r.chores)));
    attempt_is_in_step(r, f, true);
    one_more_chore(f, t, ChoreView::ClearSequence);
    let c = t.leaving(ChoreView::ClearSequence);
    assert(agree(c, chores_done(f, c.chores)));
    attempt_is_in_step(c, f, true);
    if let Some(tokens) = tokens {
        a_restored_file_is_a_proper_prefix(tokens, s.prompt);
        if let LoadVerdict::Restored(restored) = verdict(tokens, s.prompt) {
            let slot = t.slot->0;
            let d = PrefillView {
                slot: Some(slot.judged(t.chosen, tokens, t.prompt, now)),
                phase: Phase::SeedDecode { restored },
                ..t.recording(tokens)
            };
            one_more_chore(f, d, ChoreView::SaveIndex);
            exact_cells_are_recorded(d, restored as int, f.retained->0);
        }
    }
}

/// Every decode starts exactly where the cache ends, which is the one place where
/// the engine takes it, and what is decoded there is the prompt's own continuation.
/// Where something is kept, a token is left to decode.
pub proof fn a_decode_continues_where_the_cache_ends(s: PrefillView, e: Engine)
    requires
        s.wf(),
        in_step(s, e),
    ensures
        s.action() matches ActionView::Decode { from, start } ==> {
            &&& from == start
            &&& e.retained matches Some(held) && held == cells(s.prompt.take(from as int))
                && held.len() == start
            &&& from > 0 ==> from < s.prompt.len()
        },
{
}

/// A context is created only while no other is held, so that two full caches are
/// never resident at once; a throwaway one is created only beside a retained one.
pub proof fn contexts_are_never_doubled(s: PrefillView, e: Engine)
    requires
        s.wf(),
        in_step(s, e),
    ensures
        s.action() is CreateContext ==> e.retained is None && e.throwaway is None,
        s.action() is CreateThrowaway ==> e.retained is Some && e.throwaway is None,
{
}

/// What is stored is exactly what the cache holds, and no more than the converged
/// prefix of the prompt's shape: the cache is cut back to it first.
pub proof fn only_the_stable_prefix_is_stored(s: PrefillView, e: Engine)
    requires
        s.wf(),
        in_step(s, e),
    ensures
        s.action() matches ActionView::Save { tokens, .. } ==> {
            let stable = s.slot->0.bucket(shape_of(s.prompt)->0).stable;
            &&& e.retained == Some(cells(tokens))
            &&& s.slot->0.writable(s.prompt) == Some(tokens.len() as usize)
            &&& stable is Some
            &&& tokens.len() <= stable->0.len()
            &&& tokens == stable->0.take(tokens.len() as int)
            &&& tokens == s.prompt.take(tokens.len() as int)
        },
{
    if let Phase::SnapshotSave { keep, shape } = s.phase {
        let stable = s.slot->0.bucket(shape).stable->0;
        assert(s.prompt.take(keep as int) =~= stable.take(keep as int));
    }
}

/// A throwaway run leaves the retained context, its ledger and the slot as they
/// were.
pub proof fn a_throwaway_run_leaves_the_cache_alone(s: PrefillView, event: EventView)
    requires
        s.wf(),
        s.phase is ThrowawayCreate || s.phase is ThrowawayDecode,
        event matches EventView::Context(made) ==> made is Ok,
        event matches EventView::Decoded(done) ==> done is Ok,
    ensures
        s.after(event).session == s.session,
        s.after(event).slot == s.slot,
        answers(event, s.phase) ==> s.after(event).chores.len() == 0,
{
}

/// A bad cache never fails a turn: a failure is reported only of an attempt at the
/// whole prompt that may not be retried, and is what that attempt ran into. Such an
/// attempt runs in a context that was created for it.
pub proof fn only_a_fresh_full_prefill_can_fail(s: PrefillView, event: EventView)
    requires
        s.wf(),
        s.failure is None,
    ensures
        s.after(event).failure matches Some(reported) ==> match (s.phase, event) {
            (Phase::FullCreate { retry }, EventView::Context(made)) => !retry && made is Err
                && reported == ErrorView::ExecutionError(
                "Failed to create context: "@ + made->Err_0,
            ),
            (Phase::FullDecode { retry }, EventView::Decoded(done)) => !retry && done == Err::<
                (),
                ErrorView,
            >(reported),
            _ => false,
        },
        s.after(event).phase == (Phase::FullDecode { retry: false }) && answers(event, s.phase)
            ==> s.phase == (Phase::FullCreate { retry: false }),
{
}

/// A failed turn leaves no context behind, so that the next one starts clean.
pub proof fn a_failed_turn_leaves_no_context(s: PrefillView, event: EventView)
    requires
        s.wf(),
        s.failure is None,
    ensures
        s.after(event).failure is Some ==> s.after(event).session is None,
{
}

/// What an engine answered, one action after the other: each event, and what the
/// engine held once it had happened.
pub type Answers = Seq<(EventView, Engine)>;

/// A run and the engine after these answers and the chores that they left.
pub open spec fn played(s: PrefillView, e: Engine, answers: Answers) -> (PrefillView, Engine)
    decreases answers.len(),
{
    if answers.len() == 0 {
        (s, e)
    } else {
        let (event, f) = answers.first();
        let t = s.after(event);
        played(t, chores_done(f, t.chores), answers.drop_first())
    }
}

/// Whether an engine can have given these answers to a run.
pub open spec fn possible(s: PrefillView, e: Engine, given: Answers) -> bool
    decreases given.len(),
{
    if given.len() == 0 {
        true
    } else {
        let (event, f) = given.first();
        let t = s.after(event);
        &&& answers(event, s.phase)
        &&& answered(e, s.action(), s.prompt, event, f)
        &&& possible(t, chores_done(f, t.chores), given.drop_first())
    }
}

/// Whatever an engine answers, a run ends after at most so many answers, its ledger
/// is a prefix of the cache at every point, and if it is done and did not fail, there
/// is a context that it generates on, which holds its whole prompt and nothing else.
pub proof fn every_run_ends_with_its_prompt_in_the_cache(
    s: PrefillView,
    e: Engine,
    given: Answers,
)
    requires
        s.wf(),
        in_step(s, e),
        possible(s, e, given),
    ensures
        ({
            let (t, g) = played(s, e, given);
            &&& given.len() + steps_left(t) <= steps_left(s)
            &&& t.prompt == s.prompt
            &&& t.effective_ctx == s.effective_ctx
            &&& t.settings == s.settings
            &&& t.wf()
            &&& in_step(t, g)
            &&& t.phase is Done && t.failure is None ==> match t.transient {
                Some(_) => g.throwaway == Some(cells(s.prompt)) && g.retained is Some,
                None => {
                    &&& g.throwaway is None
                    &&& g.retained == Some(cells(s.prompt))
                    &&& t.session == Some(
                        SessionView {
                            head: None,
                            tokens: s.prompt,
                            n_ctx: s.effective_ctx as u32,
                        },
                    )
                },
            }
        }),
    decreases given.len(),
{
    assert(s.prompt.take(s.prompt.len() as int) =~= s.prompt);
    if given.len() > 0 {
        let (event, f) = given.first();
        let t = s.after(event);
        the_ledger_is_always_a_prefix_of_the_cache(s, e, event, f);
        every_event_keeps_a_run_well_formed(s, event);
        every_answer_brings_the_end_closer(s, event);
        every_run_ends_with_its_prompt_in_the_cache(
            t,
            chores_done(f, t.chores),
            given.drop_first(),
        );
    }
}

/// Whether a run that can still use, or uses, a throwaway context has the retained one
/// as it was, in its ledger and in the engine.
spec fn untouched(
    s: PrefillView,
    e: Engine,
    session: Option<SessionView>,
    retained: Option<Seq<Cell>>,
) -> bool {
    s.phase is StatModel || s.phase is ReadIndex || s.phase is ThrowawayCreate || s.transient is Some
        ==> s.session == session && e.retained == retained
}

proof fn an_answer_leaves_it_untouched(
    s: PrefillView,
    e: Engine,
    event: EventView,
    f: Engine,
    session: Option<SessionView>,
    retained: Option<Seq<Cell>>,
)
    requires
        s.wf(),
        untouched(s, e, session, retained),
        answers(event, s.phase),
        answered(e, s.action(), s.prompt, event, f),
    ensures
        untouched(s.after(event), chores_done(f, s.after(event).chores), session, retained),
{
    let t = s.after(event);
    match s.phase {
        Phase::StatModel | Phase::ReadIndex | Phase::ThrowawayCreate { .. }
        | Phase::ThrowawayDecode { .. } => {
            assert(chores_done(f, s.fresh().chores) == f);
        },
        _ => {
            assert(t.transient is None);
        },
    }
}

proof fn a_play_leaves_it_untouched(
    s: PrefillView,
    e: Engine,
    given: Answers,
    session: Option<SessionView>,
    retained: Option<Seq<Cell>>,
)
    requires
        s.wf(),
        untouched(s, e, session, retained),
        possible(s, e, given),
    ensures
        ({
            let (t, g) = played(s, e, given);
            untouched(t, g, session, retained)
        }),
    decreases given.len(),
{
    if given.len() > 0 {
        let (event, f) = given.first();
        let t = s.after(event);
        let g = chores_done(f, t.chores);
        every_event_keeps_a_run_well_formed(s, event);
        an_answer_leaves_it_untouched(s, e, event, f, session, retained);
        a_play_leaves_it_untouched(t, g, given.drop_first(), session, retained);
    }
}

/// A turn that is served by a throwaway context leaves the retained one, and what is
/// recorded of it, as they were before the turn, serves nothing from a cache, and
/// generates in the throwaway context's window.
pub proof fn a_throwaway_turn_keeps_the_retained_context(
    session: Option<SessionView>,
    slot: Option<SlotView>,
    kept: bool,
    model_path: Seq<char>,
    settings: ModelSettings,
    prompt: Seq<LlamaToken>,
    effective_ctx: usize,
    e: Engine,
    given: Answers,
)
    requires
        session matches Some(kv) ==> kv.fits(),
        prompt.len() <= usize::MAX,
        session is Some <==> e.retained is Some,
        session matches Some(kv) ==> records(kv, e.retained->0),
        e.throwaway is None,
        ({
            let s = begun(session, slot, kept, model_path, settings, prompt, effective_ctx);
            possible(s, chores_done(e, s.chores), given)
        }),
    ensures
        ({
            let s = begun(session, slot, kept, model_path, settings, prompt, effective_ctx);
            let (t, g) = played(s, chores_done(e, s.chores), given);
            t.phase is Done && t.failure is None && t.transient is Some ==> {
                let window = sacrificial_window(
                    prompt.len(),
                    settings.max_output_tokens,
                    effective_ctx as u32,
                );
                &&& t.session == session
                &&& g.retained == e.retained
                &&& t.outcome() == Ok::<PrefilledView, ErrorView>(
                    PrefilledView {
                        reused_prefix_tokens: 0,
                        transient: Some(empty_session(window)),
                        effective_ctx: window as usize,
                    },
                )
            }
        }),
{
    let s = begun(session, slot, kept, model_path, settings, prompt, effective_ctx);
    let e0 = chores_done(e, s.chores);
    a_begun_run_is_well_formed(session, slot, kept, model_path, settings, prompt, effective_ctx);
    a_run_starts_in_step(session, slot, kept, model_path, settings, prompt, effective_ctx, e);
    a_play_leaves_it_untouched(s, e0, given, session, e.retained);
    every_run_ends_with_its_prompt_in_the_cache(s, e0, given);
}

/// Tokens that are generated behind a filled cache keep its ledger in step: what was
/// decoded, and recorded, is what the cache now holds behind the prompt.
pub proof fn recorded_tokens_keep_the_ledger_in_step(
    kv: SessionView,
    held: Seq<Cell>,
    decoded: Seq<LlamaToken>,
)
    requires
        records(kv, held),
        held.len() == kv.occupied(),
    ensures
        ({
            let after = SessionView { tokens: kv.tokens + decoded, ..kv };
            &&& records(after, held + cells(decoded))
            &&& (held + cells(decoded)).len() == after.occupied()
        }),
{
    let after = SessionView { tokens: kv.tokens + decoded, ..kv };
    let more = held + cells(decoded);
    assert forall|i: int| kv.media_pos() <= i < after.occupied() implies #[trigger] more[i]
        == Cell::Token(after.tokens[i - kv.media_pos()]) by {
        if i < held.len() {
            assert(more[i] == held[i]);
        } else {
            assert(more[i] == cells(decoded)[i - held.len()]);
        }
    }
    assert forall|i: int| 0 <= i < kv.media_pos() implies #[trigger] more[i] == Cell::Media(
        kv.head->0,
        i,
    ) by {
        assert(more[i] == held[i]);
    }
}

} // verus!

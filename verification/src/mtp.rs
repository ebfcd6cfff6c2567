//! Speculative decoding with a drafter: what is proposed, what the target endorses,
//! and what must leave no trace.
//!
//! The tokens that a step emits are exactly those that the target would have emitted
//! alone. A draft is decoded on the target to be judged, so whatever of it is not
//! endorsed has to be taken out of the cache again. And what is reported to the
//! drafter counts the tokens of the draft that were endorsed, not the tokens that
//! were emitted.

use vstd::prelude::*;

use crate::cache::{cells, Cell};
use crate::decode::BatchEntry;
use crate::error::{execution_error, ErrorView, ProviderError};
use crate::token::LlamaToken;

verus! {

/// The ledger of a drafter: how far it drafts, and how well it did.
#[derive(Clone, Copy, Debug, PartialEq, Eq, Structural)]
pub struct MtpSession {
    /// The draft depth that was asked for.
    pub n_max: usize,
    pub drafted: u32,
    pub accepted: u32,
}

impl MtpSession {
    /// The ledger of a drafter that was attached, or not.
    pub fn new(n_max: i32, attached: Result<(), String>) -> (mtp: Result<
        MtpSession,
        ProviderError,
    >)
        ensures
            match attached {
                Ok(_) => mtp matches Ok(m) && m == (MtpSession {
                    n_max: if n_max > 0 {
                        n_max as usize
                    } else {
                        0
                    },
                    drafted: 0,
                    accepted: 0,
                }),
                Err(e) => mtp matches Err(report) && report@ == ErrorView::ExecutionError(
                    "failed to init MTP speculative decoding: "@ + e@,
                ),
            },
    {
        match attached {
            Ok(_) => Ok(
                MtpSession {
                    n_max: if n_max > 0 {
                        n_max as usize
                    } else {
                        0
                    },
                    drafted: 0,
                    accepted: 0,
                },
            ),
            Err(e) => Err(
                execution_error("failed to init MTP speculative decoding: ", e.as_str()),
            ),
        }
    }

    /// What is reported of telling the drafter which prompt the target holds. It must
    /// be told after every prefill, a resume included: it tracks its own position.
    pub fn begin(told: Result<(), String>) -> (r: Result<(), ProviderError>)
        ensures
            match told {
                Ok(_) => r is Ok,
                Err(e) => r matches Err(report) && report@ == ErrorView::ExecutionError(
                    "MTP begin failed: "@ + e@,
                ),
            },
    {
        match told {
            Ok(_) => Ok(()),
            Err(e) => Err(execution_error("MTP begin failed: ", e.as_str())),
        }
    }

    /// Whether the drafter is asked at all.
    pub fn drafts(&self) -> (r: bool)
        ensures
            r == (self.n_max > 0),
    {
        self.n_max > 0
    }

    /// Takes in what was proposed. To propose nothing is normal: the drafter declines
    /// where it is not confident.
    pub fn draft(&mut self, proposed: Result<Vec<LlamaToken>, String>) -> (r: Result<
        Vec<LlamaToken>,
        ProviderError,
    >)
        requires
            proposed matches Ok(tokens) ==> old(self).drafted + tokens@.len() <= u32::MAX,
        ensures
            match proposed {
                Ok(tokens) => {
                    &&& r matches Ok(draft) && draft@ == tokens@
                    &&& *final(self) == (MtpSession {
                        drafted: (old(self).drafted + tokens@.len()) as u32,
                        ..*old(self)
                    })
                },
                Err(e) => {
                    &&& r matches Err(report) && report@ == ErrorView::ExecutionError(
                        "MTP draft failed: "@ + e@,
                    )
                    &&& *final(self) == *old(self)
                },
            },
    {
        match proposed {
            Ok(tokens) => {
                self.drafted = self.drafted + tokens.len() as u32;
                Ok(tokens)
            },
            Err(e) => Err(execution_error("MTP draft failed: ", e.as_str())),
        }
    }

    /// Counts how many tokens of the draft the target endorsed. Gives back the number
    /// that the drafter is told.
    pub fn accept(&mut self, n_accepted: usize) -> (told: u16)
        requires
            old(self).accepted + n_accepted <= u32::MAX,
        ensures
            *final(self) == (MtpSession {
                accepted: (old(self).accepted + n_accepted) as u32,
                ..*old(self)
            }),
            told == n_accepted as u16,
    {
        self.accepted = self.accepted + n_accepted as u32;
        n_accepted as u16
    }
}

/// What one speculative step emits: the tokens that the target endorsed, in order,
/// and whether it then ended the generation.
#[derive(Debug)]
pub struct SpecStep {
    pub tokens: Vec<LlamaToken>,
    pub hit_eog: bool,
}

/// Where a step stands: what was asked last.
#[derive(Clone, Copy, Debug, PartialEq, Eq, Structural)]
pub enum SpecPhase {
    /// The drafter is asked for a continuation.
    Draft,
    /// Nothing was proposed: the last token is decoded alone.
    Plain,
    /// The last token and the draft are decoded together.
    Batch,
    /// The target's choice behind token `i` of the batch is asked for.
    Verify { i: usize },
    /// What was not endorsed is removed.
    RollBack,
    /// The drafter is told how many of its tokens were endorsed.
    Accept,
    Done,
}

/// What is asked.
#[derive(Debug)]
pub enum SpecAction<'a> {
    /// Ask the drafter what follows `id_last`, at position `n_past` behind `prompt`.
    Draft { n_past: i32, id_last: LlamaToken, prompt: &'a [LlamaToken] },
    /// Decode this one token behind what the cache holds.
    DecodeOne(LlamaToken),
    DecodeBatch(Vec<BatchEntry>),
    /// Draw a token from the logits at this index of the batch, and say whether it
    /// ends the generation.
    Sample(i32),
    /// Remove every position from that one on.
    RemoveFrom(u32),
    /// Tell the drafter that so many of its tokens were endorsed.
    Accept(u16),
    Finish,
}

/// What is asked, a batch and a prompt as sequences.
#[verifier::ext_equal]
pub enum SpecActionView {
    Draft { n_past: i32, id_last: LlamaToken, prompt: Seq<LlamaToken> },
    DecodeOne(LlamaToken),
    DecodeBatch(Seq<BatchEntry>),
    Sample(i32),
    RemoveFrom(u32),
    Accept(u16),
    Finish,
}

impl<'a> View for SpecAction<'a> {
    type V = SpecActionView;

    open spec fn view(&self) -> SpecActionView {
        match self {
            SpecAction::Draft { n_past, id_last, prompt } => SpecActionView::Draft {
                n_past: *n_past,
                id_last: *id_last,
                prompt: prompt@,
            },
            SpecAction::DecodeOne(token) => SpecActionView::DecodeOne(*token),
            SpecAction::DecodeBatch(batch) => SpecActionView::DecodeBatch(batch@),
            SpecAction::Sample(i) => SpecActionView::Sample(*i),
            SpecAction::RemoveFrom(pos) => SpecActionView::RemoveFrom(*pos),
            SpecAction::Accept(n) => SpecActionView::Accept(*n),
            SpecAction::Finish => SpecActionView::Finish,
        }
    }
}

/// Why a batch was not decoded.
#[derive(Debug)]
pub enum BatchFailure {
    /// It could not be built.
    Build(String),
    /// The engine did not decode it.
    Engine(String),
}

/// What is reported where the last token, alone, was not decoded.
pub open spec fn plain_error(failure: BatchFailure) -> ErrorView {
    match failure {
        BatchFailure::Build(e) => ErrorView::ExecutionError("batch: "@ + e@),
        BatchFailure::Engine(e) => ErrorView::ExecutionError("decode: "@ + e@),
    }
}

/// What is reported where a draft was not decoded.
pub open spec fn batch_error(failure: BatchFailure) -> ErrorView {
    match failure {
        BatchFailure::Build(e) => ErrorView::ExecutionError("batch add: "@ + e@),
        BatchFailure::Engine(e) => ErrorView::ExecutionError("speculative decode: "@ + e@),
    }
}

/// What came of an action.
#[derive(Debug)]
pub enum SpecEvent {
    Drafted(Result<Vec<LlamaToken>, String>),
    Decoded(Result<(), BatchFailure>),
    Sampled { token: LlamaToken, eog: bool },
    /// Whether the positions were removed, or the engine declined.
    Removed(Result<bool, String>),
    Told(Result<(), String>),
}

/// What came of an action, as sequences.
#[verifier::ext_equal]
pub enum SpecEventView {
    Drafted(Result<Seq<LlamaToken>, Seq<char>>),
    Decoded(Result<(), BatchFailure>),
    Sampled { token: LlamaToken, eog: bool },
    Removed(Result<bool, Seq<char>>),
    Told(Result<(), Seq<char>>),
}

impl View for SpecEvent {
    type V = SpecEventView;

    open spec fn view(&self) -> SpecEventView {
        match self {
            SpecEvent::Drafted(done) => SpecEventView::Drafted(
                match done {
                    Ok(tokens) => Ok(tokens@),
                    Err(e) => Err(e@),
                },
            ),
            SpecEvent::Decoded(done) => SpecEventView::Decoded(*done),
            SpecEvent::Sampled { token, eog } => SpecEventView::Sampled {
                token: *token,
                eog: *eog,
            },
            SpecEvent::Removed(done) => SpecEventView::Removed(
                match done {
                    Ok(removed) => Ok(*removed),
                    Err(e) => Err(e@),
                },
            ),
            SpecEvent::Told(done) => SpecEventView::Told(
                match done {
                    Ok(_) => Ok(()),
                    Err(e) => Err(e@),
                },
            ),
        }
    }
}

/// A step, as plain sequences.
#[verifier::ext_equal]
pub struct SpecView {
    pub mtp: MtpSession,
    /// The position of the last token.
    pub n_past: i32,
    pub id_last: LlamaToken,
    /// The prompt that the drafter goes by.
    pub prompt: Seq<LlamaToken>,
    pub draft: Seq<LlamaToken>,
    pub phase: SpecPhase,
    pub emitted: Seq<LlamaToken>,
    pub n_accepted: usize,
    pub hit_eog: bool,
    pub failure: Option<ErrorView>,
}

impl SpecView {
    /// The step is over, and failed.
    pub open spec fn failing(self, e: ErrorView) -> SpecView {
        SpecView { failure: Some(e), phase: SpecPhase::Done, ..self }
    }

    /// What the batch holds: the last token, and the draft behind it.
    pub open spec fn seq(self) -> Seq<LlamaToken> {
        seq![self.id_last] + self.draft
    }

    /// The batch, with the logits of every token: those behind token `i` are the
    /// target's opinion of what follows it.
    pub open spec fn batch(self) -> Seq<BatchEntry> {
        Seq::new(
            self.seq().len(),
            |i: int|
                BatchEntry {
                    token: self.seq()[i],
                    pos: (self.n_past + i) as i32,
                    logits: true,
                },
        )
    }

    /// The drafter is told what was endorsed.
    pub open spec fn reporting(self) -> SpecView {
        SpecView {
            mtp: MtpSession {
                accepted: (self.mtp.accepted + self.n_accepted) as u32,
                ..self.mtp
            },
            phase: SpecPhase::Accept,
            ..self
        }
    }

    /// The judging is over: what was not endorsed is removed, if there is any.
    pub open spec fn judged(self) -> SpecView {
        if self.emitted.len() < self.seq().len() {
            SpecView { phase: SpecPhase::RollBack, ..self }
        } else {
            self.reporting()
        }
    }

    /// The drafter proposed, or not.
    pub open spec fn after_draft(
        self,
        done: Result<Seq<LlamaToken>, Seq<char>>,
    ) -> SpecView {
        match done {
            Ok(draft) => SpecView {
                mtp: MtpSession { drafted: (self.mtp.drafted + draft.len()) as u32, ..self.mtp },
                draft,
                phase: if draft.len() == 0 {
                    SpecPhase::Plain
                } else {
                    SpecPhase::Batch
                },
                ..self
            },
            Err(e) => self.failing(ErrorView::ExecutionError("MTP draft failed: "@ + e)),
        }
    }

    /// The target chose a token behind token `i` of the batch.
    pub open spec fn after_sample(self, i: usize, token: LlamaToken, eog: bool) -> SpecView {
        if eog {
            (SpecView { hit_eog: true, ..self }).judged()
        } else {
            let s = SpecView { emitted: self.emitted.push(token), ..self };
            if i < self.draft.len() && token == self.draft[i as int] {
                SpecView {
                    n_accepted: (self.n_accepted + 1) as usize,
                    phase: SpecPhase::Verify { i: (i + 1) as usize },
                    ..s
                }
            } else {
                s.judged()
            }
        }
    }

    /// What follows from an event. One that does not answer what was asked changes
    /// nothing.
    pub open spec fn after(self, event: SpecEventView) -> SpecView {
        match (self.phase, event) {
            (SpecPhase::Draft, SpecEventView::Drafted(done)) => self.after_draft(done),
            (SpecPhase::Plain, SpecEventView::Decoded(done)) => match done {
                Ok(_) => self.reporting(),
                Err(failure) => self.failing(plain_error(failure)),
            },
            (SpecPhase::Batch, SpecEventView::Decoded(done)) => match done {
                Ok(_) => SpecView { phase: SpecPhase::Verify { i: 0 }, ..self },
                Err(failure) => self.failing(batch_error(failure)),
            },
            (
                SpecPhase::Verify { i },
                SpecEventView::Sampled { token, eog },
            ) => self.after_sample(i, token, eog),
            (SpecPhase::RollBack, SpecEventView::Removed(done)) => match done {
                Ok(true) => self.reporting(),
                Ok(false) => self.failing(
                    ErrorView::ExecutionError(
                        "failed to roll back rejected draft: the engine declined the removal"@,
                    ),
                ),
                Err(e) => self.failing(
                    ErrorView::ExecutionError("failed to roll back rejected draft: "@ + e),
                ),
            },
            (SpecPhase::Accept, SpecEventView::Told(done)) => match done {
                Ok(_) => SpecView { phase: SpecPhase::Done, ..self },
                Err(e) => self.failing(ErrorView::ExecutionError("MTP accept failed: "@ + e)),
            },
            _ => self,
        }
    }

    /// What is asked.
    pub open spec fn action(self) -> SpecActionView {
        match self.phase {
            SpecPhase::Draft => SpecActionView::Draft {
                n_past: self.n_past,
                id_last: self.id_last,
                prompt: self.prompt,
            },
            SpecPhase::Plain => SpecActionView::DecodeOne(self.id_last),
            SpecPhase::Batch => SpecActionView::DecodeBatch(self.batch()),
            SpecPhase::Verify { i } => SpecActionView::Sample(i as i32),
            SpecPhase::RollBack => SpecActionView::RemoveFrom(
                ((self.n_past + self.emitted.len()) as i32) as u32,
            ),
            SpecPhase::Accept => SpecActionView::Accept(self.n_accepted as u16),
            SpecPhase::Done => SpecActionView::Finish,
        }
    }

    /// What holds of every step, between one answer and the next.
    pub open spec fn wf(self) -> bool {
        &&& self.draft.len() > 0 ==> self.n_past + self.draft.len() <= i32::MAX
        &&& self.draft.len() <= i32::MAX
        &&& self.n_accepted <= self.draft.len()
        &&& self.n_accepted <= self.emitted.len() <= self.n_accepted + 1
        &&& self.emitted.take(self.n_accepted as int) == self.draft.take(self.n_accepted as int)
        &&& match self.phase {
            SpecPhase::Draft => self.draft.len() == 0 && self.emitted.len() == 0 && !self.hit_eog
                && self.mtp.n_max > 0,
            SpecPhase::Plain => self.draft.len() == 0 && self.emitted.len() == 0 && !self.hit_eog,
            SpecPhase::Batch => self.draft.len() > 0 && self.emitted.len() == 0 && !self.hit_eog,
            SpecPhase::Verify { i } => self.draft.len() > 0 && i <= self.draft.len()
                && self.emitted.len() == i && self.n_accepted == i && !self.hit_eog,
            SpecPhase::RollBack => self.draft.len() > 0 && self.emitted.len() < self.seq().len()
                && self.judged_exactly(),
            SpecPhase::Accept => self.draft.len() > 0 ==> self.judged_exactly(),
            SpecPhase::Done => self.failure is None && self.draft.len() > 0
                ==> self.judged_exactly(),
        }
        &&& self.draft.len() == 0 ==> self.emitted.len() == 0 && !self.hit_eog
        &&& self.failure is Some ==> self.phase is Done
    }

    /// A judged draft emits the tokens that were endorsed, and one more of the
    /// target's own, unless the target ended the generation there. As many tokens are
    /// endorsed as can be: the next one of the draft is not what the target chose.
    pub open spec fn judged_exactly(self) -> bool {
        &&& self.emitted.len() == self.n_accepted + (if self.hit_eog {
            0int
        } else {
            1int
        })
        &&& !self.hit_eog && self.n_accepted < self.draft.len() ==> self.emitted[
            self.n_accepted as int
        ] != self.draft[self.n_accepted as int]
    }

    /// Whether what this event makes the step count can be counted: the tokens of a
    /// draft and their positions, and the tokens that were endorsed.
    pub open spec fn counts_fit(self, event: SpecEventView) -> bool {
        match (self.phase, event) {
            (SpecPhase::Draft, SpecEventView::Drafted(done)) => done matches Ok(draft) ==> {
                &&& self.mtp.drafted + draft.len() <= u32::MAX
                &&& draft.len() <= i32::MAX
                &&& draft.len() > 0 ==> self.n_past + draft.len() <= i32::MAX
            },
            (SpecPhase::Verify { i }, SpecEventView::Sampled { token, eog }) => !eog && i
                == self.draft.len() ==> self.mtp.accepted + self.n_accepted <= u32::MAX,
            (SpecPhase::RollBack, SpecEventView::Removed(done)) => done == Ok::<bool, Seq<char>>(
                true,
            ) ==> self.mtp.accepted + self.n_accepted <= u32::MAX,
            _ => true,
        }
    }
}

/// A step at its start.
pub open spec fn spec_begun(
    mtp: MtpSession,
    n_past: i32,
    id_last: LlamaToken,
    prompt: Seq<LlamaToken>,
) -> SpecView {
    SpecView {
        mtp,
        n_past,
        id_last,
        prompt,
        draft: Seq::empty(),
        phase: if mtp.n_max == 0 {
            SpecPhase::Plain
        } else {
            SpecPhase::Draft
        },
        emitted: Seq::empty(),
        n_accepted: 0,
        hit_eog: false,
        failure: None,
    }
}

/// Every step that starts well stays well. In particular, what is reported to the
/// drafter is the number of its own tokens that were endorsed: as many as were
/// emitted where the generation ended, and one fewer where the last of them is the
/// target's own.
pub proof fn every_event_keeps_a_step_well_formed(s: SpecView, event: SpecEventView)
    requires
        s.wf(),
        s.counts_fit(event),
    ensures
        s.after(event).wf(),
{
    match (s.phase, event) {
        (SpecPhase::Draft, SpecEventView::Drafted(done)) => {
            if let Ok(draft) = done {
                assert(draft.take(0) =~= s.emitted.take(0));
            }
        },
        (SpecPhase::Verify { i }, SpecEventView::Sampled { token, eog }) => {
            let e = s.emitted.push(token);
            assert(e.take(i as int) =~= s.emitted.take(i as int));
            if i < s.draft.len() && token == s.draft[i as int] {
                assert(s.emitted.take(i as int) =~= s.emitted);
                assert(e.take(i + 1) =~= e);
                assert(s.draft.take(i + 1) =~= s.draft.take(i as int).push(token));
            }
        },
        _ => {},
    }
}

/// What the target chooses alone behind `context`: one token after the other, each
/// behind those before it. `choose_next` is its choice behind a run of tokens.
pub open spec fn chosen_alone(
    choose_next: spec_fn(Seq<LlamaToken>) -> LlamaToken,
    context: Seq<LlamaToken>,
    n: nat,
) -> Seq<LlamaToken>
    decreases n,
{
    if n == 0 {
        Seq::empty()
    } else {
        let before = chosen_alone(choose_next, context, (n - 1) as nat);
        before.push(choose_next(context + before))
    }
}

/// Whether an event gives what the target really chooses: behind token `i` of the
/// batch it has seen the context and the batch up to that token.
pub open spec fn true_to_target(
    s: SpecView,
    event: SpecEventView,
    choose_next: spec_fn(Seq<LlamaToken>) -> LlamaToken,
    ends: spec_fn(LlamaToken) -> bool,
    context: Seq<LlamaToken>,
) -> bool {
    match (s.phase, event) {
        (SpecPhase::Verify { i }, SpecEventView::Sampled { token, eog }) => {
            &&& token == choose_next(context + s.seq().take(i + 1))
            &&& eog == ends(token)
        },
        _ => true,
    }
}

/// Whether what was emitted so far is what the target would have emitted alone, and
/// a generation that ended would have ended there.
pub open spec fn as_if_alone(
    s: SpecView,
    choose_next: spec_fn(Seq<LlamaToken>) -> LlamaToken,
    ends: spec_fn(LlamaToken) -> bool,
    context: Seq<LlamaToken>,
) -> bool {
    let seen = context.push(s.id_last);
    &&& s.emitted == chosen_alone(choose_next, seen, s.emitted.len())
    &&& forall|k: int| 0 <= k < s.emitted.len() ==> !ends(#[trigger] s.emitted[k])
    &&& s.hit_eog ==> ends(choose_next(seen + s.emitted))
}

/// Speculation changes nothing: whatever was drafted, the tokens that a step emits
/// are exactly those that the target chooses alone, and it ends where the target
/// alone would end.
pub proof fn speculation_emits_what_the_target_would_alone(
    s: SpecView,
    event: SpecEventView,
    choose_next: spec_fn(Seq<LlamaToken>) -> LlamaToken,
    ends: spec_fn(LlamaToken) -> bool,
    context: Seq<LlamaToken>,
)
    requires
        s.wf(),
        as_if_alone(s, choose_next, ends, context),
        true_to_target(s, event, choose_next, ends, context),
    ensures
        as_if_alone(s.after(event), choose_next, ends, context),
{
    if let (SpecPhase::Verify { i }, SpecEventView::Sampled { token, eog }) = (s.phase, event) {
        let seen = context.push(s.id_last);
        assert(s.emitted.take(i as int) =~= s.emitted);
        assert(s.draft.take(i as int) =~= s.emitted);
        assert(context + s.seq().take(i + 1) =~= seen + s.emitted) by {
            assert(s.seq().take(i + 1) =~= seq![s.id_last] + s.draft.take(i as int));
        }
        let e = s.emitted.push(token);
        assert(chosen_alone(choose_next, seen, e.len()) == chosen_alone(
            choose_next,
            seen,
            s.emitted.len(),
        ).push(choose_next(seen + s.emitted)));
        assert forall|k: int| 0 <= k < e.len() && !eog implies !ends(#[trigger] e[k]) by {
            if k < s.emitted.len() {
                assert(e[k] == s.emitted[k]);
            }
        }
    }
}

/// A step starts with nothing emitted, which is as if alone.
pub proof fn a_step_starts_as_if_alone(
    mtp: MtpSession,
    n_past: i32,
    id_last: LlamaToken,
    prompt: Seq<LlamaToken>,
    choose_next: spec_fn(Seq<LlamaToken>) -> LlamaToken,
    ends: spec_fn(LlamaToken) -> bool,
    context: Seq<LlamaToken>,
)
    ensures
        spec_begun(mtp, n_past, id_last, prompt).wf(),
        as_if_alone(spec_begun(mtp, n_past, id_last, prompt), choose_next, ends, context),
{
}

/// A step after these events.
pub open spec fn spec_played(s: SpecView, events: Seq<SpecEventView>) -> SpecView
    decreases events.len(),
{
    if events.len() == 0 {
        s
    } else {
        spec_played(s.after(events.first()), events.drop_first())
    }
}

/// Whether each of these events can be counted, and gives what the target really
/// chooses.
pub open spec fn all_true_to_target(
    s: SpecView,
    events: Seq<SpecEventView>,
    choose_next: spec_fn(Seq<LlamaToken>) -> LlamaToken,
    ends: spec_fn(LlamaToken) -> bool,
    context: Seq<LlamaToken>,
) -> bool
    decreases events.len(),
{
    if events.len() == 0 {
        true
    } else {
        &&& s.counts_fit(events.first())
        &&& true_to_target(s, events.first(), choose_next, ends, context)
        &&& all_true_to_target(
            s.after(events.first()),
            events.drop_first(),
            choose_next,
            ends,
            context,
        )
    }
}

/// A whole step emits what the target would have emitted alone, whatever the drafter
/// proposes and whatever fails.
pub proof fn a_whole_step_is_as_if_alone(
    s: SpecView,
    events: Seq<SpecEventView>,
    choose_next: spec_fn(Seq<LlamaToken>) -> LlamaToken,
    ends: spec_fn(LlamaToken) -> bool,
    context: Seq<LlamaToken>,
)
    requires
        s.wf(),
        as_if_alone(s, choose_next, ends, context),
        all_true_to_target(s, events, choose_next, ends, context),
    ensures
        spec_played(s, events).wf(),
        as_if_alone(spec_played(s, events), choose_next, ends, context),
    decreases events.len(),
{
    if events.len() > 0 {
        let event = events.first();
        speculation_emits_what_the_target_would_alone(s, event, choose_next, ends, context);
        every_event_keeps_a_step_well_formed(s, event);
        a_whole_step_is_as_if_alone(
            s.after(event),
            events.drop_first(),
            choose_next,
            ends,
            context,
        );
    }
}

/// One step of a generation by steps.
#[verifier::ext_equal]
pub struct SpecTurn {
    pub mtp: MtpSession,
    pub n_past: i32,
    pub prompt: Seq<LlamaToken>,
    /// What came of the step's actions.
    pub events: Seq<SpecEventView>,
    /// What the host draws from the target itself, behind a step that drafted nothing:
    /// such a step only decodes the last token.
    pub drawn: LlamaToken,
}

impl SpecTurn {
    /// The step behind that last token, once it is over.
    pub open spec fn end(self, id_last: LlamaToken) -> SpecView {
        spec_played(spec_begun(self.mtp, self.n_past, id_last, self.prompt), self.events)
    }

    /// The tokens that the turn adds to the output.
    pub open spec fn tokens(
        self,
        id_last: LlamaToken,
        ends: spec_fn(LlamaToken) -> bool,
    ) -> Seq<LlamaToken> {
        if self.end(id_last).draft.len() > 0 {
            self.end(id_last).emitted
        } else if ends(self.drawn) {
            Seq::empty()
        } else {
            seq![self.drawn]
        }
    }

    /// Whether the generation ends with the turn.
    pub open spec fn over(self, id_last: LlamaToken, ends: spec_fn(LlamaToken) -> bool) -> bool {
        if self.end(id_last).draft.len() > 0 {
            self.end(id_last).hit_eog
        } else {
            ends(self.drawn)
        }
    }
}

/// The output of a generation by steps behind `id_last`: what each step adds, the last
/// token of which is the next step's last token.
pub open spec fn emitted_by_steps(
    turns: Seq<SpecTurn>,
    id_last: LlamaToken,
    ends: spec_fn(LlamaToken) -> bool,
) -> Seq<LlamaToken>
    decreases turns.len(),
{
    if turns.len() == 0 {
        Seq::empty()
    } else {
        let tokens = turns.first().tokens(id_last, ends);
        tokens + emitted_by_steps(turns.drop_first(), tokens.last(), ends)
    }
}

/// Whether the last of these steps ends the generation.
pub open spec fn ended_by_steps(
    turns: Seq<SpecTurn>,
    id_last: LlamaToken,
    ends: spec_fn(LlamaToken) -> bool,
) -> bool
    decreases turns.len(),
{
    if turns.len() == 0 {
        false
    } else if turns.len() == 1 {
        turns.first().over(id_last, ends)
    } else {
        ended_by_steps(
            turns.drop_first(),
            turns.first().tokens(id_last, ends).last(),
            ends,
        )
    }
}

/// Whether a step behind `id_last` in `context` came to its end without a failure on
/// that target.
pub open spec fn step_on_target(
    turn: SpecTurn,
    context: Seq<LlamaToken>,
    id_last: LlamaToken,
    choose_next: spec_fn(Seq<LlamaToken>) -> LlamaToken,
    ends: spec_fn(LlamaToken) -> bool,
) -> bool {
    let begun = spec_begun(turn.mtp, turn.n_past, id_last, turn.prompt);
    &&& all_true_to_target(begun, turn.events, choose_next, ends, context)
    &&& turn.end(id_last).phase is Done
    &&& turn.end(id_last).failure is None
    &&& turn.end(id_last).draft.len() == 0 ==> turn.drawn == choose_next(context.push(id_last))
}

/// Whether these steps, the first behind `id_last` in `context`, all came to their end
/// without a failure on the one target: what a step leaves before the next one's last
/// token is its context, and the generation goes on only while it is not over.
pub open spec fn steps_on_target(
    turns: Seq<SpecTurn>,
    context: Seq<LlamaToken>,
    id_last: LlamaToken,
    choose_next: spec_fn(Seq<LlamaToken>) -> LlamaToken,
    ends: spec_fn(LlamaToken) -> bool,
) -> bool
    decreases turns.len(),
{
    if turns.len() == 0 {
        true
    } else {
        let turn = turns.first();
        let tokens = turn.tokens(id_last, ends);
        &&& step_on_target(turn, context, id_last, choose_next, ends)
        &&& turns.len() > 1 ==> !turn.over(id_last, ends)
        &&& steps_on_target(
            turns.drop_first(),
            context.push(id_last) + tokens.drop_last(),
            tokens.last(),
            choose_next,
            ends,
        )
    }
}

proof fn chosen_alone_in_two(
    choose_next: spec_fn(Seq<LlamaToken>) -> LlamaToken,
    context: Seq<LlamaToken>,
    n: nat,
    m: nat,
)
    ensures
        chosen_alone(choose_next, context, n).len() == n,
        chosen_alone(choose_next, context, n + m) == chosen_alone(choose_next, context, n)
            + chosen_alone(choose_next, context + chosen_alone(choose_next, context, n), m),
    decreases n + m,
{
    let first = chosen_alone(choose_next, context, n);
    if m > 0 {
        chosen_alone_in_two(choose_next, context, n, (m - 1) as nat);
        let second = chosen_alone(choose_next, context + first, (m - 1) as nat);
        assert(context + (first + second) =~= (context + first) + second);
        let next = choose_next((context + first) + second);
        assert((first + second).push(next) =~= first + second.push(next));
    } else {
        if n > 0 {
            chosen_alone_in_two(choose_next, context, (n - 1) as nat, 0);
        }
        assert(first + Seq::<LlamaToken>::empty() =~= first);
    }
}

proof fn a_turn_is_as_if_alone(
    turn: SpecTurn,
    context: Seq<LlamaToken>,
    id_last: LlamaToken,
    choose_next: spec_fn(Seq<LlamaToken>) -> LlamaToken,
    ends: spec_fn(LlamaToken) -> bool,
)
    requires
        step_on_target(turn, context, id_last, choose_next, ends),
    ensures
        ({
            let tokens = turn.tokens(id_last, ends);
            let seen = context.push(id_last);
            &&& tokens == chosen_alone(choose_next, seen, tokens.len())
            &&& forall|k: int| 0 <= k < tokens.len() ==> !ends(#[trigger] tokens[k])
            &&& turn.over(id_last, ends) ==> ends(choose_next(seen + tokens))
            &&& !turn.over(id_last, ends) ==> tokens.len() > 0
        }),
{
    let begun = spec_begun(turn.mtp, turn.n_past, id_last, turn.prompt);
    let end = turn.end(id_last);
    let seen = context.push(id_last);
    a_step_starts_as_if_alone(
        turn.mtp,
        turn.n_past,
        id_last,
        turn.prompt,
        choose_next,
        ends,
        context,
    );
    a_whole_step_is_as_if_alone(begun, turn.events, choose_next, ends, context);
    events_keep_the_last_token(begun, turn.events);
    assert(seen + Seq::<LlamaToken>::empty() =~= seen);
    if end.draft.len() > 0 {
        a_draft_always_yields_something(end);
    } else {
        let none = chosen_alone(choose_next, seen, 0);
        assert(chosen_alone(choose_next, seen, 1) == none.push(choose_next(seen + none)));
        assert(none.push(turn.drawn) =~= seq![turn.drawn]);
    }
}

proof fn events_keep_the_last_token(s: SpecView, events: Seq<SpecEventView>)
    ensures
        spec_played(s, events).id_last == s.id_last,
    decreases events.len(),
{
    if events.len() > 0 {
        events_keep_the_last_token(s.after(events.first()), events.drop_first());
    }
}

/// The output with speculation is the output without it. However many steps a
/// generation takes and whatever is drafted in each, what the steps emit one after the
/// other is what the target chooses alone behind the same context, token for token; no
/// emitted token ends the generation, and where the steps end it, the target alone
/// would end it there.
pub proof fn output_is_the_same_with_and_without_speculation(
    turns: Seq<SpecTurn>,
    context: Seq<LlamaToken>,
    id_last: LlamaToken,
    choose_next: spec_fn(Seq<LlamaToken>) -> LlamaToken,
    ends: spec_fn(LlamaToken) -> bool,
)
    requires
        steps_on_target(turns, context, id_last, choose_next, ends),
    ensures
        ({
            let out = emitted_by_steps(turns, id_last, ends);
            let seen = context.push(id_last);
            &&& out == chosen_alone(choose_next, seen, out.len())
            &&& forall|k: int| 0 <= k < out.len() ==> !ends(#[trigger] out[k])
            &&& ended_by_steps(turns, id_last, ends) ==> ends(choose_next(seen + out))
        }),
    decreases turns.len(),
{
    if turns.len() > 0 {
        let turn = turns.first();
        let tokens = turn.tokens(id_last, ends);
        let seen = context.push(id_last);
        let rest = turns.drop_first();
        a_turn_is_as_if_alone(turn, context, id_last, choose_next, ends);
        let more = emitted_by_steps(rest, tokens.last(), ends);
        let out = tokens + more;
        if rest.len() > 0 {
            let next = seen + tokens.drop_last();
            output_is_the_same_with_and_without_speculation(
                rest,
                next,
                tokens.last(),
                choose_next,
                ends,
            );
            assert(next.push(tokens.last()) =~= seen + tokens);
            chosen_alone_in_two(choose_next, seen, tokens.len(), more.len());
            assert((seen + tokens) + more =~= seen + out);
            assert forall|k: int| 0 <= k < out.len() implies !ends(#[trigger] out[k]) by {
                if k >= tokens.len() {
                    assert(out[k] == more[k - tokens.len()]);
                }
            }
        } else {
            assert(out =~= tokens);
        }
    }
}

/// A judged step makes progress: a token is emitted, or the generation ends.
pub proof fn a_draft_always_yields_something(s: SpecView)
    requires
        s.wf(),
        s.phase is Done,
        s.failure is None,
        s.draft.len() > 0,
    ensures
        s.emitted.len() > 0 || s.hit_eog,
{
}

/// What the cache holds of a step: the positions up to that of the last token, and
/// what the step wrote from there on.
pub open spec fn step_cells(s: SpecView, before: Seq<Cell>, kept: int) -> Seq<Cell> {
    before + cells((seq![s.id_last] + s.emitted).take(kept))
}

/// A rejected draft leaves no trace: once what was not endorsed is removed, the
/// cache holds, from the position of the last token on, that token and the emitted
/// ones but for the last of them, which is the next step's last token. Where nothing
/// has to be removed, it holds that already.
pub proof fn a_rejected_draft_leaves_no_trace(s: SpecView, before: Seq<Cell>)
    requires
        s.wf(),
        s.draft.len() > 0,
        before.len() == s.n_past,
        s.phase is RollBack || (s.phase is Accept && s.emitted.len() == s.seq().len()),
    ensures
        ({
            let written = before + cells(s.seq());
            let keep = s.n_past + s.emitted.len();
            &&& keep <= written.len()
            &&& written.take(keep) == step_cells(s, before, s.emitted.len() as int)
            &&& s.phase is RollBack ==> s.action() == SpecActionView::RemoveFrom(keep as u32)
                && keep < written.len()
            &&& s.phase is Accept ==> written.take(keep) == written
        }),
{
    let written = before + cells(s.seq());
    let m = s.emitted.len() as int;
    let keep = s.n_past + m;
    let n = s.n_accepted as int;
    let want = step_cells(s, before, m);
    assert forall|k: int| 0 <= k < m implies s.seq()[k] == (seq![s.id_last] + s.emitted)[k] by {
        if k > 0 {
            assert(k - 1 < n);
            assert(s.emitted.take(n)[k - 1] == s.emitted[k - 1]);
            assert(s.draft.take(n)[k - 1] == s.draft[k - 1]);
        }
    }
    assert(written.take(keep) =~= want);
    if s.phase is Accept {
        assert(written.take(keep) =~= written);
    }
}

/// A step that is judged leaves in the cache the context of the next one: where it held
/// the context of the step, it holds, once what was not endorsed is removed, also the
/// last token and the emitted ones but for the last.
pub proof fn a_step_leaves_the_context_of_the_next(s: SpecView, context: Seq<LlamaToken>)
    requires
        s.wf(),
        s.draft.len() > 0,
        s.emitted.len() > 0,
        context.len() == s.n_past,
        s.phase is RollBack || (s.phase is Accept && s.emitted.len() == s.seq().len()),
    ensures
        (cells(context) + cells(s.seq())).take(s.n_past + s.emitted.len()) == cells(
            context.push(s.id_last) + s.emitted.drop_last(),
        ),
        (context.push(s.id_last) + s.emitted.drop_last()).len() == s.n_past + s.emitted.len(),
{
    a_rejected_draft_leaves_no_trace(s, cells(context));
    let m = s.emitted.len() as int;
    assert(step_cells(s, cells(context), m) =~= cells(
        context.push(s.id_last) + s.emitted.drop_last(),
    ));
}

/// A step goes on only once what was not endorsed is gone: a removal that fails, or
/// that the engine declines, fails the step.
pub proof fn a_step_goes_on_only_without_the_rejected_draft(
    s: SpecView,
    done: Result<bool, Seq<char>>,
)
    requires
        s.wf(),
        s.phase is RollBack,
    ensures
        ({
            let t = s.after(SpecEventView::Removed(done));
            &&& done == Ok::<bool, Seq<char>>(true) ==> t.phase is Accept && t.failure is None
            &&& done != Ok::<bool, Seq<char>>(true) ==> t.phase is Done && t.failure is Some
        }),
{
}

/// How far a step still has to go.
pub open spec fn spec_steps_left(phase: SpecPhase) -> nat {
    match phase {
        SpecPhase::Draft => 6,
        SpecPhase::Batch => 5,
        SpecPhase::Verify { .. } => 4,
        SpecPhase::RollBack => 3,
        SpecPhase::Plain => 2,
        SpecPhase::Accept => 1,
        SpecPhase::Done => 0,
    }
}

/// Whether an event answers what was asked in a phase.
pub open spec fn spec_answers(event: SpecEventView, phase: SpecPhase) -> bool {
    match phase {
        SpecPhase::Draft => event is Drafted,
        SpecPhase::Plain | SpecPhase::Batch => event is Decoded,
        SpecPhase::Verify { .. } => event is Sampled,
        SpecPhase::RollBack => event is Removed,
        SpecPhase::Accept => event is Told,
        SpecPhase::Done => false,
    }
}

/// Every step ends: each answer brings it closer, or judges one more token of the
/// draft, of which there are finitely many.
pub proof fn every_answer_brings_the_step_closer(s: SpecView, event: SpecEventView)
    requires
        s.wf(),
        spec_answers(event, s.phase),
    ensures
        spec_steps_left(s.after(event).phase) < spec_steps_left(s.phase) || (s.phase matches
            SpecPhase::Verify { i } && s.after(event).phase == (SpecPhase::Verify {
            i: (i + 1) as usize,
        }) && i < s.draft.len()),
{
}

/// One speculative step.
#[derive(Debug)]
pub struct Speculation<'a> {
    mtp: MtpSession,
    n_past: i32,
    id_last: LlamaToken,
    prompt: &'a [LlamaToken],
    draft: Vec<LlamaToken>,
    phase: SpecPhase,
    emitted: Vec<LlamaToken>,
    n_accepted: usize,
    hit_eog: bool,
    failure: Option<ProviderError>,
}

impl<'a> View for Speculation<'a> {
    type V = SpecView;

    closed spec fn view(&self) -> SpecView {
        SpecView {
            mtp: self.mtp,
            n_past: self.n_past,
            id_last: self.id_last,
            prompt: self.prompt@,
            draft: self.draft@,
            phase: self.phase,
            emitted: self.emitted@,
            n_accepted: self.n_accepted,
            hit_eog: self.hit_eog,
            failure: match self.failure {
                Some(e) => Some(e@),
                None => None,
            },
        }
    }
}

/// Starts a speculative step behind the token `id_last`, whose position is `n_past`:
/// the step decodes that token there, behind the `n_past` positions of the cache.
/// `prompt` is what the drafter goes by.
pub fn speculate<'a>(
    mtp: &MtpSession,
    n_past: i32,
    id_last: LlamaToken,
    prompt: &'a [LlamaToken],
) -> (run: Speculation<'a>)
    ensures
        run@ == spec_begun(*mtp, n_past, id_last, prompt@),
        run@.wf(),
{
    let run = Speculation {
        mtp: *mtp,
        n_past,
        id_last,
        prompt,
        draft: Vec::new(),
        phase: if mtp.drafts() {
            SpecPhase::Draft
        } else {
            SpecPhase::Plain
        },
        emitted: Vec::new(),
        n_accepted: 0,
        hit_eog: false,
        failure: None,
    };
    proof {
        assert(run@.draft =~= Seq::<LlamaToken>::empty());
        assert(run@.emitted =~= Seq::<LlamaToken>::empty());
    }
    run
}

impl<'a> Speculation<'a> {
    fn fail(&mut self, e: ProviderError)
        ensures
            final(self)@ == old(self)@.failing(e@),
    {
        self.failure = Some(e);
        self.phase = SpecPhase::Done;
    }

    fn report(&mut self)
        requires
            old(self)@.mtp.accepted + old(self)@.n_accepted <= u32::MAX,
        ensures
            final(self)@ == old(self)@.reporting(),
    {
        let mut mtp = self.mtp;
        mtp.accept(self.n_accepted);
        self.mtp = mtp;
        self.phase = SpecPhase::Accept;
    }

    fn judged(&mut self)
        requires
            old(self)@.emitted.len() > old(self)@.draft.len() ==> old(self)@.mtp.accepted + old(
                self,
            )@.n_accepted <= u32::MAX,
        ensures
            final(self)@ == old(self)@.judged(),
    {
        if self.emitted.len() <= self.draft.len() {
            self.phase = SpecPhase::RollBack;
        } else {
            self.report();
        }
    }

    fn accepted_fits(&self) -> (r: bool)
        ensures
            r == (self@.mtp.accepted + self@.n_accepted <= u32::MAX),
    {
        self.n_accepted <= (u32::MAX - self.mtp.accepted) as usize
    }

    /// Whether what this event makes the step count can be counted.
    pub fn counts_fit(&self, event: &SpecEvent) -> (r: bool)
        requires
            self@.wf(),
        ensures
            r == self@.counts_fit(event@),
    {
        match (self.phase, event) {
            (SpecPhase::Draft, SpecEvent::Drafted(Ok(draft))) => draft.len() <= (u32::MAX
                - self.mtp.drafted) as usize && draft.len() <= i32::MAX as usize && (self.n_past
                <= 0 || draft.len() <= (i32::MAX - self.n_past) as usize),
            (SpecPhase::Verify { i }, SpecEvent::Sampled { token: _, eog }) => *eog || i
                != self.draft.len() || self.accepted_fits(),
            (SpecPhase::RollBack, SpecEvent::Removed(Ok(true))) => self.accepted_fits(),
            _ => true,
        }
    }

    /// Takes what came of the last action.
    pub fn step(&mut self, event: SpecEvent)
        requires
            old(self)@.wf(),
            old(self)@.counts_fit(event@),
        ensures
            final(self)@ == old(self)@.after(event@),
            final(self)@.wf(),
    {
        proof {
            every_event_keeps_a_step_well_formed(self@, event@);
        }
        match (self.phase, event) {
            (SpecPhase::Draft, SpecEvent::Drafted(done)) => {
                let mut mtp = self.mtp;
                match mtp.draft(done) {
                    Ok(draft) => {
                        self.mtp = mtp;
                        self.phase = if draft.len() == 0 {
                            SpecPhase::Plain
                        } else {
                            SpecPhase::Batch
                        };
                        self.draft = draft;
                    },
                    Err(e) => {
                        self.fail(e);
                    },
                }
            },
            (SpecPhase::Plain, SpecEvent::Decoded(done)) => match done {
                Ok(_) => {
                    self.report();
                },
                Err(BatchFailure::Build(e)) => {
                    self.fail(execution_error("batch: ", e.as_str()));
                },
                Err(BatchFailure::Engine(e)) => {
                    self.fail(execution_error("decode: ", e.as_str()));
                },
            },
            (SpecPhase::Batch, SpecEvent::Decoded(done)) => match done {
                Ok(_) => {
                    self.phase = SpecPhase::Verify { i: 0 };
                },
                Err(BatchFailure::Build(e)) => {
                    self.fail(execution_error("batch add: ", e.as_str()));
                },
                Err(BatchFailure::Engine(e)) => {
                    self.fail(execution_error("speculative decode: ", e.as_str()));
                },
            },
            (SpecPhase::Verify { i }, SpecEvent::Sampled { token, eog }) => {
                if eog {
                    self.hit_eog = true;
                    self.judged();
                } else {
                    self.emitted.push(token);
                    if i < self.draft.len() && token == self.draft[i] {
                        self.n_accepted = self.n_accepted + 1;
                        self.phase = SpecPhase::Verify { i: i + 1 };
                    } else {
                        self.judged();
                    }
                }
            },
            (SpecPhase::RollBack, SpecEvent::Removed(done)) => match done {
                Ok(true) => {
                    self.report();
                },
                Ok(false) => {
                    self.fail(
                        ProviderError::ExecutionError(
                            "failed to roll back rejected draft: the engine declined the removal".to_owned(),
                        ),
                    );
                },
                Err(e) => {
                    self.fail(execution_error("failed to roll back rejected draft: ", e.as_str()));
                },
            },
            (SpecPhase::Accept, SpecEvent::Told(done)) => match done {
                Ok(_) => {
                    self.phase = SpecPhase::Done;
                },
                Err(e) => {
                    self.fail(execution_error("MTP accept failed: ", e.as_str()));
                },
            },
            _ => {},
        }
    }

    fn batch(&self) -> (batch: Vec<BatchEntry>)
        requires
            self@.wf(),
        ensures
            batch@ == self@.batch(),
    {
        let ghost want = self@.batch();
        let mut batch: Vec<BatchEntry> = Vec::new();
        batch.push(BatchEntry { token: self.id_last, pos: self.n_past, logits: true });
        let mut i: usize = 0;
        assert(batch@ =~= want.take(1));
        while i < self.draft.len()
            invariant
                i <= self.draft.len(),
                self@.wf(),
                want == self@.batch(),
                batch@ == want.take(i + 1),
            decreases self.draft@.len() - i,
        {
            batch.push(
                BatchEntry {
                    token: self.draft[i],
                    pos: self.n_past + (i + 1) as i32,
                    logits: true,
                },
            );
            assert(batch@ =~= want.take(i + 2));
            i += 1;
        }
        assert(want.take(i + 1) =~= want);
        batch
    }

    /// What is asked now.
    pub fn action(&self) -> (action: SpecAction<'a>)
        requires
            self@.wf(),
        ensures
            action@ == self@.action(),
    {
        match self.phase {
            SpecPhase::Draft => SpecAction::Draft {
                n_past: self.n_past,
                id_last: self.id_last,
                prompt: self.prompt,
            },
            SpecPhase::Plain => SpecAction::DecodeOne(self.id_last),
            SpecPhase::Batch => SpecAction::DecodeBatch(self.batch()),
            SpecPhase::Verify { i } => SpecAction::Sample(i as i32),
            SpecPhase::RollBack => SpecAction::RemoveFrom(
                (self.n_past + self.emitted.len() as i32) as u32,
            ),
            SpecPhase::Accept => SpecAction::Accept(self.n_accepted as u16),
            SpecPhase::Done => SpecAction::Finish,
        }
    }

    /// What the step comes to: the drafter's ledger, and what is emitted or the
    /// failure.
    pub fn finish(self) -> (end: (MtpSession, Result<SpecStep, ProviderError>))
        requires
            self@.phase is Done,
        ensures
            end.0 == self@.mtp,
            match end.1 {
                Ok(step) => self@.failure is None && step.tokens@ == self@.emitted && step.hit_eog
                    == self@.hit_eog,
                Err(e) => self@.failure == Some(e@),
            },
    {
        let outcome = match self.failure {
            Some(e) => Err(e),
            None => Ok(SpecStep { tokens: self.emitted, hit_eog: self.hit_eog }),
        };
        (self.mtp, outcome)
    }
}

/// A step asks the drafter first, with the position, the last token and the prompt that it
/// was given, or, where nothing is drafted, decodes the last token alone.
pub proof fn a_step_begins_with_the_drafter(
    mtp: MtpSession,
    n_past: i32,
    id_last: LlamaToken,
    prompt: Seq<LlamaToken>,
)
    ensures
        ({
            let s = spec_begun(mtp, n_past, id_last, prompt);
            &&& mtp.n_max > 0 ==> s.action() == (SpecActionView::Draft { n_past, id_last, prompt })
            &&& mtp.n_max == 0 ==> s.action() == SpecActionView::DecodeOne(id_last)
            &&& s.mtp == mtp && s.emitted.len() == 0 && s.failure is None && !s.hit_eog
        }),
{
}

/// A draft is decoded behind the last token, each token one position on and each with its
/// logits; without a draft the last token is decoded alone. The tokens of the draft are
/// counted.
pub proof fn a_draft_is_decoded_behind_the_last_token(s: SpecView, draft: Seq<LlamaToken>)
    requires
        s.wf(),
        s.phase is Draft,
        s.counts_fit(SpecEventView::Drafted(Ok(draft))),
    ensures
        ({
            let t = s.after(SpecEventView::Drafted(Ok(draft)));
            &&& draft.len() == 0 ==> t.action() == SpecActionView::DecodeOne(s.id_last)
            &&& draft.len() > 0 ==> (t.action() matches SpecActionView::DecodeBatch(batch) && {
                &&& batch.len() == draft.len() + 1
                &&& batch[0].token == s.id_last && batch[0].pos == s.n_past && batch[0].logits
                &&& forall|i: int|
                    0 <= i < draft.len() ==> (#[trigger] batch[i + 1]).token == draft[i]
                        && batch[i + 1].pos == s.n_past + i + 1 && batch[i + 1].logits
            })
            &&& t.mtp.drafted == s.mtp.drafted + draft.len()
            &&& t.mtp.accepted == s.mtp.accepted
            &&& t.mtp.n_max == s.mtp.n_max
            &&& t.draft == draft
        }),
{
}

/// The target is asked behind each token in turn. It is asked on as long as it chooses
/// what was drafted. Then the positions from the first that was not endorsed on are
/// removed, or, where there is none, the drafter is told at once. Every choice but one
/// that ends the generation is emitted.
pub proof fn the_target_judges_token_by_token(s: SpecView, i: usize, token: LlamaToken, eog: bool)
    requires
        s.wf(),
        s.phase == (SpecPhase::Verify { i }),
        s.counts_fit(SpecEventView::Sampled { token, eog }),
        s.n_past >= 0,
    ensures
        s.action() == SpecActionView::Sample(i as i32),
        s.emitted.len() == i,
        ({
            let t = s.after(SpecEventView::Sampled { token, eog });
            let agreed = !eog && i < s.draft.len() && token == s.draft[i as int];
            &&& t.emitted == (if eog {
                s.emitted
            } else {
                s.emitted.push(token)
            })
            &&& t.hit_eog == eog
            &&& agreed ==> t.action() == SpecActionView::Sample((i + 1) as i32)
            &&& !agreed && t.emitted.len() <= s.draft.len() ==> t.action()
                == SpecActionView::RemoveFrom((s.n_past + t.emitted.len()) as u32)
            &&& !agreed && t.emitted.len() > s.draft.len() ==> t.action()
                == SpecActionView::Accept(i as u16) && t.mtp.accepted == s.mtp.accepted + i
            &&& t.failure is None && t.mtp.drafted == s.mtp.drafted
        }),
{
}

/// What follows each answer of the engine: a decoded batch is judged from its first token
/// on; a lone token is reported as nothing endorsed; what was removed is reported with the
/// number of tokens that were endorsed, which is counted once; and the step is over, and
/// succeeded, once the drafter has been told. Whatever the engine declines ends the step
/// with an error.
pub proof fn a_step_ends_once_the_drafter_is_told(s: SpecView)
    requires
        s.wf(),
        s.failure is None,
        s.mtp.accepted + s.n_accepted <= u32::MAX,
    ensures
        s.phase is Batch ==> {
            &&& s.after(SpecEventView::Decoded(Ok(()))).action() == SpecActionView::Sample(0)
            &&& forall|e: BatchFailure|
                (#[trigger] s.after(SpecEventView::Decoded(Err(e)))).failure is Some && s.after(
                    SpecEventView::Decoded(Err(e)),
                ).action() is Finish
        },
        s.phase is Plain ==> {
            &&& s.after(SpecEventView::Decoded(Ok(()))).action() == SpecActionView::Accept(0)
            &&& s.after(SpecEventView::Decoded(Ok(()))).mtp == s.mtp
            &&& forall|e: BatchFailure|
                (#[trigger] s.after(SpecEventView::Decoded(Err(e)))).failure is Some && s.after(
                    SpecEventView::Decoded(Err(e)),
                ).action() is Finish
        },
        s.phase is RollBack ==> {
            let t = s.after(SpecEventView::Removed(Ok(true)));
            &&& t.action() == SpecActionView::Accept(s.n_accepted as u16)
            &&& t.mtp.accepted == s.mtp.accepted + s.n_accepted
            &&& t.emitted == s.emitted && t.hit_eog == s.hit_eog && t.failure is None
            &&& s.after(SpecEventView::Removed(Ok(false))).failure is Some
            &&& s.after(SpecEventView::Removed(Ok(false))).action() is Finish
            &&& forall|e: Seq<char>|
                (#[trigger] s.after(SpecEventView::Removed(Err(e)))).failure is Some
        },
        s.phase is Accept ==> {
            let t = s.after(SpecEventView::Told(Ok(())));
            &&& t.action() is Finish && t.failure is None && t.emitted == s.emitted && t.mtp
                == s.mtp && t.hit_eog == s.hit_eog
            &&& forall|e: Seq<char>|
                (#[trigger] s.after(SpecEventView::Told(Err(e)))).failure is Some
        },
{
}

/// What came of an action, and what is asked, are seen as they are.
pub proof fn a_step_reads_events_as_they_come(
    draft: Vec<LlamaToken>,
    token: LlamaToken,
    eog: bool,
    removed: bool,
    e: String,
    decoded: Result<(), BatchFailure>,
)
    ensures
        SpecEvent::Drafted(Ok(draft))@ == SpecEventView::Drafted(Ok(draft@)),
        SpecEvent::Drafted(Err(e))@ == SpecEventView::Drafted(Err(e@)),
        SpecEvent::Decoded(decoded)@ == SpecEventView::Decoded(decoded),
        (SpecEvent::Sampled { token, eog })@ == (SpecEventView::Sampled { token, eog }),
        SpecEvent::Removed(Ok(removed))@ == SpecEventView::Removed(Ok(removed)),
        SpecEvent::Removed(Err(e))@ == SpecEventView::Removed(Err(e@)),
        SpecEvent::Told(Ok(()))@ == SpecEventView::Told(Ok(())),
        SpecEvent::Told(Err(e))@ == SpecEventView::Told(Err(e@)),
{
}

/// What the engine failed at is reported with what it said.
pub proof fn a_failed_step_is_reported_as_what_failed(e: String)
    ensures
        plain_error(BatchFailure::Build(e)) == ErrorView::ExecutionError("batch: "@ + e@),
        plain_error(BatchFailure::Engine(e)) == ErrorView::ExecutionError("decode: "@ + e@),
        batch_error(BatchFailure::Build(e)) == ErrorView::ExecutionError("batch add: "@ + e@),
        batch_error(BatchFailure::Engine(e)) == ErrorView::ExecutionError(
            "speculative decode: "@ + e@,
        ),
{
}

/// What is asked in a step is seen as it is.
pub proof fn a_step_asks_what_is_seen(
    n_past: i32,
    id_last: LlamaToken,
    prompt: &[LlamaToken],
    batch: Vec<BatchEntry>,
    pos: u32,
    n: u16,
)
    ensures
        (SpecAction::Draft { n_past, id_last, prompt })@ == (SpecActionView::Draft {
            n_past,
            id_last,
            prompt: prompt@,
        }),
        SpecAction::DecodeOne(id_last)@ == SpecActionView::DecodeOne(id_last),
        SpecAction::DecodeBatch(batch)@ == SpecActionView::DecodeBatch(batch@),
        SpecAction::Sample(n_past)@ == SpecActionView::Sample(n_past),
        SpecAction::RemoveFrom(pos)@ == SpecActionView::RemoveFrom(pos),
        SpecAction::Accept(n)@ == SpecActionView::Accept(n),
        SpecAction::Finish@ == SpecActionView::Finish,
{
}

/// Whatever happens, a step keeps what it was asked for.
pub proof fn a_step_keeps_what_it_was_asked_for(s: SpecView, event: SpecEventView)
    ensures
        ({
            let t = s.after(event);
            &&& t.n_past == s.n_past
            &&& t.id_last == s.id_last
            &&& t.prompt == s.prompt
            &&& t.mtp.n_max == s.mtp.n_max
            &&& !(s.phase is Draft) ==> t.draft == s.draft && t.mtp.drafted == s.mtp.drafted
            &&& !(s.phase is Verify) ==> t.emitted == s.emitted && t.hit_eog == s.hit_eog
                && t.n_accepted == s.n_accepted
        }),
{
}

/// An answer to something that was not asked changes nothing.
pub proof fn a_step_ignores_what_it_did_not_ask(s: SpecView, event: SpecEventView)
    requires
        match event {
            SpecEventView::Drafted(_) => !(s.action() is Draft),
            SpecEventView::Decoded(_) => !(s.action() is DecodeOne || s.action() is DecodeBatch),
            SpecEventView::Sampled { .. } => !(s.action() is Sample),
            SpecEventView::Removed(_) => !(s.action() is RemoveFrom),
            SpecEventView::Told(_) => !(s.action() is Accept),
        },
    ensures
        s.after(event) == s,
{
}

/// A drafter that fails, or that is told in vain, fails the step with what it said.
pub proof fn a_failed_drafter_fails_the_step(s: SpecView, e: Seq<char>)
    ensures
        s.phase is Draft ==> s.after(SpecEventView::Drafted(Err(e))).failure == Some(
            ErrorView::ExecutionError("MTP draft failed: "@ + e),
        ) && s.after(SpecEventView::Drafted(Err(e))).action() is Finish,
        s.phase is RollBack ==> s.after(SpecEventView::Removed(Err(e))).failure == Some(
            ErrorView::ExecutionError("failed to roll back rejected draft: "@ + e),
        ) && s.after(SpecEventView::Removed(Err(e))).action() is Finish,
        s.phase is Accept ==> s.after(SpecEventView::Told(Err(e))).failure == Some(
            ErrorView::ExecutionError("MTP accept failed: "@ + e),
        ) && s.after(SpecEventView::Told(Err(e))).action() is Finish,
{
}

} // verus!

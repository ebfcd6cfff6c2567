//! Filling a cache with a prompt that carries images.
//!
//! Where the retained cache already holds this very image list at these very
//! positions, only the text behind the last image is decoded, and neither the
//! vision encoder nor the prefill of what stands before it runs. Else the cache is
//! built anew.

use vstd::prelude::*;
use vstd::string::*;

use crate::decode::DecodeFailure;
use crate::error::{
    context_size_error, execution_error, report_context_size, ErrorView, ProviderError,
};
use crate::media::{
    a_cut_keeps_every_position, a_head_matches_only_its_own_reproduction,
    a_prompt_is_described_span_by_span, all_described, chunk_views, described, image_views, positions, positions_fit, read_chunks, split, split_at_last_media,
    ChunkFacts, ExtractedImage, HeadView, MediaHead, SplitChunks, SplitView,
};
use crate::prefill::{decoded_view, Chore, ChoreView, PrefilledPrompt, PrefilledView};
use crate::session::{
    a_resume_keeps_what_is_shared_and_leaves_a_token, empty_session, kept_prefix_tokens,
    kept_tokens, plan_of, prefill_plan, retained_kv_tokens, retained_window, session_view,
    PrefillPlan, RetainedPrefix, SessionKv, SessionView,
};
use crate::settings::ModelSettings;
use crate::text::{decimal, push_decimal};
use crate::token::{shared_prefix, shared_prefix_begins_both, tokens_from, LlamaToken};
use crate::window::{
    a_request_is_given_the_window_of_its_limits, cache_bytes, comes_to, effective_context_size,
    estimate_is_countable, is_real_size, lacks_headroom, request_memory, request_memory_max,
    request_window, the_estimate_fills_half_of_what_is_left, HostReading, LimitsView, ModelFacts,
    ReadingView, MIN_GENERATION_HEADROOM,
};

verus! {

/// Where a run stands: what was asked last.
#[derive(Clone, Copy, Debug, PartialEq, Eq, Structural)]
pub enum MediaPhase {
    /// The images are decoded.
    Images,
    /// The prompt is cut into spans of text and media.
    Tokenize,
    /// The retained cache is cut back to what the prompt shares with it.
    ReuseTrim { resume: usize, kept: usize },
    /// The rest of the text behind the head is decoded.
    ReuseDecode { resume: usize, kept: usize },
    /// A context is created for the whole prompt.
    Create,
    /// Every span is evaluated from the first position.
    Evaluate,
    Done,
}

/// What is asked.
#[derive(Clone, Copy, Debug, PartialEq, Eq, Structural)]
pub enum MediaAction {
    DecodeImages,
    Tokenize,
    /// Remove every position from that one on.
    Trim { pos: u32 },
    /// Decode the tokens behind the head from index `from` on, the first at position
    /// `start`.
    Decode { from: usize, start: usize },
    CreateContext { n_ctx: u32 },
    EvaluateSpans,
    Finish,
}

/// A prompt that was cut into spans.
#[derive(Debug)]
pub struct Spans {
    pub total_tokens: usize,
    /// What is said of each span, where something is.
    pub chunks: Vec<Option<ChunkFacts>>,
}

/// A prompt that was cut into spans, as a sequence.
#[verifier::ext_equal]
pub struct SpansView {
    pub total_tokens: usize,
    pub chunks: Seq<Option<ChunkFacts>>,
}

impl View for Spans {
    type V = SpansView;

    open spec fn view(&self) -> SpansView {
        SpansView { total_tokens: self.total_tokens, chunks: self.chunks@ }
    }
}

/// What came of an action.
#[derive(Debug)]
pub enum MediaEvent {
    Images(Result<(), String>),
    /// The spans, and what the host said once there were spans.
    Tokenized(Result<(Spans, HostReading), String>),
    Trimmed(bool),
    Decoded(Result<(), DecodeFailure>),
    Context(Result<u32, String>),
    /// The position behind the last one that was evaluated.
    Evaluated(Result<i32, String>),
}

/// What came of an action, as sequences. Of a decode that failed, only what is
/// reported of it.
#[verifier::ext_equal]
pub enum MediaEventView {
    Images(Result<(), Seq<char>>),
    Tokenized(Result<(SpansView, ReadingView), Seq<char>>),
    Trimmed(bool),
    Decoded(Result<(), ErrorView>),
    Context(Result<u32, Seq<char>>),
    Evaluated(Result<i32, Seq<char>>),
}

impl View for MediaEvent {
    type V = MediaEventView;

    open spec fn view(&self) -> MediaEventView {
        match self {
            MediaEvent::Images(done) => MediaEventView::Images(
                match done {
                    Ok(_) => Ok(()),
                    Err(e) => Err(e@),
                },
            ),
            MediaEvent::Tokenized(done) => MediaEventView::Tokenized(
                match done {
                    Ok(tokenized) => Ok((tokenized.0@, tokenized.1@)),
                    Err(e) => Err(e@),
                },
            ),
            MediaEvent::Trimmed(done) => MediaEventView::Trimmed(*done),
            MediaEvent::Decoded(done) => MediaEventView::Decoded(decoded_view(*done)),
            MediaEvent::Context(made) => MediaEventView::Context(
                match made {
                    Ok(capacity) => Ok(*capacity),
                    Err(e) => Err(e@),
                },
            ),
            MediaEvent::Evaluated(done) => MediaEventView::Evaluated(
                match done {
                    Ok(n_past) => Ok(*n_past),
                    Err(e) => Err(e@),
                },
            ),
        }
    }
}

/// The cut behind the last image, if every span can be described and their
/// positions counted.
pub open spec fn described_split(chunks: Seq<Option<ChunkFacts>>) -> Option<SplitView> {
    match all_described(chunks) {
        Some(list) => if positions(list) <= usize::MAX {
            split(list)
        } else {
            None
        },
        None => None,
    }
}

fn describe_and_split(chunks: &[Option<ChunkFacts>]) -> (s: Option<SplitChunks>)
    ensures
        described_split(chunks@) == (match s {
            Some(s) => Some(s@),
            None => None,
        }),
        s matches Some(s) ==> s@.head_pos + s@.tail.len() <= usize::MAX,
{
    match read_chunks(chunks) {
        Some(list) => {
            proof {
                a_cut_keeps_every_position(chunk_views(list@));
            }
            if positions_fit(list.as_slice()) {
                split_at_last_media(list)
            } else {
                None
            }
        },
        None => None,
    }
}

/// What is said of a prompt with images for a model without vision.
pub open spec fn no_vision_message() -> Seq<char> {
    "This model does not have vision support. Download the vision encoder from Settings > Local Inference, or use a text-only message."@
}

/// What is said of a prompt with images that does not fit.
pub open spec fn too_long_message(tokens: nat, window: nat) -> Seq<char> {
    "Multimodal prompt ("@ + decimal(tokens) + " tokens including images) exceeds context limit ("@
        + decimal(window) + " tokens)"@
}

/// A run, as plain sequences.
#[verifier::ext_equal]
pub struct MediaView {
    /// What the retained context holds.
    pub session: Option<SessionView>,
    pub images: Seq<Seq<u8>>,
    pub settings: ModelSettings,
    pub facts: ModelFacts,
    pub context_limit: usize,
    /// The window of the request, once the prompt was cut into spans.
    pub window: usize,
    pub prompt_tokens: usize,
    /// The prompt, cut behind its last image, where it could be described. Once it is
    /// retained it is part of the session.
    pub split: Option<SplitView>,
    pub phase: MediaPhase,
    pub reused: usize,
    /// What the throwaway context holds, where there is one.
    pub transient: Option<SessionView>,
    pub failure: Option<ErrorView>,
    pub chores: Seq<ChoreView>,
}

impl MediaView {
    /// The run is over, and failed.
    pub open spec fn failing(self, e: ErrorView) -> MediaView {
        MediaView { failure: Some(e), phase: MediaPhase::Done, ..self }
    }

    /// Nothing left to do before the next action.
    pub open spec fn fresh(self) -> MediaView {
        MediaView { chores: Seq::empty(), ..self }
    }

    /// Without the retained context.
    pub open spec fn released(self) -> MediaView {
        if self.session is Some {
            MediaView {
                session: None,
                chores: self.chores.push(ChoreView::ReleaseContext),
                ..self
            }
        } else {
            self
        }
    }

    /// With these tokens recorded of the retained context.
    pub open spec fn recording(self, tokens: Seq<LlamaToken>) -> MediaView {
        MediaView {
            session: match self.session {
                Some(kv) => Some(SessionView { tokens, ..kv }),
                None => None,
            },
            ..self
        }
    }

    /// The tokens recorded of the retained context.
    pub open spec fn recorded(self) -> Seq<LlamaToken> {
        match self.session {
            Some(kv) => kv.tokens,
            None => Seq::empty(),
        }
    }

    /// The cache is built anew; the retained one is released first.
    pub open spec fn rebuilding(self) -> MediaView {
        MediaView { phase: MediaPhase::Create, ..self.released() }
    }

    /// The media head of this prompt.
    pub open spec fn head(self) -> HeadView {
        HeadView {
            chunks: self.split->0.head,
            n_pos: self.split->0.head_pos as usize,
            images: self.images,
        }
    }

    /// Where decode resumes behind the retained head, and how many tokens are kept
    /// there, if the prompt reproduces that head.
    pub open spec fn resume(self) -> Option<(usize, usize)> {
        match (self.session, self.split) {
            (Some(kv), Some(cut)) => if kv.head == Some(self.head()) {
                match plan_of(Some(kv.resumable()), cut.tail, self.window as u32) {
                    PrefillPlan::ReusePrefix(resume) => match kept_tokens(
                        resume,
                        kv.media_pos() as usize,
                        cut.tail.len() as usize,
                        kv.tokens.len() as usize,
                    ) {
                        Some(kept) => if resume <= u32::MAX {
                            Some((resume, kept))
                        } else {
                            None
                        },
                        None => None,
                    },
                    _ => None,
                }
            } else {
                None
            },
            _ => None,
        }
    }

    /// The images were decoded, or one was not.
    pub open spec fn after_images(self, done: Result<(), Seq<char>>) -> MediaView {
        match done {
            Ok(_) => MediaView { phase: MediaPhase::Tokenize, ..self },
            Err(e) => self.failing(ErrorView::ExecutionError("Failed to decode image: "@ + e)),
        }
    }

    /// The window of the request by that reading. That of the retained cache counts as
    /// available: it is kept, or released before its replacement is allocated.
    pub open spec fn window_now(self, reading: ReadingView) -> usize {
        request_window(
            &self.facts,
            true,
            self.settings,
            reading.limits(self.context_limit, retained_window(self.session)),
        )
    }

    /// The prompt was cut into spans, or not. It is measured against what the host
    /// says now.
    pub open spec fn after_tokenized(
        self,
        done: Result<(SpansView, ReadingView), Seq<char>>,
    ) -> MediaView {
        match done {
            Ok((spans, reading)) => {
                let window = self.window_now(reading);
                let s = MediaView { prompt_tokens: spans.total_tokens, window, ..self };
                if spans.total_tokens + MIN_GENERATION_HEADROOM > window {
                    s.failing(
                        ErrorView::ContextLengthExceeded(
                            too_long_message(spans.total_tokens as nat, window as nat),
                        ),
                    )
                } else if window > u32::MAX {
                    s.failing(context_size_error(window as nat))
                } else {
                    let cut = MediaView { split: described_split(spans.chunks), ..s };
                    match cut.resume() {
                        Some((resume, kept)) => MediaView {
                            phase: MediaPhase::ReuseTrim { resume, kept },
                            ..cut
                        },
                        None => cut.rebuilding(),
                    }
                }
            },
            Err(e) => self.failing(
                ErrorView::ExecutionError("Multimodal tokenization failed: "@ + e),
            ),
        }
    }

    /// The retained cache was cut back for a resume, or the engine declined.
    pub open spec fn after_trim(self, done: bool, resume: usize, kept: usize) -> MediaView {
        if done {
            MediaView {
                phase: MediaPhase::ReuseDecode { resume, kept },
                ..self.recording(self.recorded().take(kept as int))
            }
        } else {
            self.rebuilding()
        }
    }

    /// The rest behind the kept tokens was decoded, or not.
    pub open spec fn after_decode(
        self,
        done: Result<(), ErrorView>,
        resume: usize,
        kept: usize,
    ) -> MediaView {
        match done {
            Ok(_) => MediaView {
                reused: resume,
                phase: MediaPhase::Done,
                ..self.recording(self.recorded() + self.split->0.tail.skip(kept as int))
            },
            Err(_) => self.rebuilding(),
        }
    }

    /// A context was created, or not.
    pub open spec fn after_context(self, made: Result<u32, Seq<char>>) -> MediaView {
        match made {
            Ok(_) => MediaView {
                session: Some(empty_session(self.window as u32)),
                phase: MediaPhase::Evaluate,
                ..self
            },
            Err(e) => self.failing(ErrorView::ExecutionError("Failed to create context: "@ + e)),
        }
    }

    /// Whether what was evaluated can be resumed later: the prompt was described,
    /// and its end, which the engine agrees on, is a position that can be addressed.
    pub open spec fn retainable(self, n_past: i32) -> bool {
        self.split is Some && self.split->0.head_pos + self.split->0.tail.len() == n_past
    }

    /// The spans were evaluated, or not. A cache that can never be resumed serves
    /// this generation and is dropped with it.
    pub open spec fn after_evaluation(self, done: Result<i32, Seq<char>>) -> MediaView {
        match done {
            Ok(n_past) => if self.retainable(n_past) {
                MediaView {
                    session: Some(
                        SessionView {
                            head: Some(self.head()),
                            tokens: self.split->0.tail,
                            n_ctx: self.window as u32,
                        },
                    ),
                    split: None,
                    phase: MediaPhase::Done,
                    ..self
                }
            } else {
                MediaView {
                    session: None,
                    transient: Some(empty_session(self.window as u32)),
                    phase: MediaPhase::Done,
                    chores: self.chores.push(ChoreView::DetachContext),
                    ..self
                }
            },
            Err(e) => self.released().failing(
                ErrorView::ExecutionError("Multimodal eval failed: "@ + e),
            ),
        }
    }

    /// What follows from an event. One that does not answer what was asked changes
    /// nothing.
    pub open spec fn after(self, event: MediaEventView) -> MediaView {
        let s = self.fresh();
        match (self.phase, event) {
            (MediaPhase::Images, MediaEventView::Images(done)) => s.after_images(done),
            (MediaPhase::Tokenize, MediaEventView::Tokenized(done)) => s.after_tokenized(done),
            (
                MediaPhase::ReuseTrim { resume, kept },
                MediaEventView::Trimmed(done),
            ) => s.after_trim(done, resume, kept),
            (
                MediaPhase::ReuseDecode { resume, kept },
                MediaEventView::Decoded(done),
            ) => s.after_decode(done, resume, kept),
            (MediaPhase::Create, MediaEventView::Context(made)) => s.after_context(made),
            (MediaPhase::Evaluate, MediaEventView::Evaluated(done)) => s.after_evaluation(done),
            _ => self,
        }
    }

    /// What is asked.
    pub open spec fn action(self) -> MediaAction {
        match self.phase {
            MediaPhase::Images => MediaAction::DecodeImages,
            MediaPhase::Tokenize => MediaAction::Tokenize,
            MediaPhase::ReuseTrim { resume, .. } => MediaAction::Trim { pos: resume as u32 },
            MediaPhase::ReuseDecode { resume, kept } => MediaAction::Decode {
                from: kept,
                start: resume,
            },
            MediaPhase::Create => MediaAction::CreateContext { n_ctx: self.window as u32 },
            MediaPhase::Evaluate => MediaAction::EvaluateSpans,
            MediaPhase::Done => MediaAction::Finish,
        }
    }

    /// Whether the retained context holds the head of this prompt, and at least the
    /// first `kept` tokens behind it.
    pub open spec fn holds_head_and(self, kept: int) -> bool {
        &&& self.split is Some
        &&& 0 <= kept <= self.split->0.tail.len()
        &&& self.session matches Some(kv) && kv.head == Some(self.head()) && kept
            <= kv.tokens.len() && kv.tokens.take(kept) == self.split->0.tail.take(kept)
    }

    /// Whether what this event makes the run count can be counted: spans that came back
    /// are measured against what memory then allows.
    pub open spec fn counts_fit(self, event: MediaEventView) -> bool {
        match (self.phase, event) {
            (MediaPhase::Tokenize, MediaEventView::Tokenized(done)) => done matches Ok(tokenized)
                ==> self.facts.shape.measurable(
                tokenized.1.available_memory_bytes,
                retained_window(self.session),
            ),
            _ => true,
        }
    }

    /// What holds of every run, between one answer and the next.
    pub open spec fn wf(self) -> bool {
        &&& self.session matches Some(kv) ==> kv.fits()
        &&& self.split matches Some(cut) ==> cut.head_pos + cut.tail.len() <= usize::MAX
        &&& self.transient is Some ==> self.phase is Done
        &&& match self.phase {
            MediaPhase::Images | MediaPhase::Tokenize => true,
            MediaPhase::ReuseTrim { resume, kept } => {
                &&& self.holds_head_and(kept as int)
                &&& kept < self.split->0.tail.len()
                &&& resume == self.split->0.head_pos + kept
                &&& resume <= u32::MAX
                &&& self.window <= u32::MAX
            },
            MediaPhase::ReuseDecode { resume, kept } => {
                &&& self.holds_head_and(kept as int)
                &&& self.recorded().len() == kept
                &&& kept < self.split->0.tail.len()
                &&& resume == self.split->0.head_pos + kept
                &&& self.window <= u32::MAX
            },
            MediaPhase::Create => self.session is None && self.window <= u32::MAX,
            MediaPhase::Evaluate => self.session == Some(empty_session(self.window as u32))
                && self.window <= u32::MAX,
            MediaPhase::Done => self.failure is None ==> (self.session is Some) != (self.transient
                is Some),
        }
        &&& self.failure is Some ==> self.phase is Done && self.transient is None
    }

    /// What a run that is done comes to.
    pub open spec fn outcome(self) -> Result<(usize, PrefilledView), ErrorView> {
        match self.failure {
            Some(e) => Err(e),
            None => Ok(
                (
                    self.prompt_tokens,
                    PrefilledView {
                        reused_prefix_tokens: self.reused,
                        transient: self.transient,
                        effective_ctx: self.window,
                    },
                ),
            ),
        }
    }
}

/// A run at its start.
pub open spec fn media_begun(
    session: Option<SessionView>,
    has_mtmd: bool,
    images: Seq<Seq<u8>>,
    settings: ModelSettings,
    facts: ModelFacts,
    context_limit: usize,
) -> MediaView {
    let s = MediaView {
        session,
        images,
        settings,
        facts,
        context_limit,
        window: 0,
        prompt_tokens: 0,
        split: None,
        phase: MediaPhase::Images,
        reused: 0,
        transient: None,
        failure: None,
        chores: Seq::empty(),
    };
    if has_mtmd {
        s
    } else {
        s.failing(ErrorView::ExecutionError(no_vision_message()))
    }
}

proof fn a_resume_is_honoured(s: MediaView)
    requires
        s.session matches Some(kv) ==> kv.fits(),
        s.split matches Some(cut) ==> cut.head_pos + cut.tail.len() <= usize::MAX,
        s.resume() is Some,
    ensures
        ({
            let (resume, kept) = s.resume()->0;
            &&& s.holds_head_and(kept as int)
            &&& kept < s.split->0.tail.len()
            &&& resume == s.split->0.head_pos + kept
            &&& resume <= u32::MAX
        }),
{
    let kv = s.session->0;
    a_resume_keeps_what_is_shared_and_leaves_a_token(
        kv.resumable(),
        s.split->0.tail,
        s.window as u32,
    );
}

proof fn a_described_split_fits(chunks: Seq<Option<ChunkFacts>>)
    ensures
        described_split(chunks) matches Some(cut) ==> cut.head_pos + cut.tail.len() <= usize::MAX,
{
    if let Some(list) = all_described(chunks) {
        a_cut_keeps_every_position(list);
    }
}

/// Every run that starts well stays well.
pub proof fn every_event_keeps_a_media_run_well_formed(s: MediaView, event: MediaEventView)
    requires
        s.wf(),
    ensures
        s.after(event).wf(),
{
    let f = s.fresh();
    match (s.phase, event) {
        (MediaPhase::Tokenize, MediaEventView::Tokenized(done)) => {
            if let Ok((spans, reading)) = done {
                let cut = MediaView {
                    prompt_tokens: spans.total_tokens,
                    window: f.window_now(reading),
                    split: described_split(spans.chunks),
                    ..f
                };
                a_described_split_fits(spans.chunks);
                if cut.resume() is Some {
                    a_resume_is_honoured(cut);
                }
            }
        },
        (MediaPhase::ReuseTrim { resume, kept }, MediaEventView::Trimmed(done)) => {
            let k = kept as int;
            assert(s.recorded().take(k).take(k) =~= s.recorded().take(k));
        },
        (MediaPhase::ReuseDecode { resume, kept }, MediaEventView::Decoded(done)) => {
            let k = kept as int;
            assert(s.recorded().take(k) =~= s.recorded());
        },
        _ => {},
    }
}

/// How far a run still has to go.
pub open spec fn media_steps_left(phase: MediaPhase) -> nat {
    match phase {
        MediaPhase::Images => 6,
        MediaPhase::Tokenize => 5,
        MediaPhase::ReuseTrim { .. } => 4,
        MediaPhase::ReuseDecode { .. } => 3,
        MediaPhase::Create => 2,
        MediaPhase::Evaluate => 1,
        MediaPhase::Done => 0,
    }
}

/// Whether an event answers what was asked in a phase.
pub open spec fn media_answers(event: MediaEventView, phase: MediaPhase) -> bool {
    match phase {
        MediaPhase::Images => event is Images,
        MediaPhase::Tokenize => event is Tokenized,
        MediaPhase::ReuseTrim { .. } => event is Trimmed,
        MediaPhase::ReuseDecode { .. } => event is Decoded,
        MediaPhase::Create => event is Context,
        MediaPhase::Evaluate => event is Evaluated,
        MediaPhase::Done => false,
    }
}

/// Every run ends: each answer brings it closer, whatever the answer is.
pub proof fn every_answer_brings_the_media_run_closer(s: MediaView, event: MediaEventView)
    requires
        s.wf(),
        media_answers(event, s.phase),
    ensures
        media_steps_left(s.after(event).phase) < media_steps_left(s.phase),
{
}

/// A run that fills a cache with a prompt that carries images.
#[derive(Debug)]
pub struct MultimodalPrefill<'a> {
    session: Option<SessionKv>,
    images: &'a [ExtractedImage],
    settings: ModelSettings,
    facts: ModelFacts,
    context_limit: usize,
    window: usize,
    prompt_tokens: usize,
    split: Option<SplitChunks>,
    phase: MediaPhase,
    reused: usize,
    transient: Option<SessionKv>,
    failure: Option<ProviderError>,
    chores: Vec<Chore>,
}

impl<'a> View for MultimodalPrefill<'a> {
    type V = MediaView;

    closed spec fn view(&self) -> MediaView {
        MediaView {
            session: session_view(self.session),
            images: image_views(self.images@),
            settings: self.settings,
            facts: self.facts,
            context_limit: self.context_limit,
            window: self.window,
            prompt_tokens: self.prompt_tokens,
            split: match self.split {
                Some(cut) => Some(cut@),
                None => None,
            },
            phase: self.phase,
            reused: self.reused,
            transient: session_view(self.transient),
            failure: match self.failure {
                Some(e) => Some(e@),
                None => None,
            },
            chores: self.chores@.map_values(|c: Chore| c@),
        }
    }
}

fn copy_bytes(bytes: &Vec<u8>) -> (copy: Vec<u8>)
    ensures
        copy@ == bytes@,
{
    let mut copy: Vec<u8> = Vec::new();
    let mut i: usize = 0;
    while i < bytes.len()
        invariant
            i <= bytes@.len(),
            copy@ == bytes@.take(i as int),
        decreases bytes@.len() - i,
    {
        copy.push(bytes[i]);
        assert(copy@ =~= bytes@.take(i + 1));
        i += 1;
    }
    assert(copy@ =~= bytes@);
    copy
}

fn copy_images(images: &[ExtractedImage]) -> (copy: Vec<Vec<u8>>)
    ensures
        copy@.map_values(|i: Vec<u8>| i@) == image_views(images@),
{
    let mut copy: Vec<Vec<u8>> = Vec::new();
    let mut i: usize = 0;
    let ghost want = image_views(images@);
    assert(copy@.map_values(|i: Vec<u8>| i@) =~= want.take(0));
    while i < images.len()
        invariant
            i <= images@.len(),
            want == image_views(images@),
            copy@.map_values(|i: Vec<u8>| i@) == want.take(i as int),
        decreases images@.len() - i,
    {
        let ghost before = copy@.map_values(|i: Vec<u8>| i@);
        copy.push(copy_bytes(&images[i].bytes));
        assert(copy@.map_values(|i: Vec<u8>| i@) =~= before.push(want[i as int]));
        assert(before.push(want[i as int]) =~= want.take(i + 1));
        i += 1;
    }
    assert(want.take(i as int) =~= want);
    copy
}

impl<'a> MultimodalPrefill<'a> {
    /// Starts a run. `has_mtmd` says whether the model has a vision encoder.
    pub fn begin(
        session: Option<SessionKv>,
        has_mtmd: bool,
        images: &'a [ExtractedImage],
        settings: &ModelSettings,
        facts: ModelFacts,
        context_limit: usize,
    ) -> (run: MultimodalPrefill<'a>)
        requires
            session matches Some(kv) ==> kv@.fits(),
        ensures
            run@ == media_begun(
                session_view(session),
                has_mtmd,
                image_views(images@),
                *settings,
                facts,
                context_limit,
            ),
            run@.wf(),
    {
        let mut run = MultimodalPrefill {
            session,
            images,
            settings: *settings,
            facts,
            context_limit,
            window: 0,
            prompt_tokens: 0,
            split: None,
            phase: MediaPhase::Images,
            reused: 0,
            transient: None,
            failure: None,
            chores: Vec::new(),
        };
        assert(run@.chores =~= Seq::<ChoreView>::empty());
        if !has_mtmd {
            run.fail(
                ProviderError::ExecutionError(
                    "This model does not have vision support. Download the vision encoder from Settings > Local Inference, or use a text-only message.".to_owned(),
                ),
            );
        }
        run
    }

    fn fail(&mut self, e: ProviderError)
        ensures
            final(self)@ == old(self)@.failing(e@),
    {
        self.failure = Some(e);
        self.phase = MediaPhase::Done;
    }

    fn clear_chores(&mut self)
        ensures
            final(self)@ == old(self)@.fresh(),
    {
        self.chores.clear();
        assert(self@.chores =~= Seq::<ChoreView>::empty());
    }

    fn release(&mut self)
        ensures
            final(self)@ == old(self)@.released(),
    {
        if self.session.is_some() {
            let ghost before = self@.chores;
            self.session = None;
            self.chores.push(Chore::ReleaseContext);
            assert(self@.chores =~= before.push(ChoreView::ReleaseContext));
        }
    }

    fn rebuild(&mut self)
        ensures
            final(self)@ == old(self)@.rebuilding(),
    {
        self.release();
        self.phase = MediaPhase::Create;
    }

    fn resume(&self) -> (r: Option<(usize, usize)>)
        requires
            self@.session matches Some(kv) ==> kv.fits(),
            self@.split matches Some(cut) ==> cut.head_pos + cut.tail.len() <= usize::MAX,
            self@.window <= u32::MAX,
        ensures
            r == self@.resume(),
    {
        let (kv, cut) = match (&self.session, &self.split) {
            (Some(kv), Some(cut)) => (kv, cut),
            _ => {
                return None;
            },
        };
        let head = match &kv.head {
            Some(head) => head,
            None => {
                return None;
            },
        };
        proof {
            a_head_matches_only_its_own_reproduction(
                head@,
                cut.head_pos,
                cut@.head,
                image_views(self.images@),
            );
            shared_prefix_begins_both(kv@.tokens, cut@.tail);
        }
        if head.mismatch(cut.head_pos, cut.head.as_slice(), self.images).is_some() {
            return None;
        }
        match prefill_plan(
            Some(RetainedPrefix::resumable(kv)),
            cut.tail.as_slice(),
            self.window as u32,
        ) {
            PrefillPlan::ReusePrefix(resume) => match kept_prefix_tokens(
                resume,
                kv.media_pos(),
                cut.tail.len(),
                kv.tokens.len(),
            ) {
                Some(kept) => if resume <= u32::MAX as usize {
                    Some((resume, kept))
                } else {
                    None
                },
                None => None,
            },
            _ => None,
        }
    }

    fn on_images(&mut self, done: Result<(), String>)
        ensures
            final(self)@ == old(self)@.after_images(
                match done {
                    Ok(_) => Ok(()),
                    Err(e) => Err(e@),
                },
            ),
    {
        match done {
            Ok(_) => {
                self.phase = MediaPhase::Tokenize;
            },
            Err(e) => {
                self.fail(execution_error("Failed to decode image: ", e.as_str()));
            },
        }
    }

    fn measure(&self, prompt_tokens: usize, reading: &HostReading) -> (window: usize)
        requires
            self@.facts.shape.measurable(
                reading.available_memory_bytes,
                retained_window(self@.session),
            ),
        ensures
            window == self@.window_now(reading@),
    {
        let limits = reading.limits(self.context_limit, retained_kv_tokens(&self.session));
        let memory_max_ctx = request_memory_max(&self.facts, true, &self.settings, &limits);
        effective_context_size(
            prompt_tokens,
            &self.settings,
            self.context_limit,
            self.facts.n_ctx_train,
            memory_max_ctx,
            limits.host_limit,
        )
    }

    fn on_tokenized(&mut self, done: Result<(Spans, HostReading), String>)
        requires
            old(self)@.session matches Some(kv) ==> kv.fits(),
            done matches Ok(tokenized) ==> old(self)@.facts.shape.measurable(
                tokenized.1.available_memory_bytes,
                retained_window(old(self)@.session),
            ),
        ensures
            final(self)@ == old(self)@.after_tokenized(
                match done {
                    Ok(tokenized) => Ok((tokenized.0@, tokenized.1@)),
                    Err(e) => Err(e@),
                },
            ),
    {
        let (spans, reading) = match done {
            Ok(tokenized) => tokenized,
            Err(e) => {
                self.fail(execution_error("Multimodal tokenization failed: ", e.as_str()));
                return;
            },
        };
        self.prompt_tokens = spans.total_tokens;
        self.window = self.measure(spans.total_tokens, &reading);
        if lacks_headroom(spans.total_tokens, self.window) {
            let mut m = "Multimodal prompt (".to_owned();
            push_decimal(&mut m, spans.total_tokens as u64);
            m.append(" tokens including images) exceeds context limit (");
            push_decimal(&mut m, self.window as u64);
            m.append(" tokens)");
            self.fail(ProviderError::ContextLengthExceeded(m));
            return;
        }
        if self.window > u32::MAX as usize {
            self.fail(report_context_size(self.window));
            return;
        }
        self.split = describe_and_split(spans.chunks.as_slice());
        match self.resume() {
            Some((resume, kept)) => {
                self.phase = MediaPhase::ReuseTrim { resume, kept };
            },
            None => {
                self.rebuild();
            },
        }
    }

    fn on_trim(&mut self, done: bool, resume: usize, kept: usize)
        requires
            kept <= old(self)@.recorded().len(),
        ensures
            final(self)@ == old(self)@.after_trim(done, resume, kept),
    {
        if !done {
            self.rebuild();
            return;
        }
        match self.session.take() {
            Some(mut kv) => {
                let ghost before = kv.tokens@;
                kv.tokens.truncate(kept);
                assert(kv.tokens@ =~= before.take(kept as int));
                self.session = Some(kv);
            },
            None => {},
        }
        self.phase = MediaPhase::ReuseDecode { resume, kept };
    }

    fn on_decode(&mut self, done: Result<(), DecodeFailure>, resume: usize, kept: usize)
        requires
            old(self)@.split is Some,
            kept <= old(self)@.split->0.tail.len(),
        ensures
            final(self)@ == old(self)@.after_decode(decoded_view(done), resume, kept),
    {
        match done {
            Ok(_) => {
                match (self.session.take(), &self.split) {
                    (Some(mut kv), Some(cut)) => {
                        let rest = tokens_from(cut.tail.as_slice(), kept);
                        kv.record_generated(rest.as_slice());
                        self.session = Some(kv);
                    },
                    _ => {},
                }
                self.reused = resume;
                self.phase = MediaPhase::Done;
            },
            Err(_) => {
                self.rebuild();
            },
        }
    }

    fn on_context(&mut self, made: Result<u32, String>)
        requires
            old(self)@.window <= u32::MAX,
        ensures
            final(self)@ == old(self)@.after_context(
                match made {
                    Ok(capacity) => Ok(capacity),
                    Err(e) => Err(e@),
                },
            ),
    {
        match made {
            Ok(_) => {
                self.session = Some(SessionKv::create(self.window as u32));
                self.phase = MediaPhase::Evaluate;
            },
            Err(e) => {
                self.fail(execution_error("Failed to create context: ", e.as_str()));
            },
        }
    }

    fn retainable(&self, n_past: i32) -> (r: bool)
        requires
            self@.split matches Some(cut) ==> cut.head_pos + cut.tail.len() <= usize::MAX,
        ensures
            r == self@.retainable(n_past),
    {
        match &self.split {
            Some(cut) => {
                let end: usize = cut.head_pos + cut.tail.len();
                end <= i32::MAX as usize && n_past >= 0 && end == n_past as usize
            },
            None => false,
        }
    }

    fn on_evaluation(&mut self, done: Result<i32, String>)
        requires
            old(self)@.split matches Some(cut) ==> cut.head_pos + cut.tail.len() <= usize::MAX,
            old(self)@.window <= u32::MAX,
        ensures
            final(self)@ == old(self)@.after_evaluation(
                match done {
                    Ok(n_past) => Ok(n_past),
                    Err(e) => Err(e@),
                },
            ),
    {
        let n_past: i32 = match done {
            Ok(n_past) => n_past,
            Err(e) => {
                self.release();
                self.fail(execution_error("Multimodal eval failed: ", e.as_str()));
                return;
            },
        };
        let keep = self.retainable(n_past);
        if keep {
            match self.split.take() {
                Some(cut) => {
                    let head = MediaHead {
                        chunks: cut.head,
                        n_pos: cut.head_pos,
                        images: copy_images(self.images),
                    };
                    self.session = Some(
                        SessionKv { head: Some(head), tokens: cut.tail, n_ctx: self.window as u32 },
                    );
                },
                None => {},
            }
        } else {
            let ghost before = self@.chores;
            self.session = None;
            self.transient = Some(SessionKv::create(self.window as u32));
            self.chores.push(Chore::DetachContext);
            assert(self@.chores =~= before.push(ChoreView::DetachContext));
        }
        self.phase = MediaPhase::Done;
    }

    /// Whether what this event makes the run count can be counted.
    pub fn counts_fit(&self, event: &MediaEvent) -> (r: bool)
        ensures
            r == self@.counts_fit(event@),
    {
        match (self.phase, event) {
            (MediaPhase::Tokenize, MediaEvent::Tokenized(Ok(tokenized))) => estimate_is_countable(
                &self.facts.shape,
                tokenized.1.available_memory_bytes,
                retained_kv_tokens(&self.session),
            ),
            _ => true,
        }
    }

    /// Takes what came of the last action.
    pub fn step(&mut self, event: MediaEvent)
        requires
            old(self)@.wf(),
            old(self)@.counts_fit(event@),
        ensures
            final(self)@ == old(self)@.after(event@),
            final(self)@.wf(),
    {
        proof {
            every_event_keeps_a_media_run_well_formed(self@, event@);
        }
        match (self.phase, event) {
            (MediaPhase::Images, MediaEvent::Images(done)) => {
                self.clear_chores();
                self.on_images(done);
            },
            (MediaPhase::Tokenize, MediaEvent::Tokenized(done)) => {
                self.clear_chores();
                self.on_tokenized(done);
            },
            (MediaPhase::ReuseTrim { resume, kept }, MediaEvent::Trimmed(done)) => {
                self.clear_chores();
                self.on_trim(done, resume, kept);
            },
            (MediaPhase::ReuseDecode { resume, kept }, MediaEvent::Decoded(done)) => {
                self.clear_chores();
                self.on_decode(done, resume, kept);
            },
            (MediaPhase::Create, MediaEvent::Context(made)) => {
                self.clear_chores();
                self.on_context(made);
            },
            (MediaPhase::Evaluate, MediaEvent::Evaluated(done)) => {
                self.clear_chores();
                self.on_evaluation(done);
            },
            _ => {},
        }
    }

    /// What is asked now.
    pub fn action(&self) -> (action: MediaAction)
        requires
            self@.wf(),
        ensures
            action == self@.action(),
    {
        match self.phase {
            MediaPhase::Images => MediaAction::DecodeImages,
            MediaPhase::Tokenize => MediaAction::Tokenize,
            MediaPhase::ReuseTrim { resume, .. } => MediaAction::Trim { pos: resume as u32 },
            MediaPhase::ReuseDecode { resume, kept } => MediaAction::Decode {
                from: kept,
                start: resume,
            },
            MediaPhase::Create => MediaAction::CreateContext { n_ctx: self.window as u32 },
            MediaPhase::Evaluate => MediaAction::EvaluateSpans,
            MediaPhase::Done => MediaAction::Finish,
        }
    }

    /// The chores that the last answer left, in order.
    pub fn chores(&self) -> (chores: &Vec<Chore>)
        ensures
            chores@.map_values(|c: Chore| c@) == self@.chores,
    {
        &self.chores
    }

    /// The tokens behind the last image, once the prompt was cut.
    pub fn tail(&self) -> (tail: Option<&[LlamaToken]>)
        ensures
            match tail {
                Some(t) => self@.split matches Some(cut) && cut.tail == t@,
                None => self@.split is None,
            },
    {
        match &self.split {
            Some(cut) => Some(cut.tail.as_slice()),
            None => None,
        }
    }

    /// What the run comes to: what the retained context holds now, and the size of
    /// the prompt with the filled cache, or the failure.
    pub fn finish(self) -> (end: (
        Option<SessionKv>,
        Result<(usize, PrefilledPrompt), ProviderError>,
    ))
        requires
            self@.phase is Done,
        ensures
            session_view(end.0) == self@.session,
            match end.1 {
                Ok(done) => self@.outcome() == Ok::<(usize, PrefilledView), ErrorView>(
                    (done.0, done.1@),
                ),
                Err(e) => self@.outcome() == Err::<(usize, PrefilledView), ErrorView>(e@),
            },
    {
        let outcome = match self.failure {
            Some(e) => Err(e),
            None => Ok(
                (
                    self.prompt_tokens,
                    PrefilledPrompt {
                        reused_prefix_tokens: self.reused,
                        transient: self.transient,
                        effective_ctx: self.window,
                    },
                ),
            ),
        };
        (self.session, outcome)
    }
}

/// A run begins with the images, or is over at once where the model sees nothing, and
/// then says so; what is retained is as it was.
pub proof fn a_media_run_needs_a_model_that_sees(
    session: Option<SessionView>,
    has_mtmd: bool,
    images: Seq<Seq<u8>>,
    settings: ModelSettings,
    facts: ModelFacts,
    context_limit: usize,
)
    ensures
        ({
            let s = media_begun(session, has_mtmd, images, settings, facts, context_limit);
            &&& has_mtmd ==> s.action() is DecodeImages && s.failure is None
            &&& !has_mtmd ==> s.action() is Finish && s.failure == Some(
                ErrorView::ExecutionError(
                    "This model does not have vision support. Download the vision encoder from Settings > Local Inference, or use a text-only message."@,
                ),
            )
            &&& s.session == session && s.images == images && s.settings == settings
                && s.facts == facts && s.context_limit == context_limit
            &&& s.chores.len() == 0 && s.reused == 0 && s.transient is None
        }),
{
}

/// The images are decoded before the prompt is cut; an image that is none is reported.
pub proof fn images_come_before_the_text(s: MediaView, done: Result<(), Seq<char>>)
    requires
        s.wf(),
        s.phase is Images,
    ensures
        ({
            let t = s.after(MediaEventView::Images(done));
            &&& done is Ok ==> t.action() is Tokenize && t.failure is None
            &&& done matches Err(e) ==> t.action() is Finish && t.failure == Some(
                ErrorView::ExecutionError("Failed to decode image: "@ + e),
            )
            &&& t.session == s.session && t.images == s.images && t.settings == s.settings
                && t.facts == s.facts && t.context_limit == s.context_limit
        }),
{
}

/// How much of a text behind a head two caches share, but for the text's last token, which
/// is always decoded.
pub open spec fn shared_behind_head(cached: Seq<LlamaToken>, tail: Seq<LlamaToken>) -> int {
    if shared_prefix(cached, tail) < tail.len() {
        shared_prefix(cached, tail) as int
    } else {
        tail.len() - 1
    }
}

/// What becomes of a prompt that was cut. It is turned away exactly where it does not
/// leave five hundred and twelve positions of its window, or the window is out of range;
/// the window is that of the request's limits by what the host says then, the vision
/// encoder counted. Decode resumes exactly where the retained cache, in that very window,
/// begins with the prompt's own head, from the same images, there is text behind the head,
/// and what is kept takes at least two hundred and fifty-six positions: at the first
/// position that is not kept. Else the cache is built anew, and a retained one is released
/// first.
pub proof fn a_cut_prompt_resumes_or_is_built_anew(
    s: MediaView,
    spans: SpansView,
    reading: ReadingView,
)
    requires
        s.wf(),
        s.phase is Tokenize,
    ensures
        ({
            let t = s.after(MediaEventView::Tokenized(Ok((spans, reading))));
            let window = request_window(
                &s.facts,
                true,
                s.settings,
                (LimitsView {
                    available_memory_bytes: reading.available_memory_bytes,
                    context_limit: s.context_limit,
                    host_limit: reading.host_limit,
                    retained_kv_tokens: match s.session {
                        Some(kv) => kv.n_ctx as usize,
                        None => 0,
                    },
                }),
            );
            let cut = described_split(spans.chunks);
            let same_head = {
                &&& s.session is Some
                &&& cut is Some
                &&& s.session->0.head == Some(
                    HeadView {
                        chunks: cut->0.head,
                        n_pos: cut->0.head_pos as usize,
                        images: s.images,
                    },
                )
                &&& s.session->0.n_ctx == window
                &&& cut->0.tail.len() > 0
            };
            let pos = cut->0.head_pos + shared_behind_head(s.session->0.tokens, cut->0.tail);
            &&& t.prompt_tokens == spans.total_tokens
            &&& spans.total_tokens + 512 > window <==> t.failure == Some(
                ErrorView::ContextLengthExceeded(
                    "Multimodal prompt ("@ + decimal(spans.total_tokens as nat)
                        + " tokens including images) exceeds context limit ("@ + decimal(
                        window as nat,
                    ) + " tokens)"@,
                ),
            )
            &&& t.failure is Some ==> t.action() is Finish && t.session == s.session
            &&& t.failure is Some <==> spans.total_tokens + 512 > window || window > u32::MAX
            &&& t.failure is None && same_head && 256 <= pos <= u32::MAX ==> t.action() == (
            MediaAction::Trim { pos: pos as u32 }) && t.session == s.session && t.chores.len() == 0
            &&& t.failure is None && !(same_head && 256 <= pos <= u32::MAX) ==> {
                &&& t.action() == (MediaAction::CreateContext { n_ctx: window as u32 })
                &&& t.session is None
                &&& t.chores == (if s.session is Some {
                    seq![ChoreView::ReleaseContext]
                } else {
                    Seq::empty()
                })
            }
        }),
{
    let f = s.fresh();
    let window = f.window_now(reading);
    let cut = MediaView {
        prompt_tokens: spans.total_tokens,
        window,
        split: described_split(spans.chunks),
        ..f
    };
    a_described_split_fits(spans.chunks);
    if spans.total_tokens + 512 <= window && window > u32::MAX {
        assert(context_size_error(window as nat) is ExecutionError);
    }
    if let (Some(kv), Some(c)) = (cut.session, cut.split) {
        shared_prefix_begins_both(kv.tokens, c.tail);
    }
}

/// The window of a run that memory alone bounds leaves the vision encoder its part: twice
/// what its cache takes, of the model's own dimensions, and the encoder's bytes together
/// are within what is free and what a retained cache gives back, and one position more
/// would not be, unless it is all that the model was trained for.
pub proof fn a_media_window_leaves_room_for_the_encoder(
    s: MediaView,
    spans: SpansView,
    reading: ReadingView,
    k: nat,
    v: nat,
)
    requires
        s.wf(),
        s.phase is Tokenize,
        s.settings.context_size is None,
        s.context_limit == 0,
        reading.host_limit is None,
        comes_to(s.facts.shape.key_length, s.facts.shape.n_embd, s.facts.shape.n_head, k),
        comes_to(s.facts.shape.value_length, s.facts.shape.n_embd, s.facts.shape.n_head, v),
        is_real_size(
            reading.available_memory_bytes + cache_bytes(
                retained_window(s.session) as int,
                k,
                v,
                s.facts.shape.n_head_kv,
                s.facts.shape.n_layer,
            ),
        ),
        s.facts.shape.n_layer > 0,
        s.facts.shape.n_head_kv > 0,
        s.facts.shape.n_head > 0,
        s.facts.shape.n_embd > 0,
        k + v > 0,
        reading.available_memory_bytes > 0,
    ensures
        s.after(MediaEventView::Tokenized(Ok((spans, reading)))).action()
            matches MediaAction::CreateContext { n_ctx } ==> {
            let total = reading.available_memory_bytes + cache_bytes(
                match s.session {
                    Some(kv) => kv.n_ctx as int,
                    None => 0,
                },
                k,
                v,
                s.facts.shape.n_head_kv,
                s.facts.shape.n_layer,
            );
            let encoder = s.settings.mmproj_size_bytes;
            let bytes = |n: int| cache_bytes(n, k, v, s.facts.shape.n_head_kv, s.facts.shape.n_layer);
            &&& n_ctx <= s.facts.n_ctx_train
            &&& 2 * bytes(n_ctx as int) + encoder <= total
            &&& n_ctx == s.facts.n_ctx_train || total < 2 * bytes(n_ctx + 1) + encoder
        },
{
    let retained = retained_window(s.session);
    let limits = reading.limits(s.context_limit, retained);
    the_estimate_fills_half_of_what_is_left(&s.facts, true, s.settings, limits, k, v);
    a_request_is_given_the_window_of_its_limits(&s.facts, true, s.settings, limits);
    let memory = request_memory(&s.facts, true, s.settings, limits)->0;
    let all = seq![s.facts.n_ctx_train] + seq![memory];
    assert(all[0] == s.facts.n_ctx_train && all[1] == memory);
    let window = s.window_now(reading);
    assert(window <= memory);
    let per = (k + v) * s.facts.shape.n_head_kv * s.facts.shape.n_layer * 2;
    assert(per >= 0 && window * per <= memory * per) by (nonlinear_arith)
        requires
            window <= memory,
            per == (k + v) * s.facts.shape.n_head_kv * s.facts.shape.n_layer * 2,
            k + v >= 0,
    ;
}

/// A resume goes on where the cache was cut back, and is over once the rest is decoded:
/// then the cache holds the head and the whole text behind it, and everything up to the
/// position of the resume came from it. What the engine declines, or fails at, is built
/// anew.
pub proof fn a_resume_decodes_the_rest_behind_what_is_kept(s: MediaView)
    requires
        s.wf(),
    ensures
        s.phase matches MediaPhase::ReuseTrim { resume, kept } ==> {
            let cut = s.after(MediaEventView::Trimmed(true));
            let declined = s.after(MediaEventView::Trimmed(false));
            &&& cut.action() == (MediaAction::Decode { from: kept, start: resume })
            &&& resume == s.split->0.head_pos + kept
            &&& declined.action() == (MediaAction::CreateContext { n_ctx: s.window as u32 })
            &&& declined.chores == seq![ChoreView::ReleaseContext]
        },
        s.phase matches MediaPhase::ReuseDecode { resume, kept } ==> {
            let done = s.after(MediaEventView::Decoded(Ok(())));
            &&& done.action() is Finish
            &&& done.session is Some && done.session->0.tokens == s.split->0.tail
                && done.session->0.head == Some(s.head())
            &&& done.outcome() == Ok::<(usize, PrefilledView), ErrorView>(
                (
                    s.prompt_tokens,
                    PrefilledView {
                        reused_prefix_tokens: resume,
                        transient: None,
                        effective_ctx: s.window,
                    },
                ),
            )
            &&& forall|e: ErrorView|
                (#[trigger] s.after(MediaEventView::Decoded(Err(e)))).action() == (
                MediaAction::CreateContext { n_ctx: s.window as u32 }) && s.after(
                    MediaEventView::Decoded(Err(e)),
                ).chores == seq![ChoreView::ReleaseContext]
        },
{
    if let MediaPhase::ReuseDecode { resume, kept } = s.phase {
        let k = kept as int;
        let tail = s.split->0.tail;
        assert(s.recorded().take(k) =~= s.recorded());
        assert(tail.take(k) + tail.skip(k) =~= tail);
    }
    if let MediaPhase::ReuseTrim { resume, kept } = s.phase {
        assert(s.after(MediaEventView::Trimmed(false)).chores =~= seq![ChoreView::ReleaseContext]);
    }
    assert forall|e: ErrorView| s.phase is ReuseDecode implies (#[trigger] s.after(
        MediaEventView::Decoded(Err(e)),
    )).chores == seq![ChoreView::ReleaseContext] by {
        assert(s.after(MediaEventView::Decoded(Err(e))).chores =~= seq![ChoreView::ReleaseContext]);
    }
}

/// A cache that is built anew is evaluated as a whole, and kept exactly where the engine
/// ends where the description of the prompt does: then it is recorded with its head, its
/// images and the text behind them. Else it serves this generation alone. Nothing of it
/// came from a cache.
pub proof fn a_built_cache_is_kept_where_it_can_be_addressed(s: MediaView)
    requires
        s.wf(),
        s.reused == 0,
        s.transient is None,
    ensures
        s.phase is Create ==> {
            &&& forall|capacity: u32|
                (#[trigger] s.after(MediaEventView::Context(Ok(capacity)))).action()
                    is EvaluateSpans
            &&& forall|e: Seq<char>|
                (#[trigger] s.after(MediaEventView::Context(Err(e)))).failure == Some(
                    ErrorView::ExecutionError("Failed to create context: "@ + e),
                ) && s.after(MediaEventView::Context(Err(e))).action() is Finish
        },
        s.phase is Evaluate ==> {
            &&& forall|n_past: i32|
                {
                    let t = #[trigger] s.after(MediaEventView::Evaluated(Ok(n_past)));
                    let kept = s.split is Some && s.split->0.head_pos + s.split->0.tail.len()
                        == n_past;
                    &&& t.action() is Finish && t.failure is None && t.reused == 0
                    &&& kept ==> t.transient is None && t.session == Some(
                        SessionView {
                            head: Some(
                                HeadView {
                                    chunks: s.split->0.head,
                                    n_pos: s.split->0.head_pos as usize,
                                    images: s.images,
                                },
                            ),
                            tokens: s.split->0.tail,
                            n_ctx: s.window as u32,
                        },
                    )
                    &&& !kept ==> t.session is None && t.transient == Some(
                        SessionView {
                            head: None,
                            tokens: Seq::empty(),
                            n_ctx: s.window as u32,
                        },
                    ) && t.chores == seq![ChoreView::DetachContext]
                    &&& t.outcome() == Ok::<(usize, PrefilledView), ErrorView>(
                        (
                            s.prompt_tokens,
                            PrefilledView {
                                reused_prefix_tokens: 0,
                                transient: t.transient,
                                effective_ctx: s.window,
                            },
                        ),
                    )
                }
            &&& forall|e: Seq<char>|
                {
                    let t = #[trigger] s.after(MediaEventView::Evaluated(Err(e)));
                    t.action() is Finish && t.session is None && t.failure == Some(
                        ErrorView::ExecutionError("Multimodal eval failed: "@ + e),
                    )
                }
        },
        s.phase is Tokenize ==> forall|e: Seq<char>|
            (#[trigger] s.after(MediaEventView::Tokenized(Err(e)))).failure == Some(
                ErrorView::ExecutionError("Multimodal tokenization failed: "@ + e),
            ) && s.after(MediaEventView::Tokenized(Err(e))).action() is Finish,
{
    assert forall|n_past: i32| s.phase is Evaluate && !(s.split is Some
        && s.split->0.head_pos + s.split->0.tail.len() == n_past) implies (#[trigger] s.after(
        MediaEventView::Evaluated(Ok(n_past)),
    )).chores == seq![ChoreView::DetachContext] by {
        assert(s.after(MediaEventView::Evaluated(Ok(n_past))).chores =~= seq![
            ChoreView::DetachContext,
        ]);
    }
}

/// What came of an action is read as it came.
pub proof fn a_media_run_reads_events_as_they_come(
    images: Result<(), String>,
    spans: Spans,
    reading: HostReading,
    e: String,
    trimmed: bool,
    decoded: Result<(), DecodeFailure>,
    capacity: u32,
    n_past: i32,
)
    ensures
        MediaEvent::Images(images)@ == MediaEventView::Images(
            match images {
                Ok(_) => Ok(()),
                Err(e) => Err(e@),
            },
        ),
        MediaEvent::Tokenized(Ok((spans, reading)))@ == MediaEventView::Tokenized(
            Ok(
                (
                    SpansView { total_tokens: spans.total_tokens, chunks: spans.chunks@ },
                    reading@,
                ),
            ),
        ),
        MediaEvent::Tokenized(Err(e))@ == MediaEventView::Tokenized(Err(e@)),
        MediaEvent::Trimmed(trimmed)@ == MediaEventView::Trimmed(trimmed),
        decoded is Ok ==> MediaEvent::Decoded(decoded)@ == MediaEventView::Decoded(Ok(())),
        decoded is Err ==> MediaEvent::Decoded(decoded)@->Decoded_0 is Err,
        MediaEvent::Context(Ok(capacity))@ == MediaEventView::Context(Ok(capacity)),
        MediaEvent::Context(Err(e))@ == MediaEventView::Context(Err(e@)),
        MediaEvent::Evaluated(Ok(n_past))@ == MediaEventView::Evaluated(Ok(n_past)),
        MediaEvent::Evaluated(Err(e))@ == MediaEventView::Evaluated(Err(e@)),
{
}

/// A prompt is cut only where every span of it can be described, there is an image among
/// them, and the positions can be counted: then the cut has its spans, in order, up to the
/// last image, and the text behind.
pub proof fn a_prompt_is_cut_where_every_span_is_described(chunks: Seq<Option<ChunkFacts>>)
    ensures
        match described_split(chunks) {
            Some(cut) => {
                &&& cut.head.len() <= chunks.len()
                &&& cut.head.len() > 0 && cut.head.last() is Media
                &&& forall|i: int|
                    0 <= i < chunks.len() ==> (#[trigger] chunks[i]) is Some && described(
                        chunks[i]->0,
                    ) is Some
                &&& forall|i: int|
                    0 <= i < cut.head.len() ==> Some(#[trigger] cut.head[i]) == described(
                        chunks[i]->0,
                    )
                &&& forall|i: int|
                    cut.head.len() <= i < chunks.len() ==> described(
                        (#[trigger] chunks[i])->0,
                    )->0 is Text
            },
            None => {
                ||| exists|i: int|
                    0 <= i < chunks.len() && ((#[trigger] chunks[i]) is None || described(
                        chunks[i]->0,
                    ) is None)
                ||| forall|i: int|
                    0 <= i < chunks.len() ==> described((#[trigger] chunks[i])->0)->0 is Text
                ||| all_described(chunks) is Some && positions(all_described(chunks)->0)
                    > usize::MAX
            },
        },
{
    a_prompt_is_described_span_by_span(chunks);
    if let Some(list) = all_described(chunks) {
        a_cut_keeps_every_position(list);
        assert forall|i: int| 0 <= i < chunks.len() implies described(
            (#[trigger] chunks[i])->0,
        ) == Some(list[i]) by {}
        if split(list) is None {
            assert forall|i: int| 0 <= i < chunks.len() implies described(
                (#[trigger] chunks[i])->0,
            )->0 is Text by {
                assert(list[i] is Text);
            }
        }
        if let Some(cut) = described_split(chunks) {
            assert forall|i: int| cut.head.len() <= i < chunks.len() implies described(
                (#[trigger] chunks[i])->0,
            )->0 is Text by {
                assert(list[i] is Text);
            }
        }
    }
}

/// Whatever happens, the request stays what it was, and its size and window are those that
/// were measured when it was cut.
pub proof fn a_media_run_keeps_its_request(s: MediaView, event: MediaEventView)
    ensures
        ({
            let t = s.after(event);
            &&& t.images == s.images
            &&& t.settings == s.settings
            &&& t.facts == s.facts
            &&& t.context_limit == s.context_limit
            &&& !(s.phase is Tokenize) ==> t.window == s.window && t.prompt_tokens
                == s.prompt_tokens
            &&& !(s.phase is Evaluate) ==> t.transient == s.transient
            &&& !(s.phase is ReuseDecode) ==> t.reused == s.reused
        }),
{
}

/// An answer to something that was not asked changes nothing.
pub proof fn a_media_run_ignores_what_it_did_not_ask(s: MediaView, event: MediaEventView)
    requires
        match event {
            MediaEventView::Images(_) => !(s.action() is DecodeImages),
            MediaEventView::Tokenized(_) => !(s.action() is Tokenize),
            MediaEventView::Trimmed(_) => !(s.action() is Trim),
            MediaEventView::Decoded(_) => !(s.action() is Decode),
            MediaEventView::Context(_) => !(s.action() is CreateContext),
            MediaEventView::Evaluated(_) => !(s.action() is EvaluateSpans),
        },
    ensures
        s.after(event) == s,
{
}

/// Nothing is left to do but what an answer asks for: a cache is released only where one
/// is built anew in its place, and given away only where it cannot be addressed.
pub proof fn a_media_run_leaves_no_other_chores(s: MediaView)
    requires
        s.wf(),
    ensures
        s.phase is Images ==> forall|done: Result<(), Seq<char>>|
            (#[trigger] s.after(MediaEventView::Images(done))).chores.len() == 0,
        s.phase is Tokenize ==> forall|e: Seq<char>|
            (#[trigger] s.after(MediaEventView::Tokenized(Err(e)))).chores.len() == 0 && s.after(
                MediaEventView::Tokenized(Err(e)),
            ).session == s.session,
        s.phase is Tokenize ==> forall|cut: (SpansView, ReadingView)|
            (#[trigger] s.after(MediaEventView::Tokenized(Ok(cut)))).failure is Some ==> s.after(
                MediaEventView::Tokenized(Ok(cut)),
            ).chores.len() == 0,
        s.phase is ReuseTrim ==> s.after(MediaEventView::Trimmed(true)).chores.len() == 0,
        s.phase is ReuseDecode ==> s.after(MediaEventView::Decoded(Ok(()))).chores.len() == 0,
        s.phase is Create ==> forall|made: Result<u32, Seq<char>>|
            (#[trigger] s.after(MediaEventView::Context(made))).chores.len() == 0,
        s.phase is Evaluate ==> forall|n_past: i32|
            (#[trigger] s.after(MediaEventView::Evaluated(Ok(n_past)))).session is Some ==> s.after(
                MediaEventView::Evaluated(Ok(n_past)),
            ).chores.len() == 0,
{
}

/// What a run that is over comes to: its error, or the size of its prompt, how much of it
/// came from the cache, the window, and a cache that serves this generation alone.
pub proof fn a_media_run_comes_to_what_it_did(s: MediaView)
    ensures
        s.failure matches Some(e) ==> s.outcome() == Err::<(usize, PrefilledView), ErrorView>(e),
        s.failure is None ==> (s.outcome() matches Ok((size, filled)) && {
            &&& size == s.prompt_tokens
            &&& filled.reused_prefix_tokens == s.reused
            &&& filled.transient == s.transient
            &&& filled.effective_ctx == s.window
        }),
{
}

} // verus!

//! Getting a request ready to generate: which rendering of the prompt is used, and
//! how it is brought into a cache.

use vstd::pervasive::unreached;
use vstd::prelude::*;
use vstd::string::*;

use crate::error::{ErrorView, ProviderError};
use crate::prefill::{PrefilledPrompt, PrefilledView};
use crate::session::{retained_kv_tokens, retained_window, session_view, SessionKv};
use crate::settings::ModelSettings;
use crate::token::LlamaToken;
use crate::window::{
    a_request_is_given_the_window_of_its_limits, cache_bytes, checked_prompt, comes_to, context_cap,
    estimate_is_countable, is_real_size, request_memory, request_memory_max,
    request_window, the_estimate_fills_half_of_what_is_left, validate_and_compute_context,
    HostReading, LimitsView, ModelFacts, ReadingView, MIN_GENERATION_HEADROOM,
};

verus! {

/// What a chat template is rendered with, beside the messages and the tools.
#[derive(Debug)]
pub struct TemplateOptions {
    pub reasoning_format: Option<String>,
    pub enable_thinking: bool,
    pub add_generation_prompt: bool,
    pub use_jinja: bool,
    pub parallel_tool_calls: bool,
    pub add_bos: bool,
    pub add_eos: bool,
    pub parse_tool_calls: bool,
}

/// What a chat template is rendered with under these settings.
pub fn template_options(settings: &ModelSettings) -> (options: TemplateOptions)
    ensures
        match options.reasoning_format {
            Some(format) => settings.enable_thinking && format@ == "auto"@,
            None => !settings.enable_thinking,
        },
        options.enable_thinking == settings.enable_thinking,
        options.add_generation_prompt,
        options.use_jinja,
        !options.parallel_tool_calls,
        !options.add_bos,
        !options.add_eos,
        options.parse_tool_calls,
{
    TemplateOptions {
        reasoning_format: if settings.enable_thinking {
            Some("auto".to_owned())
        } else {
            None
        },
        enable_thinking: settings.enable_thinking,
        add_generation_prompt: true,
        use_jinja: true,
        parallel_tool_calls: false,
        add_bos: false,
        add_eos: false,
        parse_tool_calls: true,
    }
}

/// Which tool schemas a prompt is rendered with.
#[derive(Clone, Copy, Debug, PartialEq, Eq, Structural)]
pub enum Tools {
    Full,
    Compact,
}

/// Where a preparation stands: what was asked last.
#[derive(Clone, Copy, Debug, PartialEq, Eq, Structural)]
pub enum PrepPhase {
    /// The prompt is rendered with the full schemas.
    RenderFull,
    /// The tokens of that rendering are counted.
    CountFull,
    /// The prompt is rendered with the compact schemas. `full` says whether there is
    /// a full rendering to fall back on.
    RenderCompact { full: bool },
    /// The chosen rendering is turned into tokens.
    Tokenize,
    /// The tokens are brought into a cache.
    PrefillText,
    /// The chosen rendering and the images are brought into a cache.
    PrefillMedia,
    Done,
}

/// What is asked.
#[derive(Clone, Copy, Debug, PartialEq, Eq, Structural)]
pub enum PrepAction {
    Render(Tools),
    /// Count the tokens of the full rendering.
    CountTokens,
    /// Turn that rendering into tokens.
    Tokenize(Tools),
    /// Bring the tokens into a cache, in a window of that size.
    PrefillText { effective_ctx: usize },
    /// Bring that rendering, with the images, into a cache.
    PrefillMedia(Tools),
    Finish,
}

/// What came of an action.
#[derive(Debug)]
pub enum PrepEvent {
    Rendered(Result<(), String>),
    /// How many tokens there are, where they could be counted.
    Counted(Option<usize>),
    /// The tokens, and what the host said once there were tokens.
    Tokenized(Result<(Vec<LlamaToken>, HostReading), String>),
    TextFilled(Result<PrefilledPrompt, ProviderError>),
    /// The size of the prompt, and the cache that was filled.
    MediaFilled(Result<(usize, PrefilledPrompt), ProviderError>),
}

/// What came of an action, as sequences.
#[verifier::ext_equal]
pub enum PrepEventView {
    Rendered(Result<(), Seq<char>>),
    Counted(Option<usize>),
    Tokenized(Result<(Seq<LlamaToken>, ReadingView), Seq<char>>),
    TextFilled(Result<PrefilledView, ErrorView>),
    MediaFilled(Result<(usize, PrefilledView), ErrorView>),
}

impl View for PrepEvent {
    type V = PrepEventView;

    open spec fn view(&self) -> PrepEventView {
        match self {
            PrepEvent::Rendered(done) => PrepEventView::Rendered(
                match done {
                    Ok(_) => Ok(()),
                    Err(e) => Err(e@),
                },
            ),
            PrepEvent::Counted(n) => PrepEventView::Counted(*n),
            PrepEvent::Tokenized(done) => PrepEventView::Tokenized(
                match done {
                    Ok(tokenized) => Ok((tokenized.0@, tokenized.1@)),
                    Err(e) => Err(e@),
                },
            ),
            PrepEvent::TextFilled(done) => PrepEventView::TextFilled(
                match done {
                    Ok(filled) => Ok(filled@),
                    Err(e) => Err(e@),
                },
            ),
            PrepEvent::MediaFilled(done) => PrepEventView::MediaFilled(
                match done {
                    Ok(filled) => Ok((filled.0, filled.1@)),
                    Err(e) => Err(e@),
                },
            ),
        }
    }
}

/// What is said where neither rendering succeeds.
pub open spec fn template_message(full: Seq<char>, compact: Seq<char>) -> Seq<char> {
    "Failed to apply chat template with llama.cpp's Jinja renderer. This usually means the selected built-in template name does not exist, the embedded or custom template is invalid, or the template is incompatible with the current message shape. Select a valid llama.cpp built-in template name, configure a custom inline Jinja template, or use a GGUF with valid tokenizer.chat_template metadata. Full tools error: "@
        + full + "; compact tools error: "@ + compact
}

/// A preparation, as plain sequences.
#[verifier::ext_equal]
pub struct PrepView {
    /// The window of the cache that is retained.
    pub retained: usize,
    pub has_mtmd: bool,
    pub has_images: bool,
    pub settings: ModelSettings,
    pub facts: ModelFacts,
    pub context_limit: usize,
    /// The window of the request as it was at the start, by which a rendering is
    /// chosen.
    pub window: usize,
    /// What the images are expected to take, in tokens.
    pub image_tokens: usize,
    /// The window that the tokens were checked against.
    pub effective_ctx: usize,
    pub phase: PrepPhase,
    /// Which rendering is used.
    pub tools: Tools,
    /// Why the full rendering failed, where it did.
    pub full_error: Seq<char>,
    pub tokens: Seq<LlamaToken>,
    pub prompt_tokens: usize,
    pub filled: Option<PrefilledView>,
    pub failure: Option<ErrorView>,
}

impl PrepView {
    /// The preparation is over, and failed.
    pub open spec fn failing(self, e: ErrorView) -> PrepView {
        PrepView { failure: Some(e), phase: PrepPhase::Done, ..self }
    }

    /// The tokens that the tools and the text may take together with the images.
    pub open spec fn budget(self) -> int {
        if self.window > MIN_GENERATION_HEADROOM {
            self.window - MIN_GENERATION_HEADROOM
        } else {
            0
        }
    }

    /// A rendering is settled on.
    pub open spec fn using(self, tools: Tools) -> PrepView {
        PrepView {
            tools,
            phase: if self.has_images {
                PrepPhase::PrefillMedia
            } else {
                PrepPhase::Tokenize
            },
            ..self
        }
    }

    /// The full rendering succeeded, or not.
    pub open spec fn after_full(self, done: Result<(), Seq<char>>) -> PrepView {
        match done {
            Ok(_) => PrepView { phase: PrepPhase::CountFull, ..self },
            Err(e) => PrepView {
                full_error: e,
                phase: PrepPhase::RenderCompact { full: false },
                ..self
            },
        }
    }

    /// The full rendering was counted. One that cannot be counted counts as nothing.
    pub open spec fn after_count(self, n: Option<usize>) -> PrepView {
        let count = match n {
            Some(n) => n,
            None => 0,
        };
        if count + self.image_tokens > self.budget() {
            PrepView { phase: PrepPhase::RenderCompact { full: true }, ..self }
        } else {
            self.using(Tools::Full)
        }
    }

    /// The compact rendering succeeded, or not.
    pub open spec fn after_compact(self, done: Result<(), Seq<char>>, full: bool) -> PrepView {
        match done {
            Ok(_) => self.using(Tools::Compact),
            Err(e) => if full {
                self.using(Tools::Full)
            } else {
                self.failing(ErrorView::ExecutionError(template_message(self.full_error, e)))
            },
        }
    }

    /// What memory allows by that reading, where it is known.
    pub open spec fn memory_now(self, reading: ReadingView) -> Option<usize> {
        request_memory(
            &self.facts,
            self.has_mtmd,
            self.settings,
            reading.limits(self.context_limit, self.retained),
        )
    }

    /// The window of the request by that reading.
    pub open spec fn window_now(self, reading: ReadingView) -> usize {
        request_window(
            &self.facts,
            self.has_mtmd,
            self.settings,
            reading.limits(self.context_limit, self.retained),
        )
    }

    /// The rendering was turned into tokens, or not. They are checked against what
    /// the host says now.
    pub open spec fn after_tokens(
        self,
        done: Result<(Seq<LlamaToken>, ReadingView), Seq<char>>,
    ) -> PrepView {
        match done {
            Ok((tokens, reading)) => match checked_prompt(
                tokens.len() as usize,
                self.memory_now(reading),
                self.window_now(reading),
            ) {
                Ok(sizes) => PrepView {
                    tokens,
                    prompt_tokens: sizes.0,
                    effective_ctx: sizes.1,
                    phase: PrepPhase::PrefillText,
                    ..self
                },
                Err(e) => self.failing(e),
            },
            Err(e) => self.failing(ErrorView::ExecutionError(e)),
        }
    }

    /// The tokens were brought into a cache, or not.
    pub open spec fn after_text(self, done: Result<PrefilledView, ErrorView>) -> PrepView {
        match done {
            Ok(filled) => PrepView { filled: Some(filled), phase: PrepPhase::Done, ..self },
            Err(e) => self.failing(e),
        }
    }

    /// The rendering and the images were brought into a cache, or not.
    pub open spec fn after_media(
        self,
        done: Result<(usize, PrefilledView), ErrorView>,
    ) -> PrepView {
        match done {
            Ok(filled) => PrepView {
                prompt_tokens: filled.0,
                filled: Some(filled.1),
                phase: PrepPhase::Done,
                ..self
            },
            Err(e) => self.failing(e),
        }
    }

    /// What follows from an event. One that does not answer what was asked changes
    /// nothing.
    pub open spec fn after(self, event: PrepEventView) -> PrepView {
        match (self.phase, event) {
            (PrepPhase::RenderFull, PrepEventView::Rendered(done)) => self.after_full(done),
            (PrepPhase::CountFull, PrepEventView::Counted(n)) => self.after_count(n),
            (PrepPhase::RenderCompact { full }, PrepEventView::Rendered(done)) => self.after_compact(
                done,
                full,
            ),
            (PrepPhase::Tokenize, PrepEventView::Tokenized(done)) => self.after_tokens(done),
            (PrepPhase::PrefillText, PrepEventView::TextFilled(done)) => self.after_text(done),
            (PrepPhase::PrefillMedia, PrepEventView::MediaFilled(done)) => self.after_media(done),
            _ => self,
        }
    }

    /// What is asked.
    pub open spec fn action(self) -> PrepAction {
        match self.phase {
            PrepPhase::RenderFull => PrepAction::Render(Tools::Full),
            PrepPhase::CountFull => PrepAction::CountTokens,
            PrepPhase::RenderCompact { .. } => PrepAction::Render(Tools::Compact),
            PrepPhase::Tokenize => PrepAction::Tokenize(self.tools),
            PrepPhase::PrefillText => PrepAction::PrefillText {
                effective_ctx: self.effective_ctx,
            },
            PrepPhase::PrefillMedia => PrepAction::PrefillMedia(self.tools),
            PrepPhase::Done => PrepAction::Finish,
        }
    }

    /// Whether what this event makes the preparation count can be counted: tokens that
    /// came back are measured against what memory then allows.
    pub open spec fn counts_fit(self, event: PrepEventView) -> bool {
        match (self.phase, event) {
            (PrepPhase::Tokenize, PrepEventView::Tokenized(done)) => done matches Ok(tokenized)
                ==> self.facts.shape.measurable(
                tokenized.1.available_memory_bytes,
                self.retained,
            ),
            _ => true,
        }
    }

    /// What holds of every preparation, between one answer and the next.
    pub open spec fn wf(self) -> bool {
        &&& self.phase is Done ==> (self.failure is Some) != (self.filled is Some)
        &&& !(self.phase is Done) ==> self.failure is None && self.filled is None
        &&& self.phase is PrefillText ==> self.prompt_tokens == self.tokens.len()
            < self.effective_ctx
    }
}

/// A preparation at its start, by what the host says then.
pub open spec fn prep_begun(
    retained: usize,
    has_mtmd: bool,
    has_images: bool,
    image_tokens: usize,
    settings: ModelSettings,
    facts: ModelFacts,
    context_limit: usize,
    reading: ReadingView,
) -> PrepView {
    PrepView {
        retained,
        has_mtmd,
        has_images,
        settings,
        facts,
        context_limit,
        window: request_window(
            &facts,
            has_mtmd,
            settings,
            reading.limits(context_limit, retained),
        ),
        image_tokens,
        effective_ctx: 0,
        phase: PrepPhase::RenderFull,
        tools: Tools::Full,
        full_error: Seq::empty(),
        tokens: Seq::empty(),
        prompt_tokens: 0,
        filled: None,
        failure: None,
    }
}

/// Every preparation that starts well stays well. In particular, tokens are brought
/// into a cache only where they leave room in the window.
pub proof fn every_event_keeps_a_preparation_well_formed(s: PrepView, event: PrepEventView)
    requires
        s.wf(),
        event matches PrepEventView::Tokenized(Ok(done)) ==> done.0.len() <= usize::MAX,
    ensures
        s.after(event).wf(),
{
}

/// Tokens are brought into a cache only where they fit the memory and the window as
/// the host gives them once there are tokens, whatever it gave at the start, and in
/// that window.
pub proof fn tokens_are_checked_against_the_latest_reading(
    s: PrepView,
    tokens: Seq<LlamaToken>,
    reading: ReadingView,
)
    requires
        s.wf(),
        s.phase is Tokenize,
        tokens.len() <= usize::MAX,
    ensures
        ({
            let t = s.after(PrepEventView::Tokenized(Ok((tokens, reading))));
            let fits = tokens.len() < s.window_now(reading) && (s.memory_now(reading) is Some
                ==> tokens.len() <= s.memory_now(reading)->0);
            &&& fits ==> t.action() == PrepAction::PrefillText {
                effective_ctx: s.window_now(reading),
            } && t.tokens == tokens
            &&& !fits ==> t.phase is Done && t.failure is Some
                && t.failure->0 is ContextLengthExceeded
        }),
{
}

/// The compact schemas are asked for only where the full rendering failed or is over
/// budget, and used only where rendering them succeeds; to render fails only where
/// both renderings do.
pub proof fn compact_schemas_are_a_last_resort(s: PrepView, event: PrepEventView)
    requires
        s.wf(),
        event matches PrepEventView::Tokenized(Ok(done)) ==> done.0.len() <= usize::MAX,
    ensures
        s.after(event).phase is RenderCompact && !(s.phase is RenderCompact) ==> match event {
            PrepEventView::Rendered(done) => done is Err,
            PrepEventView::Counted(n) => (match n {
                Some(n) => n,
                None => 0,
            }) + s.image_tokens > s.budget(),
            _ => false,
        },
        s.phase is RenderCompact && event is Rendered ==> {
            let t = s.after(event);
            &&& event->Rendered_0 is Ok ==> t.tools is Compact && t.failure is None
            &&& event->Rendered_0 is Err && s.phase->full ==> t.tools is Full
                && t.failure is None
            &&& t.failure is Some <==> event->Rendered_0 is Err && !s.phase->full
        },
{
}

/// A request that is ready to generate.
#[derive(Debug)]
pub struct PreparedGeneration {
    /// Which rendering of the prompt is in the cache.
    pub tools: Tools,
    pub prompt_token_count: usize,
    pub effective_ctx: usize,
    /// Leading tokens that were served from a cache.
    pub reused_prefix_tokens: usize,
    /// What the throwaway context of this generation holds, where it has one.
    pub transient: Option<SessionKv>,
}

/// A preparation.
#[derive(Debug)]
pub struct Preparation {
    retained: usize,
    has_mtmd: bool,
    has_images: bool,
    settings: ModelSettings,
    facts: ModelFacts,
    context_limit: usize,
    window: usize,
    image_tokens: usize,
    effective_ctx: usize,
    phase: PrepPhase,
    tools: Tools,
    full_error: String,
    tokens: Vec<LlamaToken>,
    prompt_tokens: usize,
    filled: Option<PrefilledPrompt>,
    failure: Option<ProviderError>,
}

impl View for Preparation {
    type V = PrepView;

    closed spec fn view(&self) -> PrepView {
        PrepView {
            retained: self.retained,
            has_mtmd: self.has_mtmd,
            has_images: self.has_images,
            settings: self.settings,
            facts: self.facts,
            context_limit: self.context_limit,
            window: self.window,
            image_tokens: self.image_tokens,
            effective_ctx: self.effective_ctx,
            phase: self.phase,
            tools: self.tools,
            full_error: self.full_error@,
            tokens: self.tokens@,
            prompt_tokens: self.prompt_tokens,
            filled: match self.filled {
                Some(filled) => Some(filled@),
                None => None,
            },
            failure: match self.failure {
                Some(e) => Some(e@),
                None => None,
            },
        }
    }
}

/// What the images of a request are expected to take, in tokens, where that can be
/// counted.
pub fn estimated_image_tokens(images: usize, settings: &ModelSettings) -> (n: Option<usize>)
    ensures
        match n {
            Some(n) => n == images * settings.image_token_estimate,
            None => images * settings.image_token_estimate > usize::MAX,
        },
{
    images.checked_mul(settings.image_token_estimate)
}

impl Preparation {
    /// Starts to prepare a request with `images` images, beside what is retained.
    /// `has_mtmd` says whether the model has a vision encoder, and `reading` what the
    /// host says now.
    pub fn begin(
        session: &Option<SessionKv>,
        has_mtmd: bool,
        images: usize,
        settings: &ModelSettings,
        facts: ModelFacts,
        context_limit: usize,
        reading: &HostReading,
    ) -> (run: Preparation)
        requires
            facts.shape.measurable(
                reading.available_memory_bytes,
                retained_window(session_view(*session)),
            ),
            images * settings.image_token_estimate <= usize::MAX,
        ensures
            run@ == prep_begun(
                retained_window(session_view(*session)),
                has_mtmd,
                images > 0,
                (images * settings.image_token_estimate) as usize,
                *settings,
                facts,
                context_limit,
                reading@,
            ),
            run@.wf(),
    {
        let retained = retained_kv_tokens(session);
        let limits = reading.limits(context_limit, retained);
        let memory = request_memory_max(&facts, has_mtmd, settings, &limits);
        let window = context_cap(
            settings,
            context_limit,
            facts.n_ctx_train,
            memory,
            limits.host_limit,
        );
        let run = Preparation {
            retained,
            has_mtmd,
            has_images: images > 0,
            settings: *settings,
            facts,
            context_limit,
            window,
            image_tokens: images * settings.image_token_estimate,
            effective_ctx: 0,
            phase: PrepPhase::RenderFull,
            tools: Tools::Full,
            full_error: String::new(),
            tokens: Vec::new(),
            prompt_tokens: 0,
            filled: None,
            failure: None,
        };
        proof {
            assert(run@.full_error =~= Seq::<char>::empty());
            assert(run@.tokens =~= Seq::<LlamaToken>::empty());
        }
        run
    }

    fn fail(&mut self, e: ProviderError)
        ensures
            final(self)@ == old(self)@.failing(e@),
    {
        self.failure = Some(e);
        self.phase = PrepPhase::Done;
    }

    fn settle_on(&mut self, tools: Tools)
        ensures
            final(self)@ == old(self)@.using(tools),
    {
        self.tools = tools;
        self.phase = if self.has_images {
            PrepPhase::PrefillMedia
        } else {
            PrepPhase::Tokenize
        };
    }

    fn on_count(&mut self, n: Option<usize>)
        ensures
            final(self)@ == old(self)@.after_count(n),
    {
        let count: usize = match n {
            Some(n) => n,
            None => 0,
        };
        let budget: usize = self.window.saturating_sub(MIN_GENERATION_HEADROOM);
        let over = match count.checked_add(self.image_tokens) {
            Some(total) => total > budget,
            None => true,
        };
        if over {
            self.phase = PrepPhase::RenderCompact { full: true };
        } else {
            self.settle_on(Tools::Full);
        }
    }

    fn on_compact(&mut self, done: Result<(), String>, full: bool)
        ensures
            final(self)@ == old(self)@.after_compact(
                match done {
                    Ok(_) => Ok(()),
                    Err(e) => Err(e@),
                },
                full,
            ),
    {
        match done {
            Ok(_) => {
                self.settle_on(Tools::Compact);
            },
            Err(e) => {
                if full {
                    self.settle_on(Tools::Full);
                } else {
                    let mut m =
                    "Failed to apply chat template with llama.cpp's Jinja renderer. This usually means the selected built-in template name does not exist, the embedded or custom template is invalid, or the template is incompatible with the current message shape. Select a valid llama.cpp built-in template name, configure a custom inline Jinja template, or use a GGUF with valid tokenizer.chat_template metadata. Full tools error: ".to_owned();
                    m.append(self.full_error.as_str());
                    m.append("; compact tools error: ");
                    m.append(e.as_str());
                    self.fail(ProviderError::ExecutionError(m));
                }
            },
        }
    }

    fn on_tokens(&mut self, done: Result<(Vec<LlamaToken>, HostReading), String>)
        requires
            old(self)@.phase is Tokenize,
            done matches Ok(tokenized) ==> old(self)@.facts.shape.measurable(
                tokenized.1.available_memory_bytes,
                old(self)@.retained,
            ),
        ensures
            final(self)@ == old(self)@.after_tokens(
                match done {
                    Ok(tokenized) => Ok((tokenized.0@, tokenized.1@)),
                    Err(e) => Err(e@),
                },
            ),
            final(self)@.phase is PrefillText ==> final(self)@.prompt_tokens
                == final(self)@.tokens.len(),
    {
        match done {
            Ok((tokens, reading)) => match validate_and_compute_context(
                &self.facts,
                self.has_mtmd,
                tokens.len(),
                &self.settings,
                &reading.limits(self.context_limit, self.retained),
            ) {
                Ok(sizes) => {
                    self.tokens = tokens;
                    self.prompt_tokens = sizes.0;
                    self.effective_ctx = sizes.1;
                    self.phase = PrepPhase::PrefillText;
                },
                Err(e) => {
                    self.fail(e);
                },
            },
            Err(e) => {
                self.fail(ProviderError::ExecutionError(e));
            },
        }
    }

    /// Whether what this event makes the preparation count can be counted.
    pub fn counts_fit(&self, event: &PrepEvent) -> (r: bool)
        ensures
            r == self@.counts_fit(event@),
    {
        match (self.phase, event) {
            (PrepPhase::Tokenize, PrepEvent::Tokenized(Ok(tokenized))) => estimate_is_countable(
                &self.facts.shape,
                tokenized.1.available_memory_bytes,
                self.retained,
            ),
            _ => true,
        }
    }

    /// Takes what came of the last action.
    pub fn step(&mut self, event: PrepEvent)
        requires
            old(self)@.wf(),
            old(self)@.counts_fit(event@),
        ensures
            final(self)@ == old(self)@.after(event@),
            final(self)@.wf(),
    {
        match (self.phase, event) {
            (PrepPhase::RenderFull, PrepEvent::Rendered(done)) => match done {
                Ok(_) => {
                    self.phase = PrepPhase::CountFull;
                },
                Err(e) => {
                    self.full_error = e;
                    self.phase = PrepPhase::RenderCompact { full: false };
                },
            },
            (PrepPhase::CountFull, PrepEvent::Counted(n)) => {
                self.on_count(n);
            },
            (PrepPhase::RenderCompact { full }, PrepEvent::Rendered(done)) => {
                self.on_compact(done, full);
            },
            (PrepPhase::Tokenize, PrepEvent::Tokenized(done)) => {
                self.on_tokens(done);
            },
            (PrepPhase::PrefillText, PrepEvent::TextFilled(done)) => match done {
                Ok(filled) => {
                    self.filled = Some(filled);
                    self.phase = PrepPhase::Done;
                },
                Err(e) => {
                    self.fail(e);
                },
            },
            (PrepPhase::PrefillMedia, PrepEvent::MediaFilled(done)) => match done {
                Ok(filled) => {
                    self.prompt_tokens = filled.0;
                    self.filled = Some(filled.1);
                    self.phase = PrepPhase::Done;
                },
                Err(e) => {
                    self.fail(e);
                },
            },
            _ => {},
        }
    }

    /// What is asked now.
    pub fn action(&self) -> (action: PrepAction)
        ensures
            action == self@.action(),
    {
        match self.phase {
            PrepPhase::RenderFull => PrepAction::Render(Tools::Full),
            PrepPhase::CountFull => PrepAction::CountTokens,
            PrepPhase::RenderCompact { .. } => PrepAction::Render(Tools::Compact),
            PrepPhase::Tokenize => PrepAction::Tokenize(self.tools),
            PrepPhase::PrefillText => PrepAction::PrefillText {
                effective_ctx: self.effective_ctx,
            },
            PrepPhase::PrefillMedia => PrepAction::PrefillMedia(self.tools),
            PrepPhase::Done => PrepAction::Finish,
        }
    }

    /// The tokens of the prompt, once it was turned into tokens.
    pub fn tokens(&self) -> (tokens: &[LlamaToken])
        ensures
            tokens@ == self@.tokens,
    {
        self.tokens.as_slice()
    }

    /// What the preparation comes to.
    pub fn finish(self) -> (r: Result<PreparedGeneration, ProviderError>)
        requires
            self@.wf(),
            self@.phase is Done,
        ensures
            match r {
                Ok(ready) => {
                    &&& self@.failure is None
                    &&& ready.tools == self@.tools
                    &&& ready.prompt_token_count == self@.prompt_tokens
                    &&& self@.filled == Some(
                        PrefilledView {
                            reused_prefix_tokens: ready.reused_prefix_tokens,
                            transient: session_view(ready.transient),
                            effective_ctx: ready.effective_ctx,
                        },
                    )
                },
                Err(e) => self@.failure == Some(e@),
            },
    {
        match (self.failure, self.filled) {
            (None, Some(filled)) => Ok(
                PreparedGeneration {
                    tools: self.tools,
                    prompt_token_count: self.prompt_tokens,
                    effective_ctx: filled.effective_ctx,
                    reused_prefix_tokens: filled.reused_prefix_tokens,
                    transient: filled.transient,
                },
            ),
            (Some(e), _) => Err(e),
            (None, None) => unreached(),
        }
    }
}

/// A preparation begins with the full schemas, in the window that the limits of its
/// request leave by what the host says at its start.
pub proof fn a_preparation_begins_with_the_full_schemas(
    retained: usize,
    has_mtmd: bool,
    has_images: bool,
    image_tokens: usize,
    settings: ModelSettings,
    facts: ModelFacts,
    context_limit: usize,
    reading: ReadingView,
)
    ensures
        ({
            let s = prep_begun(
                retained,
                has_mtmd,
                has_images,
                image_tokens,
                settings,
                facts,
                context_limit,
                reading,
            );
            &&& s.action() == PrepAction::Render(Tools::Full)
            &&& s.failure is None && s.filled is None
            &&& s.image_tokens == image_tokens
            &&& s.has_images == has_images
            &&& s.window == request_window(
                &facts,
                has_mtmd,
                settings,
                (LimitsView {
                    available_memory_bytes: reading.available_memory_bytes,
                    context_limit,
                    host_limit: reading.host_limit,
                    retained_kv_tokens: retained,
                }),
            )
            &&& s.facts == facts && s.settings == settings && s.has_mtmd == has_mtmd
                && s.context_limit == context_limit && s.retained == retained
        }),
{
}

/// A full rendering is counted; where it fails, the compact schemas are tried. Nothing of
/// the request itself changes.
pub proof fn a_full_rendering_is_counted(s: PrepView, done: Result<(), Seq<char>>)
    requires
        s.wf(),
        s.phase is RenderFull,
    ensures
        ({
            let t = s.after(PrepEventView::Rendered(done));
            &&& done is Ok ==> t.action() is CountTokens
            &&& done is Err ==> t.action() == PrepAction::Render(Tools::Compact)
            &&& t.failure is None
            &&& t.window == s.window && t.image_tokens == s.image_tokens
        }),
{
}

/// The compact schemas are asked for exactly where the full rendering, with the images,
/// takes more than the window less five hundred and twelve positions, counted without
/// bound; a window that small leaves no room at all, and a rendering that could not be
/// counted takes nothing. Else the full rendering is settled on.
pub proof fn compact_schemas_are_asked_for_exactly_over_budget(s: PrepView, n: Option<usize>)
    requires
        s.wf(),
        s.phase is CountFull,
    ensures
        ({
            let t = s.after(PrepEventView::Counted(n));
            let size = s.image_tokens + (match n {
                Some(n) => n as int,
                None => 0int,
            });
            let room = if s.window >= 512 {
                s.window - 512
            } else {
                0
            };
            &&& size > room <==> t.action() == PrepAction::Render(Tools::Compact)
            &&& size <= room ==> t.action() == (if s.has_images {
                PrepAction::PrefillMedia(Tools::Full)
            } else {
                PrepAction::Tokenize(Tools::Full)
            })
            &&& t.failure is None
        }),
{
}

/// The compact rendering is used where it succeeds. Where it fails, the full one is, if it
/// succeeded; a request with images and one without go on in their own ways.
pub proof fn a_compact_rendering_is_used_where_it_succeeds(
    s: PrepView,
    done: Result<(), Seq<char>>,
)
    requires
        s.wf(),
        s.phase is RenderCompact,
    ensures
        ({
            let t = s.after(PrepEventView::Rendered(done));
            let tools = if done is Ok {
                Tools::Compact
            } else {
                Tools::Full
            };
            &&& done is Ok || s.phase->full ==> t.action() == (if s.has_images {
                PrepAction::PrefillMedia(tools)
            } else {
                PrepAction::Tokenize(tools)
            }) && t.tools == tools && t.failure is None
            &&& !(done is Ok || s.phase->full) ==> t.action() is Finish && t.failure is Some
        }),
{
}

/// Where both renderings fail, what is reported ends with why each did, the full one
/// first.
pub proof fn two_failed_renderings_are_named_in_turn(
    s: PrepView,
    full: Seq<char>,
    compact: Seq<char>,
)
    requires
        s.wf(),
        s.phase is RenderFull,
    ensures
        ({
            let t = s.after(PrepEventView::Rendered(Err(full))).after(
                PrepEventView::Rendered(Err(compact)),
            );
            let end = "; compact tools error: "@ + compact;
            &&& t.action() is Finish
            &&& t.failure matches Some(ErrorView::ExecutionError(m)) && {
                &&& m.len() >= full.len() + end.len()
                &&& m.skip(m.len() - end.len()) == end
                &&& m.subrange(m.len() - end.len() - full.len(), m.len() - end.len()) == full
            }
        }),
{
    let t = s.after(PrepEventView::Rendered(Err(full))).after(
        PrepEventView::Rendered(Err(compact)),
    );
    let m = t.failure->0->ExecutionError_0;
    let end = "; compact tools error: "@ + compact;
    assert(m == template_message(full, compact));
    assert(m.skip(m.len() - end.len()) =~= end);
    assert(m.subrange(m.len() - end.len() - full.len(), m.len() - end.len()) =~= full);
}

/// Tokens go to the cache exactly where they fit memory and window, as the limits of the
/// request are by what the host says once there are tokens, and in that window; the
/// vision encoder counts where it is loaded. A text that is no tokens is reported as it
/// came.
pub proof fn tokens_go_to_the_cache_where_they_fit(
    s: PrepView,
    done: Result<(Seq<LlamaToken>, ReadingView), Seq<char>>,
)
    requires
        s.wf(),
        s.phase is Tokenize,
        done matches Ok(tokenized) ==> tokenized.0.len() <= usize::MAX,
    ensures
        ({
            let t = s.after(PrepEventView::Tokenized(done));
            match done {
                Ok((tokens, reading)) => {
                    let limits = LimitsView {
                        available_memory_bytes: reading.available_memory_bytes,
                        context_limit: s.context_limit,
                        host_limit: reading.host_limit,
                        retained_kv_tokens: s.retained,
                    };
                    let memory = request_memory(&s.facts, s.has_mtmd, s.settings, limits);
                    let window = request_window(&s.facts, s.has_mtmd, s.settings, limits);
                    let fits = tokens.len() < window && (memory is Some ==> tokens.len()
                        <= memory->0);
                    &&& fits <==> t.action() == PrepAction::PrefillText { effective_ctx: window }
                    &&& fits ==> t.tokens == tokens && t.prompt_tokens == tokens.len()
                        && t.failure is None
                    &&& !fits ==> t.action() is Finish && t.failure is Some
                        && t.failure->0 is ContextLengthExceeded
                },
                Err(e) => t.action() is Finish && t.failure == Some(ErrorView::ExecutionError(e)),
            }
        }),
{
}

/// The window of a text request that memory alone bounds is the largest whose cache, of
/// the model's own dimensions, takes half of what is left once a vision encoder that is
/// loaded has taken its part, or else all that the model was trained for.
pub proof fn a_text_window_leaves_room_for_a_loaded_encoder(
    s: PrepView,
    tokens: Seq<LlamaToken>,
    reading: ReadingView,
    k: nat,
    v: nat,
)
    requires
        s.wf(),
        s.phase is Tokenize,
        tokens.len() <= usize::MAX,
        s.settings.context_size is None,
        s.context_limit == 0,
        reading.host_limit is None,
        comes_to(s.facts.shape.key_length, s.facts.shape.n_embd, s.facts.shape.n_head, k),
        comes_to(s.facts.shape.value_length, s.facts.shape.n_embd, s.facts.shape.n_head, v),
        is_real_size(
            reading.available_memory_bytes + cache_bytes(
                s.retained as int,
                k,
                v,
                s.facts.shape.n_head_kv,
                s.facts.shape.n_layer,
            ),
        ),
        s.facts.shape.n_layer > 0,
        s.facts.shape.n_head_kv > 0,
        s.facts.shape.n_head > 0,
        s.facts.shape.n_embd > 0,
        k + v > 0,
        reading.available_memory_bytes > 0,
    ensures
        s.after(PrepEventView::Tokenized(Ok((tokens, reading)))).action()
            matches PrepAction::PrefillText { effective_ctx } ==> {
            let total = reading.available_memory_bytes + cache_bytes(
                s.retained as int,
                k,
                v,
                s.facts.shape.n_head_kv,
                s.facts.shape.n_layer,
            );
            let encoder = if s.has_mtmd {
                s.settings.mmproj_size_bytes as int
            } else {
                0
            };
            let bytes = |n: int| cache_bytes(n, k, v, s.facts.shape.n_head_kv, s.facts.shape.n_layer);
            &&& effective_ctx <= s.facts.n_ctx_train
            &&& 2 * bytes(effective_ctx as int) + encoder <= total
            &&& effective_ctx == s.facts.n_ctx_train || total < 2 * bytes(effective_ctx + 1)
                + encoder
        },
{
    let limits = reading.limits(s.context_limit, s.retained);
    the_estimate_fills_half_of_what_is_left(&s.facts, s.has_mtmd, s.settings, limits, k, v);
    a_request_is_given_the_window_of_its_limits(&s.facts, s.has_mtmd, s.settings, limits);
    let memory = request_memory(&s.facts, s.has_mtmd, s.settings, limits)->0;
    let all = seq![s.facts.n_ctx_train] + seq![memory];
    assert(all[0] == s.facts.n_ctx_train && all[1] == memory);
    let window = request_window(&s.facts, s.has_mtmd, s.settings, limits);
    assert(window <= memory);
    let per = (k + v) * s.facts.shape.n_head_kv * s.facts.shape.n_layer * 2;
    assert(per >= 0 && window * per <= memory * per) by (nonlinear_arith)
        requires
            window <= memory,
            per == (k + v) * s.facts.shape.n_head_kv * s.facts.shape.n_layer * 2,
            k + v >= 0,
    ;
}

/// A preparation ends with what filled the cache, as it came: the size of a text is that
/// of its tokens, and that of a prompt with images is what came with the cache. A failure
/// is handed on as it is.
pub proof fn a_preparation_ends_with_what_filled_the_cache(s: PrepView)
    requires
        s.wf(),
    ensures
        s.phase is PrefillText ==> forall|filled: PrefilledView| #[trigger]
            s.after(PrepEventView::TextFilled(Ok(filled))).filled == Some(filled),
        s.phase is PrefillText ==> forall|filled: PrefilledView|
            (#[trigger] s.after(PrepEventView::TextFilled(Ok(filled)))).action() is Finish
                && s.after(PrepEventView::TextFilled(Ok(filled))).failure is None
                && s.after(PrepEventView::TextFilled(Ok(filled))).prompt_tokens
                == s.tokens.len() && s.after(PrepEventView::TextFilled(Ok(filled))).tools
                == s.tools,
        s.phase is PrefillText ==> forall|e: ErrorView|
            (#[trigger] s.after(PrepEventView::TextFilled(Err(e)))).failure == Some(e) && s.after(
                PrepEventView::TextFilled(Err(e)),
            ).action() is Finish,
        s.phase is PrefillMedia ==> forall|n: usize, filled: PrefilledView|
            (#[trigger] s.after(PrepEventView::MediaFilled(Ok((n, filled))))).filled == Some(
                filled,
            ) && s.after(PrepEventView::MediaFilled(Ok((n, filled)))).prompt_tokens == n
                && s.after(PrepEventView::MediaFilled(Ok((n, filled)))).failure is None
                && s.after(PrepEventView::MediaFilled(Ok((n, filled)))).action() is Finish
                && s.after(PrepEventView::MediaFilled(Ok((n, filled)))).tools == s.tools,
        s.phase is PrefillMedia ==> forall|e: ErrorView|
            (#[trigger] s.after(PrepEventView::MediaFilled(Err(e)))).failure == Some(e)
                && s.after(PrepEventView::MediaFilled(Err(e))).action() is Finish,
{
}

/// What came of an action is read as it came.
pub proof fn a_preparation_reads_events_as_they_come(
    rendered: Result<(), String>,
    n: Option<usize>,
    tokens: Vec<LlamaToken>,
    reading: HostReading,
    e: String,
    filled: PrefilledPrompt,
    failed: ProviderError,
    size: usize,
)
    ensures
        PrepEvent::Rendered(rendered)@ == PrepEventView::Rendered(
            match rendered {
                Ok(_) => Ok(()),
                Err(e) => Err(e@),
            },
        ),
        PrepEvent::Counted(n)@ == PrepEventView::Counted(n),
        PrepEvent::Tokenized(Ok((tokens, reading)))@ == PrepEventView::Tokenized(
            Ok((tokens@, reading@)),
        ),
        PrepEvent::Tokenized(Err(e))@ == PrepEventView::Tokenized(Err(e@)),
        PrepEvent::TextFilled(Ok(filled))@ == PrepEventView::TextFilled(Ok(filled@)),
        PrepEvent::TextFilled(Err(failed))@ == PrepEventView::TextFilled(Err(failed@)),
        PrepEvent::MediaFilled(Ok((size, filled)))@ == PrepEventView::MediaFilled(
            Ok((size, filled@)),
        ),
        PrepEvent::MediaFilled(Err(failed))@ == PrepEventView::MediaFilled(Err(failed@)),
        reading@.available_memory_bytes == reading.available_memory_bytes,
        reading@.host_limit == (match reading.host_limit {
            Some(text) => Some(text@),
            None => None,
        }),
        filled@.reused_prefix_tokens == filled.reused_prefix_tokens,
        filled@.effective_ctx == filled.effective_ctx,
        filled@.transient == (match filled.transient {
            Some(kv) => Some(kv@),
            None => None,
        }),
{
}

/// Compact schemas that were asked for because the full ones take too much are given up
/// where they fail: the full rendering, which succeeded, is used all the same.
pub proof fn failed_compact_schemas_fall_back_to_full_ones(
    s: PrepView,
    n: Option<usize>,
    e: Seq<char>,
)
    requires
        s.wf(),
        s.phase is CountFull,
        s.after(PrepEventView::Counted(n)).action() == PrepAction::Render(Tools::Compact),
    ensures
        ({
            let t = s.after(PrepEventView::Counted(n)).after(PrepEventView::Rendered(Err(e)));
            &&& t.failure is None
            &&& t.action() == (if s.has_images {
                PrepAction::PrefillMedia(Tools::Full)
            } else {
                PrepAction::Tokenize(Tools::Full)
            })
        }),
{
}

/// Whatever happens, the request stays what it was.
pub proof fn a_preparation_keeps_its_request(s: PrepView, event: PrepEventView)
    ensures
        ({
            let t = s.after(event);
            &&& t.retained == s.retained
            &&& t.has_mtmd == s.has_mtmd
            &&& t.has_images == s.has_images
            &&& t.settings == s.settings
            &&& t.facts == s.facts
            &&& t.context_limit == s.context_limit
            &&& t.image_tokens == s.image_tokens
            &&& t.window == s.window
        }),
{
}

/// An answer to something that was not asked changes nothing.
pub proof fn a_preparation_ignores_what_it_did_not_ask(s: PrepView, event: PrepEventView)
    requires
        match event {
            PrepEventView::Rendered(_) => !(s.action() is Render),
            PrepEventView::Counted(_) => !(s.action() is CountTokens),
            PrepEventView::Tokenized(_) => !(s.action() is Tokenize),
            PrepEventView::TextFilled(_) => !(s.action() is PrefillText),
            PrepEventView::MediaFilled(_) => !(s.action() is PrefillMedia),
        },
    ensures
        s.after(event) == s,
{
}

} // verus!

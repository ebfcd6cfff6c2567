//! The generation loop: one token at a time, until the model ends, the reader has
//! enough, or the room is used up.

use vstd::prelude::*;
use vstd::string::*;

use crate::error::{execution_error, ErrorView, ProviderError};
use crate::settings::ModelSettings;
use crate::text::{decimal, push_decimal, push_signed, signed_decimal};
use crate::token::LlamaToken;

verus! {

/// What the reader of the text says to a piece of it.
#[derive(Clone, Copy, Debug, PartialEq, Eq, Structural)]
pub enum TokenAction {
    Continue,
    Stop,
}

/// Where a generation stands: what was asked last.
#[derive(Clone, Copy, Debug, PartialEq, Eq, Structural)]
pub enum GenPhase {
    Sample,
    /// The text of a token is asked for.
    Piece { token: LlamaToken },
    /// The text is handed to the reader.
    Deliver { token: LlamaToken },
    /// The token is decoded into the cache.
    Decode { token: LlamaToken },
    Done,
}

/// What is asked.
#[derive(Debug)]
pub enum GenAction {
    Sample,
    Piece(LlamaToken),
    Deliver(String),
    Decode(LlamaToken),
    Finish,
}

/// What is asked, its text as a sequence.
#[verifier::ext_equal]
pub enum GenActionView {
    Sample,
    Piece(LlamaToken),
    Deliver(Seq<char>),
    Decode(LlamaToken),
    Finish,
}

impl View for GenAction {
    type V = GenActionView;

    open spec fn view(&self) -> GenActionView {
        match self {
            GenAction::Sample => GenActionView::Sample,
            GenAction::Piece(token) => GenActionView::Piece(*token),
            GenAction::Deliver(text) => GenActionView::Deliver(text@),
            GenAction::Decode(token) => GenActionView::Decode(*token),
            GenAction::Finish => GenActionView::Finish,
        }
    }
}

/// Why a token was not decoded.
#[derive(Debug)]
pub enum TokenFailure {
    Batch(String),
    Engine(String),
}

/// What is reported of a token that was not decoded.
pub open spec fn token_error(failure: TokenFailure) -> ErrorView {
    match failure {
        TokenFailure::Batch(e) => ErrorView::ExecutionError("Failed to create batch: "@ + e@),
        TokenFailure::Engine(e) => ErrorView::ExecutionError("Decode failed: "@ + e@),
    }
}

/// What came of an action.
#[derive(Debug)]
pub enum GenEvent {
    /// A token was drawn; `eog` says whether it ends the generation.
    Sampled { token: LlamaToken, eog: bool },
    Piece(Result<String, String>),
    Delivered(Result<TokenAction, ProviderError>),
    Decoded(Result<(), TokenFailure>),
}

/// What came of an action, its text as sequences. Of a failure, only what is
/// reported of it.
#[verifier::ext_equal]
pub enum GenEventView {
    Sampled { token: LlamaToken, eog: bool },
    Piece(Result<Seq<char>, Seq<char>>),
    Delivered(Result<TokenAction, ErrorView>),
    Decoded(Result<(), ErrorView>),
}

impl View for GenEvent {
    type V = GenEventView;

    open spec fn view(&self) -> GenEventView {
        match self {
            GenEvent::Sampled { token, eog } => GenEventView::Sampled { token: *token, eog: *eog },
            GenEvent::Piece(text) => GenEventView::Piece(
                match text {
                    Ok(text) => Ok(text@),
                    Err(e) => Err(e@),
                },
            ),
            GenEvent::Delivered(said) => GenEventView::Delivered(
                match said {
                    Ok(action) => Ok(*action),
                    Err(e) => Err(e@),
                },
            ),
            GenEvent::Decoded(done) => GenEventView::Decoded(
                match done {
                    Ok(_) => Ok(()),
                    Err(failure) => Err(token_error(*failure)),
                },
            ),
        }
    }
}

/// A size, as the report counts it: in 31 bits and a sign.
pub open spec fn reported_size(n: usize) -> int {
    (n as i32) as int
}

/// What is said of a generation that used up its window.
pub open spec fn exhausted_message(
    prompt_tokens: usize,
    produced: int,
    effective_ctx: usize,
) -> Seq<char> {
    "Generation exhausted context window ("@ + decimal(prompt_tokens as nat) + " prompt + "@
        + signed_decimal(produced) + " generated = "@ + signed_decimal(
        reported_size(prompt_tokens) + produced,
    ) + " of "@ + decimal(effective_ctx as nat) + " limit)"@
}

/// The room that the window leaves behind the prompt.
pub open spec fn headroom(prompt_tokens: usize, effective_ctx: usize) -> usize {
    if effective_ctx > prompt_tokens {
        (effective_ctx - prompt_tokens) as usize
    } else {
        0
    }
}

/// The most tokens that a generation may produce: the room that is left, or the
/// setting, whichever is less.
pub open spec fn output_limit(room: usize, max_output_tokens: Option<usize>) -> usize {
    match max_output_tokens {
        Some(max) => if max < room {
            max
        } else {
            room
        },
        None => room,
    }
}

/// Whether it is the window, and not the setting, that limits the output.
pub open spec fn limited_by_window(room: usize, max_output_tokens: Option<usize>) -> bool {
    match max_output_tokens {
        Some(max) => room <= max,
        None => true,
    }
}

/// A generation, as plain sequences.
#[verifier::ext_equal]
pub struct GenView {
    pub prompt_tokens: usize,
    pub effective_ctx: usize,
    pub max_output: usize,
    pub window_bound: bool,
    pub phase: GenPhase,
    /// The text that is being handed to the reader.
    pub piece: Seq<char>,
    /// The tokens that were drawn and did not end the generation.
    pub produced: i32,
    /// The tokens that are in the cache behind the prompt.
    pub decoded: Seq<LlamaToken>,
    pub failure: Option<ErrorView>,
}

impl GenView {
    /// The generation is over.
    pub open spec fn done(self) -> GenView {
        GenView { phase: GenPhase::Done, ..self }
    }

    /// The generation is over, and failed.
    pub open spec fn failing(self, e: ErrorView) -> GenView {
        GenView { failure: Some(e), phase: GenPhase::Done, ..self }
    }

    /// The next token, if there is room for one. To run out of room is a failure
    /// where it is the window that has run out.
    pub open spec fn next(self) -> GenView {
        if self.decoded.len() < self.max_output {
            GenView { phase: GenPhase::Sample, ..self }
        } else if self.window_bound {
            self.failing(
                ErrorView::ContextLengthExceeded(
                    exhausted_message(
                        self.prompt_tokens,
                        self.produced as int,
                        self.effective_ctx,
                    ),
                ),
            )
        } else {
            self.done()
        }
    }

    /// A token was drawn.
    pub open spec fn after_sample(self, token: LlamaToken, eog: bool) -> GenView {
        if eog {
            self.done()
        } else {
            GenView {
                produced: (self.produced + 1) as i32,
                phase: GenPhase::Piece { token },
                ..self
            }
        }
    }

    /// The text of a token came back, or not.
    pub open spec fn after_piece(
        self,
        token: LlamaToken,
        text: Result<Seq<char>, Seq<char>>,
    ) -> GenView {
        match text {
            Ok(text) => if text.len() == 0 {
                GenView { phase: GenPhase::Decode { token }, ..self }
            } else {
                GenView { piece: text, phase: GenPhase::Deliver { token }, ..self }
            },
            Err(e) => self.failing(ErrorView::ExecutionError("Failed to decode token: "@ + e)),
        }
    }

    /// The reader answered.
    pub open spec fn after_delivery(
        self,
        token: LlamaToken,
        said: Result<TokenAction, ErrorView>,
    ) -> GenView {
        match said {
            Ok(TokenAction::Continue) => GenView { phase: GenPhase::Decode { token }, ..self },
            Ok(TokenAction::Stop) => self.done(),
            Err(e) => self.failing(e),
        }
    }

    /// A token was decoded into the cache, or not.
    pub open spec fn after_decode(
        self,
        token: LlamaToken,
        done: Result<(), ErrorView>,
    ) -> GenView {
        match done {
            Ok(_) => (GenView { decoded: self.decoded.push(token), ..self }).next(),
            Err(e) => self.failing(e),
        }
    }

    /// What follows from an event. One that does not answer what was asked changes
    /// nothing.
    pub open spec fn after(self, event: GenEventView) -> GenView {
        match (self.phase, event) {
            (GenPhase::Sample, GenEventView::Sampled { token, eog }) => self.after_sample(
                token,
                eog,
            ),
            (GenPhase::Piece { token }, GenEventView::Piece(text)) => self.after_piece(token, text),
            (GenPhase::Deliver { token }, GenEventView::Delivered(said)) => self.after_delivery(
                token,
                said,
            ),
            (GenPhase::Decode { token }, GenEventView::Decoded(done)) => self.after_decode(
                token,
                done,
            ),
            _ => self,
        }
    }

    /// What is asked.
    pub open spec fn action(self) -> GenActionView {
        match self.phase {
            GenPhase::Sample => GenActionView::Sample,
            GenPhase::Piece { token } => GenActionView::Piece(token),
            GenPhase::Deliver { token } => GenActionView::Deliver(self.piece),
            GenPhase::Decode { token } => GenActionView::Decode(token),
            GenPhase::Done => GenActionView::Finish,
        }
    }

    /// Whether what this event makes the generation count, or report, can be counted:
    /// a token that was drawn, and the size of a window that has run out.
    pub open spec fn counts_fit(self, event: GenEventView) -> bool {
        match (self.phase, event) {
            (GenPhase::Sample, GenEventView::Sampled { token, eog }) => !eog ==> self.produced
                < i32::MAX,
            (GenPhase::Decode { token }, GenEventView::Decoded(done)) => done is Ok
                && self.window_bound && self.decoded.len() + 1 >= self.max_output
                ==> reported_size(self.prompt_tokens) + self.produced <= i32::MAX,
            _ => true,
        }
    }

    /// Whether a token is between being drawn and being decoded.
    pub open spec fn in_flight(self) -> bool {
        self.phase is Piece || self.phase is Deliver || self.phase is Decode
    }

    /// What holds of every generation, between one answer and the next.
    pub open spec fn wf(self) -> bool {
        &&& 0 <= self.produced
        &&& self.phase is Sample ==> self.produced == self.decoded.len() && self.decoded.len()
            < self.max_output
        &&& self.in_flight() ==> self.produced == self.decoded.len() + 1 && self.decoded.len()
            < self.max_output
        &&& self.phase is Done ==> self.decoded.len() <= self.produced <= self.decoded.len() + 1
            && self.decoded.len() <= self.max_output
        &&& self.failure is Some ==> self.phase is Done
        &&& self.phase is Deliver ==> self.piece.len() > 0
    }

    /// What a generation that is done comes to: how many tokens it produced.
    pub open spec fn outcome(self) -> Result<i32, ErrorView> {
        match self.failure {
            Some(e) => Err(e),
            None => Ok(self.produced),
        }
    }
}

/// A generation at its start.
pub open spec fn gen_begun(
    settings: ModelSettings,
    prompt_tokens: usize,
    effective_ctx: usize,
) -> GenView {
    let room = headroom(prompt_tokens, effective_ctx);
    (GenView {
        prompt_tokens,
        effective_ctx,
        max_output: output_limit(room, settings.max_output_tokens),
        window_bound: limited_by_window(room, settings.max_output_tokens),
        phase: GenPhase::Sample,
        piece: Seq::empty(),
        produced: 0,
        decoded: Seq::empty(),
        failure: None,
    }).next()
}

/// Every generation that starts well stays well.
pub proof fn every_event_keeps_a_generation_well_formed(s: GenView, event: GenEventView)
    requires
        s.wf(),
        s.counts_fit(event),
    ensures
        s.after(event).wf(),
{
}

/// A token reaches the ledger only once it is decoded: what is recorded grows by
/// the token of a decode that succeeded, and by nothing else. The token on which a
/// generation stops is produced, but not decoded.
pub proof fn only_decoded_tokens_are_recorded(s: GenView, event: GenEventView)
    requires
        s.wf(),
    ensures
        s.after(event).decoded == s.decoded || (s.phase is Decode && event is Decoded
            && event->Decoded_0 is Ok && s.after(event).decoded == s.decoded.push(
            s.phase->Decode_token,
        )),
        s.after(event).phase is Done && s.after(event).failure is None ==> (
        s.after(event).produced > s.after(event).decoded.len() <==> event == (
        GenEventView::Delivered(Ok::<TokenAction, ErrorView>(TokenAction::Stop))) && s.phase is Deliver
            || (s.phase is Done && s.produced > s.decoded.len())),
{
}

/// A generation stays within its window and its setting, and is never told that the
/// window ran out while the window was not the limit.
pub proof fn a_generation_stays_within_its_limits(
    settings: ModelSettings,
    prompt_tokens: usize,
    effective_ctx: usize,
)
    ensures
        ({
            let s = gen_begun(settings, prompt_tokens, effective_ctx);
            &&& s.max_output <= headroom(prompt_tokens, effective_ctx)
            &&& settings.max_output_tokens matches Some(max) ==> s.max_output <= max
            &&& s.window_bound ==> s.max_output == headroom(prompt_tokens, effective_ctx)
            &&& !s.window_bound ==> s.max_output < headroom(prompt_tokens, effective_ctx)
        }),
{
}

/// The window is reported as used up exactly where it is: every position behind the
/// prompt holds a token.
pub proof fn an_exhausted_window_is_full(s: GenView, event: GenEventView)
    requires
        s.wf(),
        s.window_bound ==> s.max_output == headroom(s.prompt_tokens, s.effective_ctx),
        s.phase is Decode,
        event is Decoded,
        event->Decoded_0 is Ok,
    ensures
        ({
            let t = s.after(event);
            t.failure is Some <==> s.window_bound && s.prompt_tokens + t.decoded.len()
                >= s.effective_ctx
        }),
{
}

/// A generation.
#[derive(Debug)]
pub struct Generation {
    prompt_tokens: usize,
    effective_ctx: usize,
    max_output: usize,
    window_bound: bool,
    phase: GenPhase,
    piece: String,
    produced: i32,
    decoded: Vec<LlamaToken>,
    failure: Option<ProviderError>,
}

impl View for Generation {
    type V = GenView;

    closed spec fn view(&self) -> GenView {
        GenView {
            prompt_tokens: self.prompt_tokens,
            effective_ctx: self.effective_ctx,
            max_output: self.max_output,
            window_bound: self.window_bound,
            phase: self.phase,
            piece: self.piece@,
            produced: self.produced,
            decoded: self.decoded@,
            failure: match self.failure {
                Some(e) => Some(e@),
                None => None,
            },
        }
    }
}

impl Generation {
    /// Starts a generation behind a prompt, in a window of `effective_ctx` positions.
    pub fn begin(
        settings: &ModelSettings,
        prompt_token_count: usize,
        effective_ctx: usize,
    ) -> (run: Generation)
        ensures
            run@ == gen_begun(*settings, prompt_token_count, effective_ctx),
            run@.wf(),
    {
        let room: usize = effective_ctx.saturating_sub(prompt_token_count);
        let (max_output, window_bound) = match settings.max_output_tokens {
            Some(max) => (
                if max < room {
                    max
                } else {
                    room
                },
                room <= max,
            ),
            None => (room, true),
        };
        let mut run = Generation {
            prompt_tokens: prompt_token_count,
            effective_ctx,
            max_output,
            window_bound,
            phase: GenPhase::Sample,
            piece: String::new(),
            produced: 0,
            decoded: Vec::new(),
            failure: None,
        };
        proof {
            assert(run@.piece =~= Seq::<char>::empty());
            assert(run@.decoded =~= Seq::<LlamaToken>::empty());
        }
        run.next();
        run
    }

    fn fail(&mut self, e: ProviderError)
        ensures
            final(self)@ == old(self)@.failing(e@),
    {
        self.failure = Some(e);
        self.phase = GenPhase::Done;
    }

    fn next(&mut self)
        requires
            0 <= old(self)@.produced,
            old(self)@.window_bound && old(self)@.decoded.len() >= old(self)@.max_output
                ==> reported_size(old(self)@.prompt_tokens) + old(self)@.produced <= i32::MAX,
        ensures
            final(self)@ == old(self)@.next(),
    {
        if self.decoded.len() < self.max_output {
            self.phase = GenPhase::Sample;
        } else if self.window_bound {
            let total: i32 = (self.prompt_tokens as i32) + self.produced;
            let mut m = "Generation exhausted context window (".to_owned();
            push_decimal(&mut m, self.prompt_tokens as u64);
            m.append(" prompt + ");
            push_signed(&mut m, self.produced as i64);
            m.append(" generated = ");
            push_signed(&mut m, total as i64);
            m.append(" of ");
            push_decimal(&mut m, self.effective_ctx as u64);
            m.append(" limit)");
            self.fail(ProviderError::ContextLengthExceeded(m));
        } else {
            self.phase = GenPhase::Done;
        }
    }

    /// Whether what this event makes the generation count, or report, can be counted.
    pub fn counts_fit(&self, event: &GenEvent) -> (r: bool)
        requires
            self@.wf(),
        ensures
            r == self@.counts_fit(event@),
    {
        match (self.phase, event) {
            (GenPhase::Sample, GenEvent::Sampled { token: _, eog }) => *eog || self.produced
                < i32::MAX,
            (GenPhase::Decode { token: _ }, GenEvent::Decoded(done)) => if done.is_ok()
                && self.window_bound && self.decoded.len() >= self.max_output - 1 {
                (self.prompt_tokens as i32) <= i32::MAX - self.produced
            } else {
                true
            },
            _ => true,
        }
    }

    /// Takes what came of the last action.
    pub fn step(&mut self, event: GenEvent)
        requires
            old(self)@.wf(),
            old(self)@.counts_fit(event@),
        ensures
            final(self)@ == old(self)@.after(event@),
            final(self)@.wf(),
    {
        match (self.phase, event) {
            (GenPhase::Sample, GenEvent::Sampled { token, eog }) => {
                if eog {
                    self.phase = GenPhase::Done;
                } else {
                    self.produced = self.produced + 1;
                    self.phase = GenPhase::Piece { token };
                }
            },
            (GenPhase::Piece { token }, GenEvent::Piece(text)) => match text {
                Ok(text) => {
                    if text.as_str().is_empty() {
                        self.phase = GenPhase::Decode { token };
                    } else {
                        self.piece = text;
                        self.phase = GenPhase::Deliver { token };
                    }
                },
                Err(e) => {
                    self.fail(execution_error("Failed to decode token: ", e.as_str()));
                },
            },
            (GenPhase::Deliver { token }, GenEvent::Delivered(said)) => match said {
                Ok(TokenAction::Continue) => {
                    self.phase = GenPhase::Decode { token };
                },
                Ok(TokenAction::Stop) => {
                    self.phase = GenPhase::Done;
                },
                Err(e) => {
                    self.fail(e);
                },
            },
            (GenPhase::Decode { token }, GenEvent::Decoded(done)) => match done {
                Ok(_) => {
                    self.decoded.push(token);
                    self.next();
                },
                Err(TokenFailure::Batch(e)) => {
                    self.fail(execution_error("Failed to create batch: ", e.as_str()));
                },
                Err(TokenFailure::Engine(e)) => {
                    self.fail(execution_error("Decode failed: ", e.as_str()));
                },
            },
            _ => {},
        }
    }

    /// What is asked now.
    pub fn action(&self) -> (action: GenAction)
        ensures
            action@ == self@.action(),
    {
        match self.phase {
            GenPhase::Sample => GenAction::Sample,
            GenPhase::Piece { token } => GenAction::Piece(token),
            GenPhase::Deliver { token } => GenAction::Deliver(self.piece.clone()),
            GenPhase::Decode { token } => GenAction::Decode(token),
            GenPhase::Done => GenAction::Finish,
        }
    }

    /// What the generation comes to: the tokens that are now in the cache behind the
    /// prompt, and how many were produced, or the failure.
    pub fn finish(self) -> (end: (Vec<LlamaToken>, Result<i32, ProviderError>))
        requires
            self@.phase is Done,
        ensures
            end.0@ == self@.decoded,
            match end.1 {
                Ok(n) => self@.outcome() == Ok::<i32, ErrorView>(n),
                Err(e) => self@.outcome() == Err::<i32, ErrorView>(e@),
            },
    {
        let outcome = match self.failure {
            Some(e) => Err(e),
            None => Ok(self.produced),
        };
        (self.decoded, outcome)
    }
}

/// What a generation may produce. The room is what the window leaves behind the prompt,
/// and none where it leaves nothing; the setting can only make it less. The window is
/// what ends a generation that produces all it may, unless the setting is less than the
/// room. A generation with room begins with a draw; one without is over at once.
pub proof fn a_generation_begins_with_the_room_it_has(
    settings: ModelSettings,
    prompt_tokens: usize,
    effective_ctx: usize,
)
    ensures
        ({
            let s = gen_begun(settings, prompt_tokens, effective_ctx);
            let room = if prompt_tokens < effective_ctx {
                effective_ctx - prompt_tokens
            } else {
                0
            };
            let max = settings.max_output_tokens;
            &&& s.max_output == (if max is Some && max->0 < room {
                max->0 as int
            } else {
                room
            })
            &&& s.window_bound <==> !(max is Some && max->0 < room)
            &&& s.prompt_tokens == prompt_tokens
            &&& s.effective_ctx == effective_ctx
            &&& s.decoded.len() == 0
            &&& s.max_output > 0 ==> s.action() is Sample && s.failure is None
            &&& s.max_output == 0 ==> s.action() is Finish && (s.failure is None <==> max == Some(
                0usize,
            ) && room > 0)
            &&& s.max_output == 0 && s.failure is None ==> s.outcome() == Ok::<i32, ErrorView>(0)
        }),
{
}

/// A draw. One that ends the generation ends it there, with what was produced before it;
/// any other is counted, and its text is asked for.
pub proof fn a_drawn_token_is_asked_for_its_text(s: GenView, token: LlamaToken, eog: bool)
    requires
        s.wf(),
        s.phase is Sample,
        s.produced < i32::MAX,
    ensures
        ({
            let t = s.after(GenEventView::Sampled { token, eog });
            &&& eog ==> t.action() is Finish && t.outcome() == Ok::<i32, ErrorView>(s.produced)
                && t.decoded == s.decoded
            &&& !eog ==> t.action() == GenActionView::Piece(token) && t.produced == s.produced + 1
                && t.decoded == s.decoded
        }),
{
}

/// The text of a token reaches the reader as it came back, whole and unchanged; an empty
/// one is not worth a delivery, and its token is decoded at once. A token without a text
/// fails the generation with what was said of it.
pub proof fn the_reader_gets_the_whole_text_of_a_token(
    s: GenView,
    token: LlamaToken,
    text: Result<Seq<char>, Seq<char>>,
)
    requires
        s.wf(),
        s.phase == (GenPhase::Piece { token }),
    ensures
        ({
            let t = s.after(GenEventView::Piece(text));
            match text {
                Ok(text) => if text.len() > 0 {
                    t.action() == GenActionView::Deliver(text)
                } else {
                    t.action() == GenActionView::Decode(token)
                },
                Err(e) => t.action() is Finish && t.outcome() == Err::<i32, ErrorView>(
                    ErrorView::ExecutionError("Failed to decode token: "@ + e),
                ),
            }
        }),
        s.after(GenEventView::Piece(text)).produced == s.produced,
        s.after(GenEventView::Piece(text)).decoded == s.decoded,
{
}

/// What the reader says is done: the token whose text it was is decoded next, or the
/// generation is over with the tokens produced so far, or it fails with the reader's own
/// error.
pub proof fn the_reader_decides_whether_to_go_on(
    s: GenView,
    token: LlamaToken,
    said: Result<TokenAction, ErrorView>,
)
    requires
        s.wf(),
        s.phase == (GenPhase::Deliver { token }),
    ensures
        ({
            let t = s.after(GenEventView::Delivered(said));
            match said {
                Ok(TokenAction::Continue) => t.action() == GenActionView::Decode(token),
                Ok(TokenAction::Stop) => t.action() is Finish && t.outcome() == Ok::<
                    i32,
                    ErrorView,
                >(s.produced),
                Err(e) => t.action() is Finish && t.outcome() == Err::<i32, ErrorView>(e),
            }
        }),
        s.after(GenEventView::Delivered(said)).produced == s.produced,
        s.after(GenEventView::Delivered(said)).decoded == s.decoded,
{
}

/// A decoded token is recorded, and the next one is drawn as long as fewer were decoded
/// than may be. After the last one the generation is over; where it was the window that
/// left no more room, it fails and names the prompt, what was generated, their sum and
/// the window.
pub proof fn a_decoded_token_makes_room_for_the_next(
    s: GenView,
    token: LlamaToken,
    done: Result<(), ErrorView>,
)
    requires
        s.wf(),
        s.phase == (GenPhase::Decode { token }),
    ensures
        ({
            let t = s.after(GenEventView::Decoded(done));
            match done {
                Ok(_) => {
                    &&& t.decoded == s.decoded.push(token)
                    &&& t.produced == s.produced
                    &&& s.decoded.len() + 1 < s.max_output ==> t.action() is Sample
                        && t.failure is None
                    &&& s.decoded.len() + 1 == s.max_output ==> t.action() is Finish
                    &&& s.decoded.len() + 1 == s.max_output && !s.window_bound ==> t.outcome()
                        == Ok::<i32, ErrorView>(s.produced)
                    &&& s.decoded.len() + 1 == s.max_output && s.window_bound && s.prompt_tokens
                        <= i32::MAX ==> t.outcome() == Err::<i32, ErrorView>(
                        ErrorView::ContextLengthExceeded(
                            "Generation exhausted context window ("@ + decimal(
                                s.prompt_tokens as nat,
                            ) + " prompt + "@ + signed_decimal(s.produced as int)
                                + " generated = "@ + signed_decimal(s.prompt_tokens + s.produced)
                                + " of "@ + decimal(s.effective_ctx as nat) + " limit)"@,
                        ),
                    )
                },
                Err(e) => {
                    &&& t.action() is Finish
                    &&& t.outcome() == Err::<i32, ErrorView>(e)
                    &&& t.decoded == s.decoded
                },
            }
        }),
{
}

/// A generation after these events.
pub open spec fn gen_played(s: GenView, events: Seq<GenEventView>) -> GenView
    decreases events.len(),
{
    if events.len() == 0 {
        s
    } else {
        gen_played(s.after(events.first()), events.drop_first())
    }
}

/// Whether each of these events answers what was asked, and can be counted.
pub open spec fn gen_answers(s: GenView, events: Seq<GenEventView>) -> bool
    decreases events.len(),
{
    if events.len() == 0 {
        true
    } else {
        &&& s.counts_fit(events.first())
        &&& match s.action() {
            GenActionView::Sample => events.first() is Sampled,
            GenActionView::Piece(_) => events.first() is Piece,
            GenActionView::Deliver(_) => events.first() is Delivered,
            GenActionView::Decode(_) => events.first() is Decoded,
            GenActionView::Finish => false,
        }
        &&& gen_answers(s.after(events.first()), events.drop_first())
    }
}

/// All that the reader was handed while these events came in, one text after the other.
pub open spec fn handed_out(s: GenView, events: Seq<GenEventView>) -> Seq<char>
    decreases events.len(),
{
    if events.len() == 0 {
        match s.action() {
            GenActionView::Deliver(text) => text,
            _ => Seq::empty(),
        }
    } else {
        (match s.action() {
            GenActionView::Deliver(text) => text,
            _ => Seq::empty(),
        }) + handed_out(s.after(events.first()), events.drop_first())
    }
}

/// The texts that came back for tokens, one after the other.
pub open spec fn texts_of(events: Seq<GenEventView>) -> Seq<char>
    decreases events.len(),
{
    if events.len() == 0 {
        Seq::empty()
    } else {
        (match events.first() {
            GenEventView::Piece(Ok(text)) => text,
            _ => Seq::empty(),
        }) + texts_of(events.drop_first())
    }
}

/// The tokens that were drawn and did not end the generation, in order.
pub open spec fn drawn(events: Seq<GenEventView>) -> Seq<LlamaToken>
    decreases events.len(),
{
    if events.len() == 0 {
        Seq::empty()
    } else {
        (match events.first() {
            GenEventView::Sampled { token, eog } => if eog {
                Seq::empty()
            } else {
                seq![token]
            },
            _ => Seq::empty(),
        }) + drawn(events.drop_first())
    }
}

/// The token whose text or decode is asked for.
pub open spec fn in_hand(s: GenView) -> Seq<LlamaToken> {
    match s.phase {
        GenPhase::Piece { token } | GenPhase::Deliver { token } | GenPhase::Decode { token } => seq![
            token,
        ],
        _ => Seq::empty(),
    }
}

/// Over a whole generation the reader gets the texts of the tokens that were drawn, all
/// of them, in order, and nothing else.
pub proof fn the_reader_gets_every_text_in_order(s: GenView, events: Seq<GenEventView>)
    requires
        s.wf(),
        gen_answers(s, events),
    ensures
        handed_out(s, events) == (match s.action() {
            GenActionView::Deliver(text) => text,
            _ => Seq::empty(),
        }) + texts_of(events),
    decreases events.len(),
{
    if events.len() > 0 {
        let event = events.first();
        let t = s.after(event);
        every_event_keeps_a_generation_well_formed(s, event);
        the_reader_gets_every_text_in_order(t, events.drop_first());
        let rest = texts_of(events.drop_first());
        assert(Seq::<char>::empty() + rest =~= rest);
    } else {
        let now = match s.action() {
            GenActionView::Deliver(text) => text,
            _ => Seq::empty(),
        };
        assert(now + Seq::<char>::empty() =~= now);
    }
}

/// Over a whole generation every token that was drawn is counted, and all of them but the
/// one in hand are in the cache, in the order in which they were drawn, behind those that
/// were there before.
pub proof fn every_drawn_token_is_counted_and_decoded_in_order(
    s: GenView,
    events: Seq<GenEventView>,
)
    requires
        s.wf(),
        gen_answers(s, events),
    ensures
        ({
            let t = gen_played(s, events);
            let all = s.decoded + in_hand(s) + drawn(events);
            &&& t.produced == s.produced + drawn(events).len()
            &&& !(t.phase is Done) ==> t.decoded + in_hand(t) == all
            &&& !(s.phase is Done) && t.phase is Done ==> t.decoded.len() <= all.len()
                <= t.decoded.len() + 1 && all.take(t.decoded.len() as int) == t.decoded
        }),
    decreases events.len(),
{
    let all = s.decoded + in_hand(s) + drawn(events);
    if events.len() > 0 {
        let event = events.first();
        let t = s.after(event);
        let later = drawn(events.drop_first());
        every_event_keeps_a_generation_well_formed(s, event);
        every_drawn_token_is_counted_and_decoded_in_order(t, events.drop_first());
        if t.phase is Done {
            assert(events.drop_first().len() == 0) by {
                reveal_with_fuel(gen_answers, 2);
            }
            assert(later.len() == 0);
            assert(all.take(t.decoded.len() as int) =~= t.decoded);
        } else {
            assert(t.decoded + in_hand(t) + later =~= all);
        }
    } else {
        assert(all =~= s.decoded + in_hand(s));
    }
}

/// What came of an action, and what is asked, are seen as they are; a token that was not
/// decoded is reported as what failed, followed by what the engine said.
pub proof fn a_generation_reads_events_as_they_come(
    token: LlamaToken,
    eog: bool,
    text: String,
    said: TokenAction,
    e: ProviderError,
)
    ensures
        (GenEvent::Sampled { token, eog })@ == (GenEventView::Sampled { token, eog }),
        GenEvent::Piece(Ok(text))@ == GenEventView::Piece(Ok(text@)),
        GenEvent::Piece(Err(text))@ == GenEventView::Piece(Err(text@)),
        GenEvent::Delivered(Ok(said))@ == GenEventView::Delivered(Ok(said)),
        GenEvent::Delivered(Err(e))@ == GenEventView::Delivered(Err(e@)),
        GenEvent::Decoded(Ok(()))@ == GenEventView::Decoded(Ok(())),
        GenEvent::Decoded(Err(TokenFailure::Batch(text)))@ == GenEventView::Decoded(
            Err(ErrorView::ExecutionError("Failed to create batch: "@ + text@)),
        ),
        GenEvent::Decoded(Err(TokenFailure::Engine(text)))@ == GenEventView::Decoded(
            Err(ErrorView::ExecutionError("Decode failed: "@ + text@)),
        ),
        GenAction::Sample@ == GenActionView::Sample,
        GenAction::Piece(token)@ == GenActionView::Piece(token),
        GenAction::Deliver(text)@ == GenActionView::Deliver(text@),
        GenAction::Decode(token)@ == GenActionView::Decode(token),
        GenAction::Finish@ == GenActionView::Finish,
{
}

/// Whatever happens, a generation keeps its limits.
pub proof fn a_generation_keeps_its_limits(s: GenView, event: GenEventView)
    ensures
        ({
            let t = s.after(event);
            &&& t.prompt_tokens == s.prompt_tokens
            &&& t.effective_ctx == s.effective_ctx
            &&& t.max_output == s.max_output
            &&& t.window_bound == s.window_bound
        }),
{
}

/// An answer to something that was not asked changes nothing.
pub proof fn a_generation_ignores_what_it_did_not_ask(s: GenView, event: GenEventView)
    requires
        match event {
            GenEventView::Sampled { .. } => !(s.action() is Sample),
            GenEventView::Piece(_) => !(s.action() is Piece),
            GenEventView::Delivered(_) => !(s.action() is Deliver),
            GenEventView::Decoded(_) => !(s.action() is Decode),
        },
    ensures
        s.after(event) == s,
{
}

} // verus!

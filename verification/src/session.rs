//! What a retained cache holds, and what it offers an incoming prompt.

use vstd::prelude::*;
use vstd::slice::slice_subrange;

use crate::media::{HeadView, MediaHead};
use crate::token::{
    common_prefix_len, shared_prefix, shared_prefix_begins_both,
    shared_prefix_is_where_agreement_ends, LlamaToken,
};
use crate::window::is_sacrificial_prompt;

verus! {

/// The shortest shared prefix worth a partial removal. Below it the bookkeeping
/// costs more than the decode it saves.
pub const REUSE_MIN_TOKENS: usize = 256;

/// What a context holds in its one sequence: the head, if there is one, and behind
/// it these tokens, one position each. The cache may hold more positions than are
/// recorded here, never other ones.
#[derive(Debug)]
pub struct SessionKv {
    pub head: Option<MediaHead>,
    pub tokens: Vec<LlamaToken>,
    /// The window that the context was asked for. The engine may round it up, so
    /// what was asked for is what identifies it.
    pub n_ctx: u32,
}

/// What a context holds, as sequences.
#[verifier::ext_equal]
pub struct SessionView {
    pub head: Option<HeadView>,
    pub tokens: Seq<LlamaToken>,
    pub n_ctx: u32,
}

impl View for SessionKv {
    type V = SessionView;

    open spec fn view(&self) -> SessionView {
        SessionView {
            head: match self.head {
                Some(head) => Some(head@),
                None => None,
            },
            tokens: self.tokens@,
            n_ctx: self.n_ctx,
        }
    }
}

/// What an optional context holds.
pub open spec fn session_view(session: Option<SessionKv>) -> Option<SessionView> {
    match session {
        Some(kv) => Some(kv@),
        None => None,
    }
}

/// A context in which nothing has been decoded.
pub open spec fn empty_session(n_ctx: u32) -> SessionView {
    SessionView { head: None, tokens: Seq::empty(), n_ctx }
}

impl SessionView {
    /// The first position that the tokens describe.
    pub open spec fn media_pos(self) -> nat {
        match self.head {
            Some(head) => head.n_pos as nat,
            None => 0,
        }
    }

    /// Every position that the cache is known to hold.
    pub open spec fn occupied(self) -> nat {
        self.media_pos() + self.tokens.len()
    }

    /// Whether the positions can be counted.
    pub open spec fn fits(self) -> bool {
        self.occupied() <= usize::MAX
    }
}

impl SessionKv {
    /// What a context holds that has just been created.
    pub fn create(n_ctx: u32) -> (kv: SessionKv)
        ensures
            kv@ == empty_session(n_ctx),
    {
        let kv = SessionKv { head: None, tokens: Vec::new(), n_ctx };
        assert(kv@.tokens =~= Seq::<LlamaToken>::empty());
        kv
    }

    /// Records tokens that were decoded behind what was recorded.
    pub fn record_generated(&mut self, tokens: &[LlamaToken])
        ensures
            final(self)@ == (SessionView {
                tokens: old(self)@.tokens + tokens@,
                ..old(self)@
            }),
    {
        let ghost before = self@.tokens;
        let mut i: usize = 0;
        assert(before + tokens@.take(0) =~= before);
        while i < tokens.len()
            invariant
                i <= tokens@.len(),
                self@ == (SessionView { tokens: before + tokens@.take(i as int), ..old(self)@ }),
            decreases tokens@.len() - i,
        {
            self.tokens.push(tokens[i]);
            assert(self@.tokens =~= before + tokens@.take(i + 1));
            i += 1;
        }
        assert(tokens@.take(i as int) =~= tokens@);
    }

    /// The first position that the tokens describe.
    pub fn media_pos(&self) -> (n: usize)
        ensures
            n == self@.media_pos(),
    {
        match &self.head {
            Some(head) => head.n_pos,
            None => 0,
        }
    }

    /// Every position that the cache is known to hold.
    pub fn occupied(&self) -> (n: usize)
        requires
            self@.fits(),
        ensures
            n == self@.occupied(),
    {
        self.media_pos() + self.tokens.len()
    }
}

/// The window of a retained cache, or zero where none is retained.
pub open spec fn retained_window(session: Option<SessionView>) -> usize {
    match session {
        Some(kv) => kv.n_ctx as usize,
        None => 0,
    }
}

/// The window of a retained cache, or zero where none is retained.
pub fn retained_kv_tokens(session: &Option<SessionKv>) -> (n: usize)
    ensures
        n == retained_window(session_view(*session)),
{
    match session {
        Some(kv) => kv.n_ctx as usize,
        None => 0,
    }
}

/// How an incoming prompt relates to a retained cache.
#[derive(Clone, Copy, Debug, PartialEq, Eq, Structural)]
pub enum PrefillPlan {
    /// No usable context: build one and decode the whole prompt.
    CreateContext,
    /// The context fits, its contents do not: clear it and decode the whole prompt.
    FullPrefillInPlace,
    /// The cache holds everything below this position. Decode resumes there.
    ReusePrefix(usize),
    /// The prompt shares nothing useful with a much larger cache: run elsewhere and
    /// leave the cache as it is.
    SacrificialContext,
}

/// What a retained cache offers an incoming prompt.
#[derive(Clone, Copy, Debug)]
pub struct RetainedPrefix<'a> {
    /// Positions below this hold media that the prompt has been shown to
    /// reproduce. Zero for a text-only cache, and zero where the prompt cannot
    /// reproduce the head, in which case there are no tokens either.
    pub media_pos: usize,
    /// The tokens at and behind that position.
    pub tokens: &'a [LlamaToken],
    /// Every position that the cache takes, reusable or not.
    pub occupied: usize,
    pub n_ctx: u32,
}

/// What a retained cache offers, its tokens as a sequence.
pub struct RetainedView {
    pub media_pos: usize,
    pub tokens: Seq<LlamaToken>,
    pub occupied: usize,
    pub n_ctx: u32,
}

impl<'a> View for RetainedPrefix<'a> {
    type V = RetainedView;

    open spec fn view(&self) -> RetainedView {
        RetainedView {
            media_pos: self.media_pos,
            tokens: self.tokens@,
            occupied: self.occupied,
            n_ctx: self.n_ctx,
        }
    }
}

/// What an optional retained cache offers.
pub open spec fn retained_view(retained: Option<RetainedPrefix<'_>>) -> Option<RetainedView> {
    match retained {
        Some(r) => Some(r@),
        None => None,
    }
}

impl SessionView {
    /// What the cache offers a prompt that can resume from it.
    pub open spec fn resumable(self) -> RetainedView {
        RetainedView {
            media_pos: self.media_pos() as usize,
            tokens: self.tokens,
            occupied: self.occupied() as usize,
            n_ctx: self.n_ctx,
        }
    }

    /// What the cache offers a prompt that cannot: its size alone, which decides
    /// whether it is worth protecting.
    pub open spec fn opaque(self) -> RetainedView {
        RetainedView {
            media_pos: 0,
            tokens: Seq::empty(),
            occupied: self.occupied() as usize,
            n_ctx: self.n_ctx,
        }
    }

    /// What the cache offers a prompt of text alone: such a prompt never reproduces
    /// a media head.
    pub open spec fn offer_to_text(self) -> RetainedView {
        if self.head is Some {
            self.opaque()
        } else {
            self.resumable()
        }
    }
}

impl<'a> RetainedPrefix<'a> {
    /// A cache that the prompt can resume from: it holds no media, or the prompt
    /// reproduces its head.
    pub fn resumable(kv: &'a SessionKv) -> (r: RetainedPrefix<'a>)
        requires
            kv@.fits(),
        ensures
            r@ == kv@.resumable(),
    {
        RetainedPrefix {
            media_pos: kv.media_pos(),
            tokens: kv.tokens.as_slice(),
            occupied: kv.occupied(),
            n_ctx: kv.n_ctx,
        }
    }

    /// A cache that the prompt cannot resume from.
    pub fn opaque(kv: &'a SessionKv) -> (r: RetainedPrefix<'a>)
        requires
            kv@.fits(),
        ensures
            r@ == kv@.opaque(),
    {
        let none = slice_subrange(kv.tokens.as_slice(), 0, 0);
        assert(none@ =~= Seq::<LlamaToken>::empty());
        RetainedPrefix { media_pos: 0, tokens: none, occupied: kv.occupied(), n_ctx: kv.n_ctx }
    }
}

/// How many leading tokens of the prompt can be kept: those it shares with the
/// cache, but for its last one, which is always decoded so that there are logits.
pub open spec fn reusable(cached: Seq<LlamaToken>, prompt: Seq<LlamaToken>) -> nat {
    let shared = shared_prefix(cached, prompt);
    if shared < prompt.len() {
        shared
    } else if prompt.len() > 0 {
        (prompt.len() - 1) as nat
    } else {
        0
    }
}

/// How to prefill a prompt, given what a cache offers it.
pub open spec fn plan_of(
    retained: Option<RetainedView>,
    prompt: Seq<LlamaToken>,
    effective_ctx: u32,
) -> PrefillPlan {
    match retained {
        None => PrefillPlan::CreateContext,
        Some(cached) => {
            let keep = reusable(cached.tokens, prompt);
            if cached.n_ctx != effective_ctx {
                PrefillPlan::CreateContext
            } else if cached.media_pos + keep >= REUSE_MIN_TOKENS && prompt.len() > 0 {
                PrefillPlan::ReusePrefix((cached.media_pos + keep) as usize)
            } else if prompt.len() > 0 && prompt.len() * 2 < cached.occupied {
                PrefillPlan::SacrificialContext
            } else {
                PrefillPlan::FullPrefillInPlace
            }
        },
    }
}

/// Decides how to prefill a prompt whose plain tokens are `prompt`.
///
/// For a prompt of text alone these are all of it. For one that reproduces a
/// retained media head they are the tail behind the head, and the position given
/// back is absolute: the positions of the head count, being the expensive ones.
pub fn prefill_plan(
    retained: Option<RetainedPrefix<'_>>,
    prompt: &[LlamaToken],
    effective_ctx: u32,
) -> (plan: PrefillPlan)
    requires
        retained matches Some(cached) ==> cached.n_ctx == effective_ctx ==> cached.media_pos
            + reusable(cached.tokens@, prompt@) <= usize::MAX,
    ensures
        plan == plan_of(retained_view(retained), prompt@, effective_ctx),
{
    let cached = match retained {
        Some(cached) => cached,
        None => {
            return PrefillPlan::CreateContext;
        },
    };
    if cached.n_ctx != effective_ctx {
        return PrefillPlan::CreateContext;
    }
    let shared = common_prefix_len(cached.tokens, prompt);
    let most: usize = prompt.len().saturating_sub(1);
    let keep: usize = if shared < most {
        shared
    } else {
        most
    };
    assert(keep == reusable(cached.tokens@, prompt@));
    let resume: usize = cached.media_pos + keep;
    if resume >= REUSE_MIN_TOKENS && keep < prompt.len() {
        return PrefillPlan::ReusePrefix(resume);
    }
    if is_sacrificial_prompt(prompt.len(), cached.occupied) {
        return PrefillPlan::SacrificialContext;
    }
    PrefillPlan::FullPrefillInPlace
}

/// How many tokens of a prompt survive a resume at that position, if the cache can
/// honour it: not inside the media head, not past the prompt, and not past what the
/// cache records.
pub open spec fn kept_tokens(
    resume_pos: usize,
    media_pos: usize,
    prompt_len: usize,
    cached_len: usize,
) -> Option<usize> {
    let kept = resume_pos - media_pos;
    if 0 <= kept <= prompt_len && kept <= cached_len {
        Some(kept as usize)
    } else {
        None
    }
}

/// How many of the prompt's tokens survive a resume at `resume_pos`, or `None`
/// where the cache cannot honour that position.
///
/// That the kept tokens are the prompt's own is not checked here: it holds because
/// `prefill_plan` takes the position from a shared prefix.
pub fn kept_prefix_tokens(
    resume_pos: usize,
    media_pos: usize,
    prompt_len: usize,
    cached_len: usize,
) -> (kept: Option<usize>)
    ensures
        kept == kept_tokens(resume_pos, media_pos, prompt_len, cached_len),
{
    if resume_pos < media_pos {
        return None;
    }
    let kept: usize = resume_pos - media_pos;
    if kept <= prompt_len && kept <= cached_len {
        Some(kept)
    } else {
        None
    }
}

/// A resume keeps exactly tokens that cache and prompt share, stands behind the
/// media head, is worth its cost, and always leaves a token to decode. The cache
/// can honour it.
pub proof fn a_resume_keeps_what_is_shared_and_leaves_a_token(
    cached: RetainedView,
    prompt: Seq<LlamaToken>,
    effective_ctx: u32,
)
    requires
        cached.media_pos + cached.tokens.len() <= usize::MAX,
        prompt.len() <= usize::MAX,
    ensures
        plan_of(Some(cached), prompt, effective_ctx) matches PrefillPlan::ReusePrefix(resume) ==> {
            let kept = resume - cached.media_pos;
            &&& resume >= REUSE_MIN_TOKENS
            &&& 0 <= kept < prompt.len()
            &&& kept <= cached.tokens.len()
            &&& cached.tokens.take(kept) == prompt.take(kept)
            &&& cached.n_ctx == effective_ctx
            &&& kept_tokens(
                resume,
                cached.media_pos,
                prompt.len() as usize,
                cached.tokens.len() as usize,
            ) == Some(kept as usize)
        },
{
    let keep = reusable(cached.tokens, prompt) as int;
    shared_prefix_begins_both(cached.tokens, prompt);
    let s = shared_prefix(cached.tokens, prompt) as int;
    assert(cached.tokens.take(keep) =~= cached.tokens.take(s).take(keep));
    assert(prompt.take(keep) =~= prompt.take(s).take(keep));
}

/// A prompt of less than half the cache never evicts it: it resumes from it, or runs
/// elsewhere.
pub proof fn a_small_prompt_never_evicts_a_large_cache(
    cached: RetainedView,
    prompt: Seq<LlamaToken>,
    effective_ctx: u32,
)
    requires
        cached.n_ctx == effective_ctx,
        0 < prompt.len(),
        prompt.len() * 2 < cached.occupied,
    ensures
        plan_of(Some(cached), prompt, effective_ctx) is ReusePrefix || plan_of(
            Some(cached),
            prompt,
            effective_ctx,
        ) is SacrificialContext,
{
}

/// A text prompt never resumes behind a media head.
pub proof fn text_never_resumes_behind_media(
    kv: SessionView,
    prompt: Seq<LlamaToken>,
    effective_ctx: u32,
)
    requires
        kv.head is Some,
    ensures
        !(plan_of(Some(kv.offer_to_text()), prompt, effective_ctx) is ReusePrefix),
{
}

/// Whether `n` is what a resume keeps of a prompt's tokens: it and the cache agree on
/// them, the last token of the prompt is not among them, and no more could be kept.
pub open spec fn is_kept(cached: Seq<LlamaToken>, prompt: Seq<LlamaToken>, n: int) -> bool {
    &&& 0 <= n < prompt.len()
    &&& n <= cached.len()
    &&& forall|i: int| 0 <= i < n ==> cached[i] == prompt[i]
    &&& n == prompt.len() - 1 || n == cached.len() || cached[n] != prompt[n]
}

/// The plan of a prompt, by what it shares with the cache that it is offered. Without a
/// cache, or with one of another window, a context is built. Else decode resumes behind
/// the head and what is kept, if these take two hundred and fifty-six positions. Else a
/// prompt of less than half of the cache runs elsewhere, and any other takes the cache's
/// place. A prompt without tokens never resumes nor runs elsewhere.
pub proof fn a_plan_follows_what_is_shared(
    retained: Option<RetainedView>,
    prompt: Seq<LlamaToken>,
    effective_ctx: u32,
    n: int,
)
    requires
        prompt.len() <= usize::MAX,
        retained matches Some(c) ==> {
            &&& c.media_pos + c.tokens.len() <= usize::MAX
            &&& prompt.len() > 0 ==> is_kept(c.tokens, prompt, n)
        },
    ensures
        ({
            let plan = plan_of(retained, prompt, effective_ctx);
            match retained {
                None => plan == PrefillPlan::CreateContext,
                Some(c) => if c.n_ctx != effective_ctx {
                    plan == PrefillPlan::CreateContext
                } else if prompt.len() == 0 {
                    plan == PrefillPlan::FullPrefillInPlace
                } else if c.media_pos + n >= 256 {
                    plan == PrefillPlan::ReusePrefix((c.media_pos + n) as usize)
                } else if prompt.len() + prompt.len() < c.occupied {
                    plan == PrefillPlan::SacrificialContext
                } else {
                    plan == PrefillPlan::FullPrefillInPlace
                },
            }
        }),
{
    if let Some(c) = retained {
        if prompt.len() > 0 {
            let m = shared_prefix(c.tokens, prompt) as int;
            shared_prefix_is_where_agreement_ends(c.tokens, prompt, m);
            if n < m {
                assert(c.tokens[n] == prompt[n]);
            }
            if m < n {
                assert(c.tokens[m] == prompt[m]);
            }
        }
    }
}

/// What a cache offers. A prompt that can resume is offered the tokens behind the head,
/// from the head's end on; a text is offered all tokens of a cache without a head, and of
/// one with a head nothing but its size. The size counts head and tokens, and the window
/// is that of the cache.
pub proof fn a_cache_offers_what_can_be_resumed(kv: SessionView)
    requires
        kv.fits(),
    ensures
        ({
            let head = match kv.head {
                Some(head) => head.n_pos as int,
                None => 0,
            };
            let resumable = kv.resumable();
            let text = kv.offer_to_text();
            &&& resumable.media_pos == head
            &&& resumable.tokens == kv.tokens
            &&& resumable.occupied == head + kv.tokens.len()
            &&& resumable.n_ctx == kv.n_ctx
            &&& text.media_pos == 0
            &&& text.tokens == (if kv.head is None {
                kv.tokens
            } else {
                Seq::empty()
            })
            &&& text.occupied == head + kv.tokens.len()
            &&& text.n_ctx == kv.n_ctx
            &&& retained_window(Some(kv)) == kv.n_ctx
            &&& retained_window(None) == 0
        }),
{
}

/// A resume keeps as many tokens as there are positions between the head's end and where
/// it stands, and is honoured exactly where both the prompt and the cache have so many.
pub proof fn a_resume_counts_from_the_end_of_the_head(
    resume_pos: usize,
    media_pos: usize,
    prompt_len: usize,
    cached_len: usize,
)
    ensures
        match kept_tokens(resume_pos, media_pos, prompt_len, cached_len) {
            Some(kept) => media_pos + kept == resume_pos && kept <= prompt_len && kept
                <= cached_len,
            None => resume_pos < media_pos || media_pos + prompt_len < resume_pos || media_pos
                + cached_len < resume_pos,
        },
{
}

/// A context is seen as it is: its head, its tokens in order, and its window.
pub proof fn a_context_is_seen_as_it_is(kv: SessionKv)
    ensures
        kv@.tokens == kv.tokens@,
        kv@.n_ctx == kv.n_ctx,
        kv@.head is Some <==> kv.head is Some,
        kv.head is Some ==> kv@.head->0.n_pos == kv.head->0.n_pos,
        session_view(Some(kv)) == Some(kv@),
        session_view(None) is None,
{
}

} // verus!

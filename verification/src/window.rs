//! How large a context window a request gets.

use vstd::prelude::*;
use vstd::string::*;

use crate::error::ErrorView;
use crate::error::ProviderError;
use crate::settings::ModelSettings;
use crate::text::{
    a_decimal_reads_back, decimal, only_digits_spell_a_number, parse_unsigned, parsed, push_decimal,
};

verus! {

/// Positions a prompt must leave free for the answer.
pub const MIN_GENERATION_HEADROOM: usize = 512;

/// Output budget of a throwaway context when the settings do not cap the output.
///
/// Such a context is resident beside the retained one, and the engine commits
/// memory for its whole window up front, so it is sized to the prompt plus this
/// budget and not to the full window.
pub const SACRIFICIAL_OUTPUT_TOKENS: usize = 2048;

/// Whether a prompt that matches nothing is so small that the retained cache is
/// worth more than running it there.
///
/// A prompt of less than half the cache prefills in a fraction of what the cache
/// costs to rebuild, so it runs elsewhere and the cache stays.
pub fn is_sacrificial_prompt(prompt_tokens: usize, cached_tokens: usize) -> (r: bool)
    ensures
        r == (prompt_tokens > 0 && prompt_tokens * 2 < cached_tokens),
{
    prompt_tokens > 0 && prompt_tokens < cached_tokens && prompt_tokens < cached_tokens
        - prompt_tokens
}

/// The output budget of a throwaway context.
pub open spec fn sacrificial_budget(max_output_tokens: Option<usize>) -> usize {
    match max_output_tokens {
        Some(n) => n,
        None => SACRIFICIAL_OUTPUT_TOKENS,
    }
}

/// The window of a throwaway context: the prompt and its output budget, but never
/// more than the request's own window.
pub open spec fn sacrificial_window(
    prompt_tokens: nat,
    max_output_tokens: Option<usize>,
    effective_ctx: u32,
) -> u32 {
    if prompt_tokens + sacrificial_budget(max_output_tokens) < effective_ctx {
        (prompt_tokens + sacrificial_budget(max_output_tokens)) as u32
    } else {
        effective_ctx
    }
}

/// The window of a throwaway context.
pub fn sacrificial_context_size(
    prompt_tokens: usize,
    max_output_tokens: Option<usize>,
    effective_ctx: u32,
) -> (size: u32)
    ensures
        size == sacrificial_window(prompt_tokens as nat, max_output_tokens, effective_ctx),
{
    let budget = max_output_tokens.unwrap_or(SACRIFICIAL_OUTPUT_TOKENS);
    let wanted = prompt_tokens.saturating_add(budget);
    if wanted as u64 >= effective_ctx as u64 {
        effective_ctx
    } else {
        wanted as u32
    }
}

/// A throwaway context stays below the retained window: a prompt that is
/// sacrificed takes less than half of it, so the two windows differ wherever the
/// output budget takes at most the other half.
pub proof fn a_sacrificial_window_stays_below_the_retained_one(
    prompt_tokens: usize,
    cached_tokens: usize,
    max_output_tokens: Option<usize>,
    n_ctx: u32,
)
    requires
        prompt_tokens > 0,
        prompt_tokens * 2 < cached_tokens,
        cached_tokens <= n_ctx,
        sacrificial_budget(max_output_tokens) * 2 <= n_ctx,
    ensures
        sacrificial_window(prompt_tokens as nat, max_output_tokens, n_ctx) < n_ctx,
{
}

/// What the model's architecture says about the size of one cached token.
#[derive(Debug)]
pub struct ModelShape {
    pub n_layer: u64,
    pub n_head_kv: u64,
    pub n_head: u64,
    pub n_embd: u64,
    /// The metadata value of the key length per head, where there is one.
    pub key_length: Option<String>,
    /// The metadata value of the value length per head, where there is one.
    pub value_length: Option<String>,
}

/// The text of an optional string.
pub open spec fn text_of(s: Option<String>) -> Option<Seq<char>> {
    match s {
        Some(s) => Some(s@),
        None => None,
    }
}

/// A per-head length: the metadata value where it spells a number, else the
/// embedding split over the heads.
pub open spec fn per_head(metadata: Option<Seq<char>>, head_dim: nat) -> nat {
    match metadata {
        Some(s) => match parsed(s, u64::MAX as nat) {
            Some(n) => n,
            None => head_dim,
        },
        None => head_dim,
    }
}

impl ModelShape {
    /// Whether every dimension is known.
    pub open spec fn known(&self) -> bool {
        self.n_head != 0 && self.n_layer != 0 && self.n_head_kv != 0 && self.n_embd != 0
    }

    /// Elements of the keys of one head.
    pub open spec fn key_elements(&self) -> nat {
        per_head(text_of(self.key_length), (self.n_embd / self.n_head) as nat)
    }

    /// Elements of the values of one head.
    pub open spec fn value_elements(&self) -> nat {
        per_head(text_of(self.value_length), (self.n_embd / self.n_head) as nat)
    }

    /// Bytes one cached token takes: keys and values of every cached head of every
    /// layer, two bytes an element.
    pub open spec fn bytes_per_token(&self) -> nat {
        (self.key_elements() + self.value_elements()) * (self.n_head_kv as nat) * (
        self.n_layer as nat) * 2
    }

    /// Whether the size of one cached token, and of `retained` of them, can be
    /// counted in 64 bits.
    pub open spec fn countable(&self, retained: usize) -> bool {
        self.known() ==> self.bytes_per_token() <= u64::MAX && (retained as nat)
            * self.bytes_per_token() <= u64::MAX
    }

    /// Whether an estimate beside a retained cache of that window can be made: nothing
    /// is counted where the free memory is unknown.
    pub open spec fn measurable(&self, free: u64, retained: usize) -> bool {
        free > 0 ==> self.countable(retained)
    }
}

/// The metadata keys of the per-head lengths, for an architecture of that name.
pub open spec fn length_key(architecture: Option<Seq<char>>, which: Seq<char>) -> Seq<char> {
    (match architecture {
        Some(a) => a,
        None => Seq::empty(),
    }) + which
}

/// The metadata keys under which the key length and the value length of a head
/// are found, given what the metadata says of the architecture.
pub fn attention_length_keys(architecture: Option<&str>) -> (keys: (String, String))
    ensures
        keys.0@ == length_key(
            match architecture {
                Some(a) => Some(a@),
                None => None,
            },
            ".attention.key_length"@,
        ),
        keys.1@ == length_key(
            match architecture {
                Some(a) => Some(a@),
                None => None,
            },
            ".attention.value_length"@,
        ),
{
    let arch = match architecture {
        Some(a) => a.to_owned(),
        None => String::new(),
    };
    let mut key = arch.clone();
    key.append(".attention.key_length");
    let mut value = arch;
    value.append(".attention.value_length");
    (key, value)
}

fn per_head_length(metadata: &Option<String>, head_dim: u64) -> (n: u64)
    ensures
        n == per_head(text_of(*metadata), head_dim as nat),
{
    match metadata {
        Some(s) => match parse_unsigned(s.as_str(), u64::MAX) {
            Some(n) => n,
            None => head_dim,
        },
        None => head_dim,
    }
}

proof fn product_covers_factor(a: nat, b: nat, c: nat)
    requires
        b >= 1,
        c >= 1,
    ensures
        a <= a * b,
        a * b <= a * b * c,
        a * b * c <= a * b * c * 2,
{
    assert(a <= a * b) by (nonlinear_arith)
        requires
            b >= 1,
    ;
    let ab = a * b;
    assert(ab <= ab * c) by (nonlinear_arith)
        requires
            c >= 1,
    ;
}

/// Bytes one cached token takes, or `None` where 64 bits do not hold the number.
fn checked_bytes_per_token(shape: &ModelShape) -> (bytes: Option<u64>)
    requires
        shape.known(),
    ensures
        match bytes {
            Some(b) => b == shape.bytes_per_token(),
            None => shape.bytes_per_token() > u64::MAX,
        },
{
    let head_dim: u64 = shape.n_embd / shape.n_head;
    let k = per_head_length(&shape.key_length, head_dim);
    let v = per_head_length(&shape.value_length, head_dim);
    proof {
        product_covers_factor((k + v) as nat, shape.n_head_kv as nat, shape.n_layer as nat);
    }
    let elements = match k.checked_add(v) {
        Some(n) => n,
        None => {
            return None;
        },
    };
    let per_layer = match elements.checked_mul(shape.n_head_kv) {
        Some(n) => n,
        None => {
            return None;
        },
    };
    let all = match per_layer.checked_mul(shape.n_layer) {
        Some(n) => n,
        None => {
            return None;
        },
    };
    all.checked_mul(2)
}

/// Whether the memory estimate for this model can be counted in 64 bits.
pub fn estimate_is_countable(
    shape: &ModelShape,
    available_memory_bytes: u64,
    retained_kv_tokens: usize,
) -> (r: bool)
    ensures
        r == shape.measurable(available_memory_bytes, retained_kv_tokens),
{
    if available_memory_bytes == 0 {
        return true;
    }
    if shape.n_head == 0 || shape.n_layer == 0 || shape.n_head_kv == 0 || shape.n_embd == 0 {
        return true;
    }
    match checked_bytes_per_token(shape) {
        Some(b) => (retained_kv_tokens as u64).checked_mul(b).is_some(),
        None => false,
    }
}

/// The smallest power of two times which fewer than `2^53` units reach `x`: the
/// spacing of the numbers that a double can tell apart around `x`.
pub open spec fn double_spacing(x: nat, unit: nat) -> nat
    decreases x / unit,
    when unit > 0
{
    if x / unit < 0x20_0000_0000_0000 {
        unit
    } else {
        proof {
            assert(x / (2 * unit) < x / unit) by (nonlinear_arith)
                requires
                    unit > 0,
                    x / unit >= 0x20_0000_0000_0000,
            ;
        }
        double_spacing(x, 2 * unit)
    }
}

/// `x` rounded to a multiple of `unit`, halfway cases to the even multiple; in
/// units.
pub open spec fn rounded_units(x: nat, unit: nat) -> nat {
    let q = x / unit;
    let r = x % unit;
    if r * 2 > unit || (r * 2 == unit && q % 2 == 1) {
        q + 1
    } else {
        q
    }
}

/// Half of `x`, taken in double precision and truncated.
pub open spec fn half_in_double(x: nat) -> nat {
    let unit = double_spacing(x, 1);
    rounded_units(x, unit) * unit / 2
}

/// Up to `2^53` double precision loses nothing: half is half.
pub proof fn half_is_exact_for_real_sizes(x: nat)
    requires
        x <= 0x20_0000_0000_0000,
    ensures
        half_in_double(x) == x / 2,
{
    reveal_with_fuel(double_spacing, 3);
    assert(x / 1 == x);
    let unit = double_spacing(x, 1);
    let units = rounded_units(x, unit);
    if x < 0x20_0000_0000_0000 {
        assert(unit == 1);
        assert(units == x);
    } else {
        assert(unit == 2);
        assert(units == x / 2);
    }
    assert(units * unit == x) by (nonlinear_arith)
        requires
            unit == 1 && units == x || unit == 2 && units * 2 == x,
    ;
}

/// Half of `available`, as double precision gives it.
fn half_of(available: u64) -> (half: u64)
    ensures
        half == half_in_double(available as nat),
{
    let mut unit: u64 = 1;
    while available / unit >= 0x20_0000_0000_0000
        invariant
            1 <= unit < 0x1000,
            unit == 1 || unit % 2 == 0,
            double_spacing(available as nat, 1) == double_spacing(available as nat, unit as nat),
        decreases 0x1000 - unit,
    {
        assert(unit < 0x800) by (nonlinear_arith)
            requires
                available / unit >= 0x20_0000_0000_0000,
                unit >= 1,
                available <= 0xffff_ffff_ffff_ffff,
        ;
        unit = unit * 2;
    }
    let q: u64 = available / unit;
    let r: u64 = available % unit;
    let rounded: u64 = if r * 2 > unit || (r * 2 == unit && q % 2 == 1) {
        q + 1
    } else {
        q
    };
    assert(rounded == rounded_units(available as nat, unit as nat));
    assert(half_in_double(available as nat) == rounded * unit / 2);
    if unit == 1 {
        assert(rounded * unit == rounded) by (nonlinear_arith)
            requires
                unit == 1,
        ;
        rounded / 2
    } else {
        let step: u64 = unit / 2;
        assert(rounded * step <= 0x8000_0000_0000_1000) by (nonlinear_arith)
            requires
                rounded <= q + 1,
                q == available / unit,
                unit == 2 * step,
                0 < unit < 0x1000,
                available <= 0xffff_ffff_ffff_ffff,
        ;
        assert(rounded * unit / 2 == rounded * step) by (nonlinear_arith)
            requires
                unit == 2 * step,
        ;
        rounded * step
    }
}

/// What is left for the cache: the free memory and what a retained cache will give
/// back, less the vision encoder.
pub open spec fn available_for_cache(
    free: u64,
    retained_bytes: nat,
    mmproj_overhead_bytes: u64,
) -> nat {
    let total = if free + retained_bytes > u64::MAX {
        u64::MAX as nat
    } else {
        (free + retained_bytes) as nat
    };
    if total < mmproj_overhead_bytes {
        0
    } else {
        (total - mmproj_overhead_bytes) as nat
    }
}

/// The estimate of the largest window that fits in memory: half of what is
/// available, over the size of one token. `None` where the memory, or a dimension
/// of the model, is unknown. Where `usize` is narrower than 64 bits the estimate is
/// cut to it.
pub open spec fn memory_window(
    shape: &ModelShape,
    free: u64,
    mmproj_overhead_bytes: u64,
    retained_kv_tokens: usize,
) -> Option<usize> {
    let bytes = shape.bytes_per_token();
    if free == 0 || !shape.known() || bytes == 0 {
        None
    } else {
        let available = available_for_cache(
            free,
            retained_kv_tokens as nat * bytes,
            mmproj_overhead_bytes,
        );
        Some(((half_in_double(available) / bytes) as u64) as usize)
    }
}

/// Estimates the largest window whose cache fits in `available_memory_bytes`.
///
/// `retained_kv_tokens` is the window of a cache that is already held for the
/// model. It is released before a replacement is allocated, so its memory counts
/// as available. Only half of the memory goes to the cache; the rest is left to
/// the scratch buffers of the computation.
pub fn estimate_max_context_for_memory(
    shape: &ModelShape,
    available_memory_bytes: u64,
    mmproj_overhead_bytes: u64,
    retained_kv_tokens: usize,
) -> (window: Option<usize>)
    requires
        shape.measurable(available_memory_bytes, retained_kv_tokens),
    ensures
        window == memory_window(
            shape,
            available_memory_bytes,
            mmproj_overhead_bytes,
            retained_kv_tokens,
        ),
{
    if available_memory_bytes == 0 {
        return None;
    }
    if shape.n_head == 0 || shape.n_layer == 0 || shape.n_head_kv == 0 || shape.n_embd == 0 {
        return None;
    }
    let bytes = match checked_bytes_per_token(shape) {
        Some(b) => b,
        None => {
            return None;
        },
    };
    if bytes == 0 {
        return None;
    }
    let retained_bytes: u64 = retained_kv_tokens as u64 * bytes;
    let available = available_memory_bytes.saturating_add(retained_bytes).saturating_sub(
        mmproj_overhead_bytes,
    );
    let usable = half_of(available);
    Some((usable / bytes) as usize)
}

/// Keeping a cache does not shrink the estimate: memory that a retained cache
/// occupies counts as much as the same memory left free.
pub proof fn a_retained_cache_counts_as_free_memory(
    shape: &ModelShape,
    free: u64,
    free_beside_cache: u64,
    mmproj_overhead_bytes: u64,
    retained_kv_tokens: usize,
)
    requires
        free_beside_cache > 0,
        free_beside_cache + retained_kv_tokens as nat * shape.bytes_per_token() == free,
    ensures
        memory_window(shape, free_beside_cache, mmproj_overhead_bytes, retained_kv_tokens)
            == memory_window(shape, free, mmproj_overhead_bytes, 0),
{
    assert(0 * shape.bytes_per_token() == 0) by (nonlinear_arith);
}

/// The smaller of a window and what memory allows.
pub open spec fn capped_by_memory(window: usize, memory_max_ctx: Option<usize>) -> usize {
    match memory_max_ctx {
        Some(m) => if m < window {
            m
        } else {
            window
        },
        None => window,
    }
}

/// The smaller of two windows.
pub open spec fn smaller(a: usize, b: usize) -> usize {
    if a <= b {
        a
    } else {
        b
    }
}

/// The limit that the host sets, where it spells a positive number.
pub open spec fn host_window(host_limit: Option<Seq<char>>) -> Option<usize> {
    match host_limit {
        Some(s) => match parsed(s, usize::MAX as nat) {
            Some(n) => if n > 0 {
                Some(n as usize)
            } else {
                None
            },
            None => None,
        },
        None => None,
    }
}

/// The window of a request. In order of precedence: the explicit setting, taken as
/// it is; the limit of the registry or the caller, within the training window and
/// memory; the host's limit, within the training window, memory being the host's
/// concern; the training window, within memory.
pub open spec fn window_cap(
    settings: ModelSettings,
    context_limit: usize,
    n_ctx_train: usize,
    memory_max_ctx: Option<usize>,
    host_limit: Option<Seq<char>>,
) -> usize {
    if settings.context_size is Some {
        settings.context_size->0 as usize
    } else if context_limit > 0 {
        capped_by_memory(smaller(context_limit, n_ctx_train), memory_max_ctx)
    } else if host_window(host_limit) is Some {
        smaller(host_window(host_limit)->0, n_ctx_train)
    } else {
        capped_by_memory(n_ctx_train, memory_max_ctx)
    }
}

/// The characters of an optional string slice.
pub open spec fn chars_of_option(s: Option<&str>) -> Option<Seq<char>> {
    match s {
        Some(s) => Some(s@),
        None => None,
    }
}

fn cap_by_memory(window: usize, memory_max_ctx: Option<usize>) -> (r: usize)
    ensures
        r == capped_by_memory(window, memory_max_ctx),
{
    match memory_max_ctx {
        Some(m) => if m < window {
            m
        } else {
            window
        },
        None => window,
    }
}

/// The window that a request may use. `host_limit` is the text of the host's
/// override (`GOOSE_CONTEXT_LIMIT`), where it is set.
pub fn context_cap(
    settings: &ModelSettings,
    context_limit: usize,
    n_ctx_train: usize,
    memory_max_ctx: Option<usize>,
    host_limit: Option<&str>,
) -> (cap: usize)
    ensures
        cap == window_cap(
            *settings,
            context_limit,
            n_ctx_train,
            memory_max_ctx,
            chars_of_option(host_limit),
        ),
{
    if let Some(ctx_size) = settings.context_size {
        return ctx_size as usize;
    }
    if context_limit > 0 {
        let window = if context_limit <= n_ctx_train {
            context_limit
        } else {
            n_ctx_train
        };
        return cap_by_memory(window, memory_max_ctx);
    }
    if let Some(text) = host_limit {
        if let Some(limit) = parse_unsigned(text, usize::MAX as u64) {
            if limit > 0 {
                let limit: usize = limit as usize;
                return if limit <= n_ctx_train {
                    limit
                } else {
                    n_ctx_train
                };
            }
        }
    }
    cap_by_memory(n_ctx_train, memory_max_ctx)
}

/// Unless it is set explicitly, the window stays within the one that the model was
/// trained for; and unless it is set explicitly or by the host, within memory.
pub proof fn the_window_keeps_its_bounds(
    settings: ModelSettings,
    context_limit: usize,
    n_ctx_train: usize,
    memory_max_ctx: Option<usize>,
    host_limit: Option<Seq<char>>,
)
    ensures
        ({
            let cap = window_cap(
                settings,
                context_limit,
                n_ctx_train,
                memory_max_ctx,
                host_limit,
            );
            &&& settings.context_size is None ==> cap <= n_ctx_train
            &&& settings.context_size is None && context_limit > 0 ==> cap <= context_limit
            &&& settings.context_size is None && (context_limit > 0 || host_window(
                host_limit,
            ) is None) ==> (memory_max_ctx matches Some(m) ==> cap <= m)
        }),
{
}

/// The window of a request with a prompt of `_prompt_token_count` tokens. A prompt
/// that does not fit changes nothing here: the caller turns it away.
pub fn effective_context_size(
    _prompt_token_count: usize,
    settings: &ModelSettings,
    context_limit: usize,
    n_ctx_train: usize,
    memory_max_ctx: Option<usize>,
    host_limit: Option<&str>,
) -> (window: usize)
    ensures
        window == window_cap(
            *settings,
            context_limit,
            n_ctx_train,
            memory_max_ctx,
            chars_of_option(host_limit),
        ),
{
    context_cap(settings, context_limit, n_ctx_train, memory_max_ctx, host_limit)
}

/// Whether a prompt leaves less than the minimum headroom in a window.
pub fn lacks_headroom(prompt_token_count: usize, window: usize) -> (r: bool)
    ensures
        r == (prompt_token_count + MIN_GENERATION_HEADROOM > window),
{
    prompt_token_count > window || window - prompt_token_count < MIN_GENERATION_HEADROOM
}

/// The message for a prompt that memory cannot hold.
pub open spec fn memory_message(prompt_token_count: nat, mem_max: nat) -> Seq<char> {
    "Prompt ("@ + decimal(prompt_token_count)
        + " tokens) exceeds estimated memory capacity ("@ + decimal(mem_max)
        + " tokens). Try a smaller model or reduce conversation length."@
}

/// The message for a prompt that the window cannot hold.
pub open spec fn window_message(prompt_token_count: nat, effective_ctx: nat) -> Seq<char> {
    "Prompt ("@ + decimal(prompt_token_count) + " tokens) exceeds context limit ("@ + decimal(
        effective_ctx,
    ) + " tokens). Try reducing conversation length."@
}

/// What the model says of itself, as far as sizing a window needs it.
#[derive(Debug)]
pub struct ModelFacts {
    pub n_ctx_train: usize,
    pub shape: ModelShape,
}

/// What a request may spend besides its model: the limits around it.
#[derive(Clone, Copy, Debug)]
pub struct RequestLimits<'a> {
    pub available_memory_bytes: u64,
    pub context_limit: usize,
    /// The text of the host's override, where it is set.
    pub host_limit: Option<&'a str>,
    /// The window of a cache that is already held for the model.
    pub retained_kv_tokens: usize,
}

/// The limits around a request, the text as a sequence.
#[verifier::ext_equal]
pub struct LimitsView {
    pub available_memory_bytes: u64,
    pub context_limit: usize,
    pub host_limit: Option<Seq<char>>,
    pub retained_kv_tokens: usize,
}

impl<'a> View for RequestLimits<'a> {
    type V = LimitsView;

    open spec fn view(&self) -> LimitsView {
        LimitsView {
            available_memory_bytes: self.available_memory_bytes,
            context_limit: self.context_limit,
            host_limit: chars_of_option(self.host_limit),
            retained_kv_tokens: self.retained_kv_tokens,
        }
    }
}

/// What the host says at one moment.
#[derive(Debug)]
pub struct HostReading {
    /// The memory that is free, or zero where it is unknown.
    pub available_memory_bytes: u64,
    /// The text of the host's override of the window, where it is set.
    pub host_limit: Option<String>,
}

/// What the host says at one moment, the text as a sequence.
#[verifier::ext_equal]
pub struct ReadingView {
    pub available_memory_bytes: u64,
    pub host_limit: Option<Seq<char>>,
}

impl View for HostReading {
    type V = ReadingView;

    open spec fn view(&self) -> ReadingView {
        ReadingView {
            available_memory_bytes: self.available_memory_bytes,
            host_limit: match self.host_limit {
                Some(text) => Some(text@),
                None => None,
            },
        }
    }
}

impl ReadingView {
    /// The limits of a request at that moment, beside a retained cache of that window.
    pub open spec fn limits(self, context_limit: usize, retained_kv_tokens: usize) -> LimitsView {
        LimitsView {
            available_memory_bytes: self.available_memory_bytes,
            context_limit,
            host_limit: self.host_limit,
            retained_kv_tokens,
        }
    }
}

impl HostReading {
    /// The limits of a request at that moment, beside a retained cache of that window.
    pub fn limits(&self, context_limit: usize, retained_kv_tokens: usize) -> (limits: RequestLimits<
        '_,
    >)
        ensures
            limits@ == self@.limits(context_limit, retained_kv_tokens),
            limits.retained_kv_tokens == retained_kv_tokens,
            limits.available_memory_bytes == self.available_memory_bytes,
    {
        RequestLimits {
            available_memory_bytes: self.available_memory_bytes,
            context_limit,
            host_limit: match &self.host_limit {
                Some(text) => Some(text.as_str()),
                None => None,
            },
            retained_kv_tokens,
        }
    }
}

/// The memory estimate of a request; the vision encoder costs only where it is
/// loaded.
pub open spec fn request_memory(
    facts: &ModelFacts,
    has_mtmd: bool,
    settings: ModelSettings,
    limits: LimitsView,
) -> Option<usize> {
    memory_window(
        &facts.shape,
        limits.available_memory_bytes,
        if has_mtmd {
            settings.mmproj_size_bytes
        } else {
            0
        },
        limits.retained_kv_tokens,
    )
}

/// The window of a request, memory included.
pub open spec fn request_window(
    facts: &ModelFacts,
    has_mtmd: bool,
    settings: ModelSettings,
    limits: LimitsView,
) -> usize {
    window_cap(
        settings,
        limits.context_limit,
        facts.n_ctx_train,
        request_memory(facts, has_mtmd, settings, limits),
        limits.host_limit,
    )
}

/// The memory estimate of a request.
pub fn request_memory_max(
    facts: &ModelFacts,
    has_mtmd: bool,
    settings: &ModelSettings,
    limits: &RequestLimits<'_>,
) -> (memory_max_ctx: Option<usize>)
    requires
        facts.shape.measurable(limits.available_memory_bytes, limits.retained_kv_tokens),
    ensures
        memory_max_ctx == request_memory(facts, has_mtmd, *settings, limits@),
{
    let overhead = if has_mtmd {
        settings.mmproj_size_bytes
    } else {
        0
    };
    estimate_max_context_for_memory(
        &facts.shape,
        limits.available_memory_bytes,
        overhead,
        limits.retained_kv_tokens,
    )
}

/// The size of a prompt and its window, or why it does not fit: the memory first,
/// then the window.
pub open spec fn checked_prompt(
    prompt_token_count: usize,
    memory: Option<usize>,
    window: usize,
) -> Result<(usize, usize), ErrorView> {
    if memory is Some && prompt_token_count > memory->0 {
        Err(
            ErrorView::ContextLengthExceeded(
                memory_message(prompt_token_count as nat, memory->0 as nat),
            ),
        )
    } else if prompt_token_count >= window {
        Err(
            ErrorView::ContextLengthExceeded(
                window_message(prompt_token_count as nat, window as nat),
            ),
        )
    } else {
        Ok((prompt_token_count, window))
    }
}

/// Checks a prompt against what memory allows and against its window.
pub fn check_prompt(
    prompt_token_count: usize,
    memory_max_ctx: Option<usize>,
    effective_ctx: usize,
) -> (r: Result<(usize, usize), ProviderError>)
    ensures
        checked_prompt(prompt_token_count, memory_max_ctx, effective_ctx) == (match r {
            Ok(sizes) => Ok(sizes),
            Err(e) => Err(e@),
        }),
{
    if let Some(mem_max) = memory_max_ctx {
        if prompt_token_count > mem_max {
            let mut m = "Prompt (".to_owned();
            push_decimal(&mut m, prompt_token_count as u64);
            m.append(" tokens) exceeds estimated memory capacity (");
            push_decimal(&mut m, mem_max as u64);
            m.append(" tokens). Try a smaller model or reduce conversation length.");
            return Err(ProviderError::ContextLengthExceeded(m));
        }
    }
    if prompt_token_count >= effective_ctx {
        let mut m = "Prompt (".to_owned();
        push_decimal(&mut m, prompt_token_count as u64);
        m.append(" tokens) exceeds context limit (");
        push_decimal(&mut m, effective_ctx as u64);
        m.append(" tokens). Try reducing conversation length.");
        return Err(ProviderError::ContextLengthExceeded(m));
    }
    Ok((prompt_token_count, effective_ctx))
}

/// Sizes the window of a text request and turns away a prompt that memory, or the
/// window, cannot hold. Gives back the prompt's size and the window.
pub fn validate_and_compute_context(
    facts: &ModelFacts,
    has_mtmd: bool,
    prompt_token_count: usize,
    settings: &ModelSettings,
    limits: &RequestLimits<'_>,
) -> (r: Result<(usize, usize), ProviderError>)
    requires
        facts.shape.measurable(limits.available_memory_bytes, limits.retained_kv_tokens),
    ensures
        checked_prompt(
            prompt_token_count,
            request_memory(facts, has_mtmd, *settings, limits@),
            request_window(facts, has_mtmd, *settings, limits@),
        ) == (match r {
            Ok(sizes) => Ok(sizes),
            Err(e) => Err(e@),
        }),
{
    let memory_max_ctx = request_memory_max(facts, has_mtmd, settings, limits);
    let effective_ctx = effective_context_size(
        prompt_token_count,
        settings,
        limits.context_limit,
        facts.n_ctx_train,
        memory_max_ctx,
        limits.host_limit,
    );
    check_prompt(prompt_token_count, memory_max_ctx, effective_ctx)
}

/// The window of a throwaway context is the smaller of two: the prompt with its output
/// budget, which is what the settings allow or else two thousand and forty-eight tokens,
/// and the window of the request.
pub proof fn a_throwaway_window_holds_the_prompt_and_its_answer(
    prompt_tokens: nat,
    max_output_tokens: Option<usize>,
    effective_ctx: u32,
)
    ensures
        ({
            let window = sacrificial_window(prompt_tokens, max_output_tokens, effective_ctx);
            let wanted = prompt_tokens + (match max_output_tokens {
                Some(n) => n as int,
                None => 2048int,
            });
            &&& window <= effective_ctx
            &&& window <= wanted
            &&& window == effective_ctx || window == wanted
        }),
{
}

/// Whether the metadata of a length per head comes to `n` elements: it spells that
/// number, or there is none, or it is no number, and then the embedding is split over
/// the heads.
pub open spec fn comes_to(metadata: Option<String>, n_embd: u64, n_head: u64, n: nat) -> bool {
    match metadata {
        Some(text) => {
            ||| text@ == decimal(n) && n <= u64::MAX
            ||| n == n_embd / n_head && exists|i: int|
                0 <= i < text@.len() && !('0' <= #[trigger] text@[i] <= '9') && (i == 0
                    ==> text@[0] != '+')
        },
        None => n == n_embd / n_head,
    }
}

proof fn a_length_comes_to_its_elements(metadata: Option<String>, n_embd: u64, n_head: u64, n: nat)
    requires
        comes_to(metadata, n_embd, n_head, n),
    ensures
        per_head(text_of(metadata), (n_embd / n_head) as nat) == n,
{
    if let Some(text) = metadata {
        a_decimal_reads_back(n, u64::MAX as nat);
        if !(text@ == decimal(n) && n <= u64::MAX) {
            let i = choose|i: int|
                0 <= i < text@.len() && !('0' <= #[trigger] text@[i] <= '9') && (i == 0
                    ==> text@[0] != '+');
            only_digits_spell_a_number(text@, i, u64::MAX as nat);
        }
    }
}

/// What one cached token costs: two bytes for every element of its keys and of its
/// values, in every cached head of every layer. So `m` times the layers, or `m` times the
/// cached heads, cost `m` times the bytes, and one head of one layer costs two bytes an
/// element.
pub proof fn a_cached_token_costs_by_layers_and_heads(
    a: &ModelShape,
    b: &ModelShape,
    k: nat,
    v: nat,
    m: nat,
)
    requires
        comes_to(a.key_length, a.n_embd, a.n_head, k),
        comes_to(a.value_length, a.n_embd, a.n_head, v),
        comes_to(b.key_length, b.n_embd, b.n_head, k),
        comes_to(b.value_length, b.n_embd, b.n_head, v),
    ensures
        a.n_layer == 1 && a.n_head_kv == 1 ==> a.bytes_per_token() == 2 * (k + v),
        b.n_head_kv == a.n_head_kv && b.n_layer == m * a.n_layer ==> b.bytes_per_token() == m
            * a.bytes_per_token(),
        b.n_layer == a.n_layer && b.n_head_kv == m * a.n_head_kv ==> b.bytes_per_token() == m
            * a.bytes_per_token(),
        b.n_layer == a.n_head_kv && b.n_head_kv == a.n_layer ==> b.bytes_per_token()
            == a.bytes_per_token(),
{
    a_length_comes_to_its_elements(a.key_length, a.n_embd, a.n_head, k);
    a_length_comes_to_its_elements(a.value_length, a.n_embd, a.n_head, v);
    a_length_comes_to_its_elements(b.key_length, b.n_embd, b.n_head, k);
    a_length_comes_to_its_elements(b.value_length, b.n_embd, b.n_head, v);
    let e = k + v;
    let h = a.n_head_kv as nat;
    let l = a.n_layer as nat;
    assert(e * 1 * 1 * 2 == 2 * e) by (nonlinear_arith);
    assert(e * h * (m * l) * 2 == m * (e * h * l * 2)) by (nonlinear_arith);
    assert(e * (m * h) * l * 2 == m * (e * h * l * 2)) by (nonlinear_arith);
    assert(e * l * h * 2 == e * h * l * 2) by (nonlinear_arith);
}

/// The bytes that the keys and values of `tokens` positions take: `k` and `v` elements of
/// two bytes, in so many cached heads of so many layers.
pub open spec fn cache_bytes(tokens: int, k: nat, v: nat, n_head_kv: u64, n_layer: u64) -> int {
    tokens * ((k + v) * n_head_kv * n_layer * 2)
}

/// Whether a window is the largest whose cache takes at most half of what is left of the
/// memory, once the vision encoder has taken its part. What is left is the free memory
/// and what a retained cache gives back; where the encoder takes all of it, nothing is.
pub open spec fn fills_half(
    window: int,
    shape: &ModelShape,
    k: nat,
    v: nat,
    free: u64,
    encoder: int,
    retained: usize,
) -> bool {
    let total = free + cache_bytes(retained as int, k, v, shape.n_head_kv, shape.n_layer);
    if total < encoder {
        window == 0
    } else {
        &&& 0 <= window
        &&& 2 * cache_bytes(window, k, v, shape.n_head_kv, shape.n_layer) + encoder <= total
        &&& total < 2 * cache_bytes(window + 1, k, v, shape.n_head_kv, shape.n_layer) + encoder
    }
}

/// Whether memory of that size is counted exactly: in doubles, and in the machine's own
/// words.
pub open spec fn is_real_size(bytes: int) -> bool {
    bytes <= 0x20_0000_0000_0000 && bytes <= usize::MAX
}

proof fn halves_and_quotients(available: nat, c: nat)
    requires
        c > 0,
    ensures
        ({
            let w = available / 2 / c;
            &&& w * c * 2 <= available
            &&& available < (w + 1) * c * 2
            &&& w <= available
        }),
{
    let half = available / 2;
    let w = half / c;
    assert(w * c <= half && half < (w + 1) * c && w <= half) by (nonlinear_arith)
        requires
            c > 0,
            w == half / c,
    ;
    assert(w * c * 2 == 2 * (w * c)) by (nonlinear_arith);
    assert((w + 1) * c * 2 == 2 * ((w + 1) * c)) by (nonlinear_arith);
}

/// The memory estimate of a request. It is the largest window whose cache takes at most
/// half of the memory that is left, over the model's own dimensions; the vision encoder
/// is counted where it is loaded, and only there. There is no estimate exactly where the
/// free memory is unknown, a dimension is, or a token takes nothing. Memory is that of
/// a real machine: doubles count it exactly.
pub proof fn the_estimate_fills_half_of_what_is_left(
    facts: &ModelFacts,
    has_mtmd: bool,
    settings: ModelSettings,
    limits: LimitsView,
    k: nat,
    v: nat,
)
    requires
        comes_to(facts.shape.key_length, facts.shape.n_embd, facts.shape.n_head, k),
        comes_to(facts.shape.value_length, facts.shape.n_embd, facts.shape.n_head, v),
        is_real_size(
            limits.available_memory_bytes + cache_bytes(
                limits.retained_kv_tokens as int,
                k,
                v,
                facts.shape.n_head_kv,
                facts.shape.n_layer,
            ),
        ),
    ensures
        match request_memory(facts, has_mtmd, settings, limits) {
            Some(window) => fills_half(
                window as int,
                &facts.shape,
                k,
                v,
                limits.available_memory_bytes,
                if has_mtmd {
                    settings.mmproj_size_bytes as int
                } else {
                    0
                },
                limits.retained_kv_tokens,
            ),
            None => true,
        },
        request_memory(facts, has_mtmd, settings, limits) is None <==> {
            ||| limits.available_memory_bytes == 0
            ||| facts.shape.n_layer == 0
            ||| facts.shape.n_head_kv == 0
            ||| facts.shape.n_head == 0
            ||| facts.shape.n_embd == 0
            ||| k + v == 0
        },
{
    let shape = &facts.shape;
    a_length_comes_to_its_elements(shape.key_length, shape.n_embd, shape.n_head, k);
    a_length_comes_to_its_elements(shape.value_length, shape.n_embd, shape.n_head, v);
    let c = shape.bytes_per_token();
    let h = shape.n_head_kv as nat;
    let l = shape.n_layer as nat;
    assert(c == (k + v) * h * l * 2);
    assert(c == 0 <==> k + v == 0 || h == 0 || l == 0) by (nonlinear_arith)
        requires
            c == (k + v) * h * l * 2,
    ;
    let retained = limits.retained_kv_tokens as nat;
    assert(retained * c >= 0) by (nonlinear_arith);
    let encoder = if has_mtmd {
        settings.mmproj_size_bytes
    } else {
        0
    };
    let available = available_for_cache(limits.available_memory_bytes, retained * c, encoder);
    half_is_exact_for_real_sizes(available);
    if c > 0 {
        halves_and_quotients(available, c);
        let w = (available / 2 / c) as int;
        let ci = c as int;
        assert(cache_bytes(w, k, v, shape.n_head_kv, shape.n_layer) == w * ci);
        assert(cache_bytes(w + 1, k, v, shape.n_head_kv, shape.n_layer) == (w + 1) * ci);
        assert(2 * (w * ci) == w * ci * 2) by (nonlinear_arith);
        assert(2 * ((w + 1) * ci) == (w + 1) * ci * 2) by (nonlinear_arith);
        assert(available == 0 ==> w == 0) by (nonlinear_arith)
            requires
                w == (available / 2 / c) as int,
                c > 0,
        ;
    }
}

/// Whether a window is the smallest of the limits that are in force.
pub open spec fn is_smallest(window: usize, limits: Seq<usize>) -> bool {
    limits.contains(window) && forall|i: int| 0 <= i < limits.len() ==> window <= #[trigger] limits[i]
}

/// What decides the window, in order. A size that the settings give is taken as it is,
/// whatever else there is. Else a limit of the caller's holds, within the model's training
/// window and memory. Else a positive number that the host gives holds, within the
/// training window alone. Else the training window holds, within memory.
pub proof fn the_window_is_the_smallest_limit_in_force(
    settings: ModelSettings,
    context_limit: usize,
    n_ctx_train: usize,
    memory_max_ctx: Option<usize>,
    host_limit: Option<Seq<char>>,
    host: nat,
)
    requires
        host_limit is Some ==> host_limit->0 == decimal(host) && host <= usize::MAX,
    ensures
        ({
            let window = window_cap(
                settings,
                context_limit,
                n_ctx_train,
                memory_max_ctx,
                host_limit,
            );
            let memory = match memory_max_ctx {
                Some(m) => seq![m],
                None => Seq::empty(),
            };
            if settings.context_size is Some {
                window == settings.context_size->0
            } else if context_limit > 0 {
                is_smallest(window, seq![context_limit, n_ctx_train] + memory)
            } else if host_limit is Some && host > 0 {
                is_smallest(window, seq![host as usize, n_ctx_train])
            } else {
                is_smallest(window, seq![n_ctx_train] + memory)
            }
        }),
{
    let window = window_cap(settings, context_limit, n_ctx_train, memory_max_ctx, host_limit);
    a_decimal_reads_back(host, usize::MAX as nat);
    let memory = match memory_max_ctx {
        Some(m) => seq![m],
        None => Seq::empty(),
    };
    if settings.context_size is None && context_limit > 0 {
        let all = seq![context_limit, n_ctx_train] + memory;
        assert(all[0] == context_limit && all[1] == n_ctx_train);
        assert(memory_max_ctx is Some ==> all[2] == memory_max_ctx->0);
        assert(all.contains(window));
    } else if settings.context_size is None && host_limit is Some && host > 0 {
        let all = seq![host as usize, n_ctx_train];
        assert(all[0] == host && all[1] == n_ctx_train);
        assert(all.contains(window));
    } else if settings.context_size is None {
        let all = seq![n_ctx_train] + memory;
        assert(all[0] == n_ctx_train);
        assert(memory_max_ctx is Some ==> all[1] == memory_max_ctx->0);
        assert(all.contains(window));
    }
}

/// What the host gives is disregarded where it is no number: the window is what it is
/// without it.
pub proof fn a_host_limit_that_is_no_number_is_no_limit(
    settings: ModelSettings,
    context_limit: usize,
    n_ctx_train: usize,
    memory_max_ctx: Option<usize>,
    text: Seq<char>,
    i: int,
)
    requires
        0 <= i < text.len(),
        !('0' <= text[i] <= '9'),
        i == 0 ==> text[0] != '+',
    ensures
        window_cap(settings, context_limit, n_ctx_train, memory_max_ctx, Some(text)) == window_cap(
            settings,
            context_limit,
            n_ctx_train,
            memory_max_ctx,
            None,
        ),
{
    only_digits_spell_a_number(text, i, usize::MAX as nat);
}

/// The window of a request is that of its own limits: what memory allows it, what the
/// caller asks for, what the host gives and what the model was trained for.
pub proof fn a_request_is_given_the_window_of_its_limits(
    facts: &ModelFacts,
    has_mtmd: bool,
    settings: ModelSettings,
    limits: LimitsView,
)
    ensures
        ({
            let window = request_window(facts, has_mtmd, settings, limits);
            let memory = match request_memory(facts, has_mtmd, settings, limits) {
                Some(m) => seq![m],
                None => Seq::empty(),
            };
            &&& settings.context_size matches Some(size) ==> window == size
            &&& settings.context_size is None && limits.context_limit > 0 ==> is_smallest(
                window,
                seq![limits.context_limit, facts.n_ctx_train] + memory,
            )
            &&& settings.context_size is None && limits.context_limit == 0
                && limits.host_limit is None ==> is_smallest(
                window,
                seq![facts.n_ctx_train] + memory,
            )
        }),
{
    let memory = request_memory(facts, has_mtmd, settings, limits);
    the_window_is_the_smallest_limit_in_force(
        settings,
        limits.context_limit,
        facts.n_ctx_train,
        memory,
        None,
        0,
    );
}

/// A prompt is let through exactly where memory, if it is known, holds it, and where it
/// leaves at least one position of its window; its size and the window come back as they
/// are. Where both refuse it, memory is what is named.
pub proof fn a_prompt_is_let_through_where_it_fits(
    tokens: usize,
    memory: Option<usize>,
    window: usize,
)
    ensures
        checked_prompt(tokens, memory, window) is Ok <==> tokens < window && (memory is Some
            ==> tokens <= memory->0),
        checked_prompt(tokens, memory, window) matches Ok(sizes) ==> sizes == (tokens, window),
        checked_prompt(tokens, memory, window) matches Err(e) ==> e is ContextLengthExceeded,
        memory is Some && tokens > memory->0 ==> checked_prompt(tokens, memory, window) == Err::<
            (usize, usize),
            ErrorView,
        >(
            ErrorView::ContextLengthExceeded(
                "Prompt ("@ + decimal(tokens as nat)
                    + " tokens) exceeds estimated memory capacity ("@ + decimal(
                    memory->0 as nat,
                ) + " tokens). Try a smaller model or reduce conversation length."@,
            ),
        ),
        tokens >= window && (memory is Some ==> tokens <= memory->0) ==> checked_prompt(
            tokens,
            memory,
            window,
        ) == Err::<(usize, usize), ErrorView>(
            ErrorView::ContextLengthExceeded(
                "Prompt ("@ + decimal(tokens as nat) + " tokens) exceeds context limit ("@
                    + decimal(window as nat) + " tokens). Try reducing conversation length."@,
            ),
        ),
{
}

/// The limits of a request are what the host says at that moment, the caller's limit and
/// the window of the retained cache, each in its own place.
pub proof fn a_reading_becomes_the_limits_of_a_request(
    reading: ReadingView,
    context_limit: usize,
    retained: usize,
)
    ensures
        ({
            let limits = reading.limits(context_limit, retained);
            &&& limits.available_memory_bytes == reading.available_memory_bytes
            &&& limits.host_limit == reading.host_limit
            &&& limits.context_limit == context_limit
            &&& limits.retained_kv_tokens == retained
        }),
{
}

proof fn spacing_is_narrow(x: nat, unit: nat)
    requires
        unit > 0,
    ensures
        double_spacing(x, unit) >= unit,
        double_spacing(x, unit) == unit || (double_spacing(x, unit) % 2 == 0 && x
            >= 0x10_0000_0000_0000 * double_spacing(x, unit)),
    decreases x / unit,
{
    if x / unit >= 0x20_0000_0000_0000 {
        assert(x / (2 * unit) < x / unit && x >= 0x20_0000_0000_0000 * unit) by (nonlinear_arith)
            requires
                unit > 0,
                x / unit >= 0x20_0000_0000_0000,
        ;
        spacing_is_narrow(x, 2 * unit);
    }
}

proof fn rounding_is_near(x: nat, unit: nat)
    requires
        unit > 0,
    ensures
        2 * (rounded_units(x, unit) * unit) <= 2 * x + unit,
        2 * x <= 2 * (rounded_units(x, unit) * unit) + unit,
{
    let q = x / unit;
    let r = x % unit;
    assert(x == q * unit + r && r < unit) by (nonlinear_arith)
        requires
            unit > 0,
            q == x / unit,
            r == x % unit,
    ;
    assert((q + 1) * unit == q * unit + unit) by (nonlinear_arith);
}

proof fn twice_the_half_of_an_even_product(units: nat, unit: nat)
    requires
        unit % 2 == 0,
    ensures
        2 * (units * unit / 2) == units * unit,
{
    let step = unit / 2;
    assert(units * unit == 2 * (units * step)) by (nonlinear_arith)
        requires
            unit == 2 * step,
    ;
}

/// Half of a number is exact where a double tells it apart, and beyond that it is off by no
/// more than a double is: twice the half differs from the number by at most its `2^53`th
/// part.
pub proof fn half_is_as_near_as_a_double(x: nat)
    ensures
        x <= 0x20_0000_0000_0000 ==> half_in_double(x) == x / 2,
        x > 0x20_0000_0000_0000 ==> {
            &&& (2 * half_in_double(x) - x) * 0x20_0000_0000_0000 <= x
            &&& (x - 2 * half_in_double(x)) * 0x20_0000_0000_0000 <= x
        },
{
    if x <= 0x20_0000_0000_0000 {
        half_is_exact_for_real_sizes(x);
    } else {
        let unit = double_spacing(x, 1);
        assert(x / 1 == x);
        assert(unit == double_spacing(x, 2));
        spacing_is_narrow(x, 2);
        rounding_is_near(x, unit);
        twice_the_half_of_an_even_product(rounded_units(x, unit), unit);
    }
}

/// Where doubles are two apart, an odd number is halved as the neighbour of it that is a
/// multiple of four, and an even one exactly.
pub proof fn a_number_between_doubles_goes_to_the_even_one(x: nat)
    requires
        0x20_0000_0000_0000 <= x < 0x40_0000_0000_0000,
    ensures
        x % 2 == 0 ==> 2 * half_in_double(x) == x,
        x % 4 == 1 ==> 2 * half_in_double(x) == x - 1,
        x % 4 == 3 ==> 2 * half_in_double(x) == x + 1,
{
    assert(x / 1 == x);
    assert(double_spacing(x, 1) == double_spacing(x, 2));
    assert(double_spacing(x, 2) == 2);
    twice_the_half_of_an_even_product(rounded_units(x, 2), 2);
}

/// A vision encoder takes its bytes from what is free: a request with one has the estimate
/// and the window of a request without one that has so much less.
pub proof fn an_encoder_takes_from_what_is_free(
    facts: &ModelFacts,
    settings: ModelSettings,
    limits: LimitsView,
)
    requires
        settings.mmproj_size_bytes < limits.available_memory_bytes,
        limits.available_memory_bytes + limits.retained_kv_tokens as nat
            * facts.shape.bytes_per_token() <= u64::MAX,
    ensures
        ({
            let less = LimitsView {
                available_memory_bytes: (limits.available_memory_bytes
                    - settings.mmproj_size_bytes) as u64,
                ..limits
            };
            &&& request_memory(facts, true, settings, limits) == request_memory(
                facts,
                false,
                settings,
                less,
            )
            &&& request_window(facts, true, settings, limits) == request_window(
                facts,
                false,
                settings,
                less,
            )
        }),
{
}

} // verus!

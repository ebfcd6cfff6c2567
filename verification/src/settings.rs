//! Model settings, and what they ask of a context and of a sampler.

use vstd::prelude::*;

verus! {

/// How the next token is drawn.
///
/// The real-valued knobs (temperature, `top_p`, `min_p`, `tau`, `eta`) stay with
/// whoever builds the sampler: they choose no stage and change no order.
#[derive(Clone, Copy, Debug, PartialEq, Eq, Structural)]
pub enum SamplingConfig {
    Greedy,
    Temperature { top_k: i32, seed: Option<u32> },
    MirostatV2 { seed: Option<u32> },
}

/// The per-model settings that the engine reads.
#[derive(Clone, Copy, Debug, PartialEq, Eq, Structural)]
pub struct ModelSettings {
    pub context_size: Option<u32>,
    pub max_output_tokens: Option<usize>,
    pub n_batch: Option<u32>,
    pub n_threads: Option<i32>,
    pub flash_attention: Option<bool>,
    pub enable_thinking: bool,
    pub image_token_estimate: usize,
    pub mmproj_size_bytes: u64,
    pub repeat_last_n: i32,
    /// Whether any of the repeat, frequency and presence penalties is in force.
    pub penalized: bool,
    pub sampling: SamplingConfig,
}

impl Default for ModelSettings {
    /// Every option unset and every size zero.
    fn default() -> (settings: ModelSettings)
        ensures
            settings == (ModelSettings {
                context_size: None,
                max_output_tokens: None,
                n_batch: None,
                n_threads: None,
                flash_attention: None,
                enable_thinking: false,
                image_token_estimate: 0,
                mmproj_size_bytes: 0,
                repeat_last_n: 0,
                penalized: false,
                sampling: SamplingConfig::Greedy,
            }),
    {
        ModelSettings {
            context_size: None,
            max_output_tokens: None,
            n_batch: None,
            n_threads: None,
            flash_attention: None,
            enable_thinking: false,
            image_token_estimate: 0,
            mmproj_size_bytes: 0,
            repeat_last_n: 0,
            penalized: false,
            sampling: SamplingConfig::Greedy,
        }
    }
}

/// What a context is built with. `None` leaves the engine's own default.
#[derive(Clone, Copy, Debug, PartialEq, Eq, Structural)]
pub struct ContextParams {
    pub n_ctx: Option<u32>,
    /// Keep the full-size cache for sliding-window layers.
    pub swa_full: bool,
    pub n_batch: Option<u32>,
    pub n_threads: Option<i32>,
    pub n_threads_batch: Option<i32>,
    pub flash_attention_policy: Option<i32>,
}

/// Parameters for a context of `ctx_size` positions.
///
/// Every partial resume depends on `swa_full`: a sliding-window model otherwise
/// drops the positions behind its window, and a decode resumed there attends to
/// entries that are gone. So it is pinned here, whatever the settings say.
pub fn build_context_params(ctx_size: u32, settings: &ModelSettings) -> (params: ContextParams)
    ensures
        params.n_ctx == (if ctx_size == 0 {
            None
        } else {
            Some(ctx_size)
        }),
        params.swa_full,
        params.n_batch == settings.n_batch,
        params.n_threads == settings.n_threads,
        params.n_threads_batch == settings.n_threads,
        params.flash_attention_policy == (match settings.flash_attention {
            Some(true) => Some(1i32),
            Some(false) => Some(0i32),
            None => None,
        }),
{
    ContextParams {
        n_ctx: if ctx_size == 0 {
            None
        } else {
            Some(ctx_size)
        },
        swa_full: true,
        n_batch: settings.n_batch,
        n_threads: settings.n_threads,
        n_threads_batch: settings.n_threads,
        flash_attention_policy: match settings.flash_attention {
            Some(on) => if on {
                Some(1)
            } else {
                Some(0)
            },
            None => None,
        },
    }
}

/// One stage of a sampler chain.
#[derive(Clone, Copy, Debug, PartialEq, Eq, Structural)]
pub enum SamplerStage {
    Penalties { last_n: i32 },
    Greedy,
    TopK { k: i32 },
    TopP { min_keep: usize },
    MinP { min_keep: usize },
    Temp,
    Dist { seed: u32 },
    MirostatV2 { seed: u32 },
}

/// The stages of a sampler, first to last.
#[derive(Debug)]
pub struct SamplerPlan {
    pub stages: Vec<SamplerStage>,
    /// Whether the stages are chained. A single stage is used as it is.
    pub chained: bool,
}

/// A seed, or zero when none is set.
pub open spec fn seed_or_zero(seed: Option<u32>) -> u32 {
    match seed {
        Some(s) => s,
        None => 0,
    }
}

/// The stages that draw a token.
pub open spec fn drawing_stages(sampling: SamplingConfig) -> Seq<SamplerStage> {
    match sampling {
        SamplingConfig::Greedy => seq![SamplerStage::Greedy],
        SamplingConfig::Temperature { top_k, seed } => seq![
            SamplerStage::TopK { k: top_k },
            SamplerStage::TopP { min_keep: 1 },
            SamplerStage::MinP { min_keep: 1 },
            SamplerStage::Temp,
            SamplerStage::Dist { seed: seed_or_zero(seed) },
        ],
        SamplingConfig::MirostatV2 { seed } => seq![
            SamplerStage::MirostatV2 { seed: seed_or_zero(seed) },
        ],
    }
}

/// The penalty stage, when any penalty is in force.
pub open spec fn penalty_stages(settings: ModelSettings) -> Seq<SamplerStage> {
    if settings.penalized {
        seq![SamplerStage::Penalties { last_n: settings.repeat_last_n }]
    } else {
        Seq::empty()
    }
}

/// The sampler that `settings` asks for: penalties before the draw, and a chain
/// only where there is more than one stage.
pub fn build_sampler(settings: &ModelSettings) -> (plan: SamplerPlan)
    ensures
        plan.stages@ == penalty_stages(*settings) + drawing_stages(settings.sampling),
        plan.chained == (plan.stages@.len() != 1),
{
    let mut stages: Vec<SamplerStage> = Vec::new();
    if settings.penalized {
        stages.push(SamplerStage::Penalties { last_n: settings.repeat_last_n });
    }
    assert(stages@ =~= penalty_stages(*settings));
    match settings.sampling {
        SamplingConfig::Greedy => {
            stages.push(SamplerStage::Greedy);
        },
        SamplingConfig::Temperature { top_k, seed } => {
            stages.push(SamplerStage::TopK { k: top_k });
            stages.push(SamplerStage::TopP { min_keep: 1 });
            stages.push(SamplerStage::MinP { min_keep: 1 });
            stages.push(SamplerStage::Temp);
            stages.push(SamplerStage::Dist { seed: seed.unwrap_or(0) });
        },
        SamplingConfig::MirostatV2 { seed } => {
            stages.push(SamplerStage::MirostatV2 { seed: seed.unwrap_or(0) });
        },
    }
    assert(stages@ =~= penalty_stages(*settings) + drawing_stages(settings.sampling));
    let chained = stages.len() != 1;
    SamplerPlan { stages, chained }
}

/// A sampler always has a stage, and its last one draws the token.
pub proof fn a_sampler_ends_in_a_draw(settings: ModelSettings)
    ensures
        ({
            let stages = penalty_stages(settings) + drawing_stages(settings.sampling);
            &&& stages.len() >= 1
            &&& match stages.last() {
                SamplerStage::Greedy
                | SamplerStage::Dist { .. }
                | SamplerStage::MirostatV2 { .. } => true,
                _ => false,
            }
        }),
{
}

/// The stages of a sampler, one by one: a penalty stage over the last tokens comes first
/// where a penalty is in force, and nowhere else. Then a greedy draw is one stage, as is
/// one by Mirostat; a draw at a temperature narrows by rank, by total and by least
/// probability, each of the last two keeping one token, and then draws. Where no seed is
/// set, it is zero.
pub proof fn a_sampler_penalizes_first_and_draws_as_set(settings: ModelSettings)
    ensures
        ({
            let stages = penalty_stages(settings) + drawing_stages(settings.sampling);
            let p = if settings.penalized {
                1int
            } else {
                0
            };
            &&& settings.penalized ==> stages[0] == (SamplerStage::Penalties {
                last_n: settings.repeat_last_n,
            })
            &&& match settings.sampling {
                SamplingConfig::Greedy => stages.len() == p + 1 && stages[p]
                    == SamplerStage::Greedy,
                SamplingConfig::Temperature { top_k, seed } => {
                    &&& stages.len() == p + 5
                    &&& stages[p] == (SamplerStage::TopK { k: top_k })
                    &&& stages[p + 1] == (SamplerStage::TopP { min_keep: 1 })
                    &&& stages[p + 2] == (SamplerStage::MinP { min_keep: 1 })
                    &&& stages[p + 3] == SamplerStage::Temp
                    &&& seed matches Some(s) ==> stages[p + 4] == (SamplerStage::Dist { seed: s })
                    &&& seed is None ==> stages[p + 4] == (SamplerStage::Dist { seed: 0 })
                },
                SamplingConfig::MirostatV2 { seed } => {
                    &&& stages.len() == p + 1
                    &&& seed matches Some(s) ==> stages[p] == (SamplerStage::MirostatV2 { seed: s })
                    &&& seed is None ==> stages[p] == (SamplerStage::MirostatV2 { seed: 0 })
                },
            }
        }),
{
}

} // verus!

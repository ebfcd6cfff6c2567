//! What settings ask of a context, of a sampler and of a template.

use local_inference::prepare::template_options;
use local_inference::settings::{
    build_context_params, build_sampler, ModelSettings, SamplerStage, SamplingConfig,
};

#[test]
fn a_context_keeps_the_full_sliding_window_cache() {
    let p = build_context_params(4096, &ModelSettings::default());
    assert_eq!(p.n_ctx, Some(4096));
    assert!(p.swa_full);
    assert_eq!((p.n_batch, p.n_threads, p.n_threads_batch), (None, None, None));
    assert_eq!(p.flash_attention_policy, None);
    assert_eq!(build_context_params(0, &ModelSettings::default()).n_ctx, None);
}

#[test]
fn a_context_takes_what_is_set() {
    let settings = ModelSettings {
        n_batch: Some(256),
        n_threads: Some(6),
        flash_attention: Some(true),
        ..ModelSettings::default()
    };
    let p = build_context_params(1, &settings);
    assert_eq!((p.n_batch, p.n_threads, p.n_threads_batch), (Some(256), Some(6), Some(6)));
    assert_eq!(p.flash_attention_policy, Some(1));
    let off = ModelSettings { flash_attention: Some(false), ..settings };
    assert_eq!(build_context_params(1, &off).flash_attention_policy, Some(0));
}

#[test]
fn a_single_stage_is_not_chained() {
    let plan = build_sampler(&ModelSettings::default());
    assert_eq!(plan.stages, vec![SamplerStage::Greedy]);
    assert!(!plan.chained);
    let plan = build_sampler(&ModelSettings {
        sampling: SamplingConfig::MirostatV2 { seed: None },
        ..ModelSettings::default()
    });
    assert_eq!(plan.stages, vec![SamplerStage::MirostatV2 { seed: 0 }]);
    assert!(!plan.chained);
}

#[test]
fn penalties_come_before_the_draw() {
    let plan = build_sampler(&ModelSettings {
        penalized: true,
        repeat_last_n: 64,
        sampling: SamplingConfig::Temperature { top_k: 40, seed: Some(9) },
        ..ModelSettings::default()
    });
    assert_eq!(
        plan.stages,
        vec![
            SamplerStage::Penalties { last_n: 64 },
            SamplerStage::TopK { k: 40 },
            SamplerStage::TopP { min_keep: 1 },
            SamplerStage::MinP { min_keep: 1 },
            SamplerStage::Temp,
            SamplerStage::Dist { seed: 9 },
        ]
    );
    assert!(plan.chained);
    let greedy = build_sampler(&ModelSettings { penalized: true, ..ModelSettings::default() });
    assert_eq!(greedy.stages.len(), 2);
    assert!(greedy.chained);
}

#[test]
fn thinking_asks_for_its_format() {
    let on = template_options(&ModelSettings { enable_thinking: true, ..ModelSettings::default() });
    assert_eq!(on.reasoning_format.as_deref(), Some("auto"));
    assert!(on.enable_thinking && on.add_generation_prompt && on.use_jinja && on.parse_tool_calls);
    assert!(!on.parallel_tool_calls && !on.add_bos && !on.add_eos);
    let off = template_options(&ModelSettings::default());
    assert_eq!(off.reasoning_format, None);
    assert!(!off.enable_thinking);
}

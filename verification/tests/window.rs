//! The window of a request, and of a throwaway context.

use local_inference::settings::ModelSettings;
use local_inference::window::{
    context_cap, effective_context_size, is_sacrificial_prompt, sacrificial_context_size,
    SACRIFICIAL_OUTPUT_TOKENS,
};

fn default_settings() -> ModelSettings {
    ModelSettings::default()
}

#[test]
fn test_effective_context_size_uses_full_limit() {
    assert_eq!(
        effective_context_size(100, &default_settings(), 4096, 4096, None, None),
        4096
    );
}

#[test]
fn test_effective_context_size_capped_by_limit() {
    assert_eq!(
        effective_context_size(100, &default_settings(), 1024, 8192, None, None),
        1024
    );
}

#[test]
fn test_effective_context_size_capped_by_memory() {
    assert_eq!(
        effective_context_size(100, &default_settings(), 4096, 4096, Some(800), None),
        800
    );
}

#[test]
fn test_effective_context_size_memory_smaller_than_prompt() {
    assert_eq!(
        effective_context_size(600, &default_settings(), 4096, 4096, Some(700), None),
        700
    );
}

#[test]
fn test_effective_context_size_zero_limit_uses_train() {
    assert_eq!(
        effective_context_size(100, &default_settings(), 0, 2048, None, None),
        2048
    );
}

#[test]
fn test_effective_context_size_prompt_exceeds_all_limits() {
    assert_eq!(
        effective_context_size(5000, &default_settings(), 4096, 4096, None, None),
        4096
    );
}

#[test]
fn test_context_cap_with_settings_override() {
    let mut settings = default_settings();
    settings.context_size = Some(2048);
    assert_eq!(context_cap(&settings, 4096, 8192, Some(1024), None), 2048);
}

#[test]
fn test_context_cap_without_override() {
    assert_eq!(context_cap(&default_settings(), 4096, 8192, None, None), 4096);
}

#[test]
fn test_context_cap_memory_limited() {
    assert_eq!(
        context_cap(&default_settings(), 4096, 8192, Some(2048), None),
        2048
    );
}

#[test]
fn sacrificial_boundary_is_exactly_half_the_cache() {
    assert!(is_sacrificial_prompt(499, 1000));
    assert!(!is_sacrificial_prompt(500, 1000));
    assert!(!is_sacrificial_prompt(501, 1000));
    assert!(!is_sacrificial_prompt(1000, 1000));
    assert!(!is_sacrificial_prompt(7157, 772));
    assert!(!is_sacrificial_prompt(0, 0));
    assert!(!is_sacrificial_prompt(100, 0));
    assert!(!is_sacrificial_prompt(0, 1000));
}

#[test]
fn sacrificial_context_is_sized_to_the_prompt_plus_an_output_budget() {
    assert_eq!(
        sacrificial_context_size(378, None, 4096),
        378 + SACRIFICIAL_OUTPUT_TOKENS as u32
    );
    assert_eq!(sacrificial_context_size(378, None, 1024), 1024);
    assert_eq!(sacrificial_context_size(378, Some(256), 4096), 634);
    assert_eq!(sacrificial_context_size(usize::MAX, None, 4096), 4096);
}

#[test]
fn sacrificial_context_stays_smaller_than_the_retained_window() {
    let n_ctx: u32 = 4096;
    for prompt in [1usize, 378, 1000, 2047] {
        assert!(is_sacrificial_prompt(prompt, n_ctx as usize));
        let transient = sacrificial_context_size(prompt, None, n_ctx);
        assert!(
            transient < n_ctx,
            "prompt {prompt} produced a throwaway window of {transient}, not below {n_ctx}"
        );
    }
}

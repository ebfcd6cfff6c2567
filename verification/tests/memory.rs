//! The memory estimate, the host's limit, and prompts that do not fit.

use local_inference::error::ProviderError;
use local_inference::settings::ModelSettings;
use local_inference::window::{
    attention_length_keys, check_prompt, context_cap, estimate_is_countable,
    estimate_max_context_for_memory, lacks_headroom, request_memory_max,
    validate_and_compute_context, ModelFacts, ModelShape, RequestLimits,
};

fn shape() -> ModelShape {
    ModelShape {
        n_layer: 2,
        n_head_kv: 2,
        n_head: 4,
        n_embd: 64,
        key_length: None,
        value_length: None,
    }
}

/// Sixteen elements a head, for keys and for values, of two heads and two layers,
/// two bytes each.
const PER_TOKEN: u64 = (16 + 16) * 2 * 2 * 2;

#[test]
fn half_of_the_memory_goes_to_the_cache() {
    assert_eq!(
        estimate_max_context_for_memory(&shape(), PER_TOKEN * 1000, 0, 0),
        Some(500)
    );
    assert_eq!(
        estimate_max_context_for_memory(&shape(), PER_TOKEN * 1000, PER_TOKEN * 200, 0),
        Some(400)
    );
    assert_eq!(
        estimate_max_context_for_memory(&shape(), PER_TOKEN, PER_TOKEN * 200, 0),
        Some(0)
    );
}

#[test]
fn a_retained_cache_counts_towards_the_estimate() {
    let free = PER_TOKEN * 1000;
    assert_eq!(
        estimate_max_context_for_memory(&shape(), free - PER_TOKEN * 300, 0, 300),
        estimate_max_context_for_memory(&shape(), free, 0, 0)
    );
}

#[test]
fn unknown_dimensions_give_no_estimate() {
    assert_eq!(estimate_max_context_for_memory(&shape(), 0, 0, 0), None);
    for hole in 0..4 {
        let mut s = shape();
        match hole {
            0 => s.n_layer = 0,
            1 => s.n_head_kv = 0,
            2 => s.n_head = 0,
            _ => s.n_embd = 0,
        }
        assert_eq!(estimate_max_context_for_memory(&s, 1 << 30, 0, 0), None);
    }
    let thin = ModelShape { n_embd: 3, ..shape() };
    assert_eq!(estimate_max_context_for_memory(&thin, 1 << 30, 0, 0), None);
}

#[test]
fn metadata_overrides_the_head_size() {
    let s = ModelShape {
        key_length: Some("100".to_string()),
        value_length: Some("28".to_string()),
        ..shape()
    };
    assert_eq!(
        estimate_max_context_for_memory(&s, 128 * 2 * 2 * 2 * 10, 0, 0),
        Some(5)
    );
    let odd = ModelShape { key_length: Some("many".to_string()), ..shape() };
    assert_eq!(
        estimate_max_context_for_memory(&odd, PER_TOKEN * 10, 0, 0),
        Some(5)
    );
}

#[test]
fn halving_rounds_as_double_precision_does() {
    let unit = ModelShape {
        n_layer: 1,
        n_head_kv: 1,
        n_head: 1,
        n_embd: 1,
        key_length: Some("1".to_string()),
        value_length: Some("0".to_string()),
    };
    for free in [1u64, 3, 1 << 53, (1 << 53) + 1, (1 << 53) + 3, (1 << 60) + 129, u64::MAX - 1023, u64::MAX] {
        let usable = (free as f64 * 0.5) as u64;
        assert_eq!(
            estimate_max_context_for_memory(&unit, free, 0, 0),
            Some((usable / 2) as usize),
            "{free}"
        );
    }
}

#[test]
fn an_estimate_that_cannot_be_counted_is_told_apart() {
    assert!(estimate_is_countable(&shape(), 1, 1 << 20));
    let vast = || ModelShape { n_layer: u64::MAX, ..shape() };
    assert!(!estimate_is_countable(&vast(), 1, 0));
    assert!(!estimate_is_countable(&shape(), 1, usize::MAX));
    assert!(estimate_is_countable(&ModelShape { n_head: 0, ..vast() }, 1, usize::MAX));
    assert!(estimate_is_countable(&vast(), 0, usize::MAX), "nothing is counted");
    assert_eq!(estimate_max_context_for_memory(&vast(), 0, 7, usize::MAX), None);
}

#[test]
fn the_length_keys_carry_the_architecture() {
    assert_eq!(
        attention_length_keys(Some("gemma")),
        (
            "gemma.attention.key_length".to_string(),
            "gemma.attention.value_length".to_string()
        )
    );
    assert_eq!(attention_length_keys(None).0, ".attention.key_length");
}

#[test]
fn the_host_overrides_memory_but_not_training() {
    let s = ModelSettings::default();
    assert_eq!(context_cap(&s, 0, 8192, Some(1000), Some("6000")), 6000);
    assert_eq!(context_cap(&s, 0, 8192, Some(1000), Some("60000")), 8192);
    assert_eq!(context_cap(&s, 0, 8192, Some(1000), Some("0")), 1000);
    assert_eq!(context_cap(&s, 0, 8192, Some(1000), Some("lots")), 1000);
    assert_eq!(context_cap(&s, 500, 8192, Some(1000), Some("6000")), 500);
}

fn facts() -> ModelFacts {
    ModelFacts { n_ctx_train: 4096, shape: shape() }
}

fn limits(tokens: u64) -> RequestLimits<'static> {
    RequestLimits {
        available_memory_bytes: PER_TOKEN * tokens * 2,
        context_limit: 2000,
        host_limit: None,
        retained_kv_tokens: 0,
    }
}

#[test]
fn a_prompt_that_fits_keeps_its_size_and_window() {
    let s = ModelSettings::default();
    assert_eq!(
        validate_and_compute_context(&facts(), false, 1999, &s, &limits(3000)),
        Ok((1999, 2000))
    );
    let encoder = ModelSettings { mmproj_size_bytes: PER_TOKEN * 2000, ..s };
    assert_eq!(request_memory_max(&facts(), true, &encoder, &limits(3000)), Some(2000));
    assert_eq!(request_memory_max(&facts(), false, &encoder, &limits(3000)), Some(3000));
}

#[test]
fn a_prompt_beyond_its_window_or_memory_is_refused() {
    let s = ModelSettings::default();
    assert_eq!(
        validate_and_compute_context(&facts(), false, 2000, &s, &limits(3000)),
        Err(ProviderError::ContextLengthExceeded(
            "Prompt (2000 tokens) exceeds context limit (2000 tokens). \
             Try reducing conversation length."
                .to_string()
        ))
    );
    assert_eq!(
        validate_and_compute_context(&facts(), false, 2000, &s, &limits(1500)),
        Err(ProviderError::ContextLengthExceeded(
            "Prompt (2000 tokens) exceeds estimated memory capacity (1500 tokens). \
             Try a smaller model or reduce conversation length."
                .to_string()
        ))
    );
    assert_eq!(check_prompt(5, None, 6), Ok((5, 6)));
}

#[test]
fn headroom_ends_exactly_at_its_boundary() {
    assert!(!lacks_headroom(488, 1000));
    assert!(lacks_headroom(489, 1000));
    assert!(lacks_headroom(usize::MAX, 1000));
}

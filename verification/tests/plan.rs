//! How a prompt is prefilled, given what a cache offers it.

use local_inference::session::{prefill_plan, PrefillPlan, RetainedPrefix, REUSE_MIN_TOKENS};
use local_inference::token::{common_prefix_len, LlamaToken};
use local_inference::window::is_sacrificial_prompt;

fn tokens(ids: impl IntoIterator<Item = i32>) -> Vec<LlamaToken> {
    ids.into_iter().map(LlamaToken::new).collect()
}

fn retained(tokens: &[LlamaToken], n_ctx: u32) -> RetainedPrefix<'_> {
    RetainedPrefix {
        media_pos: 0,
        tokens,
        occupied: tokens.len(),
        n_ctx,
    }
}

fn retained_behind_media(
    media_pos: usize,
    tokens: &[LlamaToken],
    n_ctx: u32,
) -> RetainedPrefix<'_> {
    RetainedPrefix {
        media_pos,
        tokens,
        occupied: media_pos + tokens.len(),
        n_ctx,
    }
}

fn diverging_prompt(shared: usize, extra: usize) -> Vec<LlamaToken> {
    tokens((0..shared as i32).chain((0..extra as i32).map(|i| 100_000 + i)))
}

#[test]
fn common_prefix_len_counts_shared_leading_tokens() {
    assert_eq!(
        common_prefix_len(&tokens([1, 2, 3, 4]), &tokens([1, 2, 9, 4])),
        2
    );
    assert_eq!(common_prefix_len(&tokens([1, 2]), &tokens([1, 2, 3])), 2);
    assert_eq!(common_prefix_len(&tokens([1, 2, 3]), &tokens([1, 2])), 2);
    assert_eq!(common_prefix_len(&tokens([9]), &tokens([1, 2])), 0);
    assert_eq!(common_prefix_len(&[], &tokens([1, 2])), 0);
    assert_eq!(common_prefix_len(&tokens([1, 2]), &[]), 0);
}

#[test]
fn prefill_plan_without_retained_session_creates_context() {
    assert_eq!(
        prefill_plan(None, &diverging_prompt(1000, 8), 4096),
        PrefillPlan::CreateContext
    );
}

#[test]
fn prefill_plan_on_context_size_change_creates_context() {
    let cached = tokens(0..1000);
    let prompt = diverging_prompt(1000, 8);
    assert_eq!(
        prefill_plan(Some(retained(&cached, 2048)), &prompt, 4096),
        PrefillPlan::CreateContext
    );
}

#[test]
fn prefill_plan_reuses_long_shared_prefix() {
    let cached = tokens(0..1000);
    let prompt = diverging_prompt(900, 40);
    assert_eq!(
        prefill_plan(Some(retained(&cached, 4096)), &prompt, 4096),
        PrefillPlan::ReusePrefix(900)
    );
}

#[test]
fn prefill_plan_rejects_short_shared_prefix() {
    let cached = tokens(0..1000);
    let prompt = diverging_prompt(REUSE_MIN_TOKENS - 1, 745);
    assert_eq!(prompt.len(), 1000);
    assert_eq!(
        prefill_plan(Some(retained(&cached, 4096)), &prompt, 4096),
        PrefillPlan::FullPrefillInPlace
    );
}

#[test]
fn prefill_plan_reuses_at_exactly_the_threshold() {
    let cached = tokens(0..1000);
    let prompt = diverging_prompt(REUSE_MIN_TOKENS, 40);
    assert_eq!(
        prefill_plan(Some(retained(&cached, 4096)), &prompt, 4096),
        PrefillPlan::ReusePrefix(REUSE_MIN_TOKENS)
    );
}

#[test]
fn prefill_plan_always_leaves_a_token_to_decode() {
    let cached = tokens(0..1000);
    let prompt = tokens(0..1000);
    assert_eq!(
        prefill_plan(Some(retained(&cached, 4096)), &prompt, 4096),
        PrefillPlan::ReusePrefix(999)
    );
}

#[test]
fn prefill_plan_reuses_when_prompt_extends_the_cache() {
    let cached = tokens(0..1000);
    let prompt = tokens(0..1400);
    assert_eq!(
        prefill_plan(Some(retained(&cached, 4096)), &prompt, 4096),
        PrefillPlan::ReusePrefix(1000)
    );
}


#[test]
fn prefill_plan_sacrifices_a_small_non_matching_prompt() {
    let cached = tokens(0..7138);
    let prompt = diverging_prompt(8, 370);
    assert_eq!(
        prefill_plan(Some(retained(&cached, 4096)), &prompt, 4096),
        PrefillPlan::SacrificialContext
    );
}

#[test]
fn prefill_plan_just_below_the_sacrificial_threshold() {
    let cached = tokens(0..1000);
    let prompt = diverging_prompt(8, 491);
    assert_eq!(prompt.len(), 499);
    assert_eq!(
        prefill_plan(Some(retained(&cached, 4096)), &prompt, 4096),
        PrefillPlan::SacrificialContext
    );
}

#[test]
fn prefill_plan_just_above_the_sacrificial_threshold_prefills_in_place() {
    let cached = tokens(0..1000);
    let prompt = diverging_prompt(8, 492);
    assert_eq!(prompt.len(), 500);
    assert_eq!(
        prefill_plan(Some(retained(&cached, 4096)), &prompt, 4096),
        PrefillPlan::FullPrefillInPlace
    );
}

#[test]
fn reuse_wins_over_sacrifice_when_the_prefix_is_long_enough() {
    let cached = tokens(0..7138);
    let prompt = diverging_prompt(REUSE_MIN_TOKENS, 40);
    assert!(is_sacrificial_prompt(prompt.len(), cached.len()));
    assert_eq!(
        prefill_plan(Some(retained(&cached, 4096)), &prompt, 4096),
        PrefillPlan::ReusePrefix(REUSE_MIN_TOKENS)
    );
}

#[test]
fn sacrifice_needs_a_retained_context_of_the_same_size() {
    let cached = tokens(0..7138);
    let prompt = diverging_prompt(8, 370);
    assert_eq!(
        prefill_plan(Some(retained(&cached, 2048)), &prompt, 4096),
        PrefillPlan::CreateContext
    );
    assert_eq!(
        prefill_plan(None, &prompt, 4096),
        PrefillPlan::CreateContext
    );
}

#[test]
fn prefill_plan_with_empty_cached_tokens_prefills_in_place() {
    assert_eq!(
        prefill_plan(Some(retained(&[], 4096)), &diverging_prompt(1000, 8), 4096),
        PrefillPlan::FullPrefillInPlace
    );
}

#[test]
fn prefill_plan_on_empty_prompt_prefills_in_place() {
    let cached = tokens(0..1000);
    assert_eq!(
        prefill_plan(Some(retained(&cached, 4096)), &[], 4096),
        PrefillPlan::FullPrefillInPlace
    );
}

#[test]
fn prefill_plan_resumes_at_an_absolute_position_behind_a_media_head() {
    let cached = tokens(0..90);
    let prompt = diverging_prompt(40, 12);
    assert_eq!(
        prefill_plan(
            Some(retained_behind_media(1000, &cached, 4096)),
            &prompt,
            4096
        ),
        PrefillPlan::ReusePrefix(1040)
    );
}

#[test]
fn a_media_head_alone_can_carry_the_prompt_over_the_reuse_threshold() {
    let cached = tokens(0..80);
    let prompt = diverging_prompt(2, 30);
    assert_eq!(
        prefill_plan(
            Some(retained_behind_media(900, &cached, 4096)),
            &prompt,
            4096
        ),
        PrefillPlan::ReusePrefix(902)
    );
}

#[test]
fn a_media_head_too_short_to_reach_the_threshold_does_not_reuse() {
    let cached = tokens(0..80);
    let prompt = diverging_prompt(0, 180);
    assert_eq!(
        prefill_plan(
            Some(retained_behind_media(100, &cached, 4096)),
            &prompt,
            4096
        ),
        PrefillPlan::FullPrefillInPlace
    );
}

#[test]
fn a_media_cache_the_prompt_cannot_reproduce_offers_no_tokens() {
    let opaque = RetainedPrefix {
        media_pos: 0,
        tokens: &[],
        occupied: 3000,
        n_ctx: 4096,
    };
    let prompt = tokens(0..2000);
    assert_eq!(
        prefill_plan(Some(opaque), &prompt, 4096),
        PrefillPlan::FullPrefillInPlace
    );
}

#[test]
fn a_side_call_is_sacrificed_against_the_positions_a_media_cache_occupies() {
    let opaque = RetainedPrefix {
        media_pos: 0,
        tokens: &[],
        occupied: 3000,
        n_ctx: 4096,
    };
    let prompt = tokens(0..378);
    assert_eq!(
        prefill_plan(Some(opaque), &prompt, 4096),
        PrefillPlan::SacrificialContext
    );
}

#[test]
fn a_media_cache_of_a_different_window_is_rebuilt() {
    let cached = tokens(0..90);
    let prompt = diverging_prompt(40, 12);
    assert_eq!(
        prefill_plan(
            Some(retained_behind_media(1000, &cached, 2048)),
            &prompt,
            4096
        ),
        PrefillPlan::CreateContext
    );
}

#[test]
fn reuse_behind_a_media_head_always_leaves_a_token_to_decode() {
    let cached = tokens(0..90);
    let prompt = tokens(0..90);
    assert_eq!(
        prefill_plan(
            Some(retained_behind_media(1000, &cached, 4096)),
            &prompt,
            4096
        ),
        PrefillPlan::ReusePrefix(1089)
    );
}

#[test]
fn an_empty_tail_behind_a_media_head_is_never_reused() {
    assert_eq!(
        prefill_plan(Some(retained_behind_media(1000, &[], 4096)), &[], 4096),
        PrefillPlan::FullPrefillInPlace
    );
}

//! Which resume positions a cache can honour.

use local_inference::session::kept_prefix_tokens;

#[test]
fn kept_prefix_tokens_counts_from_the_end_of_the_media_head() {
    assert_eq!(kept_prefix_tokens(1040, 1000, 52, 90), Some(40));
    assert_eq!(kept_prefix_tokens(900, 0, 1000, 1000), Some(900));
}

#[test]
fn kept_prefix_tokens_refuses_a_resume_inside_the_media_head() {
    assert_eq!(kept_prefix_tokens(999, 1000, 90, 90), None);
}

#[test]
fn kept_prefix_tokens_refuses_a_resume_past_the_incoming_prompt() {
    assert_eq!(kept_prefix_tokens(1050, 1000, 40, 90), None);
}

#[test]
fn kept_prefix_tokens_refuses_a_resume_past_the_recorded_tail() {
    assert_eq!(kept_prefix_tokens(1090, 1000, 200, 80), None);
    assert_eq!(kept_prefix_tokens(1080, 1000, 200, 80), Some(80));
}

use byte::protocol::{LlmMessage, MessageRole};
use byte::runtime::budget::{budget_threshold, estimate_tokens, is_above_threshold};

#[test]
fn estimate_tokens_uses_chars_per_token() {
    let messages = vec![
        LlmMessage::text(MessageRole::Developer, &"a".repeat(40)),
        LlmMessage::text(MessageRole::Assistant, &"b".repeat(20)),
    ];

    let tokens = estimate_tokens(&messages);
    assert_eq!(tokens, 15);
}

#[test]
fn budget_threshold_at_90_percent() {
    assert_eq!(budget_threshold(1000, 90), 900);
}

#[test]
fn is_above_threshold_detects_budget_crossing() {
    assert!(is_above_threshold(900, 1000, 90));
    assert!(!is_above_threshold(899, 1000, 90));
}

#[test]
fn a_threshold_saturates() {
    assert_eq!(budget_threshold(usize::MAX, 90), usize::MAX / 100);
}

#[test]
fn a_started_token_counts_whole() {
    let messages = vec![LlmMessage::text(MessageRole::Developer, "abcde")];
    assert_eq!(estimate_tokens(&messages), 2);
    assert_eq!(estimate_tokens(&[]), 0);
}

#[test]
fn estimate_tokens_counts_characters() {
    let messages = vec![LlmMessage::text(MessageRole::Developer, "文文文文é")];
    assert_eq!(estimate_tokens(&messages), 2);
}

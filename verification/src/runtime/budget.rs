//! Token estimation for the active path.
//!
//! The estimate is a deterministic number of characters per token, independent of any
//! model tokenizer.

use vstd::prelude::*;

use crate::protocol::session::{MessageBlock, MessageBlockModel};
use crate::protocol::{LlmMessage, LlmMessageModel};

verus! {

/// Approximate number of characters that represent one token.
pub const DEFAULT_CHARS_PER_TOKEN: usize = 4;

/// `n`, or the largest `usize` when `n` is larger.
pub open spec fn saturated(n: nat) -> nat {
    if n > usize::MAX {
        usize::MAX as nat
    } else {
        n
    }
}

/// Size of a block in characters: its text, or the name and the arguments of its tool call.
pub open spec fn block_size(block: MessageBlockModel) -> nat {
    match block {
        MessageBlockModel::Text { text } => text.len(),
        MessageBlockModel::ToolCall(call) => call.name.len() + call.arguments.len(),
    }
}

/// Size of a body in characters.
pub open spec fn body_size(blocks: Seq<MessageBlockModel>) -> nat
    decreases blocks.len(),
{
    if blocks.len() == 0 {
        0
    } else {
        body_size(blocks.drop_last()) + block_size(blocks.last())
    }
}

/// Tokens of one message: its size in units of four characters, rounded up.
pub open spec fn message_tokens(blocks: Seq<MessageBlockModel>) -> nat {
    (saturated(body_size(blocks)) + 3) as nat / 4
}

/// Tokens of all messages together.
pub open spec fn total_tokens(messages: Seq<LlmMessageModel>) -> nat
    decreases messages.len(),
{
    if messages.len() == 0 {
        0
    } else {
        total_tokens(messages.drop_last()) + message_tokens(messages.last().body)
    }
}

/// The estimate for `messages`, limited to what a `usize` can hold.
pub open spec fn estimated_tokens(messages: Seq<LlmMessageModel>) -> nat {
    saturated(total_tokens(messages))
}

/// The number of tokens at which `percent` of `budget` is reached.
pub open spec fn threshold(budget: nat, percent: nat) -> nat {
    saturated(budget * percent) / 100
}

/// `tokens` is at or above `percent` of `budget`; a budget of zero is never reached.
pub open spec fn reaches(tokens: nat, budget: nat, percent: nat) -> bool {
    budget != 0 && tokens >= threshold(budget, percent)
}

/// Estimate the number of tokens in a single message.
pub fn estimate_message(message: &LlmMessage) -> (r: usize)
    ensures
        r == message_tokens(message.deep_view().body),
{
    let blocks = &message.body.0;
    let ghost model = blocks.deep_view();
    let mut chars: usize = 0;
    for i in 0..blocks.len()
        invariant
            model == blocks.deep_view(),
            chars == saturated(body_size(model.take(i as int))),
    {
        assert(model.take(i + 1).drop_last() =~= model.take(i as int));
        assert(model.take(i + 1).last() == blocks@[i as int].deep_view());
        let size: usize = match &blocks[i] {
            MessageBlock::Text { text } => text.as_str().unicode_len(),
            MessageBlock::ToolCall(call) => call.name.as_str().unicode_len().saturating_add(
                call.arguments.as_str().unicode_len(),
            ),
        };
        chars = chars.saturating_add(size);
    }
    assert(model.take(model.len() as int) =~= model);
    let whole: usize = chars / DEFAULT_CHARS_PER_TOKEN;
    if chars % DEFAULT_CHARS_PER_TOKEN == 0 {
        whole
    } else {
        whole + 1
    }
}

/// Estimate the number of tokens required to send `messages` to a model: about four
/// characters per token, rounded up message by message.
pub fn estimate_tokens(messages: &[LlmMessage]) -> (r: usize)
    ensures
        r == estimated_tokens(messages.deep_view()),
{
    let ghost model = messages.deep_view();
    let mut total: usize = 0;
    for i in 0..messages.len()
        invariant
            model == messages.deep_view(),
            total == saturated(total_tokens(model.take(i as int))),
    {
        assert(model.take(i + 1).drop_last() =~= model.take(i as int));
        assert(model.take(i + 1).last() == messages@[i as int].deep_view());
        total = total.saturating_add(estimate_message(&messages[i]));
    }
    assert(model.take(model.len() as int) =~= model);
    total
}

/// The token threshold for a context budget and a percentage: an estimate of this many
/// tokens or more triggers the configured action.
pub fn budget_threshold(budget: usize, threshold_percent: u32) -> (r: usize)
    ensures
        r == threshold(budget as nat, threshold_percent as nat),
{
    let product: u128 = {
        assert(budget * threshold_percent <= u64::MAX * u32::MAX) by (nonlinear_arith)
            requires
                budget <= u64::MAX,
                threshold_percent <= u32::MAX,
        ;
        (budget as u128) * (threshold_percent as u128)
    };
    if product > usize::MAX as u128 {
        usize::MAX / 100
    } else {
        (product as usize) / 100
    }
}

/// Return `true` if `tokens` is at or above `threshold_percent` of `budget`.
pub fn is_above_threshold(tokens: usize, budget: usize, threshold_percent: u32) -> (r: bool)
    ensures
        r == reaches(tokens as nat, budget as nat, threshold_percent as nat),
{
    budget != 0 && tokens >= budget_threshold(budget, threshold_percent)
}

/// A context that reaches the threshold still reaches it when it grows.
pub proof fn law_threshold_is_monotonic(a: nat, b: nat, budget: nat, percent: nat)
    requires
        a <= b,
        reaches(a, budget, percent),
    ensures
        reaches(b, budget, percent),
{
}

/// The estimate never falls when messages are appended.
pub proof fn law_estimate_is_monotonic(
    messages: Seq<LlmMessageModel>,
    more: Seq<LlmMessageModel>,
)
    ensures
        estimated_tokens(messages) <= estimated_tokens(messages + more),
{
    lemma_total_tokens(messages, more);
}

proof fn lemma_total_tokens(messages: Seq<LlmMessageModel>, more: Seq<LlmMessageModel>)
    ensures
        total_tokens(messages + more) == total_tokens(messages) + total_tokens(more),
    decreases more.len(),
{
    if more.len() == 0 {
        assert(messages + more =~= messages);
    } else {
        assert((messages + more).drop_last() =~= messages + more.drop_last());
        lemma_total_tokens(messages, more.drop_last());
    }
}

} // verus!

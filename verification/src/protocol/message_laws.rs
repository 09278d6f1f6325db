//! What holds of every message on its way to a provider.

use vstd::prelude::*;

use crate::protocol;
use crate::protocol::session::MessageBlockModel;
use crate::protocol::{LlmMessageModel, ToolCallModel};
use crate::sequences;

verus! {

/// A message keeps its role and the call that it answers on its way to a provider; its
/// content is the text of all its text blocks, one after the other, and its tool calls are
/// those of all its call blocks, in order.
pub proof fn law_run_message_keeps_everything(message: LlmMessageModel)
    ensures
        ({
            let r = protocol::run_message_of(message);
            let calls = message.body.filter_map(
                |block: MessageBlockModel|
                    match block {
                        MessageBlockModel::Text { .. } => None,
                        MessageBlockModel::ToolCall(call) => Some(call),
                    },
            );
            &&& r.role == message.role
            &&& r.tool_call_id == message.tool_call_id
            &&& r.content == message.body.flat_map(
                |block: MessageBlockModel|
                    match block {
                        MessageBlockModel::Text { text } => text,
                        MessageBlockModel::ToolCall(_) => Seq::empty(),
                    },
            )
            &&& r.tool_calls == if calls.len() == 0 {
                None
            } else {
                Some(calls)
            }
        }),
{
    lemma_joined_text(message.body);
    lemma_listed_calls(message.body);
}

/// The joined text of blocks is the text of each text block, one after the other.
pub proof fn lemma_joined_text(blocks: Seq<MessageBlockModel>)
    ensures
        protocol::joined_text(blocks) == blocks.flat_map(
            |block: MessageBlockModel|
                match block {
                    MessageBlockModel::Text { text } => text,
                    MessageBlockModel::ToolCall(_) => Seq::empty(),
                },
        ),
    decreases blocks.len(),
{
    sequences::lemma_flat_map_last(
        blocks,
        |block: MessageBlockModel|
            match block {
                MessageBlockModel::Text { text } => text,
                MessageBlockModel::ToolCall(_) => Seq::empty(),
            },
    );
    if blocks.len() > 0 {
        lemma_joined_text(blocks.drop_last());
        if let MessageBlockModel::ToolCall(_) = blocks.last() {
            assert(protocol::joined_text(blocks) + Seq::<char>::empty() =~= protocol::joined_text(
                blocks,
            ));
        }
    }
}

proof fn lemma_listed_calls(blocks: Seq<MessageBlockModel>)
    ensures
        protocol::listed_calls(blocks) == blocks.filter_map(
            |block: MessageBlockModel|
                match block {
                    MessageBlockModel::Text { .. } => None,
                    MessageBlockModel::ToolCall(call) => Some(call),
                },
        ),
    decreases blocks.len(),
{
    if blocks.len() > 0 {
        lemma_listed_calls(blocks.drop_last());
        if let MessageBlockModel::ToolCall(call) = blocks.last() {
            let before = protocol::listed_calls(blocks.drop_last());
            assert(before.push(call) =~= before + seq![call]);
        }
    }
}

/// The body of an assistant message is its text and then each of its tool calls, in order;
/// nothing of either is lost on the way back to a provider.
pub proof fn law_assistant_body_holds_text_and_calls(
    content: Seq<char>,
    tool_calls: Option<Seq<ToolCallModel>>,
)
    ensures
        ({
            let body = protocol::assistant_body(content, tool_calls);
            let calls = match tool_calls {
                Some(calls) => calls,
                None => Seq::empty(),
            };
            &&& body.len() == 1 + calls.len()
            &&& body[0] == (MessageBlockModel::Text { text: content })
            &&& forall|i: int|
                0 <= i < calls.len() ==> body[1 + i] == MessageBlockModel::ToolCall(
                    #[trigger] calls[i],
                )
            &&& protocol::joined_text(body) == content
            &&& protocol::listed_calls(body) == calls
        }),
{
    let calls = match tool_calls {
        Some(calls) => calls,
        None => Seq::empty(),
    };
    lemma_parts_of_body(content, calls, calls.len() as int);
    let body = protocol::assistant_body(content, tool_calls);
    assert(body =~= seq![MessageBlockModel::Text { text: content }] + protocol::call_blocks(
        calls.take(calls.len() as int),
    ));
    assert(calls.take(calls.len() as int) =~= calls);
}

proof fn lemma_parts_of_body(content: Seq<char>, calls: Seq<ToolCallModel>, n: int)
    requires
        0 <= n <= calls.len(),
    ensures
        ({
            let body = seq![MessageBlockModel::Text { text: content }] + protocol::call_blocks(
                calls.take(n),
            );
            &&& protocol::joined_text(body) == content
            &&& protocol::listed_calls(body) == calls.take(n)
        }),
    decreases n,
{
    let body = seq![MessageBlockModel::Text { text: content }] + protocol::call_blocks(
        calls.take(n),
    );
    if n == 0 {
        let empty = Seq::<MessageBlockModel>::empty();
        assert(body.drop_last() =~= empty);
        assert(body.last() == (MessageBlockModel::Text { text: content }));
        assert(protocol::joined_text(empty) =~= Seq::empty());
        assert(protocol::listed_calls(empty) =~= Seq::empty());
        assert(protocol::joined_text(body) =~= content);
        assert(protocol::listed_calls(body) =~= calls.take(n));
    } else {
        lemma_parts_of_body(content, calls, n - 1);
        assert(body.last() == MessageBlockModel::ToolCall(calls[n - 1]));
        assert(body.drop_last() =~= seq![MessageBlockModel::Text { text: content }]
            + protocol::call_blocks(calls.take(n - 1)));
        assert(calls.take(n - 1).push(calls[n - 1]) =~= calls.take(n));
    }
}

} // verus!

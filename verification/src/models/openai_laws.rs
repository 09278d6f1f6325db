//! What holds of every request to, and every response of, an OpenAI-compatible endpoint.

use vstd::prelude::*;

use crate::json;
use crate::models::openai;
use crate::models::openai::{
    ChatChoiceModel, ChatChunkModel, ChatMessageModel, MergedCallModel, ToolCallChunkModel,
};
use crate::models::provider::ProviderEventModel;
use crate::protocol::{MessageRole, RunMessageModel, ToolCallModel};
use crate::sequences;
use crate::text;

verus! {

/// A chat message keeps the content of the conversation message, the tool calls of an
/// assistant message, and the call that a tool result answers.
pub proof fn law_chat_message_keeps_everything(message: RunMessageModel)
    ensures
        match openai::chat_message_of(message) {
            ChatMessageModel::System { content } => content == message.content && (message.role
                == MessageRole::System || message.role == MessageRole::Summary),
            ChatMessageModel::User { content } => content == message.content && message.role
                == MessageRole::Developer,
            ChatMessageModel::Assistant { content, tool_calls } => content == message.content
                && tool_calls == message.tool_calls && message.role == MessageRole::Assistant,
            ChatMessageModel::Tool { content, tool_call_id } => content == message.content
                && message.role == MessageRole::Tool && (message.tool_call_id is Some
                ==> message.tool_call_id == Some(tool_call_id)) && (message.tool_call_id is None
                ==> tool_call_id.len() == 0),
        },
{
}

/// The call is made from `pieces`, all pieces of one call in the order they came: it has the
/// last name among them, the last identifier (or, where none has one, the name), and as
/// arguments the value of the argument texts joined (or, where that is no JSON, none).
pub open spec fn is_made_from(call: ToolCallModel, pieces: Seq<ToolCallChunkModel>) -> bool {
    let names = pieces.filter_map(|piece: ToolCallChunkModel| piece.name);
    let ids = pieces.filter_map(|piece: ToolCallChunkModel| piece.id);
    let text = pieces.flat_map(
        |piece: ToolCallChunkModel|
            match piece.arguments {
                Some(arguments) => arguments,
                None => Seq::empty(),
            },
    );
    &&& names.len() > 0
    &&& call.name == names.last()
    &&& call.id == if ids.len() > 0 {
        ids.last()
    } else {
        names.last()
    }
    &&& call.arguments == match json::json_compact(text) {
        Some(value) => value,
        None => "{}"@,
    }
}

/// Pieces of tool calls add up to one call for each index that some piece names, in the order
/// of the indexes: each made from all pieces of its index, and none for any other index.
pub proof fn law_every_named_index_gives_one_call(chunks: Seq<ToolCallChunkModel>) -> (indexes: Seq<
    u32,
>)
    ensures
        forall|i: int, j: int| 0 <= i < j < indexes.len() ==> indexes[i] < indexes[j],
        forall|index: u32| #[trigger]
            indexes.contains(index) <==> exists|i: int|
                0 <= i < chunks.len() && (#[trigger] chunks[i]).index == index && chunks[i].name is Some,
        openai::combined(chunks).len() == indexes.len(),
        forall|k: int|
            0 <= k < indexes.len() ==> is_made_from(
                #[trigger] openai::combined(chunks)[k],
                chunks.filter(|piece: ToolCallChunkModel| piece.index == indexes[k]),
            ),
{
    let calls = openai::merged(chunks);
    lemma_merged(chunks);
    let indexes = lemma_finished(calls);
    assert forall|k: int| 0 <= k < indexes.len() implies is_made_from(
        #[trigger] openai::combined(chunks)[k],
        chunks.filter(|piece: ToolCallChunkModel| piece.index == indexes[k]),
    ) by {
        assert(comes_from(calls, indexes[k], openai::combined(chunks)[k]));
        let i = choose|i: int| #[trigger]
            is_finished(calls, i, indexes[k], openai::combined(chunks)[k]);
        assert(calls[i] == openai::merged_call(chunks, calls[i].index));
        lemma_pieces(chunks, indexes[k]);
    }
    assert forall|index: u32| #[trigger]
        indexes.contains(index) <==> exists|i: int|
            0 <= i < chunks.len() && (#[trigger] chunks[i]).index == index && chunks[i].name is Some by {
        lemma_named(chunks, index);
        if indexes.contains(index) {
            let i = choose|i: int|
                0 <= i < calls.len() && (#[trigger] calls[i]).index == index && calls[i].name is Some;
            assert(calls[i] == openai::merged_call(chunks, calls[i].index));
        }
        if exists|i: int|
            0 <= i < chunks.len() && (#[trigger] chunks[i]).index == index && chunks[i].name is Some {
            assert(openai::is_used(chunks, index));
            let i = choose|i: int| 0 <= i < calls.len() && (#[trigger] calls[i]).index == index;
            assert(calls[i] == openai::merged_call(chunks, calls[i].index));
            assert(calls[i].name is Some);
        }
    }
    indexes
}

/// The call comes from the merged call at `i`, which has a name and the given index.
spec fn is_finished(
    calls: Seq<MergedCallModel>,
    i: int,
    index: u32,
    call: ToolCallModel,
) -> bool {
    &&& 0 <= i < calls.len()
    &&& calls[i].index == index
    &&& calls[i].name is Some
    &&& Some(call) == openai::finished_call(calls[i], json::json_compact(calls[i].arguments))
}

/// The call comes from a merged call with a name and the given index.
spec fn comes_from(calls: Seq<MergedCallModel>, index: u32, call: ToolCallModel) -> bool {
    exists|i: int| #[trigger] is_finished(calls, i, index, call)
}

/// The number of calls is the number of named indexes among the merged calls.
proof fn lemma_finished(calls: Seq<MergedCallModel>) -> (indexes: Seq<u32>)
    requires
        forall|i: int, j: int|
            0 <= i < j < calls.len() ==> (#[trigger] calls[i]).index < (#[trigger] calls[j]).index,
    ensures
        forall|i: int, j: int| 0 <= i < j < indexes.len() ==> indexes[i] < indexes[j],
        forall|index: u32| #[trigger]
            indexes.contains(index) <==> exists|i: int|
                0 <= i < calls.len() && (#[trigger] calls[i]).index == index && calls[i].name is Some,
        openai::finished_calls(calls).len() == indexes.len(),
        forall|k: int|
            0 <= k < indexes.len() ==> comes_from(
                calls,
                #[trigger] indexes[k],
                openai::finished_calls(calls)[k],
            ),
    decreases calls.len(),
{
    if calls.len() == 0 {
        Seq::empty()
    } else {
        let rest = calls.drop_last();
        let last = calls.last();
        let n = calls.len() - 1;
        assert(calls[n] == last);
        assert forall|i: int| 0 <= i < n implies #[trigger] calls[i] == rest[i] by {}
        let before = lemma_finished(rest);
        let done = openai::finished_calls(rest);
        let now = openai::finished_calls(calls);
        let indexes = if last.name is Some {
            before.push(last.index)
        } else {
            before
        };
        assert forall|k: int| 0 <= k < before.len() implies before[k] < last.index by {
            assert(comes_from(rest, before[k], done[k]));
            let i = choose|i: int| #[trigger] is_finished(rest, i, before[k], done[k]);
            assert(calls[i].index < calls[n].index);
        }
        assert forall|k: int| 0 <= k < indexes.len() implies comes_from(
            calls,
            #[trigger] indexes[k],
            now[k],
        ) by {
            if k < before.len() {
                assert(indexes[k] == before[k]);
                assert(now[k] == done[k]);
                let i = choose|i: int| #[trigger] is_finished(rest, i, before[k], done[k]);
                assert(is_finished(calls, i, indexes[k], now[k]));
            } else {
                assert(is_finished(calls, n, indexes[k], now[k]));
            }
        }
        assert forall|index: u32| #[trigger]
            indexes.contains(index) <==> exists|i: int|
                0 <= i < calls.len() && (#[trigger] calls[i]).index == index
                    && calls[i].name is Some by {
            if indexes.contains(index) {
                let k = choose|k: int| 0 <= k < indexes.len() && indexes[k] == index;
                if k < before.len() {
                    assert(before.contains(index));
                    let i = choose|i: int|
                        0 <= i < rest.len() && (#[trigger] rest[i]).index == index
                            && rest[i].name is Some;
                    assert(calls[i] == rest[i]);
                } else {
                    assert(calls[n].index == index);
                }
            }
            if exists|i: int|
                0 <= i < calls.len() && (#[trigger] calls[i]).index == index
                    && calls[i].name is Some {
                let i = choose|i: int|
                    0 <= i < calls.len() && (#[trigger] calls[i]).index == index
                        && calls[i].name is Some;
                if i < n {
                    assert(rest[i].index == index && rest[i].name is Some);
                    assert(before.contains(index));
                    let k = choose|k: int| 0 <= k < before.len() && before[k] == index;
                    assert(indexes[k] == index);
                } else {
                    assert(indexes[before.len() as int] == index);
                }
            }
        }
        indexes
    }
}

/// The merged calls of the indexes below `n`.
spec fn merged_below(chunks: Seq<ToolCallChunkModel>, n: int) -> Seq<MergedCallModel>
    decreases n,
{
    if n <= 0 {
        Seq::empty()
    } else if openai::is_used(chunks, (n - 1) as u32) {
        merged_below(chunks, n - 1).push(openai::merged_call(chunks, (n - 1) as u32))
    } else {
        merged_below(chunks, n - 1)
    }
}

proof fn lemma_merged_below(chunks: Seq<ToolCallChunkModel>, n: int)
    requires
        0 <= n <= u32::MAX + 1,
    ensures
        ({
            let calls = merged_below(chunks, n);
            &&& forall|i: int, j: int|
                0 <= i < j < calls.len() ==> (#[trigger] calls[i]).index < (#[trigger] calls[j]).index
            &&& forall|i: int|
                0 <= i < calls.len() ==> #[trigger] calls[i] == openai::merged_call(
                    chunks,
                    calls[i].index,
                ) && openai::is_used(chunks, calls[i].index) && calls[i].index < n
            &&& forall|index: u32| #[trigger]
                openai::is_used(chunks, index) && index < n ==> exists|i: int|
                    0 <= i < calls.len() && (#[trigger] calls[i]).index == index
        }),
    decreases n,
{
    if n > 0 {
        lemma_merged_below(chunks, n - 1);
        let rest = merged_below(chunks, n - 1);
        let calls = merged_below(chunks, n);
        assert forall|index: u32| #[trigger]
            openai::is_used(chunks, index) && index < n implies exists|i: int|
            0 <= i < calls.len() && (#[trigger] calls[i]).index == index by {
            if index < n - 1 {
                let i = choose|i: int| 0 <= i < rest.len() && (#[trigger] rest[i]).index == index;
                assert(calls[i] == rest[i]);
            } else {
                assert(calls[rest.len() as int].index == index);
            }
        }
    }
}

/// Pieces add up in some way.
proof fn lemma_merged(chunks: Seq<ToolCallChunkModel>)
    ensures
        openai::are_merged(openai::merged(chunks), chunks),
{
    lemma_merged_below(chunks, u32::MAX + 1);
    assert(openai::are_merged(merged_below(chunks, u32::MAX + 1), chunks));
}

proof fn lemma_named(chunks: Seq<ToolCallChunkModel>, index: u32)
    ensures
        openai::last_name(chunks, index) is Some <==> exists|i: int|
            0 <= i < chunks.len() && (#[trigger] chunks[i]).index == index && chunks[i].name is Some,
    decreases chunks.len(),
{
    if chunks.len() > 0 {
        let rest = chunks.drop_last();
        let n = chunks.len() - 1;
        lemma_named(rest, index);
        assert(chunks[n] == chunks.last());
        assert forall|i: int| 0 <= i < n implies #[trigger] chunks[i] == rest[i] by {}
        if openai::last_name(rest, index) is Some {
            let i = choose|i: int|
                0 <= i < rest.len() && (#[trigger] rest[i]).index == index && rest[i].name is Some;
            assert(chunks[i] == rest[i]);
        }
        if exists|i: int|
            0 <= i < chunks.len() && (#[trigger] chunks[i]).index == index && chunks[i].name is Some {
            let i = choose|i: int|
                0 <= i < chunks.len() && (#[trigger] chunks[i]).index == index
                    && chunks[i].name is Some;
            if i < n {
                assert(rest[i].index == index);
            }
        }
    }
}

proof fn lemma_pieces(chunks: Seq<ToolCallChunkModel>, index: u32)
    ensures
        ({
            let pieces = chunks.filter(|piece: ToolCallChunkModel| piece.index == index);
            let names = pieces.filter_map(|piece: ToolCallChunkModel| piece.name);
            let ids = pieces.filter_map(|piece: ToolCallChunkModel| piece.id);
            &&& openai::last_name(chunks, index) == if names.len() > 0 {
                Some(names.last())
            } else {
                None
            }
            &&& openai::last_id(chunks, index) == if ids.len() > 0 {
                Some(ids.last())
            } else {
                None
            }
            &&& openai::joined_arguments(chunks, index) == pieces.flat_map(
                |piece: ToolCallChunkModel|
                    match piece.arguments {
                        Some(arguments) => arguments,
                        None => Seq::empty(),
                    },
            )
        }),
    decreases chunks.len(),
{
    let own = |piece: ToolCallChunkModel| piece.index == index;
    let text = |piece: ToolCallChunkModel|
        match piece.arguments {
            Some(arguments) => arguments,
            None => Seq::empty(),
        };
    let pieces = chunks.filter(own);
    sequences::lemma_filter_last(chunks, own);
    sequences::lemma_flat_map_last(pieces, text);
    if chunks.len() > 0 {
        lemma_pieces(chunks.drop_last(), index);
        if chunks.last().index == index {
            assert(pieces.drop_last() =~= chunks.drop_last().filter(own));
            assert(pieces.last() == chunks.last());
            if chunks.last().arguments is None {
                assert(openai::joined_arguments(chunks, index) + Seq::<char>::empty()
                    =~= openai::joined_arguments(chunks, index));
            }
        }
    }
}

/// The text of the choices of a chunk.
pub open spec fn text_in(chunk: ChatChunkModel) -> Seq<char> {
    chunk.choices.flat_map(
        |choice: ChatChoiceModel|
            match choice.content {
                Some(content) => content,
                None => Seq::empty(),
            },
    )
}

/// The pieces of tool calls in the choices of a chunk.
pub open spec fn pieces_in(chunk: ChatChunkModel) -> Seq<ToolCallChunkModel> {
    chunk.choices.flat_map(
        |choice: ChatChoiceModel|
            match choice.tool_calls {
                Some(pieces) => pieces,
                None => Seq::empty(),
            },
    )
}

/// Some choice of the chunk has text, which may be empty.
pub open spec fn carries_text(chunk: ChatChunkModel) -> bool {
    exists|i: int| 0 <= i < chunk.choices.len() && (#[trigger] chunk.choices[i]).content is Some
}

/// What a provider stream yields for a response of which the first `n` items are chunks: the
/// start of the message; one text event for each chunk that carries text, in order, with all
/// the text of the chunk; and, where the response ends there, the completion of the message
/// with the calls that all pieces of all chunks add up to, or without calls where there is no
/// piece. Where an error follows instead, the error comes last, told without secrets.
pub proof fn law_stream_yields_the_whole_response(
    response: Seq<Result<ChatChunkModel, Seq<char>>>,
    message_id: Seq<char>,
    n: int,
)
    requires
        0 <= n <= response.len(),
        forall|i: int| 0 <= i < n ==> #[trigger] response[i] is Ok,
        n < response.len() ==> response[n] is Err,
    ensures
        ({
            let items = openai::stream_items(response, message_id);
            let chunks = response.take(n).map_values(
                |item: Result<ChatChunkModel, Seq<char>>| item->Ok_0,
            );
            let texts = chunks.filter(|chunk: ChatChunkModel| carries_text(chunk));
            let pieces = chunks.flat_map(|chunk: ChatChunkModel| pieces_in(chunk));
            &&& items.len() == texts.len() + 2
            &&& items[0] == Ok::<ProviderEventModel, Seq<char>>(
                ProviderEventModel::MessageStarted { message_id },
            )
            &&& forall|i: int|
                0 <= i < texts.len() ==> items[i + 1] == Ok::<ProviderEventModel, Seq<char>>(
                    ProviderEventModel::TextDelta {
                        message_id,
                        delta: text_in(#[trigger] texts[i]),
                    },
                )
            &&& if n == response.len() {
                items.last() == Ok::<ProviderEventModel, Seq<char>>(
                    ProviderEventModel::MessageCompleted {
                        message_id,
                        tool_calls: if pieces.len() == 0 {
                            None
                        } else {
                            Some(openai::combined(pieces))
                        },
                    },
                )
            } else {
                items.last() == Err::<ProviderEventModel, Seq<char>>(
                    "chat stream error: "@ + openai::sanitized(
                        response[n]->Err_0,
                        openai::lower_case(response[n]->Err_0),
                    ),
                )
            }
        }),
{
    let chunks = response.take(n).map_values(
        |item: Result<ChatChunkModel, Seq<char>>| item->Ok_0,
    );
    lemma_good(response, n);
    lemma_chunk_items(message_id, chunks);
    lemma_collected(chunks);
}

proof fn lemma_good(response: Seq<Result<ChatChunkModel, Seq<char>>>, n: int)
    requires
        0 <= n <= response.len(),
        forall|i: int| 0 <= i < n ==> #[trigger] response[i] is Ok,
        n < response.len() ==> response[n] is Err,
    ensures
        openai::good_chunks(response) == response.take(n).map_values(
            |item: Result<ChatChunkModel, Seq<char>>| item->Ok_0,
        ),
        openai::first_error(response) == if n < response.len() {
            Some(response[n]->Err_0)
        } else {
            None
        },
    decreases n,
{
    let value = |item: Result<ChatChunkModel, Seq<char>>| item->Ok_0;
    if n > 0 {
        assert(response[0] is Ok);
        let rest = response.skip(1);
        assert forall|i: int| 0 <= i < n - 1 implies #[trigger] rest[i] is Ok by {
            assert(rest[i] == response[i + 1]);
        }
        if n < response.len() {
            assert(rest[n - 1] == response[n]);
        }
        lemma_good(rest, n - 1);
        assert(response.take(n).map_values(value) =~= seq![response[0]->Ok_0] + rest.take(
            n - 1,
        ).map_values(value));
    } else {
        assert(openai::good_chunks(response) =~= response.take(0).map_values(value));
    }
}

proof fn lemma_choices(choices: Seq<ChatChoiceModel>)
    ensures
        openai::delta_of(choices) == choices.flat_map(
            |choice: ChatChoiceModel|
                match choice.content {
                    Some(content) => content,
                    None => Seq::empty(),
                },
        ),
        openai::call_chunks_of(choices) == choices.flat_map(
            |choice: ChatChoiceModel|
                match choice.tool_calls {
                    Some(pieces) => pieces,
                    None => Seq::empty(),
                },
        ),
    decreases choices.len(),
{
    sequences::lemma_flat_map_last(
        choices,
        |choice: ChatChoiceModel|
            match choice.content {
                Some(content) => content,
                None => Seq::<char>::empty(),
            },
    );
    sequences::lemma_flat_map_last(
        choices,
        |choice: ChatChoiceModel|
            match choice.tool_calls {
                Some(pieces) => pieces,
                None => Seq::<ToolCallChunkModel>::empty(),
            },
    );
    if choices.len() > 0 {
        lemma_choices(choices.drop_last());
    }
}

proof fn lemma_chunk_items(message_id: Seq<char>, chunks: Seq<ChatChunkModel>)
    ensures
        openai::chunk_items(message_id, chunks) == chunks.filter(
            |chunk: ChatChunkModel| carries_text(chunk),
        ).map_values(
            |chunk: ChatChunkModel|
                Ok::<ProviderEventModel, Seq<char>>(
                    ProviderEventModel::TextDelta { message_id, delta: text_in(chunk) },
                ),
        ),
    decreases chunks.len(),
{
    let kept = |chunk: ChatChunkModel| carries_text(chunk);
    sequences::lemma_filter_last(chunks, kept);
    if chunks.len() > 0 {
        lemma_chunk_items(message_id, chunks.drop_last());
        lemma_choices(chunks.last().choices);
        assert(carries_text(chunks.last()) == openai::has_text(chunks.last().choices));
    }
    assert(openai::chunk_items(message_id, chunks) =~= chunks.filter(kept).map_values(
        |chunk: ChatChunkModel|
            Ok::<ProviderEventModel, Seq<char>>(
                ProviderEventModel::TextDelta { message_id, delta: text_in(chunk) },
            ),
    ));
}

proof fn lemma_collected(chunks: Seq<ChatChunkModel>)
    ensures
        openai::collected_chunks(chunks) == chunks.flat_map(
            |chunk: ChatChunkModel| pieces_in(chunk),
        ),
    decreases chunks.len(),
{
    sequences::lemma_flat_map_last(chunks, |chunk: ChatChunkModel| pieces_in(chunk));
    if chunks.len() > 0 {
        lemma_collected(chunks.drop_last());
        lemma_choices(chunks.last().choices);
    }
}

/// An error is told as it is, unless its lower-case text mentions an API key or an
/// authorization header: then only that authentication failed is told.
pub proof fn law_errors_are_told(error: Seq<char>, lower: Seq<char>)
    ensures
        ({
            let secret = (exists|i: int|
                0 <= i <= lower.len() - "api key"@.len() && #[trigger] lower.subrange(
                    i,
                    i + "api key"@.len(),
                ) == "api key"@) || (
            exists|i: int|
                0 <= i <= lower.len() - "authorization"@.len() && #[trigger] lower.subrange(
                    i,
                    i + "authorization"@.len(),
                ) == "authorization"@);
            openai::sanitized(error, lower) == if secret {
                "provider authentication failed"@
            } else {
                error
            }
        }),
{
    lemma_occurs(lower, "api key"@);
    lemma_occurs(lower, "authorization"@);
}

proof fn lemma_occurs(s: Seq<char>, t: Seq<char>)
    ensures
        text::contains_text(s, t) <==> exists|i: int|
            0 <= i <= s.len() - t.len() && #[trigger] s.subrange(i, i + t.len()) == t,
{
    if text::contains_text(s, t) {
        let i = choose|i: int| text::occurs_at(s, t, i);
        assert(s.subrange(i, i + t.len()) == t);
    }
    if exists|i: int| 0 <= i <= s.len() - t.len() && #[trigger] s.subrange(i, i + t.len()) == t {
        let i = choose|i: int|
            0 <= i <= s.len() - t.len() && #[trigger] s.subrange(i, i + t.len()) == t;
        assert(text::occurs_at(s, t, i));
    }
}

} // verus!

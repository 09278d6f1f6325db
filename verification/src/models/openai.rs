//! The OpenAI-compatible chat protocol: what a request holds, and what the chunks of a
//! response stream mean.

use vstd::prelude::*;

use crate::ids;
use crate::json;
use crate::models::config::ModelProviderConfig;
use crate::models::provider::{ProviderError, ProviderEvent, ProviderEventModel};
use crate::protocol::{
    MessageRole, RunMessage, RunMessageModel, ToolCall, ToolCallModel, ToolDefinition,
    ToolDefinitionModel,
};
use crate::text;

verus! {

/// A message of a chat request.
#[derive(Debug, PartialEq, Eq)]
pub enum ChatMessage {
    /// Instructions.
    System {
        content: String,
    },
    /// A message of the user.
    User {
        content: String,
    },
    /// A message of the model, with the tool calls that it requested.
    Assistant {
        content: String,
        tool_calls: Option<Vec<ToolCall>>,
    },
    /// A tool result.
    Tool {
        content: String,
        tool_call_id: String,
    },
}

/// What a [`ChatMessage`] holds.
pub enum ChatMessageModel {
    System { content: Seq<char> },
    User { content: Seq<char> },
    Assistant { content: Seq<char>, tool_calls: Option<Seq<ToolCallModel>> },
    Tool { content: Seq<char>, tool_call_id: Seq<char> },
}

impl DeepView for ChatMessage {
    type V = ChatMessageModel;

    open spec fn deep_view(&self) -> ChatMessageModel {
        match self {
            ChatMessage::System { content } => ChatMessageModel::System { content: content@ },
            ChatMessage::User { content } => ChatMessageModel::User { content: content@ },
            ChatMessage::Assistant { content, tool_calls } => ChatMessageModel::Assistant {
                content: content@,
                tool_calls: tool_calls.deep_view(),
            },
            ChatMessage::Tool { content, tool_call_id } => ChatMessageModel::Tool {
                content: content@,
                tool_call_id: tool_call_id@,
            },
        }
    }
}

impl Clone for ChatMessage {
    fn clone(&self) -> (r: Self)
        ensures
            r.deep_view() == self.deep_view(),
    {
        match self {
            ChatMessage::System { content } => ChatMessage::System { content: content.clone() },
            ChatMessage::User { content } => ChatMessage::User { content: content.clone() },
            ChatMessage::Assistant { content, tool_calls } => ChatMessage::Assistant {
                content: content.clone(),
                tool_calls: tool_calls.clone(),
            },
            ChatMessage::Tool { content, tool_call_id } => ChatMessage::Tool {
                content: content.clone(),
                tool_call_id: tool_call_id.clone(),
            },
        }
    }
}

/// A chat request.
#[derive(Debug, PartialEq, Eq)]
pub struct ChatRequest {
    pub model: String,
    pub messages: Vec<ChatMessage>,
    pub tools: Vec<ToolDefinition>,
    /// Whether the response is streamed.
    pub stream: bool,
}

/// What a [`ChatRequest`] holds.
pub struct ChatRequestModel {
    pub model: Seq<char>,
    pub messages: Seq<ChatMessageModel>,
    pub tools: Seq<ToolDefinitionModel>,
    pub stream: bool,
}

impl DeepView for ChatRequest {
    type V = ChatRequestModel;

    open spec fn deep_view(&self) -> ChatRequestModel {
        ChatRequestModel {
            model: self.model@,
            messages: self.messages.deep_view(),
            tools: self.tools.deep_view(),
            stream: self.stream,
        }
    }
}

impl Clone for ChatRequest {
    fn clone(&self) -> (r: Self)
        ensures
            r.deep_view() == self.deep_view(),
    {
        let r = ChatRequest {
            model: self.model.clone(),
            messages: self.messages.clone(),
            tools: self.tools.clone(),
            stream: self.stream,
        };
        assert(r.messages.deep_view() =~= self.messages.deep_view());
        assert(r.tools.deep_view() =~= self.tools.deep_view());
        r
    }
}

/// A piece of a tool call in a response stream.
#[derive(Debug, PartialEq, Eq)]
pub struct ToolCallChunk {
    /// Which call of the response it belongs to.
    pub index: u32,
    pub id: Option<String>,
    pub name: Option<String>,
    /// A piece of the argument text.
    pub arguments: Option<String>,
}

/// What a [`ToolCallChunk`] holds.
pub struct ToolCallChunkModel {
    pub index: u32,
    pub id: Option<Seq<char>>,
    pub name: Option<Seq<char>>,
    pub arguments: Option<Seq<char>>,
}

impl DeepView for ToolCallChunk {
    type V = ToolCallChunkModel;

    open spec fn deep_view(&self) -> ToolCallChunkModel {
        ToolCallChunkModel {
            index: self.index,
            id: self.id.deep_view(),
            name: self.name.deep_view(),
            arguments: self.arguments.deep_view(),
        }
    }
}

impl Clone for ToolCallChunk {
    fn clone(&self) -> (r: Self)
        ensures
            r.deep_view() == self.deep_view(),
    {
        let r = ToolCallChunk {
            index: self.index,
            id: self.id.clone(),
            name: self.name.clone(),
            arguments: self.arguments.clone(),
        };
        r
    }
}

/// One choice of a response chunk.
#[derive(Debug, PartialEq, Eq)]
pub struct ChatChoice {
    pub content: Option<String>,
    pub tool_calls: Option<Vec<ToolCallChunk>>,
}

/// What a [`ChatChoice`] holds.
pub struct ChatChoiceModel {
    pub content: Option<Seq<char>>,
    pub tool_calls: Option<Seq<ToolCallChunkModel>>,
}

impl DeepView for ChatChoice {
    type V = ChatChoiceModel;

    open spec fn deep_view(&self) -> ChatChoiceModel {
        ChatChoiceModel {
            content: self.content.deep_view(),
            tool_calls: self.tool_calls.deep_view(),
        }
    }
}

impl Clone for ChatChoice {
    fn clone(&self) -> (r: Self)
        ensures
            r.deep_view() == self.deep_view(),
    {
        let r = ChatChoice {
            content: self.content.clone(),
            tool_calls: self.tool_calls.clone(),
        };
        assert(self.tool_calls is Some ==> r.tool_calls->0.deep_view() =~= self.tool_calls->0.deep_view());
        r
    }
}

/// A chunk of a response stream.
#[derive(Debug, PartialEq, Eq)]
pub struct ChatChunk {
    pub choices: Vec<ChatChoice>,
}

/// What a [`ChatChunk`] holds.
pub struct ChatChunkModel {
    pub choices: Seq<ChatChoiceModel>,
}

impl DeepView for ChatChunk {
    type V = ChatChunkModel;

    open spec fn deep_view(&self) -> ChatChunkModel {
        ChatChunkModel {
            choices: self.choices.deep_view(),
        }
    }
}

impl Clone for ChatChunk {
    fn clone(&self) -> (r: Self)
        ensures
            r.deep_view() == self.deep_view(),
    {
        let r = ChatChunk {
            choices: self.choices.clone(),
        };
        assert(r.choices.deep_view() =~= self.choices.deep_view());
        r
    }
}

/// What the pieces of one tool call add up to.
#[derive(Debug, PartialEq, Eq)]
pub struct MergedCall {
    pub index: u32,
    pub id: Option<String>,
    pub name: Option<String>,
    /// Argument text so far.
    pub arguments: String,
}

/// What a [`MergedCall`] holds.
pub struct MergedCallModel {
    pub index: u32,
    pub id: Option<Seq<char>>,
    pub name: Option<Seq<char>>,
    pub arguments: Seq<char>,
}

impl DeepView for MergedCall {
    type V = MergedCallModel;

    open spec fn deep_view(&self) -> MergedCallModel {
        MergedCallModel {
            index: self.index,
            id: self.id.deep_view(),
            name: self.name.deep_view(),
            arguments: self.arguments@,
        }
    }
}

impl Clone for MergedCall {
    fn clone(&self) -> (r: Self)
        ensures
            r.deep_view() == self.deep_view(),
    {
        let r = MergedCall {
            index: self.index,
            id: self.id.clone(),
            name: self.name.clone(),
            arguments: self.arguments.clone(),
        };
        r
    }
}

/// The chat message of a conversation message. A summary is an instruction of the runtime.
pub open spec fn chat_message_of(message: RunMessageModel) -> ChatMessageModel {
    match message.role {
        MessageRole::System => ChatMessageModel::System { content: message.content },
        MessageRole::Summary => ChatMessageModel::System { content: message.content },
        MessageRole::Developer => ChatMessageModel::User { content: message.content },
        MessageRole::Assistant => ChatMessageModel::Assistant {
            content: message.content,
            tool_calls: message.tool_calls,
        },
        MessageRole::Tool => ChatMessageModel::Tool {
            content: message.content,
            tool_call_id: match message.tool_call_id {
                Some(id) => id,
                None => Seq::empty(),
            },
        },
    }
}

/// Returns the chat message of a conversation message.
pub fn chat_message(message: RunMessage) -> (r: ChatMessage)
    ensures
        r.deep_view() == chat_message_of(message.deep_view()),
{
    match message.role {
        MessageRole::System => ChatMessage::System { content: message.content },
        MessageRole::Summary => ChatMessage::System { content: message.content },
        MessageRole::Developer => ChatMessage::User { content: message.content },
        MessageRole::Assistant => ChatMessage::Assistant {
            content: message.content,
            tool_calls: message.tool_calls,
        },
        MessageRole::Tool => {
            let tool_call_id = match message.tool_call_id {
                Some(id) => id,
                None => {
                    let empty = String::new();
                    assert(empty@ =~= Seq::empty());
                    empty
                },
            };
            ChatMessage::Tool { content: message.content, tool_call_id }
        },
    }
}

/// An OpenAI-compatible provider.
#[derive(Debug)]
pub struct OpenAiCompatibleProvider {
    /// Base URL of the endpoint.
    pub base_url: String,
    /// Key that authenticates requests.
    pub api_key: String,
    /// Model name of requests.
    pub model: String,
}

impl OpenAiCompatibleProvider {
    /// Create a provider from its configuration.
    pub fn new(config: ModelProviderConfig) -> (r: Self)
        ensures
            r.base_url@ == config.base_url@,
            r.api_key@ == config.api_key@,
            r.model@ == config.model@,
    {
        OpenAiCompatibleProvider {
            base_url: config.base_url,
            api_key: config.api_key,
            model: config.model,
        }
    }

    /// Returns the request that a conversation turn sends: every message in its chat form,
    /// in order, and the offered tools as they are.
    pub fn request(&self, messages: Vec<RunMessage>, tools: Vec<ToolDefinition>) -> (r: ChatRequest)
        ensures
            r.deep_view() == (ChatRequestModel {
                model: self.model@,
                messages: messages.deep_view().map_values(
                    |message: RunMessageModel| chat_message_of(message),
                ),
                tools: tools.deep_view(),
                stream: true,
            }),
    {
        let ghost model = messages.deep_view();
        let ghost to_chat = |message: RunMessageModel| chat_message_of(message);
        let mut chat_messages: Vec<ChatMessage> = Vec::new();
        for i in 0..messages.len()
            invariant
                model == messages.deep_view(),
                to_chat == (|message: RunMessageModel| chat_message_of(message)),
                chat_messages.deep_view() == model.take(i as int).map_values(to_chat),
        {
            let ghost before = chat_messages.deep_view();
            let message = chat_message(messages[i].clone());
            chat_messages.push(message);
            assert(model[i as int] == messages@[i as int].deep_view());
            assert(message.deep_view() == to_chat(model[i as int]));
            assert(chat_messages.deep_view() =~= before.push(message.deep_view()));
            assert(model.take(i + 1) =~= model.take(i as int).push(model[i as int]));
            assert(chat_messages.deep_view() =~= model.take(i + 1).map_values(to_chat));
        }
        assert(model.take(model.len() as int) =~= model);
        ChatRequest { model: self.model.clone(), messages: chat_messages, tools, stream: true }
    }

    /// Opens the stream of a response, under a generated message identifier.
    pub fn open_stream(&self) -> (r: (ResponseStream, ProviderEvent))
        ensures
            ids::is_uuid(r.0.message_id@),
            r.0.chunks@.len() == 0,
            r.1.deep_view() == (ProviderEventModel::MessageStarted {
                message_id: r.0.message_id@,
            }),
    {
        ResponseStream::start(&ids::new_id())
    }
}

/// The error of a chat stream that could not be started.
pub fn start_error(error: &str) -> (r: ProviderError)
    ensures
        r is Request,
        r->Request_0@ == "failed to start chat stream: "@ + sanitized(
            error@,
            lower_case(error@),
        ),
{
    ProviderError::Request(text::concat("failed to start chat stream: ", &sanitize_error(error)))
}

/// The text of the choices, one after the other.
pub open spec fn delta_of(choices: Seq<ChatChoiceModel>) -> Seq<char>
    decreases choices.len(),
{
    if choices.len() == 0 {
        Seq::empty()
    } else {
        delta_of(choices.drop_last()) + (match choices.last().content {
            Some(content) => content,
            None => Seq::empty(),
        })
    }
}

/// Some choice carries text.
pub open spec fn has_text(choices: Seq<ChatChoiceModel>) -> bool {
    exists|i: int| 0 <= i < choices.len() && (#[trigger] choices[i]).content is Some
}

/// The pieces of tool calls that the choices carry, in order.
pub open spec fn call_chunks_of(choices: Seq<ChatChoiceModel>) -> Seq<ToolCallChunkModel>
    decreases choices.len(),
{
    if choices.len() == 0 {
        Seq::empty()
    } else {
        call_chunks_of(choices.drop_last()) + (match choices.last().tool_calls {
            Some(chunks) => chunks,
            None => Seq::empty(),
        })
    }
}

/// The last identifier that the pieces of call `index` give.
pub open spec fn last_id(chunks: Seq<ToolCallChunkModel>, index: u32) -> Option<Seq<char>>
    decreases chunks.len(),
{
    if chunks.len() == 0 {
        None
    } else if chunks.last().index == index && chunks.last().id is Some {
        chunks.last().id
    } else {
        last_id(chunks.drop_last(), index)
    }
}

/// The last name that the pieces of call `index` give.
pub open spec fn last_name(chunks: Seq<ToolCallChunkModel>, index: u32) -> Option<Seq<char>>
    decreases chunks.len(),
{
    if chunks.len() == 0 {
        None
    } else if chunks.last().index == index && chunks.last().name is Some {
        chunks.last().name
    } else {
        last_name(chunks.drop_last(), index)
    }
}

/// The argument text that the pieces of call `index` give, joined.
pub open spec fn joined_arguments(chunks: Seq<ToolCallChunkModel>, index: u32) -> Seq<char>
    decreases chunks.len(),
{
    if chunks.len() == 0 {
        Seq::empty()
    } else if chunks.last().index == index && chunks.last().arguments is Some {
        joined_arguments(chunks.drop_last(), index) + chunks.last().arguments->0
    } else {
        joined_arguments(chunks.drop_last(), index)
    }
}

/// What the pieces of call `index` add up to.
pub open spec fn merged_call(chunks: Seq<ToolCallChunkModel>, index: u32) -> MergedCallModel {
    MergedCallModel {
        index,
        id: last_id(chunks, index),
        name: last_name(chunks, index),
        arguments: joined_arguments(chunks, index),
    }
}

/// Some piece belongs to call `index`.
pub open spec fn is_used(chunks: Seq<ToolCallChunkModel>, index: u32) -> bool {
    exists|i: int| 0 <= i < chunks.len() && (#[trigger] chunks[i]).index == index
}

/// `calls` are what the pieces add up to: one call for each index that is used, in ascending
/// order of the indices.
pub open spec fn are_merged(calls: Seq<MergedCallModel>, chunks: Seq<ToolCallChunkModel>) -> bool {
    &&& forall|i: int, j: int|
        0 <= i < j < calls.len() ==> (#[trigger] calls[i]).index < (#[trigger] calls[j]).index
    &&& forall|i: int|
        0 <= i < calls.len() ==> #[trigger] calls[i] == merged_call(chunks, calls[i].index)
            && is_used(chunks, calls[i].index)
    &&& forall|index: u32| #[trigger]
        is_used(chunks, index) ==> exists|i: int|
            0 <= i < calls.len() && (#[trigger] calls[i]).index == index
}

/// What the pieces add up to.
pub open spec fn merged(chunks: Seq<ToolCallChunkModel>) -> Seq<MergedCallModel> {
    choose|calls: Seq<MergedCallModel>| are_merged(calls, chunks)
}

/// Two ways to merge the same pieces do not differ.
proof fn lemma_merged_is_unique(
    a: Seq<MergedCallModel>,
    b: Seq<MergedCallModel>,
    chunks: Seq<ToolCallChunkModel>,
)
    requires
        are_merged(a, chunks),
        are_merged(b, chunks),
    ensures
        a == b,
{
    lemma_same_prefix(a, b, chunks, a.len());
    lemma_same_prefix(b, a, chunks, b.len());
    assert(a =~= b);
}

/// The first `n` calls of `a` stand at the same places in `b`.
proof fn lemma_same_prefix(
    a: Seq<MergedCallModel>,
    b: Seq<MergedCallModel>,
    chunks: Seq<ToolCallChunkModel>,
    n: nat,
)
    requires
        are_merged(a, chunks),
        are_merged(b, chunks),
        n <= a.len(),
    ensures
        n <= b.len(),
        forall|i: int| 0 <= i < n ==> #[trigger] a[i] == b[i],
    decreases n,
{
    if n > 0 {
        lemma_same_prefix(a, b, chunks, (n - 1) as nat);
        let k = n - 1;
        assert(is_used(chunks, a[k].index));
        let j = choose|j: int| 0 <= j < b.len() && (#[trigger] b[j]).index == a[k].index;
        if j < k {
            assert(a[j] == b[j]);
            assert(a[j].index < a[k].index);
        }
        if j > k {
            assert(b[k].index < b[j].index);
            assert(is_used(chunks, b[k].index));
            let i = choose|i: int| 0 <= i < a.len() && (#[trigger] a[i]).index == b[k].index;
            if i < k {
                assert(a[i] == b[i]);
                assert(b[i].index < b[k].index);
            } else if i > k {
                assert(a[k].index < a[i].index);
            }
        }
        assert(j == k);
    }
}

/// Adding a piece changes only the call that it belongs to.
proof fn lemma_merged_call_push(
    chunks: Seq<ToolCallChunkModel>,
    chunk: ToolCallChunkModel,
    index: u32,
)
    ensures
        ({
            let before = merged_call(chunks, index);
            merged_call(chunks.push(chunk), index) == (if chunk.index != index {
                before
            } else {
                MergedCallModel {
                    index,
                    id: if chunk.id is Some {
                        chunk.id
                    } else {
                        before.id
                    },
                    name: if chunk.name is Some {
                        chunk.name
                    } else {
                        before.name
                    },
                    arguments: match chunk.arguments {
                        Some(piece) => before.arguments + piece,
                        None => before.arguments,
                    },
                }
            })
        }),
{
    assert(chunks.push(chunk).drop_last() =~= chunks);
}

/// A call of which no piece has come is empty.
proof fn lemma_unused_call(chunks: Seq<ToolCallChunkModel>, index: u32)
    requires
        !is_used(chunks, index),
    ensures
        merged_call(chunks, index) == (MergedCallModel {
            index,
            id: None,
            name: None,
            arguments: Seq::empty(),
        }),
    decreases chunks.len(),
{
    if chunks.len() > 0 {
        let rest = chunks.drop_last();
        assert(chunks[chunks.len() - 1].index != index);
        assert forall|i: int| 0 <= i < rest.len() implies (#[trigger] rest[i]).index != index by {
            assert(rest[i] == chunks[i]);
        }
        lemma_unused_call(rest, index);
    }
}

/// Adds one piece to what has come so far.
#[verifier::spinoff_prover]
#[verifier::rlimit(40)]
fn add_chunk(
    calls: &mut Vec<MergedCall>,
    chunk: ToolCallChunk,
    Ghost(chunks): Ghost<Seq<ToolCallChunkModel>>,
)
    requires
        are_merged(old(calls).deep_view(), chunks),
    ensures
        are_merged(final(calls).deep_view(), chunks.push(chunk.deep_view())),
{
    let ghost before = calls.deep_view();
    let ghost model = chunk.deep_view();
    let ghost after = chunks.push(model);
    let total: usize = calls.len();
    let mut at: usize = 0;
    while at < total && calls[at].index < chunk.index
        invariant
            at <= total,
            total == calls@.len(),
            before == calls.deep_view(),
            forall|i: int| 0 <= i < at ==> (#[trigger] before[i]).index < chunk.index,
        decreases total - at,
    {
        assert(before[at as int] == calls@[at as int].deep_view());
        at = at + 1;
    }
    proof {
        assert forall|index: u32| #[trigger] is_used(after, index) implies is_used(chunks, index)
            || index == model.index by {
            let i = choose|i: int| 0 <= i < after.len() && (#[trigger] after[i]).index == index;
            if i < chunks.len() {
                assert(chunks[i].index == index);
            }
        }
        assert forall|index: u32| #[trigger] is_used(chunks, index) implies is_used(
            after,
            index,
        ) by {
            let i = choose|i: int| 0 <= i < chunks.len() && (#[trigger] chunks[i]).index == index;
            assert(after[i].index == index);
        }
        assert(after[chunks.len() as int].index == model.index);
        assert(is_used(after, model.index));
        assert forall|index: u32| index != model.index implies merged_call(after, index)
            == #[trigger] merged_call(chunks, index) by {
            lemma_merged_call_push(chunks, model, index);
        }
        lemma_merged_call_push(chunks, model, model.index);
    }
    if at < total && calls[at].index == chunk.index {
        assert(before[at as int] == calls@[at as int].deep_view());
        let mut call = calls[at].clone();
        if let Some(id) = chunk.id {
            call.id = Some(id);
        }
        if let Some(name) = chunk.name {
            call.name = Some(name);
        }
        if let Some(piece) = chunk.arguments {
            call.arguments.push_str(&piece);
        }
        assert(call.deep_view() == merged_call(after, model.index));
        let ghost changed = call.deep_view();
        calls.set(at, call);
        proof {
            let now = calls.deep_view();
            assert(now =~= before.update(at as int, changed));
            assert forall|i: int, j: int| 0 <= i < j < now.len() implies (
            #[trigger] now[i]).index < (#[trigger] now[j]).index by {
                assert(before[i].index < before[j].index);
            }
            assert forall|i: int| 0 <= i < now.len() implies #[trigger] now[i] == merged_call(
                after,
                now[i].index,
            ) && is_used(after, now[i].index) by {
                assert(before[i] == merged_call(chunks, before[i].index));
                if i != at {
                    if i < at {
                        assert(before[i].index < before[at as int].index);
                    } else {
                        assert(before[at as int].index < before[i].index);
                    }
                }
            }
            assert forall|index: u32| #[trigger] is_used(after, index) implies exists|i: int|
                0 <= i < now.len() && (#[trigger] now[i]).index == index by {
                if index == model.index {
                    assert(now[at as int].index == index);
                } else {
                    let i = choose|i: int|
                        0 <= i < before.len() && (#[trigger] before[i]).index == index;
                    assert(now[i].index == index);
                }
            }
        }
    } else {
        proof {
            if is_used(chunks, model.index) {
                let i = choose|i: int|
                    0 <= i < before.len() && (#[trigger] before[i]).index == model.index;
                assert(i >= at);
                assert(before[at as int] == calls@[at as int].deep_view());
                if i > at {
                    assert(before[at as int].index < before[i].index);
                }
            }
            lemma_unused_call(chunks, model.index);
        }
        let arguments = match chunk.arguments {
            Some(piece) => piece,
            None => String::new(),
        };
        assert(arguments@ =~= merged_call(after, model.index).arguments);
        let call = MergedCall { index: chunk.index, id: chunk.id, name: chunk.name, arguments };
        assert(call.deep_view() == merged_call(after, model.index));
        let ghost added = call.deep_view();
        calls.insert(at, call);
        proof {
            let now = calls.deep_view();
            assert(now =~= before.insert(at as int, added));
            if at < total {
                assert(before[at as int].index > model.index) by {
                    assert(old(calls)@[at as int].deep_view() == before[at as int]);
                }
                assert forall|i: int| at <= i < before.len() implies (
                #[trigger] before[i]).index > model.index by {
                    if i > at {
                        assert(before[at as int].index < before[i].index);
                    }
                }
            }
            assert forall|i: int, j: int| 0 <= i < j < now.len() implies (
            #[trigger] now[i]).index < (#[trigger] now[j]).index by {
                if j < at {
                    assert(before[i].index < before[j].index);
                } else if i > at {
                    assert(before[i - 1].index < before[j - 1].index);
                } else if i < at && j > at {
                    assert(before[i].index < before[j - 1].index);
                }
            }
            assert forall|i: int| 0 <= i < now.len() implies #[trigger] now[i] == merged_call(
                after,
                now[i].index,
            ) && is_used(after, now[i].index) by {
                if i < at {
                    assert(now[i] == before[i]);
                    assert(before[i] == merged_call(chunks, before[i].index));
                } else if i > at {
                    assert(now[i] == before[i - 1]);
                    assert(before[i - 1] == merged_call(chunks, before[i - 1].index));
                }
            }
            assert forall|index: u32| #[trigger] is_used(after, index) implies exists|i: int|
                0 <= i < now.len() && (#[trigger] now[i]).index == index by {
                if index == model.index {
                    assert(now[at as int].index == index);
                } else {
                    let i = choose|i: int|
                        0 <= i < before.len() && (#[trigger] before[i]).index == index;
                    if i < at {
                        assert(now[i].index == index);
                    } else {
                        assert(now[i + 1].index == index);
                    }
                }
            }
        }
    }
}

/// Adds the pieces of tool calls up: the last identifier and the last name of each call, and
/// its argument text joined, in ascending order of the call indices.
pub fn merge_tool_call_chunks(chunks: Vec<ToolCallChunk>) -> (r: Vec<MergedCall>)
    ensures
        are_merged(r.deep_view(), chunks.deep_view()),
        r.deep_view() == merged(chunks.deep_view()),
{
    let ghost model = chunks.deep_view();
    let mut calls: Vec<MergedCall> = Vec::new();
    assert(are_merged(calls.deep_view(), model.take(0)));
    for i in 0..chunks.len()
        invariant
            model == chunks.deep_view(),
            are_merged(calls.deep_view(), model.take(i as int)),
    {
        let chunk = chunks[i].clone();
        assert(model.take(i + 1) =~= model.take(i as int).push(chunk.deep_view()));
        add_chunk(&mut calls, chunk, Ghost(model.take(i as int)));
    }
    assert(model.take(model.len() as int) =~= model);
    proof {
        lemma_merged_is_unique(calls.deep_view(), merged(model), model);
    }
    calls
}

/// The tool call of a merged call, given the value that its argument text holds: a call
/// without a name is dropped, one without an identifier is known by its name, and one whose
/// arguments are no JSON has no arguments.
pub open spec fn finished_call(call: MergedCallModel, arguments: Option<Seq<char>>) -> Option<
    ToolCallModel,
> {
    match call.name {
        None => None,
        Some(name) => Some(
            ToolCallModel {
                id: match call.id {
                    Some(id) => id,
                    None => name,
                },
                name,
                arguments: match arguments {
                    Some(arguments) => arguments,
                    None => "{}"@,
                },
            },
        ),
    }
}

/// Returns the tool call of a merged call, given the value that its argument text holds.
pub fn finish_call(call: MergedCall, arguments: Option<String>) -> (r: Option<ToolCall>)
    ensures
        r.deep_view() == finished_call(call.deep_view(), arguments.deep_view()),
{
    let name = match call.name {
        Some(name) => name,
        None => {
            return None;
        },
    };
    let id = match call.id {
        Some(id) => id,
        None => name.clone(),
    };
    let arguments = match arguments {
        Some(arguments) => arguments,
        None => "{}".to_owned(),
    };
    Some(ToolCall { id, name, arguments })
}

/// The tool calls of merged calls.
pub open spec fn finished_calls(calls: Seq<MergedCallModel>) -> Seq<ToolCallModel>
    decreases calls.len(),
{
    if calls.len() == 0 {
        Seq::empty()
    } else {
        let call = calls.last();
        let before = finished_calls(calls.drop_last());
        match finished_call(call, json::json_compact(call.arguments)) {
            Some(call) => before.push(call),
            None => before,
        }
    }
}

/// The tool calls that pieces add up to.
pub open spec fn combined(chunks: Seq<ToolCallChunkModel>) -> Seq<ToolCallModel> {
    finished_calls(merged(chunks))
}

/// Combines the pieces of tool calls into whole calls.
pub fn combine_tool_call_chunks(chunks: Vec<ToolCallChunk>) -> (r: Vec<ToolCall>)
    ensures
        r.deep_view() == combined(chunks.deep_view()),
{
    let calls = merge_tool_call_chunks(chunks);
    let ghost model = calls.deep_view();
    let mut finished: Vec<ToolCall> = Vec::new();
    assert(finished.deep_view() =~= finished_calls(model.take(0)));
    for i in 0..calls.len()
        invariant
            model == calls.deep_view(),
            finished.deep_view() == finished_calls(model.take(i as int)),
    {
        let ghost before = finished.deep_view();
        let call = calls[i].clone();
        assert(model[i as int] == calls@[i as int].deep_view());
        assert(model.take(i + 1).last() == call.deep_view());
        assert(model.take(i + 1).drop_last() =~= model.take(i as int));
        let arguments = json::compact(&call.arguments);
        if let Some(call) = finish_call(call, arguments) {
            finished.push(call);
            assert(finished.deep_view() =~= before.push(call.deep_view()));
        }
    }
    assert(model.take(model.len() as int) =~= model);
    finished
}

/// The state of a response stream that is being read.
#[derive(Debug)]
pub struct ResponseStream {
    /// Identifier of the message that is being streamed.
    pub message_id: String,
    /// Pieces of tool calls so far.
    pub chunks: Vec<ToolCallChunk>,
}

/// The event of a chunk, if it carries text.
pub open spec fn chunk_event(message_id: Seq<char>, choices: Seq<ChatChoiceModel>) -> Option<
    ProviderEventModel,
> {
    if has_text(choices) {
        Some(ProviderEventModel::TextDelta { message_id, delta: delta_of(choices) })
    } else {
        None
    }
}

/// The event that completes a message.
pub open spec fn completed_event(
    message_id: Seq<char>,
    chunks: Seq<ToolCallChunkModel>,
) -> ProviderEventModel {
    ProviderEventModel::MessageCompleted {
        message_id,
        tool_calls: if chunks.len() == 0 {
            None
        } else {
            Some(combined(chunks))
        },
    }
}

impl ResponseStream {
    /// Starts to read a stream; the message begins.
    pub fn start(message_id: &str) -> (r: (Self, ProviderEvent))
        ensures
            r.0.message_id@ == message_id@,
            r.0.chunks@.len() == 0,
            r.1.deep_view() == (ProviderEventModel::MessageStarted { message_id: message_id@ }),
    {
        (
            ResponseStream { message_id: message_id.to_owned(), chunks: Vec::new() },
            ProviderEvent::MessageStarted { message_id: message_id.to_owned() },
        )
    }

    /// Reads a chunk: its text is handed on, and its pieces of tool calls are kept.
    pub fn read_chunk(&mut self, chunk: ChatChunk) -> (r: Option<ProviderEvent>)
        ensures
            final(self).message_id@ == old(self).message_id@,
            final(self).chunks.deep_view() == old(self).chunks.deep_view() + call_chunks_of(
                chunk.choices.deep_view(),
            ),
            r.deep_view() == chunk_event(old(self).message_id@, chunk.choices.deep_view()),
    {
        let ghost choices = chunk.choices.deep_view();
        let ghost kept = self.chunks.deep_view();
        let mut delta = String::new();
        let mut any = false;
        assert(delta@ =~= delta_of(choices.take(0)));
        assert(self.chunks.deep_view() =~= kept + call_chunks_of(choices.take(0)));
        let total: usize = chunk.choices.len();
        for i in 0..total
            invariant
                total == chunk.choices@.len(),
                choices == chunk.choices.deep_view(),
                delta@ == delta_of(choices.take(i as int)),
                any == has_text(choices.take(i as int)),
                self.message_id@ == old(self).message_id@,
                self.chunks.deep_view() == kept + call_chunks_of(choices.take(i as int)),
        {
            let ghost so_far = choices.take(i as int);
            let ghost longer = choices.take(i + 1);
            let choice = chunk.choices[i].clone();
            assert(choices[i as int] == choice.deep_view());
            assert(longer.last() == choice.deep_view());
            assert(longer.drop_last() =~= so_far);
            proof {
                assert(has_text(longer) == (has_text(so_far) || choice.content is Some)) by {
                    if has_text(so_far) {
                        let k = choose|k: int|
                            0 <= k < so_far.len() && (#[trigger] so_far[k]).content is Some;
                        assert(longer[k].content is Some);
                    }
                    if choice.content is Some {
                        assert(longer[i as int].content is Some);
                    }
                    if has_text(longer) {
                        let k = choose|k: int|
                            0 <= k < longer.len() && (#[trigger] longer[k]).content is Some;
                        if k < i {
                            assert(so_far[k].content is Some);
                        }
                    }
                }
            }
            if let Some(content) = &choice.content {
                delta.push_str(content);
                any = true;
            }
            assert(delta@ =~= delta_of(longer));
            if let Some(pieces) = choice.tool_calls {
                let ghost added = pieces.deep_view();
                let ghost before = self.chunks.deep_view();
                let mut pieces = pieces;
                self.chunks.append(&mut pieces);
                assert(self.chunks.deep_view() =~= before + added);
            }
            assert(self.chunks.deep_view() =~= kept + call_chunks_of(longer));
        }
        assert(choices.take(choices.len() as int) =~= choices);
        if any {
            Some(ProviderEvent::TextDelta { message_id: self.message_id.clone(), delta })
        } else {
            None
        }
    }

    /// Ends the stream; the message is complete.
    pub fn finish(self) -> (r: ProviderEvent)
        ensures
            r.deep_view() == completed_event(self.message_id@, self.chunks.deep_view()),
    {
        let tool_calls = if self.chunks.len() == 0 {
            None
        } else {
            Some(combine_tool_call_chunks(self.chunks))
        };
        ProviderEvent::MessageCompleted { message_id: self.message_id, tool_calls }
    }
}

/// The error of a chat stream that broke.
pub fn stream_error(error: &str) -> (r: ProviderError)
    ensures
        r is Request,
        r->Request_0@ == "chat stream error: "@ + sanitized(error@, lower_case(error@)),
{
    ProviderError::Request(text::concat("chat stream error: ", &sanitize_error(error)))
}

/// What a provider stream yields: an event, or the text of the error that ends it.
pub type StreamItemModel = Result<ProviderEventModel, Seq<char>>;

/// The chunks before the first error.
pub open spec fn good_chunks(response: Seq<Result<ChatChunkModel, Seq<char>>>) -> Seq<
    ChatChunkModel,
>
    decreases response.len(),
{
    if response.len() == 0 {
        Seq::empty()
    } else {
        match response[0] {
            Ok(chunk) => seq![chunk] + good_chunks(response.skip(1)),
            Err(_) => Seq::empty(),
        }
    }
}

/// The first error of a response.
pub open spec fn first_error(response: Seq<Result<ChatChunkModel, Seq<char>>>) -> Option<Seq<char>>
    decreases response.len(),
{
    if response.len() == 0 {
        None
    } else {
        match response[0] {
            Ok(_) => first_error(response.skip(1)),
            Err(error) => Some(error),
        }
    }
}

/// The text events of chunks.
pub open spec fn chunk_items(message_id: Seq<char>, chunks: Seq<ChatChunkModel>) -> Seq<
    StreamItemModel,
>
    decreases chunks.len(),
{
    if chunks.len() == 0 {
        Seq::empty()
    } else {
        let before = chunk_items(message_id, chunks.drop_last());
        match chunk_event(message_id, chunks.last().choices) {
            Some(event) => before.push(Ok(event)),
            None => before,
        }
    }
}

/// The pieces of tool calls of chunks.
pub open spec fn collected_chunks(chunks: Seq<ChatChunkModel>) -> Seq<ToolCallChunkModel>
    decreases chunks.len(),
{
    if chunks.len() == 0 {
        Seq::empty()
    } else {
        collected_chunks(chunks.drop_last()) + call_chunks_of(chunks.last().choices)
    }
}

/// What a provider stream yields for a response: the start of the message, the text of each
/// chunk, and its completion; an error ends the stream in place of the completion.
pub open spec fn stream_items(
    response: Seq<Result<ChatChunkModel, Seq<char>>>,
    message_id: Seq<char>,
) -> Seq<StreamItemModel> {
    let chunks = good_chunks(response);
    seq![Ok(ProviderEventModel::MessageStarted { message_id })] + chunk_items(message_id, chunks)
        + (match first_error(response) {
        Some(error) => seq![
            Err("chat stream error: "@ + sanitized(error, lower_case(error))),
        ],
        None => seq![Ok(completed_event(message_id, collected_chunks(chunks)))],
    })
}

/// What items of a provider stream hold; an error is told by its reason.
pub open spec fn items_model(items: Seq<Result<ProviderEvent, ProviderError>>) -> Seq<
    StreamItemModel,
> {
    items.map_values(
        |item: Result<ProviderEvent, ProviderError>|
            match item {
                Ok(event) => Ok(event.deep_view()),
                Err(ProviderError::Request(reason)) => Err(reason@),
                Err(ProviderError::Configuration(reason)) => Err(reason@),
                Err(ProviderError::InvalidResponse(reason)) => Err(reason@),
            },
    )
}

/// What a response holds.
pub open spec fn response_model(response: Seq<Result<ChatChunk, String>>) -> Seq<
    Result<ChatChunkModel, Seq<char>>,
> {
    response.map_values(
        |item: Result<ChatChunk, String>|
            match item {
                Ok(chunk) => Ok(chunk.deep_view()),
                Err(error) => Err(error@),
            },
    )
}

/// The chunks up to place `i` are the first ones before the error, when none is an error.
proof fn lemma_good_prefix(response: Seq<Result<ChatChunkModel, Seq<char>>>, i: int)
    requires
        0 <= i <= response.len(),
        forall|k: int| 0 <= k < i ==> #[trigger] response[k] is Ok,
    ensures
        i <= good_chunks(response).len(),
        forall|k: int| 0 <= k < i ==> #[trigger] good_chunks(response)[k] == response[k]->Ok_0,
        i == response.len() ==> good_chunks(response).len() == i && first_error(response) is None,
        i < response.len() && response[i] is Err ==> good_chunks(response).len() == i
            && first_error(response) == Some(response[i]->Err_0),
    decreases response.len(),
{
    if response.len() > 0 && i > 0 {
        assert(response[0] is Ok);
        let rest = response.skip(1);
        assert forall|k: int| 0 <= k < i - 1 implies #[trigger] rest[k] is Ok by {
            assert(rest[k] == response[k + 1]);
        }
        lemma_good_prefix(rest, i - 1);
        assert forall|k: int| 0 <= k < i implies #[trigger] good_chunks(response)[k]
            == response[k]->Ok_0 by {
            if k > 0 {
                assert(good_chunks(response)[k] == good_chunks(rest)[k - 1]);
                assert(rest[k - 1] == response[k]);
            }
        }
        if i < response.len() {
            assert(rest[i - 1] == response[i]);
        }
    }
}

/// Builds what a provider stream yields from the items of an underlying response stream.
///
/// Errors of the underlying stream are handed on as request errors and end the stream; no
/// completed message follows an error.
pub fn build_provider_stream(response: Vec<Result<ChatChunk, String>>, message_id: &str) -> (r: Vec<
    Result<ProviderEvent, ProviderError>,
>)
    ensures
        items_model(r@) == stream_items(response_model(response@), message_id@),
        forall|i: int| 0 <= i < r@.len() && #[trigger] r@[i] is Err ==> r@[i]->Err_0 is Request,
{
    let ghost model = response_model(response@);
    let (mut stream, started) = ResponseStream::start(message_id);
    let ghost first = seq![Ok::<ProviderEventModel, Seq<char>>(started.deep_view())];
    let mut items: Vec<Result<ProviderEvent, ProviderError>> = Vec::new();
    items.push(Ok(started));
    let total: usize = response.len();
    assert(items_model(items@) =~= first + chunk_items(message_id@, Seq::empty()));
    proof {
        lemma_good_prefix(model, 0);
        assert(good_chunks(model).take(0) =~= Seq::empty());
        assert(stream.chunks.deep_view() =~= collected_chunks(Seq::empty()));
    }
    for i in 0..total
        invariant
            total == response@.len(),
            model == response_model(response@),
            stream.message_id@ == message_id@,
            forall|k: int| 0 <= k < i ==> #[trigger] model[k] is Ok,
            i <= good_chunks(model).len(),
            forall|k: int| 0 <= k < items@.len() ==> #[trigger] items@[k] is Ok,
            items_model(items@) == first + chunk_items(
                message_id@,
                good_chunks(model).take(i as int),
            ),
            first == seq![
                Ok::<ProviderEventModel, Seq<char>>(
                    ProviderEventModel::MessageStarted { message_id: message_id@ },
                ),
            ],
            stream.chunks.deep_view() == collected_chunks(good_chunks(model).take(i as int)),
    {
        let ghost before = items_model(items@);
        let ghost old_items = items@;
        match &response[i] {
            Err(error) => {
                assert(model[i as int] == Err::<ChatChunkModel, Seq<char>>(error@));
                proof {
                    lemma_good_prefix(model, i as int);
                }
                let item = Err(stream_error(error));
                items.push(item);
                assert(items_model(items@) =~= before.push(
                    Err("chat stream error: "@ + sanitized(error@, lower_case(error@))),
                ));
                assert(good_chunks(model).take(i as int) =~= good_chunks(model));
                assert(items_model(items@) =~= stream_items(model, message_id@));
                assert forall|k: int|
                    0 <= k < items@.len() && #[trigger] items@[k] is Err implies items@[k]->Err_0 is Request by {
                    if k < old_items.len() {
                        assert(items@[k] == old_items[k]);
                    }
                }
                return items;
            },
            Ok(chunk) => {
                assert(model[i as int] == Ok::<ChatChunkModel, Seq<char>>(chunk.deep_view()));
                assert forall|k: int| 0 <= k < i + 1 implies #[trigger] model[k] is Ok by {}
                proof {
                    lemma_good_prefix(model, i + 1);
                }
                let ghost longer = good_chunks(model).take(i + 1);
                assert(longer.last() == chunk.deep_view());
                assert(longer.drop_last() =~= good_chunks(model).take(i as int));
                let event = stream.read_chunk(chunk.clone());
                if let Some(event) = event {
                    items.push(Ok(event));
                    assert(items_model(items@) =~= before.push(Ok(event.deep_view())));
                    assert forall|k: int| 0 <= k < items@.len() implies #[trigger] items@[k] is Ok by {
                        if k < old_items.len() {
                            assert(items@[k] == old_items[k]);
                        }
                    }
                }
                assert(items_model(items@) =~= first + chunk_items(message_id@, longer));
            },
        }
    }
    proof {
        lemma_good_prefix(model, total as int);
        assert(good_chunks(model).take(total as int) =~= good_chunks(model));
    }
    let ghost before = items_model(items@);
    let ghost old_items = items@;
    let completed = stream.finish();
    items.push(Ok(completed));
    assert(items_model(items@) =~= before.push(Ok(completed.deep_view())));
    assert(items_model(items@) =~= stream_items(model, message_id@));
    assert forall|k: int|
        0 <= k < items@.len() && #[trigger] items@[k] is Err implies items@[k]->Err_0 is Request by {
        if k < old_items.len() {
            assert(items@[k] == old_items[k]);
        }
    }
    items
}

/// What `str::to_lowercase` makes of a text.
pub uninterp spec fn lower_case(s: Seq<char>) -> Seq<char>;

/// Returns the text in lower case.
///
/// Calls `str::to_lowercase`; the contract names what it returns, the Unicode tables of the
/// standard library decide it.
#[verifier::external_body]
fn to_lower_case(s: &str) -> (r: String)
    ensures
        r@ == lower_case(s@),
{
    s.to_lowercase()
}

/// What is told of a provider error, given its text in lower case: nothing that mentions
/// keys or authorization headers.
pub open spec fn sanitized(error: Seq<char>, lower: Seq<char>) -> Seq<char> {
    if text::contains_text(lower, "api key"@) || text::contains_text(lower, "authorization"@) {
        "provider authentication failed"@
    } else {
        error
    }
}

/// Returns what is told of a provider error, given its text in lower case.
pub fn sanitize(error: &str, lower: &str) -> (r: String)
    ensures
        r@ == sanitized(error@, lower@),
{
    if text::contains(lower, "api key") || text::contains(lower, "authorization") {
        "provider authentication failed".to_owned()
    } else {
        error.to_owned()
    }
}

/// Returns what is told of a provider error: API keys and authorization headers are not
/// exposed.
pub fn sanitize_error(error: &str) -> (r: String)
    ensures
        r@ == sanitized(error@, lower_case(error@)),
{
    sanitize(error, &to_lower_case(error))
}

/// What is told of a provider error never mentions an API key or an authorization header:
/// the text is handed on only when its lower case mentions neither.
pub proof fn law_sanitized_errors_tell_no_secret(error: Seq<char>, lower: Seq<char>)
    ensures
        sanitized(error, lower) == error ==> error == "provider authentication failed"@ || (
        !text::contains_text(lower, "api key"@) && !text::contains_text(lower, "authorization"@)),
{
}

/// A stream that breaks yields no completed message, and its error is the last thing it
/// yields; a stream that does not break yields exactly one, as the last thing.
pub proof fn law_errors_end_the_stream(
    response: Seq<Result<ChatChunkModel, Seq<char>>>,
    message_id: Seq<char>,
)
    ensures
        ({
            let items = stream_items(response, message_id);
            let n = items.len() as int;
            &&& n >= 2
            &&& items[0] == Ok::<ProviderEventModel, Seq<char>>(
                ProviderEventModel::MessageStarted { message_id },
            )
            &&& forall|i: int|
                0 < i < n - 1 ==> (#[trigger] items[i] matches Ok(event) && event is TextDelta)
            &&& if first_error(response) is Some {
                items[n - 1] is Err
            } else {
                items[n - 1] matches Ok(event) && event is MessageCompleted
            }
        }),
{
    let chunks = good_chunks(response);
    lemma_text_items(message_id, chunks);
    let items = stream_items(response, message_id);
    let middle = chunk_items(message_id, chunks);
    assert forall|i: int| 0 < i < items.len() - 1 implies (#[trigger] items[i] matches Ok(event)
        && event is TextDelta) by {
        assert(items[i] == middle[i - 1]);
    }
}

proof fn lemma_text_items(message_id: Seq<char>, chunks: Seq<ChatChunkModel>)
    ensures
        forall|i: int|
            0 <= i < chunk_items(message_id, chunks).len() ==> (#[trigger] chunk_items(
                message_id,
                chunks,
            )[i] matches Ok(event) && event is TextDelta),
    decreases chunks.len(),
{
    if chunks.len() > 0 {
        lemma_text_items(message_id, chunks.drop_last());
    }
}

} // verus!

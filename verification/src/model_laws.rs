//! The models that contracts speak of lose nothing: values with the same model agree in
//! everything that they hold.

use vstd::prelude::*;

use crate::models::openai::{ChatChoice, ChatMessage, ToolCallChunk};
use crate::models::provider::ProviderEvent;
use crate::protocol::session::{
    CompactionEntry, Message, MessageBlock, MessageBody, SessionEntry, SessionView,
};
use crate::protocol::{
    ActivatedSkill, LlmMessage, RunMessage, RuntimeEventKind, SkillDefinition, SkillEntry, ToolCall,
    ToolDefinition,
};
use crate::runtime::llm_context::LlmContextInput;
use crate::runtime::runner::{RunAction, RunExecutor, RunInput, ToolOutputResult, ToolStreamEvent};

verus! {

/// Tool calls with the same model are the same.
pub proof fn law_tool_call_view_is_faithful(a: ToolCall, b: ToolCall)
    requires
        a.deep_view() == b.deep_view(),
    ensures
        a.id@ == b.id@,
        a.name@ == b.name@,
        a.arguments@ == b.arguments@,
{
}

/// Bodies with the same model have the same blocks: the same texts and the same calls, at the
/// same places.
pub proof fn law_body_view_is_faithful(a: MessageBody, b: MessageBody)
    requires
        a.deep_view() == b.deep_view(),
    ensures
        a.0@.len() == b.0@.len(),
        forall|i: int|
            0 <= i < a.0@.len() ==> match (#[trigger] a.0@[i], b.0@[i]) {
                (MessageBlock::Text { text: x }, MessageBlock::Text { text: y }) => x@ == y@,
                (MessageBlock::ToolCall(x), MessageBlock::ToolCall(y)) => x.deep_view()
                    == y.deep_view(),
                _ => false,
            },
{
    let x = a.deep_view();
    let y = b.deep_view();
    assert(x.len() == a.0@.len() && y.len() == b.0@.len());
    assert forall|i: int| 0 <= i < a.0@.len() implies match (#[trigger] a.0@[i], b.0@[i]) {
        (MessageBlock::Text { text: x }, MessageBlock::Text { text: y }) => x@ == y@,
        (MessageBlock::ToolCall(x), MessageBlock::ToolCall(y)) => x.deep_view() == y.deep_view(),
        _ => false,
    } by {
        assert(x[i] == a.0@[i].deep_view());
        assert(y[i] == b.0@[i].deep_view());
    }
}

/// Messages with the same model are the same.
pub proof fn law_message_view_is_faithful(a: Message, b: Message)
    requires
        a.deep_view() == b.deep_view(),
    ensures
        a.id@ == b.id@,
        a.parent_id is Some <==> b.parent_id is Some,
        a.parent_id is Some ==> a.parent_id->0@ == b.parent_id->0@,
        a.role == b.role,
        a.tool_call_id is Some <==> b.tool_call_id is Some,
        a.tool_call_id is Some ==> a.tool_call_id->0@ == b.tool_call_id->0@,
        a.body.deep_view() == b.body.deep_view(),
{
}

/// Messages of the model context with the same model are the same.
pub proof fn law_llm_message_view_is_faithful(a: LlmMessage, b: LlmMessage)
    requires
        a.deep_view() == b.deep_view(),
    ensures
        a.role == b.role,
        a.body.deep_view() == b.body.deep_view(),
        a.tool_call_id is Some <==> b.tool_call_id is Some,
        a.tool_call_id is Some ==> a.tool_call_id->0@ == b.tool_call_id->0@,
{
}

/// Messages of a provider request with the same model are the same.
pub proof fn law_run_message_view_is_faithful(a: RunMessage, b: RunMessage)
    requires
        a.deep_view() == b.deep_view(),
    ensures
        a.role == b.role,
        a.content@ == b.content@,
        a.tool_call_id is Some <==> b.tool_call_id is Some,
        a.tool_call_id is Some ==> a.tool_call_id->0@ == b.tool_call_id->0@,
        a.tool_calls is Some <==> b.tool_calls is Some,
        a.tool_calls is Some ==> a.tool_calls->0.deep_view() == b.tool_calls->0.deep_view(),
{
}

/// Compaction entries with the same model are the same.
pub proof fn law_compaction_entry_view_is_faithful(a: CompactionEntry, b: CompactionEntry)
    requires
        a.deep_view() == b.deep_view(),
    ensures
        a.id@ == b.id@,
        a.role == b.role,
        a.summary@ == b.summary@,
        a.compacted_range.first_message_id@ == b.compacted_range.first_message_id@,
        a.compacted_range.last_message_id@ == b.compacted_range.last_message_id@,
        a.created_at@ == b.created_at@,
        a.run_id@ == b.run_id@,
{
}

/// Records with the same model are of the same sort and hold the same.
pub proof fn law_entry_view_is_faithful(a: SessionEntry, b: SessionEntry)
    requires
        a.deep_view() == b.deep_view(),
    ensures
        match (a, b) {
            (
                SessionEntry::Session { version: v, id: i, workspace: w, created_at: c },
                SessionEntry::Session { version, id, workspace, created_at },
            ) => v == version && i@ == id@ && w@ == workspace@ && c@ == created_at@,
            (SessionEntry::Message(x), SessionEntry::Message(y)) => x.deep_view() == y.deep_view(),
            (SessionEntry::SkillActivated(x), SessionEntry::SkillActivated(y)) => x.name@ == y.name@
                && x.content@ == y.content@,
            (SessionEntry::CompactionEntry(x), SessionEntry::CompactionEntry(y)) => x.deep_view()
                == y.deep_view(),
            _ => false,
        },
{
}

/// Views of a session with the same model are the same.
pub proof fn law_session_view_is_faithful(a: SessionView, b: SessionView)
    requires
        a.deep_view() == b.deep_view(),
    ensures
        a.session_id@ == b.session_id@,
        a.workspace@ == b.workspace@,
        a.workspace_instructions is Some <==> b.workspace_instructions is Some,
        a.workspace_instructions is Some ==> a.workspace_instructions->0@
            == b.workspace_instructions->0@,
        a.messages.deep_view() == b.messages.deep_view(),
        a.compaction_entries.deep_view() == b.compaction_entries.deep_view(),
{
}

/// Skills, skill entries and tools with the same model are the same.
pub proof fn law_skill_and_tool_views_are_faithful(
    a: SkillDefinition,
    b: SkillDefinition,
    c: SkillEntry,
    d: SkillEntry,
    e: ToolDefinition,
    f: ToolDefinition,
    g: ActivatedSkill,
    h: ActivatedSkill,
)
    ensures
        a.deep_view() == b.deep_view() ==> a.name@ == b.name@ && a.description@ == b.description@
            && a.content@ == b.content@,
        c.deep_view() == d.deep_view() ==> c.name@ == d.name@ && c.description@ == d.description@,
        e.deep_view() == f.deep_view() ==> e.name@ == f.name@ && e.description@ == f.description@
            && e.parameters@ == f.parameters@,
        g.deep_view() == h.deep_view() ==> g.name@ == h.name@ && g.content@ == h.content@,
{
}

/// Executors of a run with the same model are the same.
pub proof fn law_executor_view_is_faithful(a: RunExecutor, b: RunExecutor)
    requires
        a.deep_view() == b.deep_view(),
    ensures
        a.run_id@ == b.run_id@,
        a.session_id@ == b.session_id@,
        a.message@ == b.message@,
        a.developer_message_id@ == b.developer_message_id@,
        a.workspace_instructions is Some <==> b.workspace_instructions is Some,
        a.workspace_instructions is Some ==> a.workspace_instructions->0@
            == b.workspace_instructions->0@,
        a.tools.deep_view() == b.tools.deep_view(),
        a.compaction_config == b.compaction_config,
{
}

/// Inputs of a model context with the same model are the same.
pub proof fn law_context_input_view_is_faithful(a: LlmContextInput, b: LlmContextInput)
    requires
        a.deep_view() == b.deep_view(),
    ensures
        a.user_message@ == b.user_message@,
        a.history.deep_view() == b.history.deep_view(),
        a.tools.deep_view() == b.tools.deep_view(),
        a.active_skills.deep_view() == b.active_skills.deep_view(),
        a.available_skills.deep_view() == b.available_skills.deep_view(),
        a.workspace_instructions is Some <==> b.workspace_instructions is Some,
        a.workspace_instructions is Some ==> a.workspace_instructions->0@
            == b.workspace_instructions->0@,
{
}

/// Tool results with the same model are the same.
pub proof fn law_tool_result_view_is_faithful(a: ToolOutputResult, b: ToolOutputResult)
    requires
        a.deep_view() == b.deep_view(),
    ensures
        a.output@ == b.output@,
        a.is_error == b.is_error,
        a.exit_code == b.exit_code,
{
}

/// Provider events with the same model are of the same sort and hold the same.
pub proof fn law_provider_event_view_is_faithful(a: ProviderEvent, b: ProviderEvent)
    requires
        a.deep_view() == b.deep_view(),
    ensures
        match (a, b) {
            (
                ProviderEvent::MessageStarted { message_id: x },
                ProviderEvent::MessageStarted { message_id: y },
            ) => x@ == y@,
            (
                ProviderEvent::TextDelta { message_id: x, delta: d },
                ProviderEvent::TextDelta { message_id: y, delta: e },
            ) => x@ == y@ && d@ == e@,
            (
                ProviderEvent::MessageCompleted { message_id: x, tool_calls: c },
                ProviderEvent::MessageCompleted { message_id: y, tool_calls: d },
            ) => x@ == y@ && (c is Some <==> d is Some) && (c is Some ==> c->0.deep_view()
                == d->0.deep_view()),
            _ => false,
        },
{
}

/// Chat messages, and the pieces and choices of a response, with the same model are the same.
pub proof fn law_chat_views_are_faithful(
    a: ChatMessage,
    b: ChatMessage,
    c: ToolCallChunk,
    d: ToolCallChunk,
    e: ChatChoice,
    f: ChatChoice,
)
    ensures
        a.deep_view() == b.deep_view() ==> match (a, b) {
            (ChatMessage::System { content: x }, ChatMessage::System { content: y }) => x@ == y@,
            (ChatMessage::User { content: x }, ChatMessage::User { content: y }) => x@ == y@,
            (
                ChatMessage::Assistant { content: x, tool_calls: m },
                ChatMessage::Assistant { content: y, tool_calls: n },
            ) => x@ == y@ && (m is Some <==> n is Some) && (m is Some ==> m->0.deep_view()
                == n->0.deep_view()),
            (
                ChatMessage::Tool { content: x, tool_call_id: m },
                ChatMessage::Tool { content: y, tool_call_id: n },
            ) => x@ == y@ && m@ == n@,
            _ => false,
        },
        c.deep_view() == d.deep_view() ==> {
            &&& c.index == d.index
            &&& c.id is Some <==> d.id is Some
            &&& c.id is Some ==> c.id->0@ == d.id->0@
            &&& c.name is Some <==> d.name is Some
            &&& c.name is Some ==> c.name->0@ == d.name->0@
            &&& c.arguments is Some <==> d.arguments is Some
            &&& c.arguments is Some ==> c.arguments->0@ == d.arguments->0@
        },
        e.deep_view() == f.deep_view() ==> {
            &&& e.content is Some <==> f.content is Some
            &&& e.content is Some ==> e.content->0@ == f.content->0@
            &&& e.tool_calls is Some <==> f.tool_calls is Some
            &&& e.tool_calls is Some ==> e.tool_calls->0.deep_view() == f.tool_calls->0.deep_view()
        },
{
}

/// Events with the same model are of the same sort and hold the same.
pub proof fn law_event_view_is_faithful(a: RuntimeEventKind, b: RuntimeEventKind)
    requires
        a.deep_view() == b.deep_view(),
    ensures
        match (a, b) {
            (
                RuntimeEventKind::DaemonStarted { state: a0 },
                RuntimeEventKind::DaemonStarted { state: b0 },
            ) => a0.deep_view() == b0.deep_view(),
            (
                RuntimeEventKind::StateChanged { state: a0 },
                RuntimeEventKind::StateChanged { state: b0 },
            ) => a0.deep_view() == b0.deep_view(),
            (
                RuntimeEventKind::Error { message: a0, run_id: a1 },
                RuntimeEventKind::Error { message: b0, run_id: b1 },
            ) => {
                &&& a0@ == b0@
                &&& a1.deep_view() == b1.deep_view()
            },
            (
                RuntimeEventKind::RunStarted { session_id: a0, run_id: a1 },
                RuntimeEventKind::RunStarted { session_id: b0, run_id: b1 },
            ) => {
                &&& a0@ == b0@
                &&& a1@ == b1@
            },
            (
                RuntimeEventKind::RunFinished { run_id: a0, status: a1, error: a2 },
                RuntimeEventKind::RunFinished { run_id: b0, status: b1, error: b2 },
            ) => {
                &&& a0@ == b0@
                &&& a1 == b1
                &&& a2.deep_view() == b2.deep_view()
            },
            (
                RuntimeEventKind::MessageStarted { run_id: a0, message_id: a1, role: a2 },
                RuntimeEventKind::MessageStarted { run_id: b0, message_id: b1, role: b2 },
            ) => {
                &&& a0@ == b0@
                &&& a1@ == b1@
                &&& a2 == b2
            },
            (
                RuntimeEventKind::MessageDelta {
                    run_id: a0,
                    message_id: a1,
                    block_index: a2,
                    delta: a3,
                },
                RuntimeEventKind::MessageDelta {
                    run_id: b0,
                    message_id: b1,
                    block_index: b2,
                    delta: b3,
                },
            ) => {
                &&& a0@ == b0@
                &&& a1@ == b1@
                &&& a2 == b2
                &&& a3.deep_view() == b3.deep_view()
            },
            (
                RuntimeEventKind::MessageCompleted { run_id: a0, message_id: a1, body: a2 },
                RuntimeEventKind::MessageCompleted { run_id: b0, message_id: b1, body: b2 },
            ) => {
                &&& a0@ == b0@
                &&& a1@ == b1@
                &&& a2.deep_view() == b2.deep_view()
            },
            (
                RuntimeEventKind::ToolStarted { run_id: a0, tool_call_id: a1, name: a2 },
                RuntimeEventKind::ToolStarted { run_id: b0, tool_call_id: b1, name: b2 },
            ) => {
                &&& a0@ == b0@
                &&& a1@ == b1@
                &&& a2@ == b2@
            },
            (
                RuntimeEventKind::ToolOutputDelta { run_id: a0, tool_call_id: a1, chunk: a2 },
                RuntimeEventKind::ToolOutputDelta { run_id: b0, tool_call_id: b1, chunk: b2 },
            ) => {
                &&& a0@ == b0@
                &&& a1@ == b1@
                &&& a2@ == b2@
            },
            (
                RuntimeEventKind::ToolFinished {
                    run_id: a0,
                    tool_call_id: a1,
                    output: a2,
                    is_error: a3,
                    exit_code: a4,
                },
                RuntimeEventKind::ToolFinished {
                    run_id: b0,
                    tool_call_id: b1,
                    output: b2,
                    is_error: b3,
                    exit_code: b4,
                },
            ) => {
                &&& a0@ == b0@
                &&& a1@ == b1@
                &&& a2@ == b2@
                &&& a3 == b3
                &&& a4 == b4
            },
            (
                RuntimeEventKind::RunCancelled { run_id: a0 },
                RuntimeEventKind::RunCancelled { run_id: b0 },
            ) => a0@ == b0@,
            (
                RuntimeEventKind::CompactionStarted { run_id: a0, session_id: a1, range: a2 },
                RuntimeEventKind::CompactionStarted { run_id: b0, session_id: b1, range: b2 },
            ) => {
                &&& a0@ == b0@
                &&& a1@ == b1@
                &&& a2.deep_view() == b2.deep_view()
            },
            (
                RuntimeEventKind::CompactionCompleted {
                    run_id: a0,
                    session_id: a1,
                    entry_id: a2,
                    summary: a3,
                    range: a4,
                },
                RuntimeEventKind::CompactionCompleted {
                    run_id: b0,
                    session_id: b1,
                    entry_id: b2,
                    summary: b3,
                    range: b4,
                },
            ) => {
                &&& a0@ == b0@
                &&& a1@ == b1@
                &&& a2@ == b2@
                &&& a3@ == b3@
                &&& a4.deep_view() == b4.deep_view()
            },
            (
                RuntimeEventKind::CompactionFailed { run_id: a0, session_id: a1, error: a2 },
                RuntimeEventKind::CompactionFailed { run_id: b0, session_id: b1, error: b2 },
            ) => {
                &&& a0@ == b0@
                &&& a1@ == b1@
                &&& a2@ == b2@
            },
            (
                RuntimeEventKind::SessionChanged { session_id: a0, action: a1 },
                RuntimeEventKind::SessionChanged { session_id: b0, action: b1 },
            ) => {
                &&& a0@ == b0@
                &&& a1 == b1
            },
            _ => false,
        },
{
}

/// Actions of a run with the same model are of the same sort and hold the same.
pub proof fn law_action_view_is_faithful(a: RunAction, b: RunAction)
    requires
        a.deep_view() == b.deep_view(),
    ensures
        match (a, b) {
            (RunAction::Emit(a0), RunAction::Emit(b0)) => a0.deep_view() == b0.deep_view(),
            (RunAction::LoadSession, RunAction::LoadSession) => true,
            (
                RunAction::LoadCatalog { workspace: a0 },
                RunAction::LoadCatalog { workspace: b0 },
            ) => a0@ == b0@,
            (RunAction::ReadEntries, RunAction::ReadEntries) => true,
            (RunAction::Compact { entries: a0 }, RunAction::Compact { entries: b0 }) =>
                a0.deep_view() == b0.deep_view(),
            (
                RunAction::SendToProvider { messages: a0, tools: a1 },
                RunAction::SendToProvider { messages: b0, tools: b1 },
            ) => {
                &&& a0.deep_view() == b0.deep_view()
                &&& a1.deep_view() == b1.deep_view()
            },
            (
                RunAction::AppendMessage {
                    id: a0,
                    parent_id: a1,
                    role: a2,
                    body: a3,
                    tool_call_id: a4,
                },
                RunAction::AppendMessage {
                    id: b0,
                    parent_id: b1,
                    role: b2,
                    body: b3,
                    tool_call_id: b4,
                },
            ) => {
                &&& a0.deep_view() == b0.deep_view()
                &&& a1.deep_view() == b1.deep_view()
                &&& a2 == b2
                &&& a3.deep_view() == b3.deep_view()
                &&& a4.deep_view() == b4.deep_view()
            },
            (
                RunAction::InvokeTool { context: a0, call: a1 },
                RunAction::InvokeTool { context: b0, call: b1 },
            ) => {
                &&& a0.deep_view() == b0.deep_view()
                &&& a1.deep_view() == b1.deep_view()
            },
            (RunAction::ReleaseRun, RunAction::ReleaseRun) => true,
            _ => false,
        },
{
}

/// Pieces of tool output with the same model are of the same sort and hold the same.
pub proof fn law_tool_event_view_is_faithful(a: ToolStreamEvent, b: ToolStreamEvent)
    requires
        a.deep_view() == b.deep_view(),
    ensures
        match (a, b) {
            (ToolStreamEvent::Chunk { chunk: x }, ToolStreamEvent::Chunk { chunk: y }) => x@ == y@,
            (ToolStreamEvent::Done { result: x }, ToolStreamEvent::Done { result: y }) =>
                x.deep_view() == y.deep_view(),
            _ => false,
        },
{
}

/// What a run is told has the same model only where it is the same: the same event of the same
/// sort, with the same content or with errors of the same text.
pub proof fn law_input_view_is_faithful(a: RunInput, b: RunInput)
    requires
        a.deep_view() == b.deep_view(),
    ensures
        match (a, b) {
            (RunInput::Start, RunInput::Start) => true,
            (RunInput::SessionLoaded(Ok(x)), RunInput::SessionLoaded(Ok(y))) => x.deep_view()
                == y.deep_view(),
            (RunInput::SessionLoaded(Err(x)), RunInput::SessionLoaded(Err(y))) => x.spec_message()
                == y.spec_message(),
            (RunInput::CatalogLoaded(Ok(x)), RunInput::CatalogLoaded(Ok(y))) => x.deep_view()
                == y.deep_view(),
            (RunInput::CatalogLoaded(Err(x)), RunInput::CatalogLoaded(Err(y))) => x.spec_message()
                == y.spec_message(),
            (RunInput::EntriesRead(Ok(x)), RunInput::EntriesRead(Ok(y))) => x.entries.deep_view()
                == y.entries.deep_view() && x.calls.deep_view() == y.calls.deep_view(),
            (RunInput::EntriesRead(Err(x)), RunInput::EntriesRead(Err(y))) => x.spec_message()
                == y.spec_message(),
            (RunInput::Compacted(Ok(x)), RunInput::Compacted(Ok(y))) => x.deep_view()
                == y.deep_view(),
            (RunInput::Compacted(Err(x)), RunInput::Compacted(Err(y))) => x.spec_message()
                == y.spec_message(),
            (RunInput::ProviderOpened(Ok(_)), RunInput::ProviderOpened(Ok(_))) => true,
            (RunInput::ProviderOpened(Err(x)), RunInput::ProviderOpened(Err(y))) => x.spec_message()
                == y.spec_message(),
            (RunInput::StreamEvent(Ok(x)), RunInput::StreamEvent(Ok(y))) => x.deep_view()
                == y.deep_view(),
            (RunInput::StreamEvent(Err(x)), RunInput::StreamEvent(Err(y))) => x.spec_message()
                == y.spec_message(),
            (RunInput::StreamEnded, RunInput::StreamEnded) => true,
            (RunInput::StreamCancelled, RunInput::StreamCancelled) => true,
            (RunInput::ToolOpened(Ok(_)), RunInput::ToolOpened(Ok(_))) => true,
            (RunInput::ToolOpened(Err(x)), RunInput::ToolOpened(Err(y))) => x@ == y@,
            (RunInput::ToolEvent(Ok(x)), RunInput::ToolEvent(Ok(y))) => x.deep_view()
                == y.deep_view(),
            (RunInput::ToolEvent(Err(x)), RunInput::ToolEvent(Err(y))) => x@ == y@,
            (RunInput::ToolEnded, RunInput::ToolEnded) => true,
            (RunInput::MessageAppended(Ok(x)), RunInput::MessageAppended(Ok(y))) => x@ == y@,
            (RunInput::MessageAppended(Err(x)), RunInput::MessageAppended(Err(y))) =>
                x.spec_message() == y.spec_message(),
            _ => false,
        },
{
}

} // verus!

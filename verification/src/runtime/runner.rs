//! The run of a session: one request of the user, answered by the model in turns.
//!
//! A run is a state machine. It is told what happened ([`RunInput`]), moves on to its next
//! [`RunState`], and says what is to be done ([`RunAction`]): events to publish, messages to
//! persist, requests to send, tools to start.

use vstd::prelude::*;

use crate::models::provider::{ProviderError, ProviderEvent, ProviderEventModel};
use crate::protocol;
use crate::protocol::session;
use crate::protocol::session::{
    BlockDelta, BlockDeltaModel, CompactionEntry, CompactionEntryModel, CompactionRange,
    CompactionRangeModel, MessageBlockModel, MessageBody, SessionEntry, SessionEntryModel,
    SessionView, SessionViewModel,
};
use crate::protocol::{
    LlmMessage, LlmMessageModel, MessageRole, RunStatus, RuntimeEventKind, RuntimeEventKindModel,
    SessionContext, SessionContextModel, SkillEntry, SkillEntryModel, ToolCall, ToolCallModel,
    ToolDefinition, ToolDefinitionModel,
};
use crate::runtime::active_path;
use crate::runtime::active_path::{ActivateSkillCall, ActivateSkillCallModel};
use crate::runtime::compaction;
use crate::runtime::compaction::{CompactionConfig, CompactionError, CompactionService};
use crate::runtime::history;
use crate::runtime::llm_context;
use crate::runtime::llm_context::{LlmContextBuilder, LlmContextInput, LlmContextInputModel};
use crate::runtime::session_view_repository::SessionViewError;
use crate::session_store::SessionError;
use crate::skills::SkillError;
use crate::text;

verus! {

/// Number of characters at which buffered deltas are flushed. A low value keeps event latency
/// small while still joining tiny provider chunks.
pub const DELTA_BUFFER_THRESHOLD: usize = 8;

/// What a tool gave back.
#[derive(Debug, PartialEq, Eq)]
pub struct ToolOutputResult {
    /// Text of the result.
    pub output: String,
    /// Whether the tool failed.
    pub is_error: bool,
    /// Exit code of a command, if the tool ran one.
    pub exit_code: Option<i32>,
}

/// What a [`ToolOutputResult`] holds.
pub struct ToolOutputResultModel {
    pub output: Seq<char>,
    pub is_error: bool,
    pub exit_code: Option<i32>,
}

impl DeepView for ToolOutputResult {
    type V = ToolOutputResultModel;

    open spec fn deep_view(&self) -> ToolOutputResultModel {
        ToolOutputResultModel {
            output: self.output@,
            is_error: self.is_error,
            exit_code: self.exit_code,
        }
    }
}

impl Clone for ToolOutputResult {
    fn clone(&self) -> (r: Self)
        ensures
            r.deep_view() == self.deep_view(),
    {
        let r = ToolOutputResult {
            output: self.output.clone(),
            is_error: self.is_error,
            exit_code: self.exit_code,
        };
        r
    }
}

impl ToolOutputResult {
    /// The result of a tool that succeeded.
    pub fn success(output: &str) -> (r: Self)
        ensures
            r.deep_view() == (ToolOutputResultModel {
                output: output@,
                is_error: false,
                exit_code: None,
            }),
    {
        ToolOutputResult { output: output.to_owned(), is_error: false, exit_code: None }
    }

    /// The result of a tool that failed.
    pub fn error(output: &str) -> (r: Self)
        ensures
            r.deep_view() == tool_error(output@),
    {
        ToolOutputResult { output: output.to_owned(), is_error: true, exit_code: None }
    }
}

/// The result of a tool that failed.
pub open spec fn tool_error(output: Seq<char>) -> ToolOutputResultModel {
    ToolOutputResultModel { output, is_error: true, exit_code: None }
}

/// One piece of what a running tool gives.
#[derive(Debug, PartialEq, Eq)]
pub enum ToolStreamEvent {
    /// A part of the output.
    Chunk {
        chunk: String,
    },
    /// The final result.
    Done {
        result: ToolOutputResult,
    },
}

/// What a [`ToolStreamEvent`] holds.
pub enum ToolStreamEventModel {
    Chunk { chunk: Seq<char> },
    Done { result: ToolOutputResultModel },
}

impl DeepView for ToolStreamEvent {
    type V = ToolStreamEventModel;

    open spec fn deep_view(&self) -> ToolStreamEventModel {
        match self {
            ToolStreamEvent::Chunk { chunk } => ToolStreamEventModel::Chunk { chunk: chunk@ },
            ToolStreamEvent::Done { result } => ToolStreamEventModel::Done {
                result: result.deep_view(),
            },
        }
    }
}

/// Buffers small provider deltas, so that tiny chunks are emitted together and a cancelled
/// run can flush what is left before it ends.
#[derive(Debug, PartialEq, Eq)]
pub struct DeltaBuffer {
    /// Number of characters that triggers a flush.
    pub threshold: usize,
    /// Content waiting to be flushed.
    pub buffer: String,
}

/// What a [`DeltaBuffer`] holds.
pub struct DeltaBufferModel {
    pub threshold: usize,
    pub buffer: Seq<char>,
}

impl DeepView for DeltaBuffer {
    type V = DeltaBufferModel;

    open spec fn deep_view(&self) -> DeltaBufferModel {
        DeltaBufferModel {
            threshold: self.threshold,
            buffer: self.buffer@,
        }
    }
}

/// State carried through a single provider response stream.
#[derive(Debug, PartialEq, Eq)]
pub struct StreamState {
    /// The assistant message being built.
    pub message_id: Option<String>,
    /// Accumulated assistant message content.
    pub assistant_content: String,
    /// Tool calls of the completed message.
    pub tool_calls: Option<Vec<ToolCall>>,
    /// Whether the stream has produced a complete response.
    pub completed: bool,
    /// Whether the stream has started a message.
    pub saw_message: bool,
    /// Buffer for small provider deltas.
    pub delta_buffer: DeltaBuffer,
}

/// What a [`StreamState`] holds.
pub struct StreamStateModel {
    pub message_id: Option<Seq<char>>,
    pub assistant_content: Seq<char>,
    pub tool_calls: Option<Seq<ToolCallModel>>,
    pub completed: bool,
    pub saw_message: bool,
    pub delta_buffer: DeltaBufferModel,
}

impl DeepView for StreamState {
    type V = StreamStateModel;

    open spec fn deep_view(&self) -> StreamStateModel {
        StreamStateModel {
            message_id: self.message_id.deep_view(),
            assistant_content: self.assistant_content@,
            tool_calls: self.tool_calls.deep_view(),
            completed: self.completed,
            saw_message: self.saw_message,
            delta_buffer: self.delta_buffer.deep_view(),
        }
    }
}

/// The request that the turns of a run build up.
#[derive(Debug, PartialEq, Eq)]
pub struct Conversation {
    /// Messages of the next request.
    pub messages: Vec<LlmMessage>,
    /// Whether any turn so far has started a message.
    pub saw_message: bool,
    /// The workspace of the session, in which the tools work.
    pub workspace: String,
}

/// What a [`Conversation`] holds.
pub struct ConversationModel {
    pub messages: Seq<LlmMessageModel>,
    pub saw_message: bool,
    pub workspace: Seq<char>,
}

impl DeepView for Conversation {
    type V = ConversationModel;

    open spec fn deep_view(&self) -> ConversationModel {
        ConversationModel {
            messages: self.messages.deep_view(),
            saw_message: self.saw_message,
            workspace: self.workspace@,
        }
    }
}

/// The tool calls of one assistant message, executed one after the other.
#[derive(Debug, PartialEq, Eq)]
pub struct ToolTurn {
    /// The assistant message and the tool results so far.
    pub messages: Vec<LlmMessage>,
    /// The calls.
    pub calls: Vec<ToolCall>,
    /// The call being executed.
    pub next: usize,
}

/// What a [`ToolTurn`] holds.
pub struct ToolTurnModel {
    pub messages: Seq<LlmMessageModel>,
    pub calls: Seq<ToolCallModel>,
    pub next: int,
}

impl DeepView for ToolTurn {
    type V = ToolTurnModel;

    open spec fn deep_view(&self) -> ToolTurnModel {
        ToolTurnModel {
            messages: self.messages.deep_view(),
            calls: self.calls.deep_view(),
            next: self.next as int,
        }
    }
}

/// What a run learns of its session before the first turn.
#[derive(Debug, PartialEq, Eq)]
pub struct RunSetup {
    /// The workspace of the session.
    pub workspace: String,
    /// The skills available in it.
    pub skills: Vec<SkillEntry>,
}

/// What a [`RunSetup`] holds.
pub struct RunSetupModel {
    pub workspace: Seq<char>,
    pub skills: Seq<SkillEntryModel>,
}

impl DeepView for RunSetup {
    type V = RunSetupModel;

    open spec fn deep_view(&self) -> RunSetupModel {
        RunSetupModel { workspace: self.workspace@, skills: self.skills.deep_view() }
    }
}

/// Where a run stands.
#[derive(Debug, PartialEq, Eq)]
pub enum RunPhase {
    /// Not started.
    Created,
    /// Waiting for the session view.
    LoadingSession,
    /// Waiting for the skill catalog.
    LoadingCatalog {
        workspace: String,
    },
    /// Waiting for the session records.
    ReadingEntries {
        setup: RunSetup,
    },
    /// Waiting for a compaction.
    Compacting {
        setup: RunSetup,
        range: CompactionRange,
    },
    /// Waiting for the session records after a compaction.
    RereadingEntries {
        setup: RunSetup,
    },
    /// Waiting for the provider to open its response stream.
    AwaitingProvider {
        conversation: Conversation,
    },
    /// Reading the response stream.
    Streaming {
        conversation: Conversation,
        stream: StreamState,
    },
    /// Waiting for the completed assistant message to be persisted.
    SavingAssistant {
        conversation: Conversation,
        stream: StreamState,
        message_id: String,
        calls: Option<Vec<ToolCall>>,
    },
    /// Waiting for a tool to start.
    OpeningTool {
        conversation: Conversation,
        turn: ToolTurn,
    },
    /// Reading the output of a tool.
    RunningTool {
        conversation: Conversation,
        turn: ToolTurn,
        result: Option<ToolOutputResult>,
    },
    /// Waiting for a tool result to be persisted.
    SavingToolResult {
        conversation: Conversation,
        turn: ToolTurn,
        output: String,
    },
    /// Over.
    Finished,
}

/// What a [`RunPhase`] holds.
pub enum RunPhaseModel {
    Created,
    LoadingSession,
    LoadingCatalog { workspace: Seq<char> },
    ReadingEntries { setup: RunSetupModel },
    Compacting { setup: RunSetupModel, range: CompactionRangeModel },
    RereadingEntries { setup: RunSetupModel },
    AwaitingProvider { conversation: ConversationModel },
    Streaming { conversation: ConversationModel, stream: StreamStateModel },
    SavingAssistant {
        conversation: ConversationModel,
        stream: StreamStateModel,
        message_id: Seq<char>,
        calls: Option<Seq<ToolCallModel>>,
    },
    OpeningTool { conversation: ConversationModel, turn: ToolTurnModel },
    RunningTool {
        conversation: ConversationModel,
        turn: ToolTurnModel,
        result: Option<ToolOutputResultModel>,
    },
    SavingToolResult { conversation: ConversationModel, turn: ToolTurnModel, output: Seq<char> },
    Finished,
}

impl DeepView for RunPhase {
    type V = RunPhaseModel;

    open spec fn deep_view(&self) -> RunPhaseModel {
        match self {
            RunPhase::Created => RunPhaseModel::Created,
            RunPhase::LoadingSession => RunPhaseModel::LoadingSession,
            RunPhase::LoadingCatalog { workspace } => RunPhaseModel::LoadingCatalog {
                workspace: workspace@,
            },
            RunPhase::ReadingEntries { setup } => RunPhaseModel::ReadingEntries {
                setup: setup.deep_view(),
            },
            RunPhase::Compacting { setup, range } => RunPhaseModel::Compacting {
                setup: setup.deep_view(),
                range: range.deep_view(),
            },
            RunPhase::RereadingEntries { setup } => RunPhaseModel::RereadingEntries {
                setup: setup.deep_view(),
            },
            RunPhase::AwaitingProvider { conversation } => RunPhaseModel::AwaitingProvider {
                conversation: conversation.deep_view(),
            },
            RunPhase::Streaming { conversation, stream } => RunPhaseModel::Streaming {
                conversation: conversation.deep_view(),
                stream: stream.deep_view(),
            },
            RunPhase::SavingAssistant { conversation, stream, message_id, calls } =>
                RunPhaseModel::SavingAssistant {
                    conversation: conversation.deep_view(),
                    stream: stream.deep_view(),
                    message_id: message_id@,
                    calls: calls.deep_view(),
                },
            RunPhase::OpeningTool { conversation, turn } => RunPhaseModel::OpeningTool {
                conversation: conversation.deep_view(),
                turn: turn.deep_view(),
            },
            RunPhase::RunningTool { conversation, turn, result } => RunPhaseModel::RunningTool {
                conversation: conversation.deep_view(),
                turn: turn.deep_view(),
                result: result.deep_view(),
            },
            RunPhase::SavingToolResult { conversation, turn, output } => RunPhaseModel::SavingToolResult {
                conversation: conversation.deep_view(),
                turn: turn.deep_view(),
                output: output@,
            },
            RunPhase::Finished => RunPhaseModel::Finished,
        }
    }
}

/// A run in progress.
#[derive(Debug, PartialEq, Eq)]
pub struct RunState {
    /// Where the run stands.
    pub phase: RunPhase,
    /// The last message of the session, parent of the next one.
    pub last_entry_id: String,
}

/// What a [`RunState`] holds.
pub struct RunStateModel {
    pub phase: RunPhaseModel,
    pub last_entry_id: Seq<char>,
}

impl DeepView for RunState {
    type V = RunStateModel;

    open spec fn deep_view(&self) -> RunStateModel {
        RunStateModel {
            phase: self.phase.deep_view(),
            last_entry_id: self.last_entry_id@,
        }
    }
}

/// What a run asks its surroundings to do.
#[derive(Debug, PartialEq, Eq)]
pub enum RunAction {
    /// Publish a runtime event.
    Emit(RuntimeEventKind),
    /// Load the session view.
    LoadSession,
    /// List the skills available in the workspace.
    LoadCatalog {
        workspace: String,
    },
    /// Read the session records.
    ReadEntries,
    /// Compact the session, of which these are the records.
    Compact {
        entries: Vec<SessionEntry>,
    },
    /// Send the messages to the provider.
    SendToProvider {
        messages: Vec<LlmMessage>,
        tools: Vec<ToolDefinition>,
    },
    /// Persist a message; without an identifier the store makes one.
    AppendMessage {
        id: Option<String>,
        parent_id: Option<String>,
        role: MessageRole,
        body: MessageBody,
        tool_call_id: Option<String>,
    },
    /// Start a tool in the context of the session.
    InvokeTool {
        context: SessionContext,
        call: ToolCall,
    },
    /// Let the session accept the next run.
    ReleaseRun,
}

/// What a [`RunAction`] holds.
pub enum RunActionModel {
    Emit(RuntimeEventKindModel),
    LoadSession,
    LoadCatalog { workspace: Seq<char> },
    ReadEntries,
    Compact { entries: Seq<SessionEntryModel> },
    SendToProvider { messages: Seq<LlmMessageModel>, tools: Seq<ToolDefinitionModel> },
    AppendMessage {
        id: Option<Seq<char>>,
        parent_id: Option<Seq<char>>,
        role: MessageRole,
        body: Seq<MessageBlockModel>,
        tool_call_id: Option<Seq<char>>,
    },
    InvokeTool { context: SessionContextModel, call: ToolCallModel },
    ReleaseRun,
}

impl DeepView for RunAction {
    type V = RunActionModel;

    open spec fn deep_view(&self) -> RunActionModel {
        match self {
            RunAction::Emit(a0) => RunActionModel::Emit(a0.deep_view()),
            RunAction::LoadSession => RunActionModel::LoadSession,
            RunAction::LoadCatalog { workspace } => RunActionModel::LoadCatalog {
                workspace: workspace@,
            },
            RunAction::ReadEntries => RunActionModel::ReadEntries,
            RunAction::Compact { entries } => RunActionModel::Compact {
                entries: entries.deep_view(),
            },
            RunAction::SendToProvider { messages, tools } => RunActionModel::SendToProvider {
                messages: messages.deep_view(),
                tools: tools.deep_view(),
            },
            RunAction::AppendMessage { id, parent_id, role, body, tool_call_id } =>
                RunActionModel::AppendMessage {
                    id: id.deep_view(),
                    parent_id: parent_id.deep_view(),
                    role: *role,
                    body: body.deep_view(),
                    tool_call_id: tool_call_id.deep_view(),
                },
            RunAction::InvokeTool { context, call } => RunActionModel::InvokeTool {
                context: context.deep_view(),
                call: call.deep_view(),
            },
            RunAction::ReleaseRun => RunActionModel::ReleaseRun,
        }
    }
}

impl DeltaBuffer {
    /// Create a new buffer with the given threshold.
    pub fn new(threshold: usize) -> (r: Self)
        ensures
            r.deep_view() == (DeltaBufferModel { threshold, buffer: Seq::empty() }),
    {
        DeltaBuffer { threshold, buffer: String::new() }
    }

    /// Append a delta to the buffer.
    ///
    /// Returns all buffered content, and empties the buffer, when its number of characters
    /// reaches the threshold.
    pub fn push(&mut self, delta: &str) -> (r: Option<String>)
        ensures
            final(self).deep_view() == buffer_after(old(self).deep_view(), delta@),
            r.deep_view() == flushed(old(self).deep_view(), delta@),
    {
        self.buffer.push_str(delta);
        if self.buffer.as_str().unicode_len() >= self.threshold {
            let content = self.buffer.clone();
            self.buffer = String::new();
            Some(content)
        } else {
            None
        }
    }

    /// Force-flush any remaining buffered content; `None` if the buffer is empty.
    pub fn flush(&mut self) -> (r: Option<String>)
        ensures
            final(self).deep_view() == (DeltaBufferModel {
                buffer: Seq::empty(),
                ..old(self).deep_view()
            }),
            r.deep_view() == remainder(old(self).deep_view()),
    {
        if self.buffer.as_str().is_empty() {
            assert(self.buffer@ =~= Seq::<char>::empty());
            None
        } else {
            let content = self.buffer.clone();
            self.buffer = String::new();
            Some(content)
        }
    }
}

/// What pushing `delta` flushes.
pub open spec fn flushed(buffer: DeltaBufferModel, delta: Seq<char>) -> Option<Seq<char>> {
    if (buffer.buffer + delta).len() >= buffer.threshold {
        Some(buffer.buffer + delta)
    } else {
        None
    }
}

/// The buffer after pushing `delta`.
pub open spec fn buffer_after(buffer: DeltaBufferModel, delta: Seq<char>) -> DeltaBufferModel {
    if (buffer.buffer + delta).len() >= buffer.threshold {
        DeltaBufferModel { buffer: Seq::empty(), ..buffer }
    } else {
        DeltaBufferModel { buffer: buffer.buffer + delta, ..buffer }
    }
}

/// What a final flush gives.
pub open spec fn remainder(buffer: DeltaBufferModel) -> Option<Seq<char>> {
    if buffer.buffer.len() == 0 {
        None
    } else {
        Some(buffer.buffer)
    }
}

/// Identifier for an in-progress run within a session.
pub type RunId = String;

/// Errors that can occur inside a run after it has started.
#[derive(Debug, PartialEq, Eq)]
pub enum RunError {
    /// An error originating from the session store.
    SessionStore(SessionError),
    /// An error originating from the session view repository.
    SessionView(SessionViewError),
    /// An error originating from the skill registry.
    SkillRegistry(SkillError),
    /// An error originating from the model provider.
    Provider(ProviderError),
    /// Any other fatal run error.
    Other(String),
}

impl RunError {
    /// The text of the error.
    pub open spec fn spec_message(&self) -> Seq<char> {
        match self {
            RunError::SessionStore(error) => error.spec_message(),
            RunError::SessionView(error) => error.spec_message(),
            RunError::SkillRegistry(error) => error.spec_message(),
            RunError::Provider(error) => error.spec_message(),
            RunError::Other(message) => message@,
        }
    }

    /// Returns the text of the error.
    pub fn message(&self) -> (r: String)
        ensures
            r@ == self.spec_message(),
    {
        match self {
            RunError::SessionStore(error) => error.message(),
            RunError::SessionView(error) => error.message(),
            RunError::SkillRegistry(error) => error.message(),
            RunError::Provider(error) => error.message(),
            RunError::Other(message) => message.clone(),
        }
    }
}

/// The final result of a run.
#[derive(Debug, Clone, Copy, PartialEq, Eq)]
pub enum RunOutcome {
    /// The run completed with an assistant response.
    Succeeded,
    /// The run was cancelled by the user.
    Cancelled {
        /// Whether to emit a `RunCancelled` event before `RunFinished`.
        emit_run_cancelled_event: bool,
    },
}

/// The final result of a run, with the text of its error.
pub enum RunResultModel {
    Succeeded,
    Cancelled { emit_run_cancelled_event: bool },
    Failed { message: Seq<char> },
}

/// The final result of a run, with the text of its error.
pub open spec fn result_of(outcome: Result<RunOutcome, RunError>) -> RunResultModel {
    match outcome {
        Ok(RunOutcome::Succeeded) => RunResultModel::Succeeded,
        Ok(RunOutcome::Cancelled { emit_run_cancelled_event }) => RunResultModel::Cancelled {
            emit_run_cancelled_event,
        },
        Err(error) => RunResultModel::Failed { message: error.spec_message() },
    }
}

/// The records of a session, with the skill that each of its `activate_skill` calls names.
#[derive(Debug)]
pub struct Records {
    pub entries: Vec<SessionEntry>,
    pub calls: Vec<ActivateSkillCall>,
}

/// What a [`Records`] holds.
pub struct RecordsModel {
    pub entries: Seq<SessionEntryModel>,
    pub calls: Seq<ActivateSkillCallModel>,
}

impl DeepView for Records {
    type V = RecordsModel;

    open spec fn deep_view(&self) -> RecordsModel {
        RecordsModel { entries: self.entries.deep_view(), calls: self.calls.deep_view() }
    }
}

impl Records {
    /// Looks up the skill calls of the records.
    pub fn of_entries(entries: Vec<SessionEntry>) -> (r: Self)
        ensures
            r.deep_view() == (RecordsModel {
                entries: entries.deep_view(),
                calls: active_path::activate_skill_calls(entries.deep_view()),
            }),
    {
        let calls = active_path::collect_activate_skill_calls(&entries);
        Records { entries, calls }
    }
}

/// What happened outside of a run.
#[derive(Debug)]
pub enum RunInput {
    /// The run begins.
    Start,
    /// The session view was loaded.
    SessionLoaded(Result<SessionView, SessionViewError>),
    /// The skill catalog was read.
    CatalogLoaded(Result<Vec<SkillEntry>, SkillError>),
    /// The session records were read.
    EntriesRead(Result<Records, SessionError>),
    /// A compaction is over.
    Compacted(Result<Option<CompactionEntry>, CompactionError>),
    /// The provider has opened its response stream, or failed to.
    ProviderOpened(Result<(), ProviderError>),
    /// The provider stream gave an event, or failed.
    StreamEvent(Result<ProviderEvent, ProviderError>),
    /// The provider stream is over.
    StreamEnded,
    /// The run was cancelled while its provider stream was being read.
    StreamCancelled,
    /// A tool has started, or failed to.
    ToolOpened(Result<(), String>),
    /// A tool gave an event, or failed.
    ToolEvent(Result<ToolStreamEvent, String>),
    /// A tool is over.
    ToolEnded,
    /// A message was persisted under the given identifier, or could not be.
    MessageAppended(Result<String, SessionError>),
}

/// What a [`RunInput`] says, with errors as their texts.
pub enum RunInputModel {
    Start,
    SessionLoaded(Result<SessionViewModel, Seq<char>>),
    CatalogLoaded(Result<Seq<SkillEntryModel>, Seq<char>>),
    EntriesRead(Result<RecordsModel, Seq<char>>),
    Compacted(Result<Option<CompactionEntryModel>, Seq<char>>),
    ProviderOpened(Result<(), Seq<char>>),
    StreamEvent(Result<ProviderEventModel, Seq<char>>),
    StreamEnded,
    StreamCancelled,
    ToolOpened(Result<(), Seq<char>>),
    ToolEvent(Result<ToolStreamEventModel, Seq<char>>),
    ToolEnded,
    MessageAppended(Result<Seq<char>, Seq<char>>),
}

impl DeepView for RunInput {
    type V = RunInputModel;

    open spec fn deep_view(&self) -> RunInputModel {
        match self {
            RunInput::Start => RunInputModel::Start,
            RunInput::SessionLoaded(Ok(view)) => RunInputModel::SessionLoaded(
                Ok(view.deep_view()),
            ),
            RunInput::SessionLoaded(Err(error)) => RunInputModel::SessionLoaded(
                Err(error.spec_message()),
            ),
            RunInput::CatalogLoaded(Ok(skills)) => RunInputModel::CatalogLoaded(
                Ok(skills.deep_view()),
            ),
            RunInput::CatalogLoaded(Err(error)) => RunInputModel::CatalogLoaded(
                Err(error.spec_message()),
            ),
            RunInput::EntriesRead(Ok(records)) => RunInputModel::EntriesRead(
                Ok(records.deep_view()),
            ),
            RunInput::EntriesRead(Err(error)) => RunInputModel::EntriesRead(
                Err(error.spec_message()),
            ),
            RunInput::Compacted(Ok(entry)) => RunInputModel::Compacted(Ok(entry.deep_view())),
            RunInput::Compacted(Err(error)) => RunInputModel::Compacted(
                Err(error.spec_message()),
            ),
            RunInput::ProviderOpened(Ok(_)) => RunInputModel::ProviderOpened(Ok(())),
            RunInput::ProviderOpened(Err(error)) => RunInputModel::ProviderOpened(
                Err(error.spec_message()),
            ),
            RunInput::StreamEvent(Ok(event)) => RunInputModel::StreamEvent(Ok(event.deep_view())),
            RunInput::StreamEvent(Err(error)) => RunInputModel::StreamEvent(
                Err(error.spec_message()),
            ),
            RunInput::StreamEnded => RunInputModel::StreamEnded,
            RunInput::StreamCancelled => RunInputModel::StreamCancelled,
            RunInput::ToolOpened(Ok(_)) => RunInputModel::ToolOpened(Ok(())),
            RunInput::ToolOpened(Err(error)) => RunInputModel::ToolOpened(Err(error@)),
            RunInput::ToolEvent(Ok(event)) => RunInputModel::ToolEvent(Ok(event.deep_view())),
            RunInput::ToolEvent(Err(error)) => RunInputModel::ToolEvent(Err(error@)),
            RunInput::ToolEnded => RunInputModel::ToolEnded,
            RunInput::MessageAppended(Ok(id)) => RunInputModel::MessageAppended(Ok(id@)),
            RunInput::MessageAppended(Err(error)) => RunInputModel::MessageAppended(
                Err(error.spec_message()),
            ),
        }
    }
}

impl StreamState {
    /// Create a fresh stream state with the given delta buffer threshold.
    pub fn new(threshold: usize) -> (r: Self)
        ensures
            r.deep_view() == fresh_stream(threshold),
    {
        StreamState {
            message_id: None,
            assistant_content: String::new(),
            tool_calls: None,
            completed: false,
            saw_message: false,
            delta_buffer: DeltaBuffer::new(threshold),
        }
    }
}

/// A stream of which nothing was read.
pub open spec fn fresh_stream(threshold: usize) -> StreamStateModel {
    StreamStateModel {
        message_id: None,
        assistant_content: Seq::empty(),
        tool_calls: None,
        completed: false,
        saw_message: false,
        delta_buffer: DeltaBufferModel { threshold, buffer: Seq::empty() },
    }
}

/// Executes a single run.
#[derive(Debug)]
pub struct RunExecutor {
    /// Identifier for this run.
    pub run_id: RunId,
    /// Identifier for the session being run.
    pub session_id: String,
    /// User message for this run.
    pub message: String,
    /// Identifier of the persisted user message.
    pub developer_message_id: String,
    /// Raw content of the workspace instruction file, if found.
    pub workspace_instructions: Option<String>,
    /// Tools that the model may call.
    pub tools: Vec<ToolDefinition>,
    /// When to compact the session.
    pub compaction_config: CompactionConfig,
}

/// What a [`RunExecutor`] holds.
pub struct RunExecutorModel {
    pub run_id: Seq<char>,
    pub session_id: Seq<char>,
    pub message: Seq<char>,
    pub developer_message_id: Seq<char>,
    pub workspace_instructions: Option<Seq<char>>,
    pub tools: Seq<ToolDefinitionModel>,
    pub compaction_config: CompactionConfig,
}

impl DeepView for RunExecutor {
    type V = RunExecutorModel;

    open spec fn deep_view(&self) -> RunExecutorModel {
        RunExecutorModel {
            run_id: self.run_id@,
            session_id: self.session_id@,
            message: self.message@,
            developer_message_id: self.developer_message_id@,
            workspace_instructions: self.workspace_instructions.deep_view(),
            tools: self.tools.deep_view(),
            compaction_config: self.compaction_config,
        }
    }
}

/// A next state with what is to be done on the way to it.
pub type StepModel = (RunStateModel, Seq<RunActionModel>);

/// The events that end a run, in order.
pub open spec fn terminal_events(run_id: Seq<char>, result: RunResultModel) -> Seq<
    RuntimeEventKindModel,
> {
    match result {
        RunResultModel::Succeeded => seq![
            RuntimeEventKindModel::RunFinished {
                run_id,
                status: RunStatus::Succeeded,
                error: None,
            },
        ],
        RunResultModel::Cancelled { emit_run_cancelled_event } => (if emit_run_cancelled_event {
            seq![RuntimeEventKindModel::RunCancelled { run_id }]
        } else {
            Seq::empty()
        }) + seq![
            RuntimeEventKindModel::RunFinished {
                run_id,
                status: RunStatus::Cancelled,
                error: None,
            },
        ],
        RunResultModel::Failed { message } => seq![
            RuntimeEventKindModel::Error { message, run_id: Some(run_id) },
            RuntimeEventKindModel::RunFinished {
                run_id,
                status: RunStatus::Failed,
                error: Some(message),
            },
        ],
    }
}

/// Publishing each of `events`.
pub open spec fn emits(events: Seq<RuntimeEventKindModel>) -> Seq<RunActionModel> {
    events.map_values(|event: RuntimeEventKindModel| RunActionModel::Emit(event))
}

/// What ends a run: the session is released, then the terminal events are published.
pub open spec fn ending(x: RunExecutorModel, result: RunResultModel) -> Seq<RunActionModel> {
    seq![RunActionModel::ReleaseRun] + emits(terminal_events(x.run_id, result))
}

/// The run ends after `before`.
pub open spec fn finish(
    x: RunExecutorModel,
    last: Seq<char>,
    before: Seq<RunActionModel>,
    result: RunResultModel,
) -> StepModel {
    (
        RunStateModel { phase: RunPhaseModel::Finished, last_entry_id: last },
        before + ending(x, result),
    )
}

/// The run fails.
pub open spec fn fail(x: RunExecutorModel, last: Seq<char>, message: Seq<char>) -> StepModel {
    finish(x, last, Seq::empty(), RunResultModel::Failed { message })
}

/// The next turn begins, unless the run was cancelled.
pub open spec fn next_turn(
    x: RunExecutorModel,
    last: Seq<char>,
    conversation: ConversationModel,
    cancelled: bool,
) -> StepModel {
    if cancelled {
        finish(
            x,
            last,
            Seq::empty(),
            RunResultModel::Cancelled { emit_run_cancelled_event: conversation.saw_message },
        )
    } else {
        (
            RunStateModel {
                phase: RunPhaseModel::AwaitingProvider { conversation },
                last_entry_id: last,
            },
            seq![
                RunActionModel::SendToProvider {
                    messages: conversation.messages,
                    tools: x.tools,
                },
            ],
        )
    }
}

/// The context of a run: the active path of the session, with no skill in the system prompt
/// but those that can be activated.
pub open spec fn run_context(
    x: RunExecutorModel,
    skills: Seq<SkillEntryModel>,
    records: RecordsModel,
) -> LlmContextInputModel {
    LlmContextInputModel {
        user_message: x.message,
        history: active_path::active_history_given(records.entries, records.calls),
        tools: x.tools,
        active_skills: Seq::empty(),
        available_skills: skills,
        workspace_instructions: x.workspace_instructions,
    }
}

/// The first turn begins, with the context that the records give.
pub open spec fn first_turn(
    x: RunExecutorModel,
    last: Seq<char>,
    setup: RunSetupModel,
    records: RecordsModel,
    cancelled: bool,
) -> StepModel {
    next_turn(
        x,
        last,
        ConversationModel {
            messages: llm_context::context_messages(run_context(x, setup.skills, records)),
            saw_message: false,
            workspace: setup.workspace,
        },
        cancelled,
    )
}

/// The block to compact before the first turn, when the context is over its threshold and
/// there is one.
pub open spec fn block_to_compact(x: RunExecutorModel, records: RecordsModel) -> Option<
    CompactionRangeModel,
> {
    let messages = history::messages_of(records.entries);
    if compaction::over_threshold(
        x.compaction_config,
        active_path::active_path_given(records.entries, records.calls),
    ) {
        match compaction::oldest_block(messages, compaction::compacted_set(records.entries)) {
            Some(block) => Some(compaction::block_range(messages, block)),
            None => None,
        }
    } else {
        None
    }
}

/// The records were read: the session is compacted first if need be.
pub open spec fn compact_or_begin(
    x: RunExecutorModel,
    last: Seq<char>,
    setup: RunSetupModel,
    records: RecordsModel,
    cancelled: bool,
) -> StepModel {
    match block_to_compact(x, records) {
        Some(range) => (
            RunStateModel {
                phase: RunPhaseModel::Compacting { setup, range },
                last_entry_id: last,
            },
            seq![
                RunActionModel::Emit(
                    RuntimeEventKindModel::CompactionStarted {
                        run_id: x.run_id,
                        session_id: x.session_id,
                        range,
                    },
                ),
                RunActionModel::Compact { entries: records.entries },
            ],
        ),
        None => first_turn(x, last, setup, records, cancelled),
    }
}

/// A compaction is over: its outcome is published, and the records are read again.
pub open spec fn after_compaction(
    x: RunExecutorModel,
    last: Seq<char>,
    setup: RunSetupModel,
    range: CompactionRangeModel,
    outcome: Result<Option<CompactionEntryModel>, Seq<char>>,
) -> StepModel {
    match outcome {
        Ok(entry) => (
            RunStateModel {
                phase: RunPhaseModel::RereadingEntries { setup },
                last_entry_id: last,
            },
            (match entry {
                Some(entry) => seq![
                    RunActionModel::Emit(
                        RuntimeEventKindModel::CompactionCompleted {
                            run_id: x.run_id,
                            session_id: x.session_id,
                            entry_id: entry.id,
                            summary: entry.summary,
                            range,
                        },
                    ),
                ],
                None => Seq::empty(),
            }) + seq![RunActionModel::ReadEntries],
        ),
        Err(error) => finish(
            x,
            last,
            seq![
                RunActionModel::Emit(
                    RuntimeEventKindModel::CompactionFailed {
                        run_id: x.run_id,
                        session_id: x.session_id,
                        error,
                    },
                ),
            ],
            RunResultModel::Failed { message: error },
        ),
    }
}

/// Publishing a piece of assistant text, when there is one.
pub open spec fn delta_actions(
    run_id: Seq<char>,
    message_id: Seq<char>,
    piece: Option<Seq<char>>,
) -> Seq<RunActionModel> {
    match piece {
        Some(delta) => seq![
            RunActionModel::Emit(
                RuntimeEventKindModel::MessageDelta {
                    run_id,
                    message_id,
                    block_index: 0,
                    delta: BlockDeltaModel::TextDelta { delta },
                },
            ),
        ],
        None => Seq::empty(),
    }
}

/// A completed assistant message that is being persisted.
pub struct PendingAssistantModel {
    pub message_id: Seq<char>,
    pub calls: Option<Seq<ToolCallModel>>,
}

/// What one provider event does: the stream state after it, what is to be done, and the
/// message that it completes. Events of another message than the current one do nothing.
pub open spec fn provider_event(
    x: RunExecutorModel,
    last: Seq<char>,
    stream: StreamStateModel,
    event: ProviderEventModel,
) -> (StreamStateModel, Seq<RunActionModel>, Option<PendingAssistantModel>) {
    match event {
        ProviderEventModel::MessageStarted { message_id } => (
            StreamStateModel {
                message_id: Some(message_id),
                assistant_content: Seq::empty(),
                tool_calls: None,
                completed: false,
                saw_message: true,
                delta_buffer: stream.delta_buffer,
            },
            seq![
                RunActionModel::Emit(
                    RuntimeEventKindModel::MessageStarted {
                        run_id: x.run_id,
                        message_id,
                        role: MessageRole::Assistant,
                    },
                ),
            ],
            None,
        ),
        ProviderEventModel::TextDelta { message_id, delta } => if stream.message_id == Some(
            message_id,
        ) {
            (
                StreamStateModel {
                    assistant_content: stream.assistant_content + delta,
                    delta_buffer: buffer_after(stream.delta_buffer, delta),
                    ..stream
                },
                delta_actions(x.run_id, message_id, flushed(stream.delta_buffer, delta)),
                None,
            )
        } else {
            (stream, Seq::empty(), None)
        },
        ProviderEventModel::MessageCompleted { message_id, tool_calls } => if stream.message_id
            == Some(message_id) {
            let body = protocol::assistant_body(stream.assistant_content, tool_calls);
            (
                StreamStateModel {
                    delta_buffer: DeltaBufferModel {
                        buffer: Seq::empty(),
                        ..stream.delta_buffer
                    },
                    ..stream
                },
                delta_actions(x.run_id, message_id, remainder(stream.delta_buffer)) + seq![
                    RunActionModel::Emit(
                        RuntimeEventKindModel::MessageCompleted {
                            run_id: x.run_id,
                            message_id,
                            body: Some(body),
                        },
                    ),
                    RunActionModel::AppendMessage {
                        id: Some(message_id),
                        parent_id: Some(last),
                        role: MessageRole::Assistant,
                        body,
                        tool_call_id: None,
                    },
                ],
                Some(PendingAssistantModel { message_id, calls: tool_calls }),
            )
        } else {
            (stream, Seq::empty(), None)
        },
    }
}

/// The run was cancelled in the middle of a stream: the buffered text and the cancellation
/// are published if a message was in flight, and nothing is persisted.
pub open spec fn cancel_stream(
    x: RunExecutorModel,
    last: Seq<char>,
    stream: StreamStateModel,
) -> StepModel {
    finish(
        x,
        last,
        match stream.message_id {
            Some(message_id) => delta_actions(
                x.run_id,
                message_id,
                remainder(stream.delta_buffer),
            ) + seq![
                RunActionModel::Emit(RuntimeEventKindModel::RunCancelled { run_id: x.run_id }),
            ],
            None => Seq::empty(),
        },
        RunResultModel::Cancelled { emit_run_cancelled_event: false },
    )
}

/// The stream is over: the run succeeds, or goes on with the tool calls of the message.
pub open spec fn end_stream(
    x: RunExecutorModel,
    last: Seq<char>,
    conversation: ConversationModel,
    stream: StreamStateModel,
    cancelled: bool,
) -> StepModel {
    if !stream.completed {
        fail(x, last, "provider stream ended without completing the assistant message"@)
    } else {
        match stream.tool_calls {
            None => finish(x, last, Seq::empty(), RunResultModel::Succeeded),
            Some(calls) => if cancelled {
                finish(
                    x,
                    last,
                    Seq::empty(),
                    RunResultModel::Cancelled { emit_run_cancelled_event: true },
                )
            } else {
                next_tool(
                    x,
                    last,
                    ConversationModel {
                        saw_message: conversation.saw_message || stream.saw_message,
                        ..conversation
                    },
                    ToolTurnModel {
                        messages: seq![
                            LlmMessageModel {
                                role: MessageRole::Assistant,
                                body: protocol::assistant_body(
                                    stream.assistant_content,
                                    Some(calls),
                                ),
                                tool_call_id: None,
                            },
                        ],
                        calls,
                        next: 0,
                    },
                    cancelled,
                )
            },
        }
    }
}

/// The context of a tool: the session of the run and its workspace.
pub open spec fn tool_context(
    session_id: Seq<char>,
    workspace: Seq<char>,
) -> SessionContextModel {
    SessionContextModel { session_id: Some(session_id), workspace_root: Some(workspace) }
}

/// The next tool call of the turn is executed; after the last one the next turn begins, with
/// the assistant message and the tool results added to the request.
pub open spec fn next_tool(
    x: RunExecutorModel,
    last: Seq<char>,
    conversation: ConversationModel,
    turn: ToolTurnModel,
    cancelled: bool,
) -> StepModel {
    if turn.next < turn.calls.len() {
        let call = turn.calls[turn.next];
        (
            RunStateModel {
                phase: RunPhaseModel::OpeningTool { conversation, turn },
                last_entry_id: last,
            },
            seq![
                RunActionModel::Emit(
                    RuntimeEventKindModel::ToolStarted {
                        run_id: x.run_id,
                        tool_call_id: call.id,
                        name: call.name,
                    },
                ),
                RunActionModel::InvokeTool {
                    context: tool_context(x.session_id, conversation.workspace),
                    call,
                },
            ],
        )
    } else {
        next_turn(
            x,
            last,
            ConversationModel {
                messages: conversation.messages + turn.messages,
                ..conversation
            },
            cancelled,
        )
    }
}

/// A tool is over: its result is published and persisted.
pub open spec fn end_tool(
    x: RunExecutorModel,
    last: Seq<char>,
    conversation: ConversationModel,
    turn: ToolTurnModel,
    result: ToolOutputResultModel,
) -> StepModel {
    let call = turn.calls[turn.next];
    (
        RunStateModel {
            phase: RunPhaseModel::SavingToolResult { conversation, turn, output: result.output },
            last_entry_id: last,
        },
        seq![
            RunActionModel::Emit(
                RuntimeEventKindModel::ToolFinished {
                    run_id: x.run_id,
                    tool_call_id: call.id,
                    output: result.output,
                    is_error: result.is_error,
                    exit_code: result.exit_code,
                },
            ),
            RunActionModel::AppendMessage {
                id: None,
                parent_id: Some(last),
                role: MessageRole::Tool,
                body: session::text_body(result.output),
                tool_call_id: Some(call.id),
            },
        ],
    )
}

/// A tool result was persisted: it is added to the turn, and the next call is executed.
pub open spec fn tool_result_saved(
    x: RunExecutorModel,
    id: Seq<char>,
    conversation: ConversationModel,
    turn: ToolTurnModel,
    output: Seq<char>,
    cancelled: bool,
) -> StepModel {
    let call = turn.calls[turn.next];
    next_tool(
        x,
        id,
        conversation,
        ToolTurnModel {
            messages: turn.messages.push(
                LlmMessageModel {
                    role: MessageRole::Tool,
                    body: session::text_body(output),
                    tool_call_id: Some(call.id),
                },
            ),
            calls: turn.calls,
            next: turn.next + 1,
        },
        cancelled,
    )
}

/// What one input does to a run that executes a tool.
pub open spec fn tool_step(
    x: RunExecutorModel,
    state: RunStateModel,
    input: RunInputModel,
    cancelled: bool,
) -> StepModel {
    let last = state.last_entry_id;
    match (state.phase, input) {
        (
            RunPhaseModel::OpeningTool { conversation, turn },
            RunInputModel::ToolOpened(Ok(_)),
        ) => (
            RunStateModel {
                phase: RunPhaseModel::RunningTool { conversation, turn, result: None },
                last_entry_id: last,
            },
            Seq::empty(),
        ),
        (
            RunPhaseModel::OpeningTool { conversation, turn },
            RunInputModel::ToolOpened(Err(error)),
        ) => end_tool(x, last, conversation, turn, tool_error(error)),
        (
            RunPhaseModel::RunningTool { conversation, turn, result },
            RunInputModel::ToolEvent(Ok(ToolStreamEventModel::Chunk { chunk })),
        ) => (
            state,
            seq![
                RunActionModel::Emit(
                    RuntimeEventKindModel::ToolOutputDelta {
                        run_id: x.run_id,
                        tool_call_id: turn.calls[turn.next].id,
                        chunk,
                    },
                ),
            ],
        ),
        (
            RunPhaseModel::RunningTool { conversation, turn, .. },
            RunInputModel::ToolEvent(Ok(ToolStreamEventModel::Done { result })),
        ) => (
            RunStateModel {
                phase: RunPhaseModel::RunningTool { conversation, turn, result: Some(result) },
                last_entry_id: last,
            },
            Seq::empty(),
        ),
        (
            RunPhaseModel::RunningTool { conversation, turn, .. },
            RunInputModel::ToolEvent(Err(error)),
        ) => end_tool(x, last, conversation, turn, tool_error(error)),
        (
            RunPhaseModel::RunningTool { conversation, turn, result },
            RunInputModel::ToolEnded,
        ) => match result {
            Some(result) => end_tool(x, last, conversation, turn, result),
            None => fail(x, last, "tool stream ended without producing a final result"@),
        },
        (
            RunPhaseModel::SavingToolResult { conversation, turn, output },
            RunInputModel::MessageAppended(Ok(id)),
        ) => tool_result_saved(x, id, conversation, turn, output, cancelled),
        (
            RunPhaseModel::SavingToolResult { .. },
            RunInputModel::MessageAppended(Err(error)),
        ) => fail(x, last, error),
        _ => (state, Seq::empty()),
    }
}

/// What one input does to a run that reads a provider stream.
pub open spec fn stream_step(
    x: RunExecutorModel,
    state: RunStateModel,
    input: RunInputModel,
    cancelled: bool,
) -> StepModel {
    let last = state.last_entry_id;
    match (state.phase, input) {
        (
            RunPhaseModel::Streaming { conversation, stream },
            RunInputModel::StreamEvent(Ok(event)),
        ) => {
            let (after, actions, pending) = provider_event(x, last, stream, event);
            (
                RunStateModel {
                    phase: match pending {
                        Some(pending) => RunPhaseModel::SavingAssistant {
                            conversation,
                            stream: after,
                            message_id: pending.message_id,
                            calls: pending.calls,
                        },
                        None => RunPhaseModel::Streaming { conversation, stream: after },
                    },
                    last_entry_id: last,
                },
                actions,
            )
        },
        (
            RunPhaseModel::Streaming { .. },
            RunInputModel::StreamEvent(Err(error)),
        ) => fail(x, last, error),
        (
            RunPhaseModel::Streaming { conversation, stream },
            RunInputModel::StreamCancelled,
        ) => cancel_stream(x, last, stream),
        (
            RunPhaseModel::Streaming { conversation, stream },
            RunInputModel::StreamEnded,
        ) => end_stream(x, last, conversation, stream, cancelled),
        (
            RunPhaseModel::SavingAssistant { conversation, stream, message_id, calls },
            RunInputModel::MessageAppended(Ok(_)),
        ) => (
            RunStateModel {
                phase: RunPhaseModel::Streaming {
                    conversation,
                    stream: StreamStateModel { tool_calls: calls, completed: true, ..stream },
                },
                last_entry_id: message_id,
            },
            Seq::empty(),
        ),
        (
            RunPhaseModel::SavingAssistant { .. },
            RunInputModel::MessageAppended(Err(error)),
        ) => fail(x, last, error),
        _ => (state, Seq::empty()),
    }
}

/// What one input does to a run. An input that the run does not wait for does nothing.
pub open spec fn run_step(
    x: RunExecutorModel,
    state: RunStateModel,
    input: RunInputModel,
    cancelled: bool,
) -> StepModel {
    let last = state.last_entry_id;
    match state.phase {
        RunPhaseModel::Created => match input {
            RunInputModel::Start => (
                RunStateModel { phase: RunPhaseModel::LoadingSession, last_entry_id: last },
                seq![
                    RunActionModel::Emit(
                        RuntimeEventKindModel::RunStarted {
                            session_id: x.session_id,
                            run_id: x.run_id,
                        },
                    ),
                    RunActionModel::LoadSession,
                ],
            ),
            _ => (state, Seq::empty()),
        },
        RunPhaseModel::LoadingSession => match input {
            RunInputModel::SessionLoaded(Ok(view)) => (
                RunStateModel {
                    phase: RunPhaseModel::LoadingCatalog { workspace: view.workspace },
                    last_entry_id: last,
                },
                seq![RunActionModel::LoadCatalog { workspace: view.workspace }],
            ),
            RunInputModel::SessionLoaded(Err(error)) => fail(x, last, error),
            _ => (state, Seq::empty()),
        },
        RunPhaseModel::LoadingCatalog { workspace } => match input {
            RunInputModel::CatalogLoaded(Ok(skills)) => (
                RunStateModel {
                    phase: RunPhaseModel::ReadingEntries {
                        setup: RunSetupModel { workspace, skills },
                    },
                    last_entry_id: last,
                },
                seq![RunActionModel::ReadEntries],
            ),
            RunInputModel::CatalogLoaded(Err(error)) => fail(x, last, error),
            _ => (state, Seq::empty()),
        },
        RunPhaseModel::ReadingEntries { setup } => match input {
            RunInputModel::EntriesRead(Ok(records)) => compact_or_begin(
                x,
                last,
                setup,
                records,
                cancelled,
            ),
            RunInputModel::EntriesRead(Err(error)) => fail(x, last, error),
            _ => (state, Seq::empty()),
        },
        RunPhaseModel::Compacting { setup, range } => match input {
            RunInputModel::Compacted(outcome) => after_compaction(x, last, setup, range, outcome),
            _ => (state, Seq::empty()),
        },
        RunPhaseModel::RereadingEntries { setup } => match input {
            RunInputModel::EntriesRead(Ok(records)) => first_turn(
                x,
                last,
                setup,
                records,
                cancelled,
            ),
            RunInputModel::EntriesRead(Err(error)) => fail(x, last, error),
            _ => (state, Seq::empty()),
        },
        RunPhaseModel::AwaitingProvider { conversation } => match input {
            RunInputModel::ProviderOpened(Ok(_)) => (
                RunStateModel {
                    phase: RunPhaseModel::Streaming {
                        conversation,
                        stream: fresh_stream(DELTA_BUFFER_THRESHOLD),
                    },
                    last_entry_id: last,
                },
                Seq::empty(),
            ),
            RunInputModel::ProviderOpened(Err(error)) => fail(x, last, error),
            _ => (state, Seq::empty()),
        },
        RunPhaseModel::Streaming { .. } => stream_step(x, state, input, cancelled),
        RunPhaseModel::SavingAssistant { .. } => stream_step(x, state, input, cancelled),
        RunPhaseModel::OpeningTool { .. } => tool_step(x, state, input, cancelled),
        RunPhaseModel::RunningTool { .. } => tool_step(x, state, input, cancelled),
        RunPhaseModel::SavingToolResult { .. } => tool_step(x, state, input, cancelled),
        RunPhaseModel::Finished => (state, Seq::empty()),
    }
}

/// The state executes a call that its turn holds, if it executes one.
pub open spec fn is_valid(state: RunStateModel) -> bool {
    match state.phase {
        RunPhaseModel::OpeningTool { turn, .. } => turn.next < turn.calls.len(),
        RunPhaseModel::RunningTool { turn, .. } => turn.next < turn.calls.len(),
        RunPhaseModel::SavingToolResult { turn, .. } => turn.next < turn.calls.len(),
        _ => true,
    }
}

/// A run before it starts.
pub open spec fn initial_state(x: RunExecutorModel) -> RunStateModel {
    RunStateModel { phase: RunPhaseModel::Created, last_entry_id: x.developer_message_id }
}

/// A next state with what is to be done on the way to it.
pub type Step = (RunState, Vec<RunAction>);

/// What a [`Step`] holds.
pub open spec fn step_model(step: Step) -> StepModel {
    (step.0.deep_view(), step.1.deep_view())
}

/// A completed assistant message that is being persisted.
#[derive(Debug)]
pub struct PendingAssistant {
    pub message_id: String,
    pub calls: Option<Vec<ToolCall>>,
}

impl DeepView for PendingAssistant {
    type V = PendingAssistantModel;

    open spec fn deep_view(&self) -> PendingAssistantModel {
        PendingAssistantModel { message_id: self.message_id@, calls: self.calls.deep_view() }
    }
}

fn no_actions() -> (r: Vec<RunAction>)
    ensures
        r.deep_view() == Seq::<RunActionModel>::empty(),
{
    let r: Vec<RunAction> = Vec::new();
    assert(r.deep_view() =~= Seq::empty());
    r
}

fn one_action(action: RunAction) -> (r: Vec<RunAction>)
    ensures
        r.deep_view() == seq![action.deep_view()],
{
    let mut r: Vec<RunAction> = Vec::new();
    r.push(action);
    assert(r.deep_view() =~= seq![action.deep_view()]);
    r
}

fn two_actions(first: RunAction, second: RunAction) -> (r: Vec<RunAction>)
    ensures
        r.deep_view() == seq![first.deep_view(), second.deep_view()],
{
    let mut r: Vec<RunAction> = Vec::new();
    r.push(first);
    r.push(second);
    assert(r.deep_view() =~= seq![first.deep_view(), second.deep_view()]);
    r
}

/// Appends an action.
fn add_action(actions: &mut Vec<RunAction>, action: RunAction)
    ensures
        final(actions).deep_view() == old(actions).deep_view().push(action.deep_view()),
{
    let ghost before = actions.deep_view();
    actions.push(action);
    assert(actions.deep_view() =~= before.push(action.deep_view()));
}

/// Appends actions.
fn add_actions(actions: &mut Vec<RunAction>, more: Vec<RunAction>)
    ensures
        final(actions).deep_view() == old(actions).deep_view() + more.deep_view(),
{
    let ghost before = actions.deep_view();
    let ghost added = more.deep_view();
    let mut more = more;
    actions.append(&mut more);
    assert(actions.deep_view() =~= before + added);
}

impl RunExecutor {
    /// The run before it starts.
    pub fn initial_state(&self) -> (r: RunState)
        ensures
            r.deep_view() == initial_state(self.deep_view()),
            is_valid(r.deep_view()),
    {
        RunState {
            phase: RunPhase::Created,
            last_entry_id: self.developer_message_id.clone(),
        }
    }

    /// End the run: release the session, then publish the terminal events.
    pub fn run(&self, outcome: Result<RunOutcome, RunError>) -> (r: Vec<RunAction>)
        ensures
            r.deep_view() == ending(self.deep_view(), result_of(outcome)),
    {
        let ghost x = self.deep_view();
        let ghost result = result_of(outcome);
        let mut r = one_action(RunAction::ReleaseRun);
        match outcome {
            Ok(RunOutcome::Succeeded) => {
                add_action(
                    &mut r,
                    RunAction::Emit(
                        RuntimeEventKind::run_finished(&self.run_id, RunStatus::Succeeded, None),
                    ),
                );
            },
            Ok(RunOutcome::Cancelled { emit_run_cancelled_event }) => {
                if emit_run_cancelled_event {
                    add_action(
                        &mut r,
                        RunAction::Emit(RuntimeEventKind::run_cancelled(&self.run_id)),
                    );
                }
                add_action(
                    &mut r,
                    RunAction::Emit(
                        RuntimeEventKind::run_finished(&self.run_id, RunStatus::Cancelled, None),
                    ),
                );
            },
            Err(error) => {
                let message = error.message();
                add_action(
                    &mut r,
                    RunAction::Emit(
                        RuntimeEventKind::error(Some(self.run_id.clone()), &message),
                    ),
                );
                add_action(
                    &mut r,
                    RunAction::Emit(
                        RuntimeEventKind::run_finished(
                            &self.run_id,
                            RunStatus::Failed,
                            Some(message),
                        ),
                    ),
                );
            },
        }
        assert(r.deep_view() =~= ending(x, result));
        r
    }

    fn finish(
        &self,
        last: String,
        before: Vec<RunAction>,
        outcome: Result<RunOutcome, RunError>,
    ) -> (r: Step)
        ensures
            step_model(r) == finish(
                self.deep_view(),
                last@,
                before.deep_view(),
                result_of(outcome),
            ),
    {
        let mut actions = before;
        add_actions(&mut actions, self.run(outcome));
        (RunState { phase: RunPhase::Finished, last_entry_id: last }, actions)
    }

    fn fail(&self, last: String, error: RunError) -> (r: Step)
        ensures
            step_model(r) == fail(self.deep_view(), last@, error.spec_message()),
    {
        self.finish(last, no_actions(), Err(error))
    }

    fn next_turn(&self, last: String, conversation: Conversation, cancelled: bool) -> (r: Step)
        ensures
            step_model(r) == next_turn(
                self.deep_view(),
                last@,
                conversation.deep_view(),
                cancelled,
            ),
    {
        if cancelled {
            self.finish(
                last,
                no_actions(),
                Ok(
                    RunOutcome::Cancelled {
                        emit_run_cancelled_event: conversation.saw_message,
                    },
                ),
            )
        } else {
            let messages = conversation.messages.clone();
            assert(messages.deep_view() =~= conversation.messages.deep_view());
            let tools = self.tools.clone();
            assert(tools.deep_view() =~= self.tools.deep_view());
            (
                RunState {
                    phase: RunPhase::AwaitingProvider { conversation },
                    last_entry_id: last,
                },
                one_action(RunAction::SendToProvider { messages, tools }),
            )
        }
    }

    fn first_turn(
        &self,
        last: String,
        setup: RunSetup,
        records: Records,
        cancelled: bool,
    ) -> (r: Step)
        ensures
            step_model(r) == first_turn(
                self.deep_view(),
                last@,
                setup.deep_view(),
                records.deep_view(),
                cancelled,
            ),
    {
        let history = active_path::build_active_history_given(&records.entries, &records.calls);
        let tools = self.tools.clone();
        assert(tools.deep_view() =~= self.tools.deep_view());
        let active_skills: Vec<protocol::ActivatedSkill> = Vec::new();
        assert(active_skills.deep_view() =~= Seq::empty());
        // The system prompt is built once per run and stays the same in every turn. Skill
        // contents reach the model through the messages, never through the system prompt.
        let input = LlmContextInput {
            user_message: self.message.clone(),
            history,
            tools,
            active_skills,
            available_skills: setup.skills,
            workspace_instructions: self.workspace_instructions.clone(),
        };
        let messages = LlmContextBuilder::new().build(input);
        self.next_turn(
            last,
            Conversation { messages, saw_message: false, workspace: setup.workspace },
            cancelled,
        )
    }

    /// The records were read: compact the oldest block of messages first if the active path
    /// is over its threshold, else begin the first turn.
    pub fn maybe_compact(
        &self,
        last: String,
        setup: RunSetup,
        records: Records,
        cancelled: bool,
    ) -> (r: Step)
        ensures
            step_model(r) == compact_or_begin(
                self.deep_view(),
                last@,
                setup.deep_view(),
                records.deep_view(),
                cancelled,
            ),
    {
        let service = CompactionService::new(self.compaction_config);
        let path = active_path::build_active_path_given(&records.entries, &records.calls);
        if !service.is_compaction_needed(&path) {
            return self.first_turn(last, setup, records, cancelled);
        }
        let messages = compaction::collect_messages(&records.entries);
        let compacted_ids = CompactionService::collect_compacted_ids(&records.entries);
        match CompactionService::select_compaction_range(&messages, &compacted_ids) {
            None => self.first_turn(last, setup, records, cancelled),
            Some(range) => {
                let started = RuntimeEventKind::compaction_started(
                    &self.run_id,
                    &self.session_id,
                    range.clone(),
                );
                (
                    RunState {
                        phase: RunPhase::Compacting { setup, range },
                        last_entry_id: last,
                    },
                    two_actions(
                        RunAction::Emit(started),
                        RunAction::Compact { entries: records.entries },
                    ),
                )
            },
        }
    }

    fn after_compaction(
        &self,
        last: String,
        setup: RunSetup,
        range: CompactionRange,
        outcome: Result<Option<CompactionEntry>, CompactionError>,
    ) -> (r: Step)
        ensures
            step_model(r) == after_compaction(
                self.deep_view(),
                last@,
                setup.deep_view(),
                range.deep_view(),
                match outcome {
                    Ok(entry) => Ok(entry.deep_view()),
                    Err(error) => Err(error.spec_message()),
                },
            ),
    {
        match outcome {
            Ok(entry) => {
                let mut actions = no_actions();
                if let Some(entry) = entry {
                    add_action(
                        &mut actions,
                        RunAction::Emit(
                            RuntimeEventKind::compaction_completed(
                                &self.run_id,
                                &self.session_id,
                                &entry.id,
                                &entry.summary,
                                range,
                            ),
                        ),
                    );
                }
                add_action(&mut actions, RunAction::ReadEntries);
                let r = (
                    RunState { phase: RunPhase::RereadingEntries { setup }, last_entry_id: last },
                    actions,
                );
                assert(step_model(r).1 =~= after_compaction(
                    self.deep_view(),
                    last@,
                    setup.deep_view(),
                    range.deep_view(),
                    Ok(entry.deep_view()),
                ).1);
                r
            },
            Err(error) => {
                let message = error.message();
                let failed = RuntimeEventKind::compaction_failed(
                    &self.run_id,
                    &self.session_id,
                    &message,
                );
                self.finish(
                    last,
                    one_action(RunAction::Emit(failed)),
                    Err(RunError::Other(message)),
                )
            },
        }
    }

    /// Publishing a piece of assistant text, when there is one.
    fn delta_actions(&self, message_id: &str, piece: Option<String>) -> (r: Vec<RunAction>)
        ensures
            r.deep_view() == delta_actions(
                self.deep_view().run_id,
                message_id@,
                piece.deep_view(),
            ),
    {
        match piece {
            Some(delta) => one_action(
                RunAction::Emit(
                    RuntimeEventKind::message_delta(&self.run_id, message_id, &delta),
                ),
            ),
            None => no_actions(),
        }
    }

    /// Handle a single provider event: update the stream state, publish what it says, and
    /// persist the assistant message that it completes.
    pub fn handle_provider_event(
        &self,
        event: ProviderEvent,
        stream: &mut StreamState,
        last_entry_id: &str,
    ) -> (r: (Vec<RunAction>, Option<PendingAssistant>))
        ensures
            (final(stream).deep_view(), r.0.deep_view(), r.1.deep_view()) == provider_event(
                self.deep_view(),
                last_entry_id@,
                old(stream).deep_view(),
                event.deep_view(),
            ),
    {
        match event {
            ProviderEvent::MessageStarted { message_id } => {
                let started = RuntimeEventKind::message_started(
                    &self.run_id,
                    &message_id,
                    MessageRole::Assistant,
                );
                stream.saw_message = true;
                stream.message_id = Some(message_id);
                stream.assistant_content = String::new();
                stream.tool_calls = None;
                stream.completed = false;
                (one_action(RunAction::Emit(started)), None)
            },
            ProviderEvent::TextDelta { message_id, delta } => {
                if compaction::is_current(&stream.message_id, &message_id) {
                    stream.assistant_content.push_str(&delta);
                    let piece = stream.delta_buffer.push(&delta);
                    (self.delta_actions(&message_id, piece), None)
                } else {
                    (no_actions(), None)
                }
            },
            ProviderEvent::MessageCompleted { message_id, tool_calls } => {
                if compaction::is_current(&stream.message_id, &message_id) {
                    let piece = stream.delta_buffer.flush();
                    let mut actions = self.delta_actions(&message_id, piece);
                    let ghost before = actions.deep_view();
                    let body = protocol::build_assistant_body(
                        &stream.assistant_content,
                        &tool_calls,
                    );
                    let completed = RuntimeEventKind::message_completed(
                        &self.run_id,
                        &message_id,
                        Some(body.clone()),
                    );
                    let append = RunAction::AppendMessage {
                        id: Some(message_id.clone()),
                        parent_id: Some(last_entry_id.to_owned()),
                        role: MessageRole::Assistant,
                        body,
                        tool_call_id: None,
                    };
                    add_actions(
                        &mut actions,
                        two_actions(RunAction::Emit(completed), append),
                    );
                    (actions, Some(PendingAssistant { message_id, calls: tool_calls }))
                } else {
                    (no_actions(), None)
                }
            },
        }
    }

    fn cancel_stream(&self, last: String, stream: StreamState) -> (r: Step)
        ensures
            step_model(r) == cancel_stream(self.deep_view(), last@, stream.deep_view()),
    {
        let mut stream = stream;
        let mut actions = no_actions();
        if let Some(message_id) = &stream.message_id {
            // A partial assistant message is not persisted.
            let piece = stream.delta_buffer.flush();
            actions = self.delta_actions(message_id, piece);
            let ghost before = actions.deep_view();
            add_action(
                &mut actions,
                RunAction::Emit(RuntimeEventKind::run_cancelled(&self.run_id)),
            );
            assert(actions.deep_view() =~= before + seq![
                RunActionModel::Emit(
                    RuntimeEventKindModel::RunCancelled { run_id: self.deep_view().run_id },
                ),
            ]);
        }
        self.finish(
            last,
            actions,
            Ok(RunOutcome::Cancelled { emit_run_cancelled_event: false }),
        )
    }

    fn next_tool(
        &self,
        last: String,
        conversation: Conversation,
        turn: ToolTurn,
        cancelled: bool,
    ) -> (r: Step)
        ensures
            step_model(r) == next_tool(
                self.deep_view(),
                last@,
                conversation.deep_view(),
                turn.deep_view(),
                cancelled,
            ),
            is_valid(r.0.deep_view()),
    {
        let count: usize = turn.calls.len();
        assert(turn.calls.deep_view().len() == count);
        if turn.next < count {
            let call = turn.calls[turn.next].clone();
            assert(turn.calls.deep_view()[turn.next as int] == call.deep_view());
            let started = RuntimeEventKind::tool_started(&self.run_id, &call.id, &call.name);
            let context = SessionContext {
                session_id: Some(self.session_id.clone()),
                workspace_root: Some(conversation.workspace.clone()),
            };
            (
                RunState {
                    phase: RunPhase::OpeningTool { conversation, turn },
                    last_entry_id: last,
                },
                two_actions(RunAction::Emit(started), RunAction::InvokeTool { context, call }),
            )
        } else {
            let ghost before = conversation.messages.deep_view();
            let ghost added = turn.messages.deep_view();
            let mut messages = conversation.messages;
            let mut more = turn.messages;
            messages.append(&mut more);
            assert(messages.deep_view() =~= before + added);
            self.next_turn(
                last,
                Conversation {
                    messages,
                    saw_message: conversation.saw_message,
                    workspace: conversation.workspace,
                },
                cancelled,
            )
        }
    }

    fn end_stream(
        &self,
        last: String,
        conversation: Conversation,
        stream: StreamState,
        cancelled: bool,
    ) -> (r: Step)
        ensures
            step_model(r) == end_stream(
                self.deep_view(),
                last@,
                conversation.deep_view(),
                stream.deep_view(),
                cancelled,
            ),
            is_valid(r.0.deep_view()),
    {
        if !stream.completed {
            return self.fail(
                last,
                RunError::Other(
                    "provider stream ended without completing the assistant message".to_owned(),
                ),
            );
        }
        match stream.tool_calls {
            None => self.finish(last, no_actions(), Ok(RunOutcome::Succeeded)),
            Some(calls) => {
                if cancelled {
                    return self.finish(
                        last,
                        no_actions(),
                        Ok(RunOutcome::Cancelled { emit_run_cancelled_event: true }),
                    );
                }
                let copied = calls.clone();
                assert(copied.deep_view() =~= calls.deep_view());
                let assistant = LlmMessage::assistant(&stream.assistant_content, Some(copied));
                let mut messages: Vec<LlmMessage> = Vec::new();
                messages.push(assistant);
                assert(messages.deep_view() =~= seq![assistant.deep_view()]);
                self.next_tool(
                    last,
                    Conversation {
                        messages: conversation.messages,
                        saw_message: conversation.saw_message || stream.saw_message,
                        workspace: conversation.workspace,
                    },
                    ToolTurn { messages, calls, next: 0 },
                    cancelled,
                )
            },
        }
    }

    /// Take in one input while a provider stream is read: publish message events, persist
    /// the completed assistant message, and go on when the stream is over.
    pub fn consume_provider_stream(&self, state: RunState, input: RunInput, cancelled: bool) -> (r:
        Step)
        requires
            is_valid(state.deep_view()),
        ensures
            step_model(r) == stream_step(
                self.deep_view(),
                state.deep_view(),
                input.deep_view(),
                cancelled,
            ),
            is_valid(r.0.deep_view()),
    {
        let RunState { phase, last_entry_id: last } = state;
        match (phase, input) {
            (RunPhase::Streaming { conversation, stream }, RunInput::StreamEvent(Ok(event))) => {
                let mut stream = stream;
                let (actions, pending) = self.handle_provider_event(event, &mut stream, &last);
                let phase = match pending {
                    Some(pending) => RunPhase::SavingAssistant {
                        conversation,
                        stream,
                        message_id: pending.message_id,
                        calls: pending.calls,
                    },
                    None => RunPhase::Streaming { conversation, stream },
                };
                (RunState { phase, last_entry_id: last }, actions)
            },
            (RunPhase::Streaming { .. }, RunInput::StreamEvent(Err(error))) => self.fail(
                last,
                RunError::Provider(error),
            ),
            (RunPhase::Streaming { stream, .. }, RunInput::StreamCancelled) => self.cancel_stream(
                last,
                stream,
            ),
            (RunPhase::Streaming { conversation, stream }, RunInput::StreamEnded) =>
                self.end_stream(last, conversation, stream, cancelled),
            (
                RunPhase::SavingAssistant { conversation, stream, message_id, calls },
                RunInput::MessageAppended(Ok(_)),
            ) => {
                let stream = StreamState {
                    message_id: stream.message_id,
                    assistant_content: stream.assistant_content,
                    tool_calls: calls,
                    completed: true,
                    saw_message: stream.saw_message,
                    delta_buffer: stream.delta_buffer,
                };
                (
                    RunState {
                        phase: RunPhase::Streaming { conversation, stream },
                        last_entry_id: message_id,
                    },
                    no_actions(),
                )
            },
            (RunPhase::SavingAssistant { .. }, RunInput::MessageAppended(Err(error))) => self.fail(
                last,
                RunError::SessionStore(error),
            ),
            (phase, _) => (RunState { phase, last_entry_id: last }, no_actions()),
        }
    }

    fn end_tool(
        &self,
        last: String,
        conversation: Conversation,
        turn: ToolTurn,
        result: ToolOutputResult,
    ) -> (r: Step)
        requires
            turn.next < turn.calls@.len(),
        ensures
            step_model(r) == end_tool(
                self.deep_view(),
                last@,
                conversation.deep_view(),
                turn.deep_view(),
                result.deep_view(),
            ),
            is_valid(r.0.deep_view()),
    {
        let call_id = turn.calls[turn.next].id.clone();
        assert(turn.calls.deep_view()[turn.next as int]
            == turn.calls@[turn.next as int].deep_view());
        let finished = RuntimeEventKind::tool_finished(
            &self.run_id,
            &call_id,
            &result.output,
            result.is_error,
            result.exit_code,
        );
        let append = RunAction::AppendMessage {
            id: None,
            parent_id: Some(last.clone()),
            role: MessageRole::Tool,
            body: MessageBody::text(&result.output),
            tool_call_id: Some(call_id),
        };
        (
            RunState {
                phase: RunPhase::SavingToolResult { conversation, turn, output: result.output },
                last_entry_id: last,
            },
            two_actions(RunAction::Emit(finished), append),
        )
    }

    /// Take in one input while a tool call is executed: publish its output, persist its
    /// result, and go on with the next call or the next turn.
    pub fn execute_tool_call(&self, state: RunState, input: RunInput, cancelled: bool) -> (r: Step)
        requires
            is_valid(state.deep_view()),
        ensures
            step_model(r) == tool_step(
                self.deep_view(),
                state.deep_view(),
                input.deep_view(),
                cancelled,
            ),
            is_valid(r.0.deep_view()),
    {
        let RunState { phase, last_entry_id: last } = state;
        match (phase, input) {
            (RunPhase::OpeningTool { conversation, turn }, RunInput::ToolOpened(Ok(_))) => (
                RunState {
                    phase: RunPhase::RunningTool { conversation, turn, result: None },
                    last_entry_id: last,
                },
                no_actions(),
            ),
            (RunPhase::OpeningTool { conversation, turn }, RunInput::ToolOpened(Err(error))) =>
                self.end_tool(last, conversation, turn, ToolOutputResult::error(&error)),
            (
                RunPhase::RunningTool { conversation, turn, result },
                RunInput::ToolEvent(Ok(ToolStreamEvent::Chunk { chunk })),
            ) => {
                assert(turn.calls.deep_view()[turn.next as int]
                    == turn.calls@[turn.next as int].deep_view());
                let output = RuntimeEventKind::tool_output_delta(
                    &self.run_id,
                    &turn.calls[turn.next].id,
                    &chunk,
                );
                (
                    RunState {
                        phase: RunPhase::RunningTool { conversation, turn, result },
                        last_entry_id: last,
                    },
                    one_action(RunAction::Emit(output)),
                )
            },
            (
                RunPhase::RunningTool { conversation, turn, .. },
                RunInput::ToolEvent(Ok(ToolStreamEvent::Done { result })),
            ) => (
                RunState {
                    phase: RunPhase::RunningTool { conversation, turn, result: Some(result) },
                    last_entry_id: last,
                },
                no_actions(),
            ),
            (
                RunPhase::RunningTool { conversation, turn, .. },
                RunInput::ToolEvent(Err(error)),
            ) => self.end_tool(last, conversation, turn, ToolOutputResult::error(&error)),
            (RunPhase::RunningTool { conversation, turn, result }, RunInput::ToolEnded) => {
                match result {
                    Some(result) => self.end_tool(last, conversation, turn, result),
                    None => self.fail(
                        last,
                        RunError::Other(
                            "tool stream ended without producing a final result".to_owned(),
                        ),
                    ),
                }
            },
            (
                RunPhase::SavingToolResult { conversation, turn, output },
                RunInput::MessageAppended(Ok(id)),
            ) => {
                let ghost before = turn.deep_view();
                assert(turn.calls.deep_view()[turn.next as int]
                    == turn.calls@[turn.next as int].deep_view());
                let result = LlmMessage::tool_result(&turn.calls[turn.next].id, &output);
                let mut messages = turn.messages;
                messages.push(result);
                assert(messages.deep_view() =~= before.messages.push(result.deep_view()));
                let count: usize = turn.calls.len();
                assert(turn.next < count);
                let next: usize = turn.next + 1;
                self.next_tool(
                    id,
                    conversation,
                    ToolTurn { messages, calls: turn.calls, next },
                    cancelled,
                )
            },
            (RunPhase::SavingToolResult { .. }, RunInput::MessageAppended(Err(error))) => self.fail(
                last,
                RunError::SessionStore(error),
            ),
            (phase, _) => (RunState { phase, last_entry_id: last }, no_actions()),
        }
    }

    /// Take in one input: move the run on, and say what is to be done.
    ///
    /// `cancelled` tells whether the run has been cancelled by now; it is looked at between
    /// turns. An input that the run does not wait for does nothing.
    pub fn run_inner(&self, state: RunState, input: RunInput, cancelled: bool) -> (r: Step)
        requires
            is_valid(state.deep_view()),
        ensures
            step_model(r) == run_step(
                self.deep_view(),
                state.deep_view(),
                input.deep_view(),
                cancelled,
            ),
            is_valid(r.0.deep_view()),
    {
        let RunState { phase, last_entry_id: last } = state;
        match phase {
            RunPhase::Created => match input {
                RunInput::Start => {
                    let started = RuntimeEventKind::run_started(&self.session_id, &self.run_id);
                    (
                        RunState { phase: RunPhase::LoadingSession, last_entry_id: last },
                        two_actions(RunAction::Emit(started), RunAction::LoadSession),
                    )
                },
                _ => (RunState { phase: RunPhase::Created, last_entry_id: last }, no_actions()),
            },
            RunPhase::LoadingSession => match input {
                RunInput::SessionLoaded(Ok(view)) => (
                    RunState {
                        phase: RunPhase::LoadingCatalog { workspace: view.workspace.clone() },
                        last_entry_id: last,
                    },
                    one_action(RunAction::LoadCatalog { workspace: view.workspace }),
                ),
                RunInput::SessionLoaded(Err(error)) => self.fail(
                    last,
                    RunError::SessionView(error),
                ),
                _ => (
                    RunState { phase: RunPhase::LoadingSession, last_entry_id: last },
                    no_actions(),
                ),
            },
            RunPhase::LoadingCatalog { workspace } => match input {
                RunInput::CatalogLoaded(Ok(skills)) => (
                    RunState {
                        phase: RunPhase::ReadingEntries { setup: RunSetup { workspace, skills } },
                        last_entry_id: last,
                    },
                    one_action(RunAction::ReadEntries),
                ),
                RunInput::CatalogLoaded(Err(error)) => self.fail(
                    last,
                    RunError::SkillRegistry(error),
                ),
                _ => (
                    RunState {
                        phase: RunPhase::LoadingCatalog { workspace },
                        last_entry_id: last,
                    },
                    no_actions(),
                ),
            },
            RunPhase::ReadingEntries { setup } => match input {
                RunInput::EntriesRead(Ok(records)) => self.maybe_compact(
                    last,
                    setup,
                    records,
                    cancelled,
                ),
                RunInput::EntriesRead(Err(error)) => self.fail(
                    last,
                    RunError::SessionStore(error),
                ),
                _ => (
                    RunState { phase: RunPhase::ReadingEntries { setup }, last_entry_id: last },
                    no_actions(),
                ),
            },
            RunPhase::Compacting { setup, range } => match input {
                RunInput::Compacted(outcome) => self.after_compaction(
                    last,
                    setup,
                    range,
                    outcome,
                ),
                _ => (
                    RunState {
                        phase: RunPhase::Compacting { setup, range },
                        last_entry_id: last,
                    },
                    no_actions(),
                ),
            },
            RunPhase::RereadingEntries { setup } => match input {
                RunInput::EntriesRead(Ok(records)) => self.first_turn(
                    last,
                    setup,
                    records,
                    cancelled,
                ),
                RunInput::EntriesRead(Err(error)) => self.fail(
                    last,
                    RunError::SessionStore(error),
                ),
                _ => (
                    RunState { phase: RunPhase::RereadingEntries { setup }, last_entry_id: last },
                    no_actions(),
                ),
            },
            RunPhase::AwaitingProvider { conversation } => match input {
                RunInput::ProviderOpened(Ok(_)) => (
                    RunState {
                        phase: RunPhase::Streaming {
                            conversation,
                            stream: StreamState::new(DELTA_BUFFER_THRESHOLD),
                        },
                        last_entry_id: last,
                    },
                    no_actions(),
                ),
                RunInput::ProviderOpened(Err(error)) => self.fail(
                    last,
                    RunError::Provider(error),
                ),
                _ => (
                    RunState {
                        phase: RunPhase::AwaitingProvider { conversation },
                        last_entry_id: last,
                    },
                    no_actions(),
                ),
            },
            RunPhase::Streaming { conversation, stream } => self.consume_provider_stream(
                RunState {
                    phase: RunPhase::Streaming { conversation, stream },
                    last_entry_id: last,
                },
                input,
                cancelled,
            ),
            RunPhase::SavingAssistant { conversation, stream, message_id, calls } =>
                self.consume_provider_stream(
                RunState {
                    phase: RunPhase::SavingAssistant { conversation, stream, message_id, calls },
                    last_entry_id: last,
                },
                input,
                cancelled,
            ),
            RunPhase::OpeningTool { conversation, turn } => self.execute_tool_call(
                RunState {
                    phase: RunPhase::OpeningTool { conversation, turn },
                    last_entry_id: last,
                },
                input,
                cancelled,
            ),
            RunPhase::RunningTool { conversation, turn, result } => self.execute_tool_call(
                RunState {
                    phase: RunPhase::RunningTool { conversation, turn, result },
                    last_entry_id: last,
                },
                input,
                cancelled,
            ),
            RunPhase::SavingToolResult { conversation, turn, output } => self.execute_tool_call(
                RunState {
                    phase: RunPhase::SavingToolResult { conversation, turn, output },
                    last_entry_id: last,
                },
                input,
                cancelled,
            ),
            RunPhase::Finished => (
                RunState { phase: RunPhase::Finished, last_entry_id: last },
                no_actions(),
            ),
        }
    }
}

} // verus!

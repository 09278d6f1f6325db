//! Types that cross the boundary between the daemon, its clients and the runtime.
//!
//! JSON values (tool arguments, tool parameters, request parameters and results) are
//! carried as compact JSON text.

use vstd::prelude::*;

pub mod daemon_address;
pub mod framing;
pub mod ipv6;
pub mod message_laws;
pub mod rpc;
pub mod session;
pub mod socket_address;

use crate::protocol::session::{
    BlockDelta, BlockDeltaModel, CompactionRange, CompactionRangeModel, MessageBlock,
    MessageBlockModel, MessageBody,
};
use crate::text;

verus! {

/// Version tag of every JSON-RPC frame.
pub const JSON_RPC_VERSION: &'static str = "2.0";

/// Version of the protocol between daemon and clients.
pub const PROTOCOL_VERSION: u16 = 1;

/// Method name of runtime event notifications.
pub const RUNTIME_EVENT_METHOD: &'static str = "runtime_event";

/// Role of a message sender.
#[derive(Debug, Clone, Copy, PartialEq, Eq, Structural)]
pub enum MessageRole {
    /// Instructions of the runtime.
    System,
    /// The user.
    Developer,
    /// The model.
    Assistant,
    /// A tool result.
    Tool,
    /// A summary of compacted messages.
    Summary,
}

/// What happened to a session.
#[derive(Debug, Clone, Copy, PartialEq, Eq, Structural)]
pub enum SessionChangeAction {
    Created,
    Loaded,
    Deleted,
}

/// Terminal status of a run.
#[derive(Debug, Clone, Copy, PartialEq, Eq, Structural)]
pub enum RunStatus {
    Succeeded,
    Failed,
    Cancelled,
}

/// Readiness of the daemon.
#[derive(Debug, Clone, Copy, PartialEq, Eq, Structural)]
pub enum DaemonStatus {
    Ready,
}

impl MessageRole {
    /// The text form of the role.
    pub open spec fn spec_text(self) -> Seq<char> {
        match self {
            MessageRole::System => "system"@,
            MessageRole::Developer => "developer"@,
            MessageRole::Assistant => "assistant"@,
            MessageRole::Tool => "tool"@,
            MessageRole::Summary => "summary"@,
        }
    }

    /// Returns the text form of the role.
    pub fn as_text(&self) -> (r: &'static str)
        ensures
            r@ == self.spec_text(),
    {
        match self {
            MessageRole::System => "system",
            MessageRole::Developer => "developer",
            MessageRole::Assistant => "assistant",
            MessageRole::Tool => "tool",
            MessageRole::Summary => "summary",
        }
    }
}

/// Identifier that ties a response to its request.
#[derive(Debug, PartialEq, Eq, Hash)]
pub enum RpcId {
    Number(u64),
    String(String),
}

/// What a [`RpcId`] holds.
pub enum RpcIdModel {
    Number(u64),
    String(Seq<char>),
}

impl DeepView for RpcId {
    type V = RpcIdModel;

    open spec fn deep_view(&self) -> RpcIdModel {
        match self {
            RpcId::Number(a0) => RpcIdModel::Number(*a0),
            RpcId::String(a0) => RpcIdModel::String(a0@),
        }
    }
}

impl Clone for RpcId {
    fn clone(&self) -> (r: Self)
        ensures
            r.deep_view() == self.deep_view(),
    {
        match self {
            RpcId::Number(a0) => RpcId::Number(*a0),
            RpcId::String(a0) => RpcId::String(a0.clone()),
        }
    }
}

impl From<u64> for RpcId {
    fn from(value: u64) -> (r: Self) {
        RpcId::Number(value)
    }
}

impl vstd::std_specs::convert::FromSpecImpl<u64> for RpcId {
    open spec fn obeys_from_spec() -> bool {
        true
    }

    open spec fn from_spec(value: u64) -> Self {
        RpcId::Number(value)
    }
}

impl From<std::string::String> for RpcId {
    fn from(value: std::string::String) -> (r: Self) {
        RpcId::String(value)
    }
}

impl vstd::std_specs::convert::FromSpecImpl<std::string::String> for RpcId {
    open spec fn obeys_from_spec() -> bool {
        true
    }

    open spec fn from_spec(value: std::string::String) -> Self {
        RpcId::String(value)
    }
}

impl<'a> From<&'a str> for RpcId {
    fn from(value: &'a str) -> (r: Self)
        ensures
            r.deep_view() == RpcIdModel::String(value@),
    {
        RpcId::String(value.to_owned())
    }
}

impl<'a> vstd::std_specs::convert::FromSpecImpl<&'a str> for RpcId {
    open spec fn obeys_from_spec() -> bool {
        false
    }

    open spec fn from_spec(value: &'a str) -> Self {
        arbitrary()
    }
}

/// Definition of a tool available to the model.
#[derive(Debug, PartialEq, Eq)]
pub struct ToolDefinition {
    pub name: String,
    pub description: String,
    /// JSON schema of the arguments, as compact JSON text.
    pub parameters: String,
}

/// What a [`ToolDefinition`] holds.
pub struct ToolDefinitionModel {
    pub name: Seq<char>,
    pub description: Seq<char>,
    pub parameters: Seq<char>,
}

impl DeepView for ToolDefinition {
    type V = ToolDefinitionModel;

    open spec fn deep_view(&self) -> ToolDefinitionModel {
        ToolDefinitionModel {
            name: self.name@,
            description: self.description@,
            parameters: self.parameters@,
        }
    }
}

impl Clone for ToolDefinition {
    fn clone(&self) -> (r: Self)
        ensures
            r.deep_view() == self.deep_view(),
    {
        let r = ToolDefinition {
            name: self.name.clone(),
            description: self.description.clone(),
            parameters: self.parameters.clone(),
        };
        r
    }
}

/// A tool call requested by the model.
#[derive(Debug, PartialEq, Eq)]
pub struct ToolCall {
    pub id: String,
    pub name: String,
    /// Arguments, as compact JSON text.
    pub arguments: String,
}

/// What a [`ToolCall`] holds.
pub struct ToolCallModel {
    pub id: Seq<char>,
    pub name: Seq<char>,
    pub arguments: Seq<char>,
}

impl DeepView for ToolCall {
    type V = ToolCallModel;

    open spec fn deep_view(&self) -> ToolCallModel {
        ToolCallModel {
            id: self.id@,
            name: self.name@,
            arguments: self.arguments@,
        }
    }
}

impl Clone for ToolCall {
    fn clone(&self) -> (r: Self)
        ensures
            r.deep_view() == self.deep_view(),
    {
        let r = ToolCall {
            id: self.id.clone(),
            name: self.name.clone(),
            arguments: self.arguments.clone(),
        };
        r
    }
}

/// The result of executing a tool call.
#[derive(Debug, PartialEq, Eq)]
pub struct ToolResult {
    pub tool_call_id: String,
    pub content: String,
    pub is_error: bool,
}

/// What a [`ToolResult`] holds.
pub struct ToolResultModel {
    pub tool_call_id: Seq<char>,
    pub content: Seq<char>,
    pub is_error: bool,
}

impl DeepView for ToolResult {
    type V = ToolResultModel;

    open spec fn deep_view(&self) -> ToolResultModel {
        ToolResultModel {
            tool_call_id: self.tool_call_id@,
            content: self.content@,
            is_error: self.is_error,
        }
    }
}

impl Clone for ToolResult {
    fn clone(&self) -> (r: Self)
        ensures
            r.deep_view() == self.deep_view(),
    {
        let r = ToolResult {
            tool_call_id: self.tool_call_id.clone(),
            content: self.content.clone(),
            is_error: self.is_error,
        };
        r
    }
}

/// A skill available for activation by name.
#[derive(Debug, PartialEq, Eq)]
pub struct SkillEntry {
    pub name: String,
    pub description: String,
}

/// What a [`SkillEntry`] holds.
pub struct SkillEntryModel {
    pub name: Seq<char>,
    pub description: Seq<char>,
}

impl DeepView for SkillEntry {
    type V = SkillEntryModel;

    open spec fn deep_view(&self) -> SkillEntryModel {
        SkillEntryModel {
            name: self.name@,
            description: self.description@,
        }
    }
}

impl Clone for SkillEntry {
    fn clone(&self) -> (r: Self)
        ensures
            r.deep_view() == self.deep_view(),
    {
        let r = SkillEntry {
            name: self.name.clone(),
            description: self.description.clone(),
        };
        r
    }
}

/// The full definition of a skill, including its content.
#[derive(Debug, PartialEq, Eq)]
pub struct SkillDefinition {
    pub name: String,
    pub description: String,
    pub content: String,
}

/// What a [`SkillDefinition`] holds.
pub struct SkillDefinitionModel {
    pub name: Seq<char>,
    pub description: Seq<char>,
    pub content: Seq<char>,
}

impl DeepView for SkillDefinition {
    type V = SkillDefinitionModel;

    open spec fn deep_view(&self) -> SkillDefinitionModel {
        SkillDefinitionModel {
            name: self.name@,
            description: self.description@,
            content: self.content@,
        }
    }
}

impl Clone for SkillDefinition {
    fn clone(&self) -> (r: Self)
        ensures
            r.deep_view() == self.deep_view(),
    {
        let r = SkillDefinition {
            name: self.name.clone(),
            description: self.description.clone(),
            content: self.content.clone(),
        };
        r
    }
}

/// A skill that has been activated for the current session.
#[derive(Debug, PartialEq, Eq)]
pub struct ActivatedSkill {
    pub name: String,
    pub content: String,
}

/// What a [`ActivatedSkill`] holds.
pub struct ActivatedSkillModel {
    pub name: Seq<char>,
    pub content: Seq<char>,
}

impl DeepView for ActivatedSkill {
    type V = ActivatedSkillModel;

    open spec fn deep_view(&self) -> ActivatedSkillModel {
        ActivatedSkillModel {
            name: self.name@,
            content: self.content@,
        }
    }
}

impl Clone for ActivatedSkill {
    fn clone(&self) -> (r: Self)
        ensures
            r.deep_view() == self.deep_view(),
    {
        let r = ActivatedSkill {
            name: self.name.clone(),
            content: self.content.clone(),
        };
        r
    }
}

/// Runtime context supplied to tool invocations.
#[derive(Debug, PartialEq, Eq)]
pub struct SessionContext {
    pub session_id: Option<String>,
    pub workspace_root: Option<String>,
}

/// What a [`SessionContext`] holds.
pub struct SessionContextModel {
    pub session_id: Option<Seq<char>>,
    pub workspace_root: Option<Seq<char>>,
}

impl DeepView for SessionContext {
    type V = SessionContextModel;

    open spec fn deep_view(&self) -> SessionContextModel {
        SessionContextModel {
            session_id: self.session_id.deep_view(),
            workspace_root: self.workspace_root.deep_view(),
        }
    }
}

impl Clone for SessionContext {
    fn clone(&self) -> (r: Self)
        ensures
            r.deep_view() == self.deep_view(),
    {
        let r = SessionContext {
            session_id: self.session_id.clone(),
            workspace_root: self.workspace_root.clone(),
        };
        r
    }
}

/// Public state of the daemon.
#[derive(Debug, PartialEq, Eq)]
pub struct DaemonState {
    pub status: DaemonStatus,
    pub daemon_version: String,
    pub protocol_version: u16,
}

/// What a [`DaemonState`] holds.
pub struct DaemonStateModel {
    pub status: DaemonStatus,
    pub daemon_version: Seq<char>,
    pub protocol_version: u16,
}

impl DeepView for DaemonState {
    type V = DaemonStateModel;

    open spec fn deep_view(&self) -> DaemonStateModel {
        DaemonStateModel {
            status: self.status,
            daemon_version: self.daemon_version@,
            protocol_version: self.protocol_version,
        }
    }
}

impl Clone for DaemonState {
    fn clone(&self) -> (r: Self)
        ensures
            r.deep_view() == self.deep_view(),
    {
        let r = DaemonState {
            status: self.status,
            daemon_version: self.daemon_version.clone(),
            protocol_version: self.protocol_version,
        };
        r
    }
}

/// A message of a provider request, with its content as one text.
#[derive(Debug, PartialEq, Eq)]
pub struct RunMessage {
    pub role: MessageRole,
    pub content: String,
    pub tool_call_id: Option<String>,
    pub tool_calls: Option<Vec<ToolCall>>,
}

/// What a [`RunMessage`] holds.
pub struct RunMessageModel {
    pub role: MessageRole,
    pub content: Seq<char>,
    pub tool_call_id: Option<Seq<char>>,
    pub tool_calls: Option<Seq<ToolCallModel>>,
}

impl DeepView for RunMessage {
    type V = RunMessageModel;

    open spec fn deep_view(&self) -> RunMessageModel {
        RunMessageModel {
            role: self.role,
            content: self.content@,
            tool_call_id: self.tool_call_id.deep_view(),
            tool_calls: self.tool_calls.deep_view(),
        }
    }
}

impl Clone for RunMessage {
    fn clone(&self) -> (r: Self)
        ensures
            r.deep_view() == self.deep_view(),
    {
        let r = RunMessage {
            role: self.role,
            content: self.content.clone(),
            tool_call_id: self.tool_call_id.clone(),
            tool_calls: self.tool_calls.clone(),
        };
        assert(self.tool_calls is Some ==> r.tool_calls->0.deep_view() =~= self.tool_calls->0.deep_view());
        r
    }
}

/// A message of the model context, with its content as typed blocks.
#[derive(Debug, PartialEq, Eq)]
pub struct LlmMessage {
    pub role: MessageRole,
    pub body: MessageBody,
    pub tool_call_id: Option<String>,
}

/// What a [`LlmMessage`] holds.
pub struct LlmMessageModel {
    pub role: MessageRole,
    pub body: Seq<MessageBlockModel>,
    pub tool_call_id: Option<Seq<char>>,
}

impl DeepView for LlmMessage {
    type V = LlmMessageModel;

    open spec fn deep_view(&self) -> LlmMessageModel {
        LlmMessageModel {
            role: self.role,
            body: self.body.deep_view(),
            tool_call_id: self.tool_call_id.deep_view(),
        }
    }
}

impl Clone for LlmMessage {
    fn clone(&self) -> (r: Self)
        ensures
            r.deep_view() == self.deep_view(),
    {
        let r = LlmMessage {
            role: self.role,
            body: self.body.clone(),
            tool_call_id: self.tool_call_id.clone(),
        };
        r
    }
}

/// The arguments of a tool call, seen as a body block.
pub open spec fn call_blocks(calls: Seq<ToolCallModel>) -> Seq<MessageBlockModel> {
    calls.map_values(|call: ToolCallModel| MessageBlockModel::ToolCall(call))
}

/// The body of an assistant message: its text, then its tool calls.
pub open spec fn assistant_body(
    content: Seq<char>,
    tool_calls: Option<Seq<ToolCallModel>>,
) -> Seq<MessageBlockModel> {
    session::text_body(content) + (match tool_calls {
        Some(calls) => call_blocks(calls),
        None => Seq::empty(),
    })
}

/// Builds the body of an assistant message: its text, then its tool calls.
pub fn build_assistant_body(content: &str, tool_calls: &Option<Vec<ToolCall>>) -> (r: MessageBody)
    ensures
        r.deep_view() == assistant_body(content@, tool_calls.deep_view()),
{
    let mut body = MessageBody::text(content);
    if let Some(calls) = tool_calls {
        let ghost model = calls.deep_view();
        assert(body.0.deep_view() =~= session::text_body(content@) + call_blocks(model.take(0)));
        for i in 0..calls.len()
            invariant
                model == calls.deep_view(),
                body.0.deep_view() == session::text_body(content@) + call_blocks(
                    model.take(i as int),
                ),
        {
            let ghost before = body.0.deep_view();
            let call = calls[i].clone();
            let block = MessageBlock::ToolCall(call);
            body.0.push(block);
            assert(body.0.deep_view() =~= before.push(block.deep_view()));
            assert(call_blocks(model.take(i + 1)) =~= call_blocks(model.take(i as int)).push(
                MessageBlockModel::ToolCall(model[i as int]),
            ));
            assert(body.0.deep_view() =~= session::text_body(content@) + call_blocks(
                model.take(i + 1),
            ));
        }
        assert(model.take(model.len() as int) =~= model);
    } else {
        assert(body.0.deep_view() =~= assistant_body(content@, None));
    }
    body
}

impl LlmMessage {
    /// Create a simple text message with the given role.
    pub fn text(role: MessageRole, content: &str) -> (r: Self)
        ensures
            r.deep_view() == llm_text(role, content@),
    {
        LlmMessage { role, body: MessageBody::text(content), tool_call_id: None }
    }

    /// Create an assistant message that may carry tool calls.
    pub fn assistant(content: &str, tool_calls: Option<Vec<ToolCall>>) -> (r: Self)
        ensures
            r.deep_view() == (LlmMessageModel {
                role: MessageRole::Assistant,
                body: assistant_body(content@, tool_calls.deep_view()),
                tool_call_id: None,
            }),
    {
        LlmMessage {
            role: MessageRole::Assistant,
            body: build_assistant_body(content, &tool_calls),
            tool_call_id: None,
        }
    }

    /// Create a tool result message.
    pub fn tool_result(tool_call_id: &str, content: &str) -> (r: Self)
        ensures
            r.deep_view() == (LlmMessageModel {
                role: MessageRole::Tool,
                body: session::text_body(content@),
                tool_call_id: Some(tool_call_id@),
            }),
    {
        LlmMessage {
            role: MessageRole::Tool,
            body: MessageBody::text(content),
            tool_call_id: Some(tool_call_id.to_owned()),
        }
    }

    /// The message with its text blocks joined and its tool calls listed, as a provider
    /// request holds it.
    pub fn to_run_message(&self) -> (r: RunMessage)
        ensures
            r.deep_view() == run_message_of(self.deep_view()),
    {
        let mut content = String::new();
        let mut calls: Vec<ToolCall> = Vec::new();
        let blocks = &self.body.0;
        let ghost model = blocks.deep_view();
        assert(content@ =~= joined_text(model.take(0)));
        assert(calls.deep_view() =~= listed_calls(model.take(0)));
        for i in 0..blocks.len()
            invariant
                model == blocks.deep_view(),
                content@ == joined_text(model.take(i as int)),
                calls.deep_view() == listed_calls(model.take(i as int)),
        {
            let ghost before = calls.deep_view();
            assert(model.take(i + 1).drop_last() =~= model.take(i as int));
            assert(model.take(i + 1).last() == blocks@[i as int].deep_view());
            match &blocks[i] {
                MessageBlock::Text { text } => {
                    content.push_str(text);
                },
                MessageBlock::ToolCall(call) => {
                    calls.push(call.clone());
                    assert(calls.deep_view() =~= before.push(call.deep_view()));
                },
            }
        }
        assert(model.take(model.len() as int) =~= model);
        let count: usize = calls.len();
        assert(calls.deep_view().len() == count);
        let tool_calls = if count == 0 {
            None
        } else {
            Some(calls)
        };
        RunMessage {
            role: self.role,
            content,
            tool_call_id: self.tool_call_id.clone(),
            tool_calls,
        }
    }
}

/// A message with one text block.
pub open spec fn llm_text(role: MessageRole, content: Seq<char>) -> LlmMessageModel {
    LlmMessageModel { role, body: session::text_body(content), tool_call_id: None }
}

/// The text blocks of a body, joined.
pub open spec fn joined_text(blocks: Seq<MessageBlockModel>) -> Seq<char>
    decreases blocks.len(),
{
    if blocks.len() == 0 {
        Seq::empty()
    } else {
        match blocks.last() {
            MessageBlockModel::Text { text } => joined_text(blocks.drop_last()) + text,
            MessageBlockModel::ToolCall(_) => joined_text(blocks.drop_last()),
        }
    }
}

/// The tool calls of a body, in order.
pub open spec fn listed_calls(blocks: Seq<MessageBlockModel>) -> Seq<ToolCallModel>
    decreases blocks.len(),
{
    if blocks.len() == 0 {
        Seq::empty()
    } else {
        match blocks.last() {
            MessageBlockModel::Text { .. } => listed_calls(blocks.drop_last()),
            MessageBlockModel::ToolCall(call) => listed_calls(blocks.drop_last()).push(call),
        }
    }
}

/// A message as a provider request holds it.
pub open spec fn run_message_of(message: LlmMessageModel) -> RunMessageModel {
    let calls = listed_calls(message.body);
    RunMessageModel {
        role: message.role,
        content: joined_text(message.body),
        tool_call_id: message.tool_call_id,
        tool_calls: if calls.len() == 0 {
            None
        } else {
            Some(calls)
        },
    }
}

impl RunMessage {
    /// Create a simple text message with the given role.
    pub fn text(role: MessageRole, content: &str) -> (r: Self)
        ensures
            r.deep_view() == (RunMessageModel {
                role,
                content: content@,
                tool_call_id: None,
                tool_calls: None,
            }),
    {
        RunMessage { role, content: content.to_owned(), tool_call_id: None, tool_calls: None }
    }

    /// Create a tool result message.
    pub fn tool_result(tool_call_id: &str, content: &str) -> (r: Self)
        ensures
            r.deep_view() == (RunMessageModel {
                role: MessageRole::Tool,
                content: content@,
                tool_call_id: Some(tool_call_id@),
                tool_calls: None,
            }),
    {
        RunMessage {
            role: MessageRole::Tool,
            content: content.to_owned(),
            tool_call_id: Some(tool_call_id.to_owned()),
            tool_calls: None,
        }
    }

    /// Create an assistant message that may carry tool calls.
    pub fn assistant(content: &str, tool_calls: Option<Vec<ToolCall>>) -> (r: Self)
        ensures
            r.deep_view() == (RunMessageModel {
                role: MessageRole::Assistant,
                content: content@,
                tool_call_id: None,
                tool_calls: tool_calls.deep_view(),
            }),
    {
        RunMessage {
            role: MessageRole::Assistant,
            content: content.to_owned(),
            tool_call_id: None,
            tool_calls,
        }
    }
}

impl DaemonState {
    /// The state of a daemon that serves requests.
    pub fn ready(daemon_version: &str) -> (r: Self)
        ensures
            r.deep_view() == ready_state(daemon_version@),
    {
        DaemonState {
            status: DaemonStatus::Ready,
            daemon_version: daemon_version.to_owned(),
            protocol_version: PROTOCOL_VERSION,
        }
    }
}

/// The state of a daemon of the given version that serves requests.
pub open spec fn ready_state(daemon_version: Seq<char>) -> DaemonStateModel {
    DaemonStateModel { status: DaemonStatus::Ready, daemon_version, protocol_version: 1 }
}

/// What happened in the runtime.
#[derive(Debug, PartialEq, Eq)]
pub enum RuntimeEventKind {
    DaemonStarted {
        state: DaemonState,
    },
    StateChanged {
        state: DaemonState,
    },
    Error {
        message: String,
        run_id: Option<String>,
    },
    RunStarted {
        session_id: String,
        run_id: String,
    },
    RunFinished {
        run_id: String,
        status: RunStatus,
        error: Option<String>,
    },
    MessageStarted {
        run_id: String,
        message_id: String,
        role: MessageRole,
    },
    MessageDelta {
        run_id: String,
        message_id: String,
        block_index: usize,
        delta: BlockDelta,
    },
    MessageCompleted {
        run_id: String,
        message_id: String,
        body: Option<MessageBody>,
    },
    ToolStarted {
        run_id: String,
        tool_call_id: String,
        name: String,
    },
    ToolOutputDelta {
        run_id: String,
        tool_call_id: String,
        chunk: String,
    },
    ToolFinished {
        run_id: String,
        tool_call_id: String,
        output: String,
        is_error: bool,
        exit_code: Option<i32>,
    },
    RunCancelled {
        run_id: String,
    },
    CompactionStarted {
        run_id: String,
        session_id: String,
        range: CompactionRange,
    },
    CompactionCompleted {
        run_id: String,
        session_id: String,
        entry_id: String,
        summary: String,
        range: CompactionRange,
    },
    CompactionFailed {
        run_id: String,
        session_id: String,
        error: String,
    },
    SessionChanged {
        session_id: String,
        action: SessionChangeAction,
    },
}

/// What a [`RuntimeEventKind`] holds.
pub enum RuntimeEventKindModel {
    DaemonStarted { state: DaemonStateModel },
    StateChanged { state: DaemonStateModel },
    Error { message: Seq<char>, run_id: Option<Seq<char>> },
    RunStarted { session_id: Seq<char>, run_id: Seq<char> },
    RunFinished { run_id: Seq<char>, status: RunStatus, error: Option<Seq<char>> },
    MessageStarted { run_id: Seq<char>, message_id: Seq<char>, role: MessageRole },
    MessageDelta {
        run_id: Seq<char>,
        message_id: Seq<char>,
        block_index: usize,
        delta: BlockDeltaModel,
    },
    MessageCompleted {
        run_id: Seq<char>,
        message_id: Seq<char>,
        body: Option<Seq<MessageBlockModel>>,
    },
    ToolStarted { run_id: Seq<char>, tool_call_id: Seq<char>, name: Seq<char> },
    ToolOutputDelta { run_id: Seq<char>, tool_call_id: Seq<char>, chunk: Seq<char> },
    ToolFinished {
        run_id: Seq<char>,
        tool_call_id: Seq<char>,
        output: Seq<char>,
        is_error: bool,
        exit_code: Option<i32>,
    },
    RunCancelled { run_id: Seq<char> },
    CompactionStarted { run_id: Seq<char>, session_id: Seq<char>, range: CompactionRangeModel },
    CompactionCompleted {
        run_id: Seq<char>,
        session_id: Seq<char>,
        entry_id: Seq<char>,
        summary: Seq<char>,
        range: CompactionRangeModel,
    },
    CompactionFailed { run_id: Seq<char>, session_id: Seq<char>, error: Seq<char> },
    SessionChanged { session_id: Seq<char>, action: SessionChangeAction },
}

impl DeepView for RuntimeEventKind {
    type V = RuntimeEventKindModel;

    open spec fn deep_view(&self) -> RuntimeEventKindModel {
        match self {
            RuntimeEventKind::DaemonStarted { state } => RuntimeEventKindModel::DaemonStarted {
                state: state.deep_view(),
            },
            RuntimeEventKind::StateChanged { state } => RuntimeEventKindModel::StateChanged {
                state: state.deep_view(),
            },
            RuntimeEventKind::Error { message, run_id } => RuntimeEventKindModel::Error {
                message: message@,
                run_id: run_id.deep_view(),
            },
            RuntimeEventKind::RunStarted { session_id, run_id } => RuntimeEventKindModel::RunStarted {
                session_id: session_id@,
                run_id: run_id@,
            },
            RuntimeEventKind::RunFinished { run_id, status, error } => RuntimeEventKindModel::RunFinished {
                run_id: run_id@,
                status: *status,
                error: error.deep_view(),
            },
            RuntimeEventKind::MessageStarted { run_id, message_id, role } =>
                RuntimeEventKindModel::MessageStarted {
                    run_id: run_id@,
                    message_id: message_id@,
                    role: *role,
                },
            RuntimeEventKind::MessageDelta { run_id, message_id, block_index, delta } =>
                RuntimeEventKindModel::MessageDelta {
                    run_id: run_id@,
                    message_id: message_id@,
                    block_index: *block_index,
                    delta: delta.deep_view(),
                },
            RuntimeEventKind::MessageCompleted { run_id, message_id, body } =>
                RuntimeEventKindModel::MessageCompleted {
                    run_id: run_id@,
                    message_id: message_id@,
                    body: body.deep_view(),
                },
            RuntimeEventKind::ToolStarted { run_id, tool_call_id, name } =>
                RuntimeEventKindModel::ToolStarted {
                    run_id: run_id@,
                    tool_call_id: tool_call_id@,
                    name: name@,
                },
            RuntimeEventKind::ToolOutputDelta { run_id, tool_call_id, chunk } =>
                RuntimeEventKindModel::ToolOutputDelta {
                    run_id: run_id@,
                    tool_call_id: tool_call_id@,
                    chunk: chunk@,
                },
            RuntimeEventKind::ToolFinished { run_id, tool_call_id, output, is_error, exit_code } =>
                RuntimeEventKindModel::ToolFinished {
                    run_id: run_id@,
                    tool_call_id: tool_call_id@,
                    output: output@,
                    is_error: *is_error,
                    exit_code: *exit_code,
                },
            RuntimeEventKind::RunCancelled { run_id } => RuntimeEventKindModel::RunCancelled {
                run_id: run_id@,
            },
            RuntimeEventKind::CompactionStarted { run_id, session_id, range } =>
                RuntimeEventKindModel::CompactionStarted {
                    run_id: run_id@,
                    session_id: session_id@,
                    range: range.deep_view(),
                },
            RuntimeEventKind::CompactionCompleted { run_id, session_id, entry_id, summary, range } =>
                RuntimeEventKindModel::CompactionCompleted {
                    run_id: run_id@,
                    session_id: session_id@,
                    entry_id: entry_id@,
                    summary: summary@,
                    range: range.deep_view(),
                },
            RuntimeEventKind::CompactionFailed { run_id, session_id, error } =>
                RuntimeEventKindModel::CompactionFailed {
                    run_id: run_id@,
                    session_id: session_id@,
                    error: error@,
                },
            RuntimeEventKind::SessionChanged { session_id, action } =>
                RuntimeEventKindModel::SessionChanged {
                    session_id: session_id@,
                    action: *action,
                },
        }
    }
}

impl Clone for RuntimeEventKind {
    fn clone(&self) -> (r: Self)
        ensures
            r.deep_view() == self.deep_view(),
    {
        match self {
            RuntimeEventKind::DaemonStarted { state } => RuntimeEventKind::DaemonStarted {
                state: state.clone(),
            },
            RuntimeEventKind::StateChanged { state } => RuntimeEventKind::StateChanged {
                state: state.clone(),
            },
            RuntimeEventKind::Error { message, run_id } => RuntimeEventKind::Error {
                message: message.clone(),
                run_id: run_id.clone(),
            },
            RuntimeEventKind::RunStarted { session_id, run_id } => RuntimeEventKind::RunStarted {
                session_id: session_id.clone(),
                run_id: run_id.clone(),
            },
            RuntimeEventKind::RunFinished { run_id, status, error } => RuntimeEventKind::RunFinished {
                run_id: run_id.clone(),
                status: *status,
                error: error.clone(),
            },
            RuntimeEventKind::MessageStarted { run_id, message_id, role } =>
                RuntimeEventKind::MessageStarted {
                    run_id: run_id.clone(),
                    message_id: message_id.clone(),
                    role: *role,
                },
            RuntimeEventKind::MessageDelta { run_id, message_id, block_index, delta } =>
                RuntimeEventKind::MessageDelta {
                    run_id: run_id.clone(),
                    message_id: message_id.clone(),
                    block_index: *block_index,
                    delta: delta.clone(),
                },
            RuntimeEventKind::MessageCompleted { run_id, message_id, body } =>
                RuntimeEventKind::MessageCompleted {
                    run_id: run_id.clone(),
                    message_id: message_id.clone(),
                    body: body.clone(),
                },
            RuntimeEventKind::ToolStarted { run_id, tool_call_id, name } => RuntimeEventKind::ToolStarted {
                run_id: run_id.clone(),
                tool_call_id: tool_call_id.clone(),
                name: name.clone(),
            },
            RuntimeEventKind::ToolOutputDelta { run_id, tool_call_id, chunk } =>
                RuntimeEventKind::ToolOutputDelta {
                    run_id: run_id.clone(),
                    tool_call_id: tool_call_id.clone(),
                    chunk: chunk.clone(),
                },
            RuntimeEventKind::ToolFinished { run_id, tool_call_id, output, is_error, exit_code } =>
                RuntimeEventKind::ToolFinished {
                    run_id: run_id.clone(),
                    tool_call_id: tool_call_id.clone(),
                    output: output.clone(),
                    is_error: *is_error,
                    exit_code: *exit_code,
                },
            RuntimeEventKind::RunCancelled { run_id } => RuntimeEventKind::RunCancelled {
                run_id: run_id.clone(),
            },
            RuntimeEventKind::CompactionStarted { run_id, session_id, range } =>
                RuntimeEventKind::CompactionStarted {
                    run_id: run_id.clone(),
                    session_id: session_id.clone(),
                    range: range.clone(),
                },
            RuntimeEventKind::CompactionCompleted { run_id, session_id, entry_id, summary, range } =>
                RuntimeEventKind::CompactionCompleted {
                    run_id: run_id.clone(),
                    session_id: session_id.clone(),
                    entry_id: entry_id.clone(),
                    summary: summary.clone(),
                    range: range.clone(),
                },
            RuntimeEventKind::CompactionFailed { run_id, session_id, error } =>
                RuntimeEventKind::CompactionFailed {
                    run_id: run_id.clone(),
                    session_id: session_id.clone(),
                    error: error.clone(),
                },
            RuntimeEventKind::SessionChanged { session_id, action } => RuntimeEventKind::SessionChanged {
                session_id: session_id.clone(),
                action: *action,
            },
        }
    }
}

/// A runtime event with its place in the sequence of events.
#[derive(Debug, PartialEq, Eq)]
pub struct RuntimeEvent {
    pub sequence: u64,
    pub kind: RuntimeEventKind,
}

/// What a [`RuntimeEvent`] holds.
pub struct RuntimeEventModel {
    pub sequence: u64,
    pub kind: RuntimeEventKindModel,
}

impl DeepView for RuntimeEvent {
    type V = RuntimeEventModel;

    open spec fn deep_view(&self) -> RuntimeEventModel {
        RuntimeEventModel {
            sequence: self.sequence,
            kind: self.kind.deep_view(),
        }
    }
}

impl Clone for RuntimeEvent {
    fn clone(&self) -> (r: Self)
        ensures
            r.deep_view() == self.deep_view(),
    {
        let r = RuntimeEvent {
            sequence: self.sequence,
            kind: self.kind.clone(),
        };
        r
    }
}

impl RuntimeEventKind {
    /// A `DaemonStarted` event.
    pub fn daemon_started(state: DaemonState) -> (r: Self)
        ensures
            r.deep_view() == (RuntimeEventKindModel::DaemonStarted { state: state.deep_view() }),
    {
        RuntimeEventKind::DaemonStarted { state: state }
    }

    /// A `StateChanged` event.
    pub fn state_changed(state: DaemonState) -> (r: Self)
        ensures
            r.deep_view() == (RuntimeEventKindModel::StateChanged { state: state.deep_view() }),
    {
        RuntimeEventKind::StateChanged { state: state }
    }

    /// A `Error` event.
    pub fn error(run_id: Option<String>, message: &str) -> (r: Self)
        ensures
            r.deep_view() == (RuntimeEventKindModel::Error {
                message: message@,
                run_id: run_id.deep_view(),
            }),
    {
        RuntimeEventKind::Error { message: message.to_owned(), run_id: run_id }
    }

    /// A `RunStarted` event.
    pub fn run_started(session_id: &str, run_id: &str) -> (r: Self)
        ensures
            r.deep_view() == (RuntimeEventKindModel::RunStarted {
                session_id: session_id@,
                run_id: run_id@,
            }),
    {
        RuntimeEventKind::RunStarted {
            session_id: session_id.to_owned(),
            run_id: run_id.to_owned(),
        }
    }

    /// A `RunFinished` event.
    pub fn run_finished(run_id: &str, status: RunStatus, error: Option<String>) -> (r: Self)
        ensures
            r.deep_view() == (RuntimeEventKindModel::RunFinished {
                run_id: run_id@,
                status: status,
                error: error.deep_view(),
            }),
    {
        RuntimeEventKind::RunFinished { run_id: run_id.to_owned(), status: status, error: error }
    }

    /// A `MessageStarted` event.
    pub fn message_started(run_id: &str, message_id: &str, role: MessageRole) -> (r: Self)
        ensures
            r.deep_view() == (RuntimeEventKindModel::MessageStarted {
                run_id: run_id@,
                message_id: message_id@,
                role: role,
            }),
    {
        RuntimeEventKind::MessageStarted {
            run_id: run_id.to_owned(),
            message_id: message_id.to_owned(),
            role: role,
        }
    }

    /// A `MessageDelta` event.
    pub fn message_delta(run_id: &str, message_id: &str, delta: &str) -> (r: Self)
        ensures
            r.deep_view() == (RuntimeEventKindModel::MessageDelta {
                run_id: run_id@,
                message_id: message_id@,
                block_index: 0,
                delta: BlockDeltaModel::TextDelta { delta: delta@ },
            }),
    {
        RuntimeEventKind::MessageDelta {
            run_id: run_id.to_owned(),
            message_id: message_id.to_owned(),
            block_index: 0,
            delta: BlockDelta::TextDelta { delta: delta.to_owned() },
        }
    }

    /// A `MessageCompleted` event.
    pub fn message_completed(run_id: &str, message_id: &str, body: Option<MessageBody>) -> (r: Self)
        ensures
            r.deep_view() == (RuntimeEventKindModel::MessageCompleted {
                run_id: run_id@,
                message_id: message_id@,
                body: body.deep_view(),
            }),
    {
        RuntimeEventKind::MessageCompleted {
            run_id: run_id.to_owned(),
            message_id: message_id.to_owned(),
            body: body,
        }
    }

    /// A `ToolStarted` event.
    pub fn tool_started(run_id: &str, tool_call_id: &str, name: &str) -> (r: Self)
        ensures
            r.deep_view() == (RuntimeEventKindModel::ToolStarted {
                run_id: run_id@,
                tool_call_id: tool_call_id@,
                name: name@,
            }),
    {
        RuntimeEventKind::ToolStarted {
            run_id: run_id.to_owned(),
            tool_call_id: tool_call_id.to_owned(),
            name: name.to_owned(),
        }
    }

    /// A `ToolOutputDelta` event.
    pub fn tool_output_delta(run_id: &str, tool_call_id: &str, chunk: &str) -> (r: Self)
        ensures
            r.deep_view() == (RuntimeEventKindModel::ToolOutputDelta {
                run_id: run_id@,
                tool_call_id: tool_call_id@,
                chunk: chunk@,
            }),
    {
        RuntimeEventKind::ToolOutputDelta {
            run_id: run_id.to_owned(),
            tool_call_id: tool_call_id.to_owned(),
            chunk: chunk.to_owned(),
        }
    }

    /// A `ToolFinished` event.
    pub fn tool_finished(
        run_id: &str,
        tool_call_id: &str,
        output: &str,
        is_error: bool,
        exit_code: Option<i32>,
    ) -> (r: Self)
        ensures
            r.deep_view() == (RuntimeEventKindModel::ToolFinished {
                run_id: run_id@,
                tool_call_id: tool_call_id@,
                output: output@,
                is_error: is_error,
                exit_code: exit_code,
            }),
    {
        RuntimeEventKind::ToolFinished {
            run_id: run_id.to_owned(),
            tool_call_id: tool_call_id.to_owned(),
            output: output.to_owned(),
            is_error: is_error,
            exit_code: exit_code,
        }
    }

    /// A `RunCancelled` event.
    pub fn run_cancelled(run_id: &str) -> (r: Self)
        ensures
            r.deep_view() == (RuntimeEventKindModel::RunCancelled { run_id: run_id@ }),
    {
        RuntimeEventKind::RunCancelled { run_id: run_id.to_owned() }
    }

    /// A `CompactionStarted` event.
    pub fn compaction_started(run_id: &str, session_id: &str, range: CompactionRange) -> (r: Self)
        ensures
            r.deep_view() == (RuntimeEventKindModel::CompactionStarted {
                run_id: run_id@,
                session_id: session_id@,
                range: range.deep_view(),
            }),
    {
        RuntimeEventKind::CompactionStarted {
            run_id: run_id.to_owned(),
            session_id: session_id.to_owned(),
            range: range,
        }
    }

    /// A `CompactionCompleted` event.
    pub fn compaction_completed(
        run_id: &str,
        session_id: &str,
        entry_id: &str,
        summary: &str,
        range: CompactionRange,
    ) -> (r: Self)
        ensures
            r.deep_view() == (RuntimeEventKindModel::CompactionCompleted {
                run_id: run_id@,
                session_id: session_id@,
                entry_id: entry_id@,
                summary: summary@,
                range: range.deep_view(),
            }),
    {
        RuntimeEventKind::CompactionCompleted {
            run_id: run_id.to_owned(),
            session_id: session_id.to_owned(),
            entry_id: entry_id.to_owned(),
            summary: summary.to_owned(),
            range: range,
        }
    }

    /// A `CompactionFailed` event.
    pub fn compaction_failed(run_id: &str, session_id: &str, error: &str) -> (r: Self)
        ensures
            r.deep_view() == (RuntimeEventKindModel::CompactionFailed {
                run_id: run_id@,
                session_id: session_id@,
                error: error@,
            }),
    {
        RuntimeEventKind::CompactionFailed {
            run_id: run_id.to_owned(),
            session_id: session_id.to_owned(),
            error: error.to_owned(),
        }
    }

    /// A `SessionChanged` event.
    pub fn session_changed(session_id: &str, action: SessionChangeAction) -> (r: Self)
        ensures
            r.deep_view() == (RuntimeEventKindModel::SessionChanged {
                session_id: session_id@,
                action: action,
            }),
    {
        RuntimeEventKind::SessionChanged { session_id: session_id.to_owned(), action: action }
    }

}

/// A view of the daemon connection exposed by the desktop shell.
#[derive(Debug, PartialEq, Eq)]
pub struct DaemonConnectionView {
    pub connected: bool,
    pub state: Option<DaemonState>,
    pub error: Option<String>,
}

/// What a [`DaemonConnectionView`] holds.
pub struct DaemonConnectionViewModel {
    pub connected: bool,
    pub state: Option<DaemonStateModel>,
    pub error: Option<Seq<char>>,
}

impl DeepView for DaemonConnectionView {
    type V = DaemonConnectionViewModel;

    open spec fn deep_view(&self) -> DaemonConnectionViewModel {
        DaemonConnectionViewModel {
            connected: self.connected,
            state: self.state.deep_view(),
            error: self.error.deep_view(),
        }
    }
}

impl Clone for DaemonConnectionView {
    fn clone(&self) -> (r: Self)
        ensures
            r.deep_view() == self.deep_view(),
    {
        let r = DaemonConnectionView {
            connected: self.connected,
            state: self.state.clone(),
            error: self.error.clone(),
        };
        r
    }
}

impl DaemonConnectionView {
    /// The view of a live connection.
    pub fn connected(state: DaemonState) -> (r: Self)
        ensures
            r.deep_view() == (DaemonConnectionViewModel {
                connected: true,
                state: Some(state.deep_view()),
                error: None,
            }),
    {
        DaemonConnectionView { connected: true, state: Some(state), error: None }
    }

    /// The view of a failed connection.
    pub fn disconnected(error: String) -> (r: Self)
        ensures
            r.deep_view() == (DaemonConnectionViewModel {
                connected: false,
                state: None,
                error: Some(error@),
            }),
    {
        DaemonConnectionView { connected: false, state: None, error: Some(error) }
    }
}

/// Parameters for starting a run.
#[derive(Debug, PartialEq, Eq)]
pub struct SendMessageParams {
    pub session_id: String,
    pub message: String,
}

/// What a [`SendMessageParams`] holds.
pub struct SendMessageParamsModel {
    pub session_id: Seq<char>,
    pub message: Seq<char>,
}

impl DeepView for SendMessageParams {
    type V = SendMessageParamsModel;

    open spec fn deep_view(&self) -> SendMessageParamsModel {
        SendMessageParamsModel {
            session_id: self.session_id@,
            message: self.message@,
        }
    }
}

impl Clone for SendMessageParams {
    fn clone(&self) -> (r: Self)
        ensures
            r.deep_view() == self.deep_view(),
    {
        let r = SendMessageParams {
            session_id: self.session_id.clone(),
            message: self.message.clone(),
        };
        r
    }
}

/// Result returned when a run has started.
#[derive(Debug, PartialEq, Eq)]
pub struct SendMessageResult {
    pub run_id: String,
}

/// What a [`SendMessageResult`] holds.
pub struct SendMessageResultModel {
    pub run_id: Seq<char>,
}

impl DeepView for SendMessageResult {
    type V = SendMessageResultModel;

    open spec fn deep_view(&self) -> SendMessageResultModel {
        SendMessageResultModel {
            run_id: self.run_id@,
        }
    }
}

impl Clone for SendMessageResult {
    fn clone(&self) -> (r: Self)
        ensures
            r.deep_view() == self.deep_view(),
    {
        let r = SendMessageResult {
            run_id: self.run_id.clone(),
        };
        r
    }
}

/// Parameters for cancelling the run of a session.
#[derive(Debug, PartialEq, Eq)]
pub struct CancelRunParams {
    pub session_id: String,
}

/// What a [`CancelRunParams`] holds.
pub struct CancelRunParamsModel {
    pub session_id: Seq<char>,
}

impl DeepView for CancelRunParams {
    type V = CancelRunParamsModel;

    open spec fn deep_view(&self) -> CancelRunParamsModel {
        CancelRunParamsModel {
            session_id: self.session_id@,
        }
    }
}

impl Clone for CancelRunParams {
    fn clone(&self) -> (r: Self)
        ensures
            r.deep_view() == self.deep_view(),
    {
        let r = CancelRunParams {
            session_id: self.session_id.clone(),
        };
        r
    }
}

/// Result returned after a cancellation.
#[derive(Debug, Clone, Copy, PartialEq, Eq)]
pub struct CancelRunResult {}

} // verus!

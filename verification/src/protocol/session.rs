//! Session records: what a session file holds and what is shown of it.

use vstd::prelude::*;

use crate::protocol::{ActivatedSkill, ActivatedSkillModel, MessageRole, ToolCall, ToolCallModel};

verus! {

/// A lightweight summary of a session for listing in the UI.
#[derive(Debug, PartialEq, Eq)]
pub struct SessionSummary {
    /// Session identifier.
    pub session_id: String,
    /// Workspace path associated with the session.
    pub workspace: String,
    /// Timestamp of when the session was created.
    pub created_at: String,
}

/// What a [`SessionSummary`] holds.
pub struct SessionSummaryModel {
    pub session_id: Seq<char>,
    pub workspace: Seq<char>,
    pub created_at: Seq<char>,
}

impl DeepView for SessionSummary {
    type V = SessionSummaryModel;

    open spec fn deep_view(&self) -> SessionSummaryModel {
        SessionSummaryModel {
            session_id: self.session_id@,
            workspace: self.workspace@,
            created_at: self.created_at@,
        }
    }
}

impl Clone for SessionSummary {
    fn clone(&self) -> (r: Self)
        ensures
            r.deep_view() == self.deep_view(),
    {
        let r = SessionSummary {
            session_id: self.session_id.clone(),
            workspace: self.workspace.clone(),
            created_at: self.created_at.clone(),
        };
        r
    }
}

/// A single block inside a [`MessageBody`].
#[derive(Debug, PartialEq, Eq)]
pub enum MessageBlock {
    /// Plain text content.
    Text {
        /// The text value.
        text: String,
    },
    /// A tool call requested by the model.
    ToolCall(ToolCall),
}

/// What a [`MessageBlock`] holds.
pub enum MessageBlockModel {
    Text { text: Seq<char> },
    ToolCall(ToolCallModel),
}

impl DeepView for MessageBlock {
    type V = MessageBlockModel;

    open spec fn deep_view(&self) -> MessageBlockModel {
        match self {
            MessageBlock::Text { text } => MessageBlockModel::Text { text: text@ },
            MessageBlock::ToolCall(a0) => MessageBlockModel::ToolCall(a0.deep_view()),
        }
    }
}

impl Clone for MessageBlock {
    fn clone(&self) -> (r: Self)
        ensures
            r.deep_view() == self.deep_view(),
    {
        match self {
            MessageBlock::Text { text } => MessageBlock::Text { text: text.clone() },
            MessageBlock::ToolCall(a0) => MessageBlock::ToolCall(a0.clone()),
        }
    }
}

/// The body of a [`Message`]: a list of typed blocks.
#[derive(Debug, PartialEq, Eq)]
pub struct MessageBody(pub Vec<MessageBlock>);

impl DeepView for MessageBody {
    type V = Seq<MessageBlockModel>;

    open spec fn deep_view(&self) -> Seq<MessageBlockModel> {
        self.0.deep_view()
    }
}

impl Clone for MessageBody {
    fn clone(&self) -> (r: Self)
        ensures
            r.deep_view() == self.deep_view(),
    {
        let r = MessageBody(self.0.clone());
        assert(r.0.deep_view() =~= self.0.deep_view());
        r
    }
}

/// A body of one text block.
pub open spec fn text_body(content: Seq<char>) -> Seq<MessageBlockModel> {
    seq![MessageBlockModel::Text { text: content }]
}

impl MessageBody {
    /// Create a body containing a single text block.
    pub fn text(content: &str) -> (r: Self)
        ensures
            r.deep_view() == text_body(content@),
    {
        let mut blocks: Vec<MessageBlock> = Vec::new();
        blocks.push(MessageBlock::Text { text: content.to_owned() });
        let r = MessageBody(blocks);
        assert(r.0.deep_view() =~= text_body(content@));
        r
    }
}

/// A persisted message node, also used as the runtime view of a session history node.
#[derive(Debug, PartialEq, Eq)]
pub struct Message {
    /// Message identifier.
    pub id: String,
    /// Parent message identifier, if any.
    pub parent_id: Option<String>,
    /// Role of the message sender.
    pub role: MessageRole,
    /// Identifier of the tool call this message answers, if any.
    pub tool_call_id: Option<String>,
    /// Message body content.
    pub body: MessageBody,
}

/// What a [`Message`] holds.
pub struct MessageModel {
    pub id: Seq<char>,
    pub parent_id: Option<Seq<char>>,
    pub role: MessageRole,
    pub tool_call_id: Option<Seq<char>>,
    pub body: Seq<MessageBlockModel>,
}

impl DeepView for Message {
    type V = MessageModel;

    open spec fn deep_view(&self) -> MessageModel {
        MessageModel {
            id: self.id@,
            parent_id: self.parent_id.deep_view(),
            role: self.role,
            tool_call_id: self.tool_call_id.deep_view(),
            body: self.body.deep_view(),
        }
    }
}

impl Clone for Message {
    fn clone(&self) -> (r: Self)
        ensures
            r.deep_view() == self.deep_view(),
    {
        let r = Message {
            id: self.id.clone(),
            parent_id: self.parent_id.clone(),
            role: self.role,
            tool_call_id: self.tool_call_id.clone(),
            body: self.body.clone(),
        };
        r
    }
}

/// Identifies a contiguous block of active-path messages that a compaction entry
/// summarizes.
#[derive(Debug, PartialEq, Eq)]
pub struct CompactionRange {
    /// First message in the compacted block.
    pub first_message_id: String,
    /// Last message in the compacted block.
    pub last_message_id: String,
}

/// What a [`CompactionRange`] holds.
pub struct CompactionRangeModel {
    pub first_message_id: Seq<char>,
    pub last_message_id: Seq<char>,
}

impl DeepView for CompactionRange {
    type V = CompactionRangeModel;

    open spec fn deep_view(&self) -> CompactionRangeModel {
        CompactionRangeModel {
            first_message_id: self.first_message_id@,
            last_message_id: self.last_message_id@,
        }
    }
}

impl Clone for CompactionRange {
    fn clone(&self) -> (r: Self)
        ensures
            r.deep_view() == self.deep_view(),
    {
        let r = CompactionRange {
            first_message_id: self.first_message_id.clone(),
            last_message_id: self.last_message_id.clone(),
        };
        r
    }
}

/// A durable summary node that replaces a contiguous block of older messages when the
/// model context is built.
#[derive(Debug, PartialEq, Eq)]
pub struct CompactionEntry {
    /// Stable identifier, unique within the session.
    pub id: String,
    /// Always `MessageRole::Summary`.
    pub role: MessageRole,
    /// Natural-language summary generated by the model provider.
    pub summary: String,
    /// The block of messages that the summary stands for.
    pub compacted_range: CompactionRange,
    /// Timestamp of creation.
    pub created_at: String,
    /// The run during which the entry was created.
    pub run_id: String,
}

/// What a [`CompactionEntry`] holds.
pub struct CompactionEntryModel {
    pub id: Seq<char>,
    pub role: MessageRole,
    pub summary: Seq<char>,
    pub compacted_range: CompactionRangeModel,
    pub created_at: Seq<char>,
    pub run_id: Seq<char>,
}

impl DeepView for CompactionEntry {
    type V = CompactionEntryModel;

    open spec fn deep_view(&self) -> CompactionEntryModel {
        CompactionEntryModel {
            id: self.id@,
            role: self.role,
            summary: self.summary@,
            compacted_range: self.compacted_range.deep_view(),
            created_at: self.created_at@,
            run_id: self.run_id@,
        }
    }
}

impl Clone for CompactionEntry {
    fn clone(&self) -> (r: Self)
        ensures
            r.deep_view() == self.deep_view(),
    {
        let r = CompactionEntry {
            id: self.id.clone(),
            role: self.role,
            summary: self.summary.clone(),
            compacted_range: self.compacted_range.clone(),
            created_at: self.created_at.clone(),
            run_id: self.run_id.clone(),
        };
        r
    }
}

/// A single persisted record inside a session file.
#[derive(Debug, PartialEq, Eq)]
pub enum SessionEntry {
    /// Session header record.
    Session {
        /// File format version.
        version: u16,
        /// Session identifier.
        id: String,
        /// Workspace path.
        workspace: String,
        /// Creation timestamp.
        created_at: String,
    },
    /// Message record.
    Message(Message),
    /// Skill activation record.
    SkillActivated(ActivatedSkill),
    /// Compaction summary record.
    CompactionEntry(CompactionEntry),
}

/// What a [`SessionEntry`] holds.
pub enum SessionEntryModel {
    Session { version: u16, id: Seq<char>, workspace: Seq<char>, created_at: Seq<char> },
    Message(MessageModel),
    SkillActivated(ActivatedSkillModel),
    CompactionEntry(CompactionEntryModel),
}

impl DeepView for SessionEntry {
    type V = SessionEntryModel;

    open spec fn deep_view(&self) -> SessionEntryModel {
        match self {
            SessionEntry::Session { version, id, workspace, created_at } => SessionEntryModel::Session {
                version: *version,
                id: id@,
                workspace: workspace@,
                created_at: created_at@,
            },
            SessionEntry::Message(a0) => SessionEntryModel::Message(a0.deep_view()),
            SessionEntry::SkillActivated(a0) => SessionEntryModel::SkillActivated(a0.deep_view()),
            SessionEntry::CompactionEntry(a0) => SessionEntryModel::CompactionEntry(a0.deep_view()),
        }
    }
}

impl Clone for SessionEntry {
    fn clone(&self) -> (r: Self)
        ensures
            r.deep_view() == self.deep_view(),
    {
        match self {
            SessionEntry::Session { version, id, workspace, created_at } => SessionEntry::Session {
                version: *version,
                id: id.clone(),
                workspace: workspace.clone(),
                created_at: created_at.clone(),
            },
            SessionEntry::Message(a0) => SessionEntry::Message(a0.clone()),
            SessionEntry::SkillActivated(a0) => SessionEntry::SkillActivated(a0.clone()),
            SessionEntry::CompactionEntry(a0) => SessionEntry::CompactionEntry(a0.clone()),
        }
    }
}

/// A normalized view of a session for the UI.
#[derive(Debug, PartialEq, Eq)]
pub struct SessionView {
    /// Session identifier.
    pub session_id: String,
    /// Workspace path associated with the session.
    pub workspace: String,
    /// Raw content of the workspace instruction file, if found.
    pub workspace_instructions: Option<String>,
    /// Warning if the workspace instruction file exists but could not be read.
    pub workspace_instructions_error: Option<String>,
    /// Messages in the session, in UI order.
    pub messages: Vec<Message>,
    /// Compaction entries present in the session.
    pub compaction_entries: Vec<CompactionEntry>,
}

/// What a [`SessionView`] holds.
pub struct SessionViewModel {
    pub session_id: Seq<char>,
    pub workspace: Seq<char>,
    pub workspace_instructions: Option<Seq<char>>,
    pub workspace_instructions_error: Option<Seq<char>>,
    pub messages: Seq<MessageModel>,
    pub compaction_entries: Seq<CompactionEntryModel>,
}

impl DeepView for SessionView {
    type V = SessionViewModel;

    open spec fn deep_view(&self) -> SessionViewModel {
        SessionViewModel {
            session_id: self.session_id@,
            workspace: self.workspace@,
            workspace_instructions: self.workspace_instructions.deep_view(),
            workspace_instructions_error: self.workspace_instructions_error.deep_view(),
            messages: self.messages.deep_view(),
            compaction_entries: self.compaction_entries.deep_view(),
        }
    }
}

impl Clone for SessionView {
    fn clone(&self) -> (r: Self)
        ensures
            r.deep_view() == self.deep_view(),
    {
        let r = SessionView {
            session_id: self.session_id.clone(),
            workspace: self.workspace.clone(),
            workspace_instructions: self.workspace_instructions.clone(),
            workspace_instructions_error: self.workspace_instructions_error.clone(),
            messages: self.messages.clone(),
            compaction_entries: self.compaction_entries.clone(),
        };
        assert(r.messages.deep_view() =~= self.messages.deep_view());
        assert(r.compaction_entries.deep_view() =~= self.compaction_entries.deep_view());
        r
    }
}

/// A block-level delta used during streaming to update a single [`MessageBlock`] without
/// replacing the whole [`MessageBody`].
#[derive(Debug, PartialEq, Eq)]
pub enum BlockDelta {
    /// Incremental plain text update.
    TextDelta {
        /// The text fragment to append.
        delta: String,
    },
    /// Incremental tool-call update (reserved for future streaming).
    ToolCallDelta {
        /// Optional tool-call identifier fragment.
        id: Option<String>,
        /// Optional tool name fragment.
        name: Option<String>,
        /// Optional arguments JSON fragment.
        arguments_delta: Option<String>,
    },
}

/// What a [`BlockDelta`] holds.
pub enum BlockDeltaModel {
    TextDelta { delta: Seq<char> },
    ToolCallDelta {
        id: Option<Seq<char>>,
        name: Option<Seq<char>>,
        arguments_delta: Option<Seq<char>>,
    },
}

impl DeepView for BlockDelta {
    type V = BlockDeltaModel;

    open spec fn deep_view(&self) -> BlockDeltaModel {
        match self {
            BlockDelta::TextDelta { delta } => BlockDeltaModel::TextDelta { delta: delta@ },
            BlockDelta::ToolCallDelta { id, name, arguments_delta } => BlockDeltaModel::ToolCallDelta {
                id: id.deep_view(),
                name: name.deep_view(),
                arguments_delta: arguments_delta.deep_view(),
            },
        }
    }
}

impl From<String> for BlockDelta {
    fn from(delta: String) -> (r: Self) {
        BlockDelta::TextDelta { delta }
    }
}

impl vstd::std_specs::convert::FromSpecImpl<String> for BlockDelta {
    open spec fn obeys_from_spec() -> bool {
        true
    }

    open spec fn from_spec(delta: String) -> Self {
        BlockDelta::TextDelta { delta }
    }
}

impl<'a> From<&'a str> for BlockDelta {
    fn from(delta: &'a str) -> (r: Self)
        ensures
            r.deep_view() == (BlockDeltaModel::TextDelta { delta: delta@ }),
    {
        BlockDelta::TextDelta { delta: delta.to_owned() }
    }
}

impl<'a> vstd::std_specs::convert::FromSpecImpl<&'a str> for BlockDelta {
    open spec fn obeys_from_spec() -> bool {
        false
    }

    open spec fn from_spec(delta: &'a str) -> Self {
        arbitrary()
    }
}

impl Clone for BlockDelta {
    fn clone(&self) -> (r: Self)
        ensures
            r.deep_view() == self.deep_view(),
    {
        match self {
            BlockDelta::TextDelta { delta } => BlockDelta::TextDelta { delta: delta.clone() },
            BlockDelta::ToolCallDelta { id, name, arguments_delta } => BlockDelta::ToolCallDelta {
                id: id.clone(),
                name: name.clone(),
                arguments_delta: arguments_delta.clone(),
            },
        }
    }
}

/// A message of the session history with its content as one text.
#[derive(Debug, PartialEq, Eq)]
pub struct SessionMessage {
    /// Message identifier.
    pub id: String,
    /// Parent message identifier, if any.
    pub parent_id: Option<String>,
    /// Role of the message sender.
    pub role: MessageRole,
    /// Text of the message.
    pub content: String,
    /// Identifier of the tool call this message answers, if any.
    pub tool_call_id: Option<String>,
    /// Tool calls that the message requests.
    pub tool_calls: Option<Vec<ToolCall>>,
}

/// What a [`SessionMessage`] holds.
pub struct SessionMessageModel {
    pub id: Seq<char>,
    pub parent_id: Option<Seq<char>>,
    pub role: MessageRole,
    pub content: Seq<char>,
    pub tool_call_id: Option<Seq<char>>,
    pub tool_calls: Option<Seq<ToolCallModel>>,
}

impl DeepView for SessionMessage {
    type V = SessionMessageModel;

    open spec fn deep_view(&self) -> SessionMessageModel {
        SessionMessageModel {
            id: self.id@,
            parent_id: self.parent_id.deep_view(),
            role: self.role,
            content: self.content@,
            tool_call_id: self.tool_call_id.deep_view(),
            tool_calls: self.tool_calls.deep_view(),
        }
    }
}

impl Clone for SessionMessage {
    fn clone(&self) -> (r: Self)
        ensures
            r.deep_view() == self.deep_view(),
    {
        let r = SessionMessage {
            id: self.id.clone(),
            parent_id: self.parent_id.clone(),
            role: self.role,
            content: self.content.clone(),
            tool_call_id: self.tool_call_id.clone(),
            tool_calls: self.tool_calls.clone(),
        };
        assert(self.tool_calls is Some ==> r.tool_calls->0.deep_view() =~= self.tool_calls->0.deep_view());
        r
    }
}

/// A summary of a compacted conversation range.
#[derive(Debug, PartialEq, Eq)]
pub struct CompactionSummary {
    /// Identifier of the summary.
    pub id: String,
    /// Message that the summary follows.
    pub parent_id: String,
    /// The text of the summary.
    pub summary: String,
}

/// What a [`CompactionSummary`] holds.
pub struct CompactionSummaryModel {
    pub id: Seq<char>,
    pub parent_id: Seq<char>,
    pub summary: Seq<char>,
}

impl DeepView for CompactionSummary {
    type V = CompactionSummaryModel;

    open spec fn deep_view(&self) -> CompactionSummaryModel {
        CompactionSummaryModel {
            id: self.id@,
            parent_id: self.parent_id@,
            summary: self.summary@,
        }
    }
}

impl Clone for CompactionSummary {
    fn clone(&self) -> (r: Self)
        ensures
            r.deep_view() == self.deep_view(),
    {
        let r = CompactionSummary {
            id: self.id.clone(),
            parent_id: self.parent_id.clone(),
            summary: self.summary.clone(),
        };
        r
    }
}

/// The content of a message: a text, tool calls, or both.
#[derive(Debug, PartialEq, Eq)]
pub struct SessionMessageContent {
    /// Role of the message sender.
    pub role: MessageRole,
    /// Text of the message, if any.
    pub text: Option<String>,
    /// Tool calls that the message requests.
    pub tool_calls: Option<Vec<ToolCall>>,
}

/// What a [`SessionMessageContent`] holds.
pub struct SessionMessageContentModel {
    pub role: MessageRole,
    pub text: Option<Seq<char>>,
    pub tool_calls: Option<Seq<ToolCallModel>>,
}

impl DeepView for SessionMessageContent {
    type V = SessionMessageContentModel;

    open spec fn deep_view(&self) -> SessionMessageContentModel {
        SessionMessageContentModel {
            role: self.role,
            text: self.text.deep_view(),
            tool_calls: self.tool_calls.deep_view(),
        }
    }
}

impl Clone for SessionMessageContent {
    fn clone(&self) -> (r: Self)
        ensures
            r.deep_view() == self.deep_view(),
    {
        let r = SessionMessageContent {
            role: self.role,
            text: self.text.clone(),
            tool_calls: self.tool_calls.clone(),
        };
        assert(self.tool_calls is Some ==> r.tool_calls->0.deep_view() =~= self.tool_calls->0.deep_view());
        r
    }
}

impl SessionMessageContent {
    /// Content made of a text alone.
    pub fn text(role: MessageRole, text: &str) -> (r: Self)
        ensures
            r.deep_view() == (SessionMessageContentModel {
                role,
                text: Some(text@),
                tool_calls: None,
            }),
    {
        SessionMessageContent { role, text: Some(text.to_owned()), tool_calls: None }
    }
}

/// Parameters for creating a new session.
#[derive(Debug, Clone, PartialEq, Eq)]
pub struct NewSessionParams {
    /// Workspace path for the new session.
    pub workspace: String,
}

/// Result returned after creating a new session.
#[derive(Debug, Clone, PartialEq, Eq)]
pub struct NewSessionResult {
    /// Identifier of the newly created session.
    pub session_id: String,
}

/// Parameters for loading a session.
#[derive(Debug, Clone, PartialEq, Eq)]
pub struct LoadSessionParams {
    /// Session identifier to load.
    pub session_id: String,
}

/// Parameters for deleting a session.
#[derive(Debug, Clone, PartialEq, Eq)]
pub struct DeleteSessionParams {
    /// Session identifier to delete.
    pub session_id: String,
}

/// Result returned after deleting a session.
#[derive(Debug, Clone, PartialEq, Eq)]
pub struct DeleteSessionResult {
    /// Identifier of the deleted session.
    pub session_id: String,
}

/// Result returned when listing sessions.
#[derive(Debug, Clone, PartialEq, Eq)]
pub struct ListSessionsResult {
    /// Summaries of the available sessions.
    pub sessions: Vec<SessionSummary>,
}

/// Result returned after loading a session.
#[derive(Debug, Clone, PartialEq, Eq)]
pub struct LoadSessionResult {
    /// Full view of the loaded session.
    pub session: SessionView,
}

} // verus!

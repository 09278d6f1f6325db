//! Prompt construction for providers that take each message as one text.

use vstd::prelude::*;

use crate::protocol::session::{
    CompactionSummary, CompactionSummaryModel, SessionMessage, SessionMessageModel,
};
use crate::protocol::{
    ActivatedSkill, ActivatedSkillModel, MessageRole, RunMessage, RunMessageModel, SkillEntry,
    SkillEntryModel, ToolDefinition, ToolDefinitionModel,
};
use crate::runtime::system_prompt;

verus! {

/// Context supplied to [`PromptBuilder`] for a single run.
#[derive(Debug, PartialEq, Eq)]
pub struct PromptContext {
    /// The current user message for this run.
    pub user_message: String,
    /// Prior messages in the session, in chronological order.
    pub history: Vec<SessionMessage>,
    /// Summaries of compacted conversation ranges.
    pub compactions: Vec<CompactionSummary>,
    /// Tool definitions available to the model for this run.
    pub tools: Vec<ToolDefinition>,
    /// Skills that have been activated for the current session.
    pub active_skills: Vec<ActivatedSkill>,
    /// Skills that are installed and can be activated by name.
    pub available_skills: Vec<SkillEntry>,
}

/// What a [`PromptContext`] holds.
pub struct PromptContextModel {
    pub user_message: Seq<char>,
    pub history: Seq<SessionMessageModel>,
    pub compactions: Seq<CompactionSummaryModel>,
    pub tools: Seq<ToolDefinitionModel>,
    pub active_skills: Seq<ActivatedSkillModel>,
    pub available_skills: Seq<SkillEntryModel>,
}

impl DeepView for PromptContext {
    type V = PromptContextModel;

    open spec fn deep_view(&self) -> PromptContextModel {
        PromptContextModel {
            user_message: self.user_message@,
            history: self.history.deep_view(),
            compactions: self.compactions.deep_view(),
            tools: self.tools.deep_view(),
            active_skills: self.active_skills.deep_view(),
            available_skills: self.available_skills.deep_view(),
        }
    }
}

impl PromptContext {
    /// Create a prompt context with no history, compactions, tools or skills.
    pub fn new(user_message: &str) -> (r: Self)
        ensures
            r.deep_view() == (PromptContextModel {
                user_message: user_message@,
                history: Seq::empty(),
                compactions: Seq::empty(),
                tools: Seq::empty(),
                active_skills: Seq::empty(),
                available_skills: Seq::empty(),
            }),
    {
        let r = PromptContext {
            user_message: user_message.to_owned(),
            history: Vec::new(),
            compactions: Vec::new(),
            tools: Vec::new(),
            active_skills: Vec::new(),
            available_skills: Vec::new(),
        };
        assert(r.history.deep_view() =~= Seq::empty());
        assert(r.compactions.deep_view() =~= Seq::empty());
        assert(r.tools.deep_view() =~= Seq::empty());
        assert(r.active_skills.deep_view() =~= Seq::empty());
        assert(r.available_skills.deep_view() =~= Seq::empty());
        r
    }
}

/// A message with a text alone.
pub open spec fn plain_message(role: MessageRole, content: Seq<char>) -> RunMessageModel {
    RunMessageModel { role, content, tool_call_id: None, tool_calls: None }
}

/// The reminder of a compaction summary.
pub open spec fn compaction_reminder(compaction: CompactionSummaryModel) -> RunMessageModel {
    plain_message(
        MessageRole::System,
        "Earlier conversation summary ("@ + compaction.id + "): "@ + compaction.summary,
    )
}

/// A history message in the prompt.
pub open spec fn history_message(message: SessionMessageModel) -> RunMessageModel {
    RunMessageModel {
        role: message.role,
        content: message.content,
        tool_call_id: message.tool_call_id,
        tool_calls: message.tool_calls,
    }
}

/// The reminders of compaction summaries.
pub open spec fn compaction_reminders(compactions: Seq<CompactionSummaryModel>) -> Seq<
    RunMessageModel,
> {
    compactions.map_values(|compaction: CompactionSummaryModel| compaction_reminder(compaction))
}

/// The history messages in the prompt.
pub open spec fn history_messages(history: Seq<SessionMessageModel>) -> Seq<RunMessageModel> {
    history.map_values(|message: SessionMessageModel| history_message(message))
}

/// The messages of a prompt: the system prompt, the compaction reminders, the history and
/// the current user message.
pub open spec fn prompt_messages(context: PromptContextModel) -> Seq<RunMessageModel> {
    let prompt = system_prompt::system_prompt(
        context.tools,
        context.active_skills,
        context.available_skills,
    );
    seq![plain_message(MessageRole::System, prompt)] + compaction_reminders(context.compactions)
        + history_messages(context.history) + seq![
        plain_message(MessageRole::Developer, context.user_message),
    ]
}

/// Builds the prompt messages for a run.
#[derive(Debug, Clone, Copy, PartialEq, Eq)]
pub struct PromptBuilder;

impl Default for PromptBuilder {
    fn default() -> (r: Self)
        ensures
            r == PromptBuilder,
    {
        PromptBuilder
    }
}

impl PromptBuilder {
    /// Create a new prompt builder.
    pub fn new() -> (r: Self)
        ensures
            r == PromptBuilder,
    {
        PromptBuilder
    }

    /// Build the full list of messages for the provider.
    pub fn build(&self, context: PromptContext) -> (messages: Vec<RunMessage>)
        ensures
            messages.deep_view() == prompt_messages(context.deep_view()),
    {
        let ghost input = context.deep_view();
        let ghost compactions = input.compactions;
        let ghost history = input.history;
        let mut messages: Vec<RunMessage> = Vec::new();
        let prompt = PromptBuilder::build_system_prompt(
            &context.tools,
            &context.active_skills,
            &context.available_skills,
        );
        messages.push(RunMessage::text(MessageRole::System, &prompt));
        let ghost start = messages.deep_view();
        assert(start =~= seq![
            plain_message(
                MessageRole::System,
                system_prompt::system_prompt(
                    input.tools,
                    input.active_skills,
                    input.available_skills,
                ),
            ),
        ]);

        // Compaction summaries are system reminders, visible without being part of the
        // persisted history.
        assert(messages.deep_view() =~= start + compaction_reminders(compactions.take(0)));
        for i in 0..context.compactions.len()
            invariant
                compactions == context.compactions.deep_view(),
                messages.deep_view() == start + compaction_reminders(compactions.take(i as int)),
        {
            let ghost before = messages.deep_view();
            let compaction = &context.compactions[i];
            assert(compactions[i as int] == compaction.deep_view());
            let mut content = String::new();
            content.push_str("Earlier conversation summary (");
            content.push_str(&compaction.id);
            content.push_str("): ");
            content.push_str(&compaction.summary);
            assert(content@ =~= "Earlier conversation summary ("@ + compaction.id@ + "): "@
                + compaction.summary@);
            let reminder = RunMessage::text(MessageRole::System, &content);
            messages.push(reminder);
            assert(messages.deep_view() =~= before.push(reminder.deep_view()));
            assert(messages.deep_view() =~= start + compaction_reminders(
                compactions.take(i + 1),
            ));
        }
        assert(compactions.take(compactions.len() as int) =~= compactions);

        // Persisted history.
        let ghost middle = messages.deep_view();
        assert(messages.deep_view() =~= middle + history_messages(history.take(0)));
        for i in 0..context.history.len()
            invariant
                history == context.history.deep_view(),
                messages.deep_view() == middle + history_messages(history.take(i as int)),
        {
            let ghost before = messages.deep_view();
            let message = context.history[i].clone();
            assert(history[i as int] == message.deep_view());
            let kept = RunMessage {
                role: message.role,
                content: message.content,
                tool_call_id: message.tool_call_id,
                tool_calls: message.tool_calls,
            };
            messages.push(kept);
            assert(messages.deep_view() =~= before.push(kept.deep_view()));
            assert(messages.deep_view() =~= middle + history_messages(history.take(i + 1)));
        }
        assert(history.take(history.len() as int) =~= history);

        // The current user message.
        let ghost before = messages.deep_view();
        let current = RunMessage::text(MessageRole::Developer, &context.user_message);
        messages.push(current);
        assert(messages.deep_view() =~= before.push(current.deep_view()));
        assert(messages.deep_view() =~= prompt_messages(input));
        messages
    }

    /// Build the system prompt from tool definitions and active and available skills.
    pub fn build_system_prompt(
        tools: &[ToolDefinition],
        active_skills: &[ActivatedSkill],
        available_skills: &[SkillEntry],
    ) -> (prompt: String)
        ensures
            prompt@ == system_prompt::system_prompt(
                tools.deep_view(),
                active_skills.deep_view(),
                available_skills.deep_view(),
            ),
    {
        system_prompt::build_system_prompt(tools, active_skills, available_skills)
    }
}

} // verus!

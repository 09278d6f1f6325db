//! Model context construction from session state, tools and skills.

use vstd::prelude::*;

use crate::protocol;
use crate::protocol::session::{Message, MessageModel};
use crate::protocol::{
    ActivatedSkill, ActivatedSkillModel, LlmMessage, LlmMessageModel, MessageRole, SkillEntry,
    SkillEntryModel, ToolDefinition, ToolDefinitionModel,
};
use crate::protocol::session::{MessageBlock, MessageBody};
use crate::runtime::system_prompt;

verus! {

/// Context supplied to [`LlmContextBuilder`] for a single run.
#[derive(Debug, PartialEq, Eq)]
pub struct LlmContextInput {
    /// The current user message for this run.
    pub user_message: String,
    /// Prior messages in the session, in chronological order.
    pub history: Vec<Message>,
    /// Tool definitions available to the model for this run.
    pub tools: Vec<ToolDefinition>,
    /// Skills that have been activated for the current session.
    pub active_skills: Vec<ActivatedSkill>,
    /// Skills that are installed and can be activated by name.
    pub available_skills: Vec<SkillEntry>,
    /// Raw content of the workspace instruction file, if found.
    pub workspace_instructions: Option<String>,
}

/// What an [`LlmContextInput`] holds.
pub struct LlmContextInputModel {
    pub user_message: Seq<char>,
    pub history: Seq<MessageModel>,
    pub tools: Seq<ToolDefinitionModel>,
    pub active_skills: Seq<ActivatedSkillModel>,
    pub available_skills: Seq<SkillEntryModel>,
    pub workspace_instructions: Option<Seq<char>>,
}

impl DeepView for LlmContextInput {
    type V = LlmContextInputModel;

    open spec fn deep_view(&self) -> LlmContextInputModel {
        LlmContextInputModel {
            user_message: self.user_message@,
            history: self.history.deep_view(),
            tools: self.tools.deep_view(),
            active_skills: self.active_skills.deep_view(),
            available_skills: self.available_skills.deep_view(),
            workspace_instructions: self.workspace_instructions.deep_view(),
        }
    }
}

impl LlmContextInput {
    /// Create a context with no history, tools, skills or workspace instructions.
    pub fn new(user_message: &str) -> (r: Self)
        ensures
            r.deep_view() == (LlmContextInputModel {
                user_message: user_message@,
                history: Seq::empty(),
                tools: Seq::empty(),
                active_skills: Seq::empty(),
                available_skills: Seq::empty(),
                workspace_instructions: None,
            }),
    {
        let r = LlmContextInput {
            user_message: user_message.to_owned(),
            history: Vec::new(),
            tools: Vec::new(),
            active_skills: Vec::new(),
            available_skills: Vec::new(),
            workspace_instructions: None,
        };
        assert(r.history.deep_view() =~= Seq::empty());
        assert(r.tools.deep_view() =~= Seq::empty());
        assert(r.active_skills.deep_view() =~= Seq::empty());
        assert(r.available_skills.deep_view() =~= Seq::empty());
        r
    }
}

/// The reminder that a summary message becomes.
pub open spec fn summary_reminder(message: MessageModel) -> LlmMessageModel {
    protocol::llm_text(
        MessageRole::System,
        "Earlier conversation summary ("@ + message.id + "): "@ + protocol::joined_text(
            message.body,
        ),
    )
}

/// The reminders of the summary messages of `history`, in order.
pub open spec fn reminders(history: Seq<MessageModel>) -> Seq<LlmMessageModel>
    decreases history.len(),
{
    if history.len() == 0 {
        Seq::empty()
    } else {
        let rest = reminders(history.drop_last());
        if history.last().role == MessageRole::Summary {
            rest.push(summary_reminder(history.last()))
        } else {
            rest
        }
    }
}

/// The messages of `history` that are no summaries, in order.
pub open spec fn conversation(history: Seq<MessageModel>) -> Seq<LlmMessageModel>
    decreases history.len(),
{
    if history.len() == 0 {
        Seq::empty()
    } else {
        let rest = conversation(history.drop_last());
        if history.last().role == MessageRole::Summary {
            rest
        } else {
            rest.push(
                LlmMessageModel {
                    role: history.last().role,
                    body: history.last().body,
                    tool_call_id: history.last().tool_call_id,
                },
            )
        }
    }
}

/// The messages of a model request: the system prompt, the workspace instructions, the
/// summaries, the conversation and the current user message.
pub open spec fn context_messages(input: LlmContextInputModel) -> Seq<LlmMessageModel> {
    let prompt = system_prompt::system_prompt(
        input.tools,
        input.active_skills,
        input.available_skills,
    );
    seq![protocol::llm_text(MessageRole::System, prompt)] + (match input.workspace_instructions {
        Some(instructions) => seq![protocol::llm_text(MessageRole::System, instructions)],
        None => Seq::empty(),
    }) + reminders(input.history) + conversation(input.history) + seq![
        protocol::llm_text(MessageRole::Developer, input.user_message),
    ]
}

/// Concatenate all text blocks of a body.
pub fn body_text(body: &MessageBody) -> (r: String)
    ensures
        r@ == protocol::joined_text(body.deep_view()),
{
    let blocks = &body.0;
    let ghost model = blocks.deep_view();
    let mut r = String::new();
    assert(r@ =~= protocol::joined_text(model.take(0)));
    for i in 0..blocks.len()
        invariant
            model == blocks.deep_view(),
            r@ == protocol::joined_text(model.take(i as int)),
    {
        assert(model.take(i + 1).drop_last() =~= model.take(i as int));
        assert(model.take(i + 1).last() == blocks@[i as int].deep_view());
        if let MessageBlock::Text { text } = &blocks[i] {
            r.push_str(text);
        }
    }
    assert(model.take(model.len() as int) =~= model);
    r
}

/// Builds the model context messages for a run.
#[derive(Debug, Clone, Copy, PartialEq, Eq)]
pub struct LlmContextBuilder;

impl Default for LlmContextBuilder {
    fn default() -> (r: Self)
        ensures
            r == LlmContextBuilder,
    {
        LlmContextBuilder
    }
}

impl LlmContextBuilder {
    /// Create a new context builder.
    pub fn new() -> (r: Self)
        ensures
            r == LlmContextBuilder,
    {
        LlmContextBuilder
    }

    /// Build the full list of messages for the provider.
    pub fn build(&self, context: LlmContextInput) -> (messages: Vec<LlmMessage>)
        ensures
            messages.deep_view() == context_messages(context.deep_view()),
    {
        let ghost input = context.deep_view();
        let ghost history = input.history;
        let mut messages: Vec<LlmMessage> = Vec::new();
        let prompt = LlmContextBuilder::build_system_prompt(
            &context.tools,
            &context.active_skills,
            &context.available_skills,
        );
        messages.push(LlmMessage::text(MessageRole::System, &prompt));

        // Workspace instructions are a system message of their own so that they are visible
        // to the model without being merged into the system prompt or the history.
        if let Some(instructions) = &context.workspace_instructions {
            messages.push(LlmMessage::text(MessageRole::System, instructions));
        }
        let ghost start = messages.deep_view();
        assert(start =~= seq![
            protocol::llm_text(
                MessageRole::System,
                system_prompt::system_prompt(
                    input.tools,
                    input.active_skills,
                    input.available_skills,
                ),
            ),
        ] + (match input.workspace_instructions {
            Some(instructions) => seq![protocol::llm_text(MessageRole::System, instructions)],
            None => Seq::empty(),
        }));

        // Summaries first, as system reminders, then the other messages.
        assert(messages.deep_view() =~= start + reminders(history.take(0)));
        for i in 0..context.history.len()
            invariant
                history == context.history.deep_view(),
                messages.deep_view() == start + reminders(history.take(i as int)),
        {
            let ghost before = messages.deep_view();
            let message = &context.history[i];
            assert(history.take(i + 1).drop_last() =~= history.take(i as int));
            assert(history.take(i + 1).last() == message.deep_view());
            if message.role == MessageRole::Summary {
                let mut content = String::new();
                content.push_str("Earlier conversation summary (");
                content.push_str(&message.id);
                content.push_str("): ");
                content.push_str(&body_text(&message.body));
                assert(content@ =~= "Earlier conversation summary ("@ + message.id@ + "): "@
                    + protocol::joined_text(message.deep_view().body));
                let reminder = LlmMessage::text(MessageRole::System, &content);
                messages.push(reminder);
                assert(messages.deep_view() =~= before.push(reminder.deep_view()));
            }
            assert(messages.deep_view() =~= start + reminders(history.take(i + 1)));
        }
        assert(history.take(history.len() as int) =~= history);
        let ghost middle = messages.deep_view();
        assert(messages.deep_view() =~= middle + conversation(history.take(0)));
        for i in 0..context.history.len()
            invariant
                history == context.history.deep_view(),
                messages.deep_view() == middle + conversation(history.take(i as int)),
        {
            let ghost before = messages.deep_view();
            let message = &context.history[i];
            assert(history.take(i + 1).drop_last() =~= history.take(i as int));
            assert(history.take(i + 1).last() == message.deep_view());
            if message.role != MessageRole::Summary {
                let kept = LlmMessage {
                    role: message.role,
                    body: message.body.clone(),
                    tool_call_id: message.tool_call_id.clone(),
                };
                messages.push(kept);
                assert(messages.deep_view() =~= before.push(kept.deep_view()));
            }
            assert(messages.deep_view() =~= middle + conversation(history.take(i + 1)));
        }
        assert(history.take(history.len() as int) =~= history);

        // The current user message.
        let ghost before = messages.deep_view();
        let current = LlmMessage::text(MessageRole::Developer, &context.user_message);
        messages.push(current);
        assert(messages.deep_view() =~= before.push(current.deep_view()));
        assert(messages.deep_view() =~= context_messages(input));
        messages
    }

    /// Build the system prompt from tool definitions and active and available skills.
    pub fn build_system_prompt(
        tools: &[ToolDefinition],
        active_skills: &[ActivatedSkill],
        available_skills: &[SkillEntry],
    ) -> (prompt: String)
        ensures
            prompt@ == system_prompt::system_prompt(
                tools.deep_view(),
                active_skills.deep_view(),
                available_skills.deep_view(),
            ),
    {
        system_prompt::build_system_prompt(tools, active_skills, available_skills)
    }
}

/// The system prompt is the first message and does not depend on the history, the workspace
/// instructions or the user message: it is the same in every turn with the same tools and
/// skills.
pub proof fn law_system_prompt_is_stable(a: LlmContextInputModel, b: LlmContextInputModel)
    requires
        a.tools == b.tools,
        a.active_skills == b.active_skills,
        a.available_skills == b.available_skills,
    ensures
        context_messages(a)[0] == context_messages(b)[0],
        context_messages(a)[0].role == MessageRole::System,
{
}

/// No summary message reaches the provider as such: every one becomes a system reminder.
pub proof fn law_context_has_no_summary_role(input: LlmContextInputModel)
    ensures
        forall|i: int|
            0 <= i < context_messages(input).len() ==> (#[trigger] context_messages(input)[i]).role
                != MessageRole::Summary,
{
    lemma_reminders(input.history);
    lemma_conversation(input.history);
}

proof fn lemma_reminders(history: Seq<MessageModel>)
    ensures
        forall|i: int|
            0 <= i < reminders(history).len() ==> (#[trigger] reminders(history)[i]).role
                == MessageRole::System,
    decreases history.len(),
{
    if history.len() > 0 {
        lemma_reminders(history.drop_last());
    }
}

proof fn lemma_conversation(history: Seq<MessageModel>)
    ensures
        forall|i: int|
            0 <= i < conversation(history).len() ==> (#[trigger] conversation(history)[i]).role
                != MessageRole::Summary,
    decreases history.len(),
{
    if history.len() > 0 {
        lemma_conversation(history.drop_last());
    }
}

} // verus!

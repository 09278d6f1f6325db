//! What holds of every model context.

use vstd::prelude::*;

use crate::protocol;
use crate::protocol::message_laws;
use crate::protocol::session::{MessageBlockModel, MessageModel};
use crate::protocol::{
    ActivatedSkillModel, LlmMessageModel, MessageRole, SkillEntryModel, ToolDefinitionModel,
};
use crate::runtime::llm_context;
use crate::runtime::llm_context::LlmContextInputModel;
use crate::runtime::prompt;
use crate::runtime::prompt::PromptContextModel;
use crate::runtime::system_prompt;
use crate::sequences;

verus! {

/// The message is a text of the given role and answers no call.
pub open spec fn is_text(message: LlmMessageModel, role: MessageRole, text: Seq<char>) -> bool {
    &&& message.role == role
    &&& message.body == seq![MessageBlockModel::Text { text }]
    &&& message.tool_call_id is None
}

/// The messages are a request of the user message `user` after `history`, under the system
/// prompt `prompt` and the workspace instructions `instructions`: first the system prompt;
/// then the instructions, where there are any; then a reminder of each summary of the history;
/// then every other message of the history, in order and as it is; last the user message.
/// Nothing else is among them.
pub open spec fn is_request(
    messages: Seq<LlmMessageModel>,
    prompt: Seq<char>,
    user: Seq<char>,
    instructions: Option<Seq<char>>,
    history: Seq<MessageModel>,
) -> bool {
    let summaries = history.filter(|m: MessageModel| m.role == MessageRole::Summary);
    let others = history.filter(|m: MessageModel| m.role != MessageRole::Summary);
    let a = if instructions is Some {
        2int
    } else {
        1int
    };
    let b = a + summaries.len();
    let n = b + others.len();
    &&& messages.len() == n + 1
    &&& is_text(messages[0], MessageRole::System, prompt)
    &&& instructions matches Some(told) ==> is_text(messages[1], MessageRole::System, told)
    &&& forall|i: int|
        0 <= i < summaries.len() ==> is_text(
            messages[a + i],
            MessageRole::System,
            "Earlier conversation summary ("@ + (#[trigger] summaries[i]).id + "): "@
                + summaries[i].body.flat_map(
                |block: MessageBlockModel|
                    match block {
                        MessageBlockModel::Text { text } => text,
                        MessageBlockModel::ToolCall(_) => Seq::empty(),
                    },
            ),
        )
    &&& forall|i: int|
        0 <= i < others.len() ==> {
            &&& messages[b + i].role == (#[trigger] others[i]).role
            &&& messages[b + i].body == others[i].body
            &&& messages[b + i].tool_call_id == others[i].tool_call_id
        }
    &&& is_text(messages[n], MessageRole::Developer, user)
}

/// The context holds the whole history: each summary as a reminder, and each other message
/// exactly once, in order, with its role, its body and the call that it answers; the workspace
/// instructions stand right behind the system prompt, and the user message is the last.
pub proof fn law_context_holds_the_whole_conversation(input: LlmContextInputModel)
    ensures
        is_request(
            llm_context::context_messages(input),
            system_prompt::system_prompt(
                input.tools,
                input.active_skills,
                input.available_skills,
            ),
            input.user_message,
            input.workspace_instructions,
            input.history,
        ),
{
    lemma_reminders(input.history);
    lemma_conversation(input.history);
    let summaries = input.history.filter(|m: MessageModel| m.role == MessageRole::Summary);
    assert forall|i: int| 0 <= i < summaries.len() implies llm_context::reminders(input.history)[i]
        == llm_context::summary_reminder(#[trigger] summaries[i]) by {}
    assert forall|i: int| 0 <= i < summaries.len() implies protocol::joined_text(
        (#[trigger] summaries[i]).body,
    ) == summaries[i].body.flat_map(
        |block: MessageBlockModel|
            match block {
                MessageBlockModel::Text { text } => text,
                MessageBlockModel::ToolCall(_) => Seq::empty(),
            },
    ) by {
        message_laws::lemma_joined_text(summaries[i].body);
    }
}

proof fn lemma_reminders(history: Seq<MessageModel>)
    ensures
        llm_context::reminders(history) == history.filter(
            |m: MessageModel| m.role == MessageRole::Summary,
        ).map_values(|m: MessageModel| llm_context::summary_reminder(m)),
    decreases history.len(),
{
    let kept = |m: MessageModel| m.role == MessageRole::Summary;
    sequences::lemma_filter_last(history, kept);
    if history.len() > 0 {
        lemma_reminders(history.drop_last());
    }
    assert(llm_context::reminders(history) =~= history.filter(kept).map_values(
        |m: MessageModel| llm_context::summary_reminder(m),
    ));
}

proof fn lemma_conversation(history: Seq<MessageModel>)
    ensures
        llm_context::conversation(history) == history.filter(
            |m: MessageModel| m.role != MessageRole::Summary,
        ).map_values(
            |m: MessageModel|
                LlmMessageModel { role: m.role, body: m.body, tool_call_id: m.tool_call_id },
        ),
    decreases history.len(),
{
    let kept = |m: MessageModel| m.role != MessageRole::Summary;
    sequences::lemma_filter_last(history, kept);
    if history.len() > 0 {
        lemma_conversation(history.drop_last());
    }
    assert(llm_context::conversation(history) =~= history.filter(kept).map_values(
        |m: MessageModel|
            LlmMessageModel { role: m.role, body: m.body, tool_call_id: m.tool_call_id },
    ));
}

/// A prompt holds, behind the system prompt, a reminder of each compaction, every message of
/// the history as it is, and last the user message; nothing else is among them.
pub proof fn law_prompt_holds_the_whole_conversation(context: PromptContextModel)
    ensures
        ({
            let messages = prompt::prompt_messages(context);
            let a = 1 + context.compactions.len();
            let n = a + context.history.len();
            &&& messages.len() == n + 1
            &&& messages[0].role == MessageRole::System
            &&& messages[0].content == system_prompt::system_prompt(
                context.tools,
                context.active_skills,
                context.available_skills,
            )
            &&& messages[0].tool_calls is None
            &&& messages[0].tool_call_id is None
            &&& forall|i: int|
                0 <= i < context.compactions.len() ==> {
                    &&& messages[1 + i].role == MessageRole::System
                    &&& messages[1 + i].content == "Earlier conversation summary ("@ + (
                    #[trigger] context.compactions[i]).id + "): "@ + context.compactions[i].summary
                    &&& messages[1 + i].tool_calls is None
                    &&& messages[1 + i].tool_call_id is None
                }
            &&& forall|i: int|
                0 <= i < context.history.len() ==> {
                    &&& messages[a + i].role == (#[trigger] context.history[i]).role
                    &&& messages[a + i].content == context.history[i].content
                    &&& messages[a + i].tool_call_id == context.history[i].tool_call_id
                    &&& messages[a + i].tool_calls == context.history[i].tool_calls
                }
            &&& messages[n as int].role == MessageRole::Developer
            &&& messages[n as int].content == context.user_message
            &&& messages[n as int].tool_calls is None
            &&& messages[n as int].tool_call_id is None
        }),
{
}

/// The system prompt says who the agent is, gives each active skill with its name and its
/// content, each tool with its name, its description and its parameters, and each available
/// skill that is not active with its name and its description; all in the given order.
pub proof fn law_system_prompt_lists_everything(
    tools: Seq<ToolDefinitionModel>,
    active: Seq<ActivatedSkillModel>,
    available: Seq<SkillEntryModel>,
)
    ensures
        ({
            let offered = available.filter(
                |skill: SkillEntryModel|
                    forall|i: int| 0 <= i < active.len() ==> (#[trigger] active[i]).name != skill.name,
            );
            system_prompt::system_prompt(tools, active, available)
                == "You are Byte Agent, a local coding assistant running on the user's machine.\n\n"@
                + (if active.len() == 0 {
                Seq::empty()
            } else {
                "Active skills:\n"@ + active.flat_map(
                    |skill: ActivatedSkillModel|
                        "## "@ + skill.name + "\n"@ + skill.content + "\n"@,
                ) + "\n"@
            }) + "Available tools:\n"@ + tools.flat_map(
                |tool: ToolDefinitionModel|
                    "- "@ + tool.name + ": "@ + tool.description + "\n"@ + "  parameters: "@
                        + tool.parameters + "\n"@,
            ) + (if offered.len() == 0 {
                Seq::empty()
            } else {
                "\nAvailable skills (activate with the activate_skill tool):\n"@
                    + offered.flat_map(
                    |skill: SkillEntryModel|
                        "- "@ + skill.name + ": "@ + skill.description + "\n"@,
                )
            }) + "\nUse the tools when needed."@
        }),
{
    lemma_active_lines(active);
    lemma_tool_lines(tools);
    lemma_offered(available, active);
}

proof fn lemma_active_lines(active: Seq<ActivatedSkillModel>)
    ensures
        system_prompt::active_skills_lines(active) == active.flat_map(
            |skill: ActivatedSkillModel| "## "@ + skill.name + "\n"@ + skill.content + "\n"@,
        ),
    decreases active.len(),
{
    sequences::lemma_flat_map_last(
        active,
        |skill: ActivatedSkillModel| "## "@ + skill.name + "\n"@ + skill.content + "\n"@,
    );
    if active.len() > 0 {
        lemma_active_lines(active.drop_last());
    }
}

proof fn lemma_tool_lines(tools: Seq<ToolDefinitionModel>)
    ensures
        system_prompt::tools_lines(tools) == tools.flat_map(
            |tool: ToolDefinitionModel|
                "- "@ + tool.name + ": "@ + tool.description + "\n"@ + "  parameters: "@
                    + tool.parameters + "\n"@,
        ),
    decreases tools.len(),
{
    sequences::lemma_flat_map_last(
        tools,
        |tool: ToolDefinitionModel|
            "- "@ + tool.name + ": "@ + tool.description + "\n"@ + "  parameters: "@
                + tool.parameters + "\n"@,
    );
    if tools.len() > 0 {
        lemma_tool_lines(tools.drop_last());
    }
}

proof fn lemma_offered(available: Seq<SkillEntryModel>, active: Seq<ActivatedSkillModel>)
    ensures
        ({
            let offered = available.filter(
                |skill: SkillEntryModel|
                    forall|i: int| 0 <= i < active.len() ==> (#[trigger] active[i]).name != skill.name,
            );
            &&& system_prompt::some_inactive(available, active) == (offered.len() > 0)
            &&& system_prompt::inactive_lines(available, active) == offered.flat_map(
                |skill: SkillEntryModel| "- "@ + skill.name + ": "@ + skill.description + "\n"@,
            )
        }),
    decreases available.len(),
{
    let kept = |skill: SkillEntryModel|
        forall|i: int| 0 <= i < active.len() ==> (#[trigger] active[i]).name != skill.name;
    let line = |skill: SkillEntryModel| "- "@ + skill.name + ": "@ + skill.description + "\n"@;
    let offered = available.filter(kept);
    sequences::lemma_filter_last(available, kept);
    sequences::lemma_flat_map_last(offered, line);
    if available.len() > 0 {
        let rest = available.drop_last();
        let n = available.len() - 1;
        lemma_offered(rest, active);
        assert(available[n] == available.last());
        assert forall|i: int| 0 <= i < n implies #[trigger] available[i] == rest[i] by {}
        assert(kept(available.last()) == !system_prompt::is_active(active, available.last().name));
        if kept(available.last()) {
            assert(offered.drop_last() =~= rest.filter(kept));
        }
        if system_prompt::some_inactive(rest, active) {
            let i = choose|i: int|
                0 <= i < rest.len() && !system_prompt::is_active(active, (#[trigger] rest[i]).name);
            assert(!system_prompt::is_active(active, available[i].name));
        }
        if system_prompt::some_inactive(available, active) {
            let i = choose|i: int|
                0 <= i < available.len() && !system_prompt::is_active(
                    active,
                    (#[trigger] available[i]).name,
                );
            if i < n {
                assert(!system_prompt::is_active(active, rest[i].name));
            }
        }
    }
}

} // verus!

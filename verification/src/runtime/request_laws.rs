//! What every run sends to the model.

use vstd::prelude::*;

use crate::models::provider::ProviderEventModel;
use crate::protocol::{LlmMessageModel, MessageRole, RuntimeEventKindModel, SkillEntryModel};
use crate::runtime::active_path;
use crate::runtime::budget;
use crate::runtime::compaction;
use crate::runtime::compaction_laws;
use crate::runtime::context_laws;
use crate::runtime::history;
use crate::runtime::runner;
use crate::runtime::runner::{
    RecordsModel, RunActionModel, RunExecutorModel, RunInputModel, RunPhaseModel, RunStateModel,
};
use crate::runtime::runner_laws;
use crate::runtime::system_prompt;

verus! {

/// The messages are the first request of a run: the system prompt for the tools of the run and
/// the skills that can be activated, the workspace instructions of the run, the active path of
/// the records, and last the message of the run.
pub open spec fn is_first_request(
    x: RunExecutorModel,
    skills: Seq<SkillEntryModel>,
    records: RecordsModel,
    messages: Seq<LlmMessageModel>,
) -> bool {
    context_laws::is_request(
        messages,
        system_prompt::system_prompt(x.tools, Seq::empty(), skills),
        x.message,
        x.workspace_instructions,
        active_path::active_history_given(records.entries, records.calls),
    )
}

/// The records of a session must be compacted before a run: the active path reaches the
/// threshold, and some message is not compacted yet.
pub open spec fn needs_compaction(x: RunExecutorModel, records: RecordsModel) -> bool {
    let messages = history::messages_of(records.entries);
    &&& budget::reaches(
        budget::estimated_tokens(
            active_path::active_path_given(records.entries, records.calls),
        ),
        x.compaction_config.context_budget as nat,
        x.compaction_config.threshold_percent as nat,
    )
    &&& exists|i: int|
        0 <= i < messages.len() && !history::is_compacted(
            records.entries,
            (#[trigger] messages[i]).id,
        )
}

/// What a run does with the records of its session. Those that were not compacted yet and
/// need it are compacted first, and the range of the oldest block is published. Else the run
/// ends if it was cancelled, and sends the first request, with the tools of the run, if not.
pub proof fn law_records_make_the_first_request(
    x: RunExecutorModel,
    state: RunStateModel,
    records: RecordsModel,
    cancelled: bool,
)
    requires
        state.phase is ReadingEntries || state.phase is RereadingEntries,
    ensures
        ({
            let (next, actions) = runner::run_step(
                x,
                state,
                RunInputModel::EntriesRead(Ok(records)),
                cancelled,
            );
            let skills = match state.phase {
                RunPhaseModel::ReadingEntries { setup } => setup.skills,
                RunPhaseModel::RereadingEntries { setup } => setup.skills,
                _ => Seq::empty(),
            };
            let messages = history::messages_of(records.entries);
            if state.phase is ReadingEntries && needs_compaction(x, records) {
                &&& next.phase matches RunPhaseModel::Compacting { range, .. }
                &&& actions == seq![
                    RunActionModel::Emit(
                        RuntimeEventKindModel::CompactionStarted {
                            run_id: x.run_id,
                            session_id: x.session_id,
                            range,
                        },
                    ),
                    RunActionModel::Compact { entries: records.entries },
                ]
                &&& exists|a: int, b: int|
                    #[trigger] compaction_laws::is_oldest_block(records.entries, messages, a, b)
                        && range.first_message_id == messages[a].id && range.last_message_id
                        == messages[b].id
            } else if cancelled {
                &&& next.phase is Finished
                &&& forall|i: int|
                    0 <= i < actions.len() ==> !(#[trigger] actions[i] is SendToProvider)
            } else {
                &&& next.phase matches RunPhaseModel::AwaitingProvider { conversation }
                &&& actions == seq![
                    RunActionModel::SendToProvider {
                        messages: conversation.messages,
                        tools: x.tools,
                    },
                ]
                &&& !conversation.saw_message
                &&& is_first_request(x, skills, records, conversation.messages)
            }
        }),
{
    let skills = match state.phase {
        RunPhaseModel::ReadingEntries { setup } => setup.skills,
        RunPhaseModel::RereadingEntries { setup } => setup.skills,
        _ => Seq::empty(),
    };
    context_laws::law_context_holds_the_whole_conversation(
        runner::run_context(x, skills, records),
    );
    let entries = records.entries;
    let messages = history::messages_of(entries);
    let ids = compaction::compacted_set(entries);
    compaction::law_oldest_block(messages, ids);
    if let Some((a, b)) = compaction::oldest_block(messages, ids) {
        assert(!ids.contains(messages[a].id));
        assert(compaction_laws::is_oldest_block(entries, messages, a, b)) by {
            assert forall|i: int| 0 <= i < a implies history::is_compacted(
                entries,
                (#[trigger] messages[i]).id,
            ) by {
                assert(ids.contains(messages[i].id));
            }
            assert forall|i: int| a <= i <= b implies !history::is_compacted(
                entries,
                (#[trigger] messages[i]).id,
            ) by {
                assert(!ids.contains(messages[i].id));
            }
        }
        assert(!history::is_compacted(entries, messages[a].id));
    } else {
        assert forall|i: int| 0 <= i < messages.len() implies history::is_compacted(
            entries,
            (#[trigger] messages[i]).id,
        ) by {
            assert(ids.contains(messages[i].id));
        }
    }
}

/// The messages begin as the requests of the run must: behind the system prompt come the
/// workspace instructions of the run, where it has any; the message of the run is among them,
/// behind the conversation before it.
pub open spec fn begins_as_request(x: RunExecutorModel, messages: Seq<LlmMessageModel>) -> bool {
    exists|base: Seq<LlmMessageModel>|
        #[trigger] base.is_prefix_of(messages) && {
            &&& base.len() >= 2
            &&& base[0].role == MessageRole::System
            &&& x.workspace_instructions matches Some(told) ==> base.len() >= 3
                && context_laws::is_text(base[1], MessageRole::System, told)
            &&& context_laws::is_text(base.last(), MessageRole::Developer, x.message)
        }
}

/// Every request of a run carries the tools of the run and begins as it must: the workspace
/// instructions stand right behind the system prompt in each of them. The first request of a
/// run ends with the message of the run.
pub proof fn law_requests_carry_the_instructions(
    x: RunExecutorModel,
    inputs: Seq<(RunInputModel, bool)>,
)
    ensures
        ({
            let (state, actions) = runner_laws::run_trace(x, inputs);
            &&& forall|i: int|
                0 <= i < actions.len() ==> (
                #[trigger] actions[i] matches RunActionModel::SendToProvider { messages, tools } ==> {
                    &&& tools == x.tools
                    &&& begins_as_request(x, messages)
                    &&& x.workspace_instructions matches Some(told) ==> messages.len() >= 3
                        && context_laws::is_text(messages[1], MessageRole::System, told)
                    &&& (forall|j: int| 0 <= j < i ==> !(#[trigger] actions[j] is SendToProvider))
                        ==> context_laws::is_text(
                        messages.last(),
                        MessageRole::Developer,
                        x.message,
                    )
                })
            &&& runner_laws::conversation_of(state) matches Some(conversation) ==> begins_as_request(
                x,
                conversation.messages,
            ) && exists|j: int| 0 <= j < actions.len() && #[trigger] actions[j] is SendToProvider
        }),
    decreases inputs.len(),
{
    let (state, actions) = runner_laws::run_trace(x, inputs);
    if inputs.len() > 0 {
        let (input, cancelled) = inputs.last();
        let (before, earlier) = runner_laws::run_trace(x, inputs.drop_last());
        let (next, more) = runner::run_step(x, before, input, cancelled);
        law_requests_carry_the_instructions(x, inputs.drop_last());
        let n = earlier.len() as int;
        assert(actions == earlier + more);
        assert forall|i: int| 0 <= i < actions.len() implies #[trigger] actions[i] == (if i < n {
            earlier[i]
        } else {
            more[i - n]
        }) by {}
        lemma_step_request(x, before, input, cancelled);
        if runner_laws::conversation_of(before) is Some {
            let j = choose|j: int|
                0 <= j < earlier.len() && #[trigger] earlier[j] is SendToProvider;
            assert(actions[j] is SendToProvider);
        } else if runner_laws::conversation_of(next) is Some {
            assert(actions[n] == more[0]);
        }
        assert forall|i: int| 0 <= i < actions.len() implies (
        #[trigger] actions[i] matches RunActionModel::SendToProvider { messages, tools } ==> {
            &&& tools == x.tools
            &&& begins_as_request(x, messages)
            &&& x.workspace_instructions matches Some(told) ==> messages.len() >= 3
                && context_laws::is_text(messages[1], MessageRole::System, told)
            &&& (forall|j: int| 0 <= j < i ==> !(#[trigger] actions[j] is SendToProvider))
                ==> context_laws::is_text(messages.last(), MessageRole::Developer, x.message)
        }) by {
            if let RunActionModel::SendToProvider { messages, tools } = actions[i] {
                if i < n {
                    assert(earlier[i] is SendToProvider);
                    if forall|j: int| 0 <= j < i ==> !(#[trigger] actions[j] is SendToProvider) {
                        assert forall|j: int| 0 <= j < i implies !(
                        #[trigger] earlier[j] is SendToProvider) by {
                            assert(actions[j] == earlier[j]);
                        }
                    }
                } else {
                    assert(more[i - n] is SendToProvider);
                    if runner_laws::conversation_of(before) is Some {
                        let j = choose|j: int|
                            0 <= j < earlier.len() && #[trigger] earlier[j] is SendToProvider;
                        assert(actions[j] is SendToProvider);
                    }
                    lemma_instructions(x, messages);
                }
            }
        }
    }
}

proof fn lemma_instructions(x: RunExecutorModel, messages: Seq<LlmMessageModel>)
    requires
        begins_as_request(x, messages),
    ensures
        x.workspace_instructions matches Some(told) ==> messages.len() >= 3
            && context_laws::is_text(messages[1], MessageRole::System, told),
{
    let base = choose|base: Seq<LlmMessageModel>|
        #[trigger] base.is_prefix_of(messages) && {
            &&& base.len() >= 2
            &&& base[0].role == MessageRole::System
            &&& x.workspace_instructions matches Some(told) ==> base.len() >= 3
                && context_laws::is_text(base[1], MessageRole::System, told)
            &&& context_laws::is_text(base.last(), MessageRole::Developer, x.message)
        };
    assert(base[1] == messages.subrange(0, base.len() as int)[1]);
}

/// Where a request stands among the actions of a step, and how it begins.
proof fn lemma_step_request(
    x: RunExecutorModel,
    state: RunStateModel,
    input: RunInputModel,
    cancelled: bool,
)
    requires
        runner_laws::conversation_of(state) matches Some(conversation) ==> begins_as_request(
            x,
            conversation.messages,
        ),
    ensures
        ({
            let (next, actions) = runner::run_step(x, state, input, cancelled);
            &&& runner_laws::conversation_of(next) matches Some(conversation) ==> begins_as_request(
                x,
                conversation.messages,
            ) && (runner_laws::conversation_of(state) is None ==> actions.len() == 1
                && actions[0] is SendToProvider)
            &&& forall|i: int|
                0 <= i < actions.len() ==> (
                #[trigger] actions[i] matches RunActionModel::SendToProvider { messages, tools } ==> {
                    &&& tools == x.tools
                    &&& begins_as_request(x, messages)
                    &&& runner_laws::conversation_of(state) is None ==> context_laws::is_text(
                        messages.last(),
                        MessageRole::Developer,
                        x.message,
                    )
                })
        }),
{
    let (next, actions) = runner::run_step(x, state, input, cancelled);
    if let Some(conversation) = runner_laws::conversation_of(state) {
        runner_laws::law_requests_only_grow(x, state, input, cancelled);
        if let Some(after) = runner_laws::conversation_of(next) {
            lemma_longer(x, conversation.messages, after.messages);
        }
        assert forall|i: int| 0 <= i < actions.len() && #[trigger] actions[i] is SendToProvider
            implies actions[i]->SendToProvider_tools == x.tools && runner_laws::conversation_of(
            next,
        ) is Some && actions[i]->SendToProvider_messages == runner_laws::conversation_of(
            next,
        )->0.messages by {
            lemma_sent(x, state, input, cancelled, i);
        }
    } else {
        match (state.phase, input) {
            (RunPhaseModel::ReadingEntries { setup }, RunInputModel::EntriesRead(Ok(records))) => {
                law_records_make_the_first_request(x, state, records, cancelled);
                if let RunPhaseModel::AwaitingProvider { conversation } = next.phase {
                    lemma_first_begins(x, setup.skills, records, conversation.messages);
                }
            },
            (
                RunPhaseModel::RereadingEntries { setup },
                RunInputModel::EntriesRead(Ok(records)),
            ) => {
                law_records_make_the_first_request(x, state, records, cancelled);
                if let RunPhaseModel::AwaitingProvider { conversation } = next.phase {
                    lemma_first_begins(x, setup.skills, records, conversation.messages);
                }
            },
            _ => {},
        }
        assert forall|i: int|
            0 <= i < actions.len() && #[trigger] actions[i] is SendToProvider implies next.phase is AwaitingProvider by {
            lemma_sent(x, state, input, cancelled, i);
        }
    }
}

proof fn lemma_first_begins(
    x: RunExecutorModel,
    skills: Seq<SkillEntryModel>,
    records: RecordsModel,
    messages: Seq<LlmMessageModel>,
)
    requires
        is_first_request(x, skills, records, messages),
    ensures
        begins_as_request(x, messages),
        context_laws::is_text(messages.last(), MessageRole::Developer, x.message),
{
    assert(messages.subrange(0, messages.len() as int) =~= messages);
    assert(messages.is_prefix_of(messages));
}

proof fn lemma_longer(
    x: RunExecutorModel,
    messages: Seq<LlmMessageModel>,
    longer: Seq<LlmMessageModel>,
)
    requires
        begins_as_request(x, messages),
        messages.is_prefix_of(longer),
    ensures
        begins_as_request(x, longer),
{
    let base = choose|base: Seq<LlmMessageModel>|
        #[trigger] base.is_prefix_of(messages) && {
            &&& base.len() >= 2
            &&& base[0].role == MessageRole::System
            &&& x.workspace_instructions matches Some(told) ==> base.len() >= 3
                && context_laws::is_text(base[1], MessageRole::System, told)
            &&& context_laws::is_text(base.last(), MessageRole::Developer, x.message)
        };
    assert(base =~= longer.subrange(0, base.len() as int)) by {
        assert(base =~= messages.subrange(0, base.len() as int));
        assert(messages =~= longer.subrange(0, messages.len() as int));
        assert forall|i: int| 0 <= i < base.len() implies base[i] == longer[i] by {
            assert(base[i] == messages.subrange(0, base.len() as int)[i]);
            assert(messages[i] == longer.subrange(0, messages.len() as int)[i]);
        }
    }
    assert(base.is_prefix_of(longer));
}

/// A request is sent only on the way to waiting for the provider, and is the request that the
/// run then waits for.
proof fn lemma_sent(
    x: RunExecutorModel,
    state: RunStateModel,
    input: RunInputModel,
    cancelled: bool,
    i: int,
)
    requires
        0 <= i < runner::run_step(x, state, input, cancelled).1.len(),
        runner::run_step(x, state, input, cancelled).1[i] is SendToProvider,
    ensures
        ({
            let (next, actions) = runner::run_step(x, state, input, cancelled);
            &&& next.phase matches RunPhaseModel::AwaitingProvider { conversation }
            &&& actions[i] == (RunActionModel::SendToProvider {
                messages: conversation.messages,
                tools: x.tools,
            })
        }),
{
    let (next, actions) = runner::run_step(x, state, input, cancelled);
    match (state.phase, input) {
        (
            RunPhaseModel::Streaming { conversation, stream },
            RunInputModel::StreamEvent(Ok(
                ProviderEventModel::MessageCompleted {
                    message_id,
                    tool_calls,
                },
            )),
        ) => {
            let piece = runner::delta_actions(
                x.run_id,
                message_id,
                runner::remainder(stream.delta_buffer),
            );
            if i < piece.len() {
                assert(actions[i] == piece[i]);
            }
        },
        _ => {},
    }
}

} // verus!

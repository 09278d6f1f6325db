//! What holds of every compaction.

use vstd::prelude::*;

use crate::models::provider::ProviderError;
use crate::protocol::session::{
    CompactionEntryModel, CompactionRangeModel, MessageBlockModel, MessageModel, SessionEntryModel,
};
use crate::protocol::{LlmMessageModel, MessageRole};
use crate::runtime::active_path;
use crate::runtime::budget;
use crate::runtime::compaction;
use crate::runtime::compaction::{CompactionConfig, CompactionError};
use crate::runtime::compaction_run;
use crate::runtime::compaction_run::{
    CompactActionModel, CompactInputModel, CompactStateModel, FailureModel,
};
use crate::runtime::history;
use crate::runtime::history_laws;
use crate::sequences;

verus! {

/// The request asks for a summary of `messages`: the instruction, and behind it every message
/// with its role, its body and the call that it answers.
pub open spec fn asks_to_summarize(
    request: Seq<LlmMessageModel>,
    messages: Seq<MessageModel>,
) -> bool {
    &&& request.len() == messages.len() + 1
    &&& request[0].role == MessageRole::System
    &&& request[0].body == seq![
        MessageBlockModel::Text {
            text: "Summarize the following conversation block concisely. Preserve facts, decisions, and context needed for future turns."@,
        },
    ]
    &&& request[0].tool_call_id is None
    &&& forall|i: int|
        0 <= i < messages.len() ==> {
            &&& request[i + 1].role == (#[trigger] messages[i]).role
            &&& request[i + 1].body == messages[i].body
            &&& request[i + 1].tool_call_id == messages[i].tool_call_id
        }
}

/// The request for a summary holds the instruction and the whole text of every message.
pub proof fn law_summary_request_holds_the_messages(messages: Seq<MessageModel>)
    ensures
        asks_to_summarize(compaction::summary_prompt(messages), messages),
{
}

/// The characters that count for the estimate of a body.
pub open spec fn counted_text(body: Seq<MessageBlockModel>) -> Seq<char> {
    body.flat_map(
        |block: MessageBlockModel|
            match block {
                MessageBlockModel::Text { text } => text,
                MessageBlockModel::ToolCall(call) => call.name + call.arguments,
            },
    )
}

/// The estimate for a message is the least number of tokens of four characters each that hold
/// all its text, the names and the arguments of its tool calls; a longer text than memory can
/// hold counts as the longest that fits.
pub proof fn law_tokens_hold_all_characters(body: Seq<MessageBlockModel>)
    ensures
        ({
            let chars = counted_text(body).len();
            let tokens = budget::message_tokens(body);
            chars <= usize::MAX ==> 4 * tokens >= chars && 4 * tokens < chars + 4
        }),
{
    lemma_body_size(body);
}

proof fn lemma_body_size(body: Seq<MessageBlockModel>)
    ensures
        budget::body_size(body) == counted_text(body).len(),
    decreases body.len(),
{
    sequences::lemma_flat_map_last(
        body,
        |block: MessageBlockModel|
            match block {
                MessageBlockModel::Text { text } => text,
                MessageBlockModel::ToolCall(call) => call.name + call.arguments,
            },
    );
    if body.len() > 0 {
        lemma_body_size(body.drop_last());
    }
}

/// The estimate for messages is the sum of the estimates for each, as far as it fits; one
/// more message adds its own estimate.
pub proof fn law_estimates_add_up(messages: Seq<LlmMessageModel>, message: LlmMessageModel)
    ensures
        budget::estimated_tokens(Seq::empty()) == 0,
        ({
            let before = budget::estimated_tokens(messages);
            let after = budget::estimated_tokens(messages.push(message));
            let added = budget::message_tokens(message.body);
            after == if before + added <= usize::MAX {
                before + added
            } else {
                usize::MAX as nat
            }
        }),
{
    assert(messages.push(message).drop_last() =~= messages);
}

/// A number of tokens reaches a percentage of a budget exactly when the budget is not zero and
/// one token more would be over that percentage, as long as the product fits.
pub proof fn law_threshold_is_the_percentage(tokens: nat, limit: nat, percent: nat)
    requires
        limit * percent <= usize::MAX,
    ensures
        budget::reaches(tokens, limit, percent) <==> limit > 0 && 100 * (tokens + 1) > limit
            * percent,
{
}

/// The messages from place `a` to place `b` are the oldest ones in a row that are not
/// compacted.
pub open spec fn is_oldest_block(
    entries: Seq<SessionEntryModel>,
    messages: Seq<MessageModel>,
    a: int,
    b: int,
) -> bool {
    &&& 0 <= a <= b < messages.len()
    &&& forall|i: int| 0 <= i < a ==> history::is_compacted(entries, (#[trigger] messages[i]).id)
    &&& forall|i: int| a <= i <= b ==> !history::is_compacted(entries, (#[trigger] messages[i]).id)
    &&& b + 1 == messages.len() || history::is_compacted(entries, messages[b + 1].id)
}

/// How a compaction begins. Below the threshold there is nothing to do. Else, when all
/// messages are compacted already, there is no prior history; when one message of the oldest
/// block that is not compacted is larger than the budget alone, that is the error; else the
/// model is asked for a summary of exactly that block.
pub proof fn law_compaction_takes_the_oldest_block(
    config: CompactionConfig,
    entries: Seq<SessionEntryModel>,
)
    requires
        history_laws::distinct_messages(entries),
    ensures
        ({
            let (state, action) = compaction_run::compact_begins(config, entries);
            let messages = history::messages_of(entries);
            let tokens = budget::estimated_tokens(active_path::active_path(entries));
            if !budget::reaches(
                tokens,
                config.context_budget as nat,
                config.threshold_percent as nat,
            ) {
                state is Done && action == CompactActionModel::Finish(Ok(None))
            } else if forall|i: int|
                0 <= i < messages.len() ==> history::is_compacted(
                    entries,
                    (#[trigger] messages[i]).id,
                ) {
                state is Done && action == CompactActionModel::Finish(
                    Err(FailureModel::Error(CompactionError::NoPriorHistory)),
                )
            } else {
                exists|a: int, b: int|
                    #[trigger] is_oldest_block(entries, messages, a, b) && {
                        if exists|i: int|
                            a <= i <= b && budget::message_tokens((#[trigger] messages[i]).body)
                                > config.context_budget {
                            state is Done && action == CompactActionModel::Finish(
                                Err(
                                    FailureModel::Error(
                                        CompactionError::SingleMessageExceedsBudget,
                                    ),
                                ),
                            )
                        } else {
                            &&& action matches CompactActionModel::Summarize { messages: request }
                            &&& asks_to_summarize(request, messages.subrange(a, b + 1))
                            &&& state matches CompactStateModel::Opening { entries: kept, range }
                            &&& kept == entries
                            &&& range.first_message_id == messages[a].id
                            &&& range.last_message_id == messages[b].id
                        }
                    }
            }
        }),
{
    let messages = history::messages_of(entries);
    let ids = compaction::compacted_set(entries);
    let path = active_path::active_path(entries);
    compaction::law_oldest_block(messages, ids);
    assert forall|i: int| 0 <= i < messages.len() implies ids.contains((#[trigger] messages[i]).id)
        == history::is_compacted(entries, messages[i].id) by {}
    if compaction::over_threshold(config, path) {
        if let Some((a, b)) = compaction::oldest_block(messages, ids) {
            history_laws::lemma_distinct(entries);
            assert(!history::is_compacted(entries, messages[a].id));
            assert(is_oldest_block(entries, messages, a, b)) by {
                assert forall|i: int| 0 <= i < a implies history::is_compacted(
                    entries,
                    (#[trigger] messages[i]).id,
                ) by {
                    assert(ids.contains(messages[i].id));
                }
                assert forall|i: int| a <= i <= b implies !history::is_compacted(
                    entries,
                    (#[trigger] messages[i]).id,
                ) by {
                    assert(!ids.contains(messages[i].id));
                }
            }
            lemma_first_position(messages, a);
            lemma_first_position(messages, b);
            let range = compaction::block_range(messages, (a, b));
            let selected = compaction::selected_messages(messages, range);
            assert(selected == messages.subrange(a, b + 1));
            law_summary_request_holds_the_messages(selected);
            let limit = config.context_budget as nat;
            if compaction::exceeds_budget(selected, limit) {
                let i = choose|i: int|
                    0 <= i < selected.len() && compaction::single_tokens(#[trigger] selected[i])
                        > limit;
                assert(selected[i] == messages[a + i]);
                assert(budget::message_tokens(messages[a + i].body) > config.context_budget);
            } else {
                assert forall|i: int| a <= i <= b implies budget::message_tokens(
                    (#[trigger] messages[i]).body,
                ) <= config.context_budget by {
                    assert(selected[i - a] == messages[i]);
                    assert(compaction::single_tokens(selected[i - a]) <= limit);
                }
            }
        } else {
            assert forall|i: int| 0 <= i < messages.len() implies history::is_compacted(
                entries,
                (#[trigger] messages[i]).id,
            ) by {
                assert(ids.contains(messages[i].id));
            }
        }
    }
}

proof fn lemma_first_position(messages: Seq<MessageModel>, p: int)
    requires
        0 <= p < messages.len(),
        forall|i: int, j: int|
            0 <= i < j < messages.len() ==> (#[trigger] messages[i]).id != (#[trigger] messages[j]).id,
    ensures
        compaction::first_position(messages, messages[p].id) == p,
    decreases p,
{
    if p > 0 {
        assert(messages[0].id != messages[p].id);
        let rest = messages.skip(1);
        assert(rest[p - 1] == messages[p]);
        assert forall|i: int, j: int| 0 <= i < j < rest.len() implies (#[trigger] rest[i]).id != (
        #[trigger] rest[j]).id by {
            assert(messages[i + 1].id != messages[j + 1].id);
        }
        lemma_first_position(rest, p - 1);
    }
}

/// When the response stream ends after a whole message, an entry is stored that holds the
/// text of the message as summary, the range that was chosen, the time, the run and the given
/// identifier; the records that the compaction began with are kept.
pub proof fn law_stored_entry_is_complete(
    config: CompactionConfig,
    run_id: Seq<char>,
    state: CompactStateModel,
    now: Seq<char>,
    id: Seq<char>,
)
    requires
        state matches CompactStateModel::Reading { reader, .. } && reader.completed,
    ensures
        ({
            let (next, action) = compaction_run::compact_goes_on(
                config,
                run_id,
                state,
                CompactInputModel::StreamEnded { now },
                id,
            );
            &&& action matches CompactActionModel::Store { entry }
            &&& entry.id == id
            &&& entry.role == MessageRole::Summary
            &&& entry.summary == state->reader.summary
            &&& entry.compacted_range == state->Reading_range
            &&& entry.created_at == now
            &&& entry.run_id == run_id
            &&& next == (CompactStateModel::Storing { entries: state->Reading_entries, entry })
        }),
{
}

/// A stored entry is the outcome exactly when the active path of the records with the entry
/// behind them is below the threshold; else the compaction was not effective.
pub proof fn law_compaction_must_be_effective(
    config: CompactionConfig,
    run_id: Seq<char>,
    entries: Seq<SessionEntryModel>,
    entry: CompactionEntryModel,
    id: Seq<char>,
)
    ensures
        ({
            let (next, action) = compaction_run::compact_goes_on(
                config,
                run_id,
                CompactStateModel::Storing { entries, entry },
                CompactInputModel::Stored(Ok(())),
                id,
            );
            let tokens = budget::estimated_tokens(
                active_path::active_path(entries.push(SessionEntryModel::CompactionEntry(entry))),
            );
            &&& next is Done
            &&& if budget::reaches(
                tokens,
                config.context_budget as nat,
                config.threshold_percent as nat,
            ) {
                action == CompactActionModel::Finish(
                    Err(FailureModel::Error(CompactionError::IneffectiveCompaction)),
                )
            } else {
                action == CompactActionModel::Finish(Ok(Some(entry)))
            }
        }),
{
}

/// What goes wrong on the way ends the compaction with that error: a provider that cannot be
/// asked or whose stream fails, a store that fails, a cancellation while the summary is read.
pub proof fn law_compaction_fails_with_the_error(
    config: CompactionConfig,
    run_id: Seq<char>,
    state: CompactStateModel,
    error: ProviderError,
    id: Seq<char>,
)
    ensures
        state is Opening ==> compaction_run::compact_goes_on(
            config,
            run_id,
            state,
            CompactInputModel::ProviderOpened(Err(error)),
            id,
        ) == (
            CompactStateModel::Done,
            CompactActionModel::Finish(
                Err(compaction_run::failure_of(CompactionError::Provider(error))),
            ),
        ),
        state is Reading ==> compaction_run::compact_goes_on(
            config,
            run_id,
            state,
            CompactInputModel::StreamEvent(Err(error)),
            id,
        ) == (
            CompactStateModel::Done,
            CompactActionModel::Finish(
                Err(compaction_run::failure_of(CompactionError::Provider(error))),
            ),
        ),
        state is Reading ==> compaction_run::compact_goes_on(
            config,
            run_id,
            state,
            CompactInputModel::Cancelled,
            id,
        ) == (
            CompactStateModel::Done,
            CompactActionModel::Finish(Err(FailureModel::Error(CompactionError::Cancelled))),
        ),
        error matches ProviderError::Request(_) ==> compaction_run::failure_of(
            CompactionError::Provider(error),
        ) == FailureModel::Error(CompactionError::Provider(error)),
{
}

/// The answer of an opened provider is read from its beginning, with the records and the range
/// that the compaction began with.
pub proof fn law_answer_is_read_from_its_beginning(
    config: CompactionConfig,
    run_id: Seq<char>,
    entries: Seq<SessionEntryModel>,
    range: CompactionRangeModel,
    id: Seq<char>,
)
    ensures
        ({
            let (next, action) = compaction_run::compact_goes_on(
                config,
                run_id,
                CompactStateModel::Opening { entries, range },
                CompactInputModel::ProviderOpened(Ok(())),
                id,
            );
            &&& action is ReadOn
            &&& next matches CompactStateModel::Reading { entries: kept, range: same, reader }
            &&& kept == entries
            &&& same == range
            &&& reader.message_id is None
            &&& reader.summary.len() == 0
            &&& !reader.completed
        }),
{
}

/// A malformed answer is told from a request for tools.
pub proof fn law_malformed_answer_is_told_apart(error: CompactionError)
    requires
        compaction::is_malformed(error),
    ensures
        compaction_run::failure_of(error) is Malformed,
        error matches CompactionError::Provider(ProviderError::InvalidResponse(told)) && told@
            == "compaction summary stream is malformed"@,
{
    reveal_strlit("compaction summary requested tool calls");
    reveal_strlit("compaction summary stream is malformed");
    assert("compaction summary stream is malformed"@.len() == 38);
    assert("compaction summary requested tool calls"@.len() == 39);
}

} // verus!

//! What holds of every run.

use vstd::prelude::*;

use crate::models::provider::ProviderEventModel;
use crate::protocol;
use crate::protocol::session::BlockDeltaModel;
use crate::protocol::{LlmMessageModel, MessageRole, RunStatus, RuntimeEventKindModel};
use crate::runtime::runner;
use crate::runtime::runner::{
    ConversationModel, DeltaBufferModel, RunActionModel, RunExecutorModel, RunInputModel,
    RunPhaseModel, RunResultModel, RunStateModel, StepModel, StreamStateModel, ToolTurnModel,
};

verus! {

/// A run from its beginning: the state after all `inputs`, each with whether the run was
/// cancelled by then, and everything that was asked for on the way.
pub open spec fn run_trace(x: RunExecutorModel, inputs: Seq<(RunInputModel, bool)>) -> StepModel
    decreases inputs.len(),
{
    if inputs.len() == 0 {
        (runner::initial_state(x), Seq::empty())
    } else {
        let (state, actions) = run_trace(x, inputs.drop_last());
        let (next, more) = runner::run_step(x, state, inputs.last().0, inputs.last().1);
        (next, actions + more)
    }
}

/// The action publishes that the run has started.
pub open spec fn is_start(action: RunActionModel) -> bool {
    action matches RunActionModel::Emit(RuntimeEventKindModel::RunStarted { .. })
}

/// The action publishes that the run is over.
pub open spec fn is_finish(action: RunActionModel) -> bool {
    action matches RunActionModel::Emit(RuntimeEventKindModel::RunFinished { .. })
}

/// The action publishes that the run was cancelled.
pub open spec fn is_cancel(action: RunActionModel) -> bool {
    action matches RunActionModel::Emit(RuntimeEventKindModel::RunCancelled { .. })
}

/// None of the actions starts, ends, cancels or releases a run.
pub open spec fn is_quiet(actions: Seq<RunActionModel>) -> bool {
    forall|i: int|
        0 <= i < actions.len() ==> !is_finish(#[trigger] actions[i]) && !is_cancel(actions[i])
            && !is_start(actions[i]) && !(actions[i] is ReleaseRun)
}

/// The actions end a run: something, at most one `RunCancelled` (and then the run ends as
/// cancelled), one release, and one `RunFinished`, which is the last.
pub open spec fn is_ending(x: RunExecutorModel, actions: Seq<RunActionModel>) -> bool {
    let n = actions.len() as int;
    &&& n >= 2
    &&& is_finish(actions[n - 1])
    &&& forall|i: int| 0 <= i < n - 1 ==> !is_finish(#[trigger] actions[i])
    &&& forall|i: int| 0 <= i < n ==> !is_start(#[trigger] actions[i])
    &&& forall|i: int, j: int|
        0 <= i < j < n ==> !(is_cancel(#[trigger] actions[i]) && is_cancel(#[trigger] actions[j]))
    &&& forall|i: int|
        0 <= i < n && is_cancel(#[trigger] actions[i]) ==> actions[n - 1] == RunActionModel::Emit(
            RuntimeEventKindModel::RunFinished {
                run_id: x.run_id,
                status: RunStatus::Cancelled,
                error: None,
            },
        )
    &&& exists|r: int| #[trigger] released_at(actions, r)
}

/// The only release is action `r`, and everything after it is published.
pub open spec fn released_at(actions: Seq<RunActionModel>, r: int) -> bool {
    &&& 0 <= r < actions.len()
    &&& actions[r] is ReleaseRun
    &&& forall|i: int| 0 <= i < r ==> !(#[trigger] actions[i] is ReleaseRun)
    &&& forall|i: int| r < i < actions.len() ==> #[trigger] actions[i] is Emit
}

/// What a step does: it goes on quietly, or it ends the run.
pub open spec fn is_orderly(x: RunExecutorModel, step: StepModel) -> bool {
    if step.0.phase is Finished {
        is_ending(x, step.1)
    } else {
        is_quiet(step.1)
    }
}

/// Ending a run after quiet actions, of which at most the last is a cancellation.
proof fn lemma_finish(
    x: RunExecutorModel,
    last: Seq<char>,
    before: Seq<RunActionModel>,
    cancelled_before: bool,
    result: RunResultModel,
)
    requires
        is_quiet(
            if cancelled_before {
                before.drop_last()
            } else {
                before
            },
        ),
        cancelled_before ==> before.len() > 0 && before.last() == RunActionModel::Emit(
            RuntimeEventKindModel::RunCancelled { run_id: x.run_id },
        ) && result == (RunResultModel::Cancelled { emit_run_cancelled_event: false }),
    ensures
        is_orderly(x, runner::finish(x, last, before, result)),
{
    let actions = runner::finish(x, last, before, result).1;
    let events = runner::terminal_events(x.run_id, result);
    let ending = runner::ending(x, result);
    let k = before.len() as int;
    let n = actions.len() as int;
    assert(actions == before + ending);
    assert(ending.len() == 1 + events.len());
    assert(actions[k] == ending[0]);
    assert(ending[0] is ReleaseRun);
    assert forall|i: int| k < i < n implies #[trigger] actions[i] == RunActionModel::Emit(
        events[i - k - 1],
    ) by {
        assert(actions[i] == ending[i - k]);
    }
    assert forall|i: int| 0 <= i < k implies #[trigger] actions[i] == before[i] by {}
    if cancelled_before {
        let quiet = before.drop_last();
        assert forall|i: int| 0 <= i < k - 1 implies #[trigger] before[i] == quiet[i] by {}
    }
    assert(released_at(actions, k)) by {
        assert forall|i: int| 0 <= i < k implies !(#[trigger] actions[i] is ReleaseRun) by {
            assert(actions[i] == before[i]);
            if cancelled_before && i < k - 1 {
                assert(before.drop_last()[i] == before[i]);
            }
        }
    }
    assert forall|i: int| 0 <= i < k implies !is_finish(#[trigger] actions[i]) && !is_start(
        actions[i],
    ) && (is_cancel(actions[i]) ==> cancelled_before && i == k - 1) by {
        assert(actions[i] == before[i]);
        if cancelled_before && i < k - 1 {
            assert(before.drop_last()[i] == before[i]);
        }
    }
}

/// Ending a run after quiet actions.
proof fn lemma_plain_finish(
    x: RunExecutorModel,
    last: Seq<char>,
    before: Seq<RunActionModel>,
    result: RunResultModel,
)
    requires
        is_quiet(before),
    ensures
        is_orderly(x, runner::finish(x, last, before, result)),
{
    lemma_finish(x, last, before, false, result);
}

proof fn lemma_next_turn(
    x: RunExecutorModel,
    last: Seq<char>,
    conversation: ConversationModel,
    cancelled: bool,
)
    ensures
        is_orderly(x, runner::next_turn(x, last, conversation, cancelled)),
{
    if cancelled {
        lemma_plain_finish(
            x,
            last,
            Seq::empty(),
            RunResultModel::Cancelled { emit_run_cancelled_event: conversation.saw_message },
        );
    }
}

proof fn lemma_next_tool(
    x: RunExecutorModel,
    last: Seq<char>,
    conversation: ConversationModel,
    turn: ToolTurnModel,
    cancelled: bool,
)
    ensures
        is_orderly(x, runner::next_tool(x, last, conversation, turn, cancelled)),
{
    lemma_next_turn(
        x,
        last,
        ConversationModel { messages: conversation.messages + turn.messages, ..conversation },
        cancelled,
    );
}

proof fn lemma_fail(x: RunExecutorModel, last: Seq<char>, message: Seq<char>)
    ensures
        is_orderly(x, runner::fail(x, last, message)),
{
    lemma_plain_finish(x, last, Seq::empty(), RunResultModel::Failed { message });
}

proof fn lemma_stream_step(
    x: RunExecutorModel,
    state: RunStateModel,
    input: RunInputModel,
    cancelled: bool,
)
    requires
        !(state.phase is Finished),
    ensures
        is_orderly(x, runner::stream_step(x, state, input, cancelled)),
{
    let last = state.last_entry_id;
    match (state.phase, input) {
        (
            RunPhaseModel::Streaming { conversation, stream },
            RunInputModel::StreamCancelled,
        ) => {
            if let Some(message_id) = stream.message_id {
                let piece = runner::delta_actions(
                    x.run_id,
                    message_id,
                    runner::remainder(stream.delta_buffer),
                );
                let cancel = RunActionModel::Emit(
                    RuntimeEventKindModel::RunCancelled { run_id: x.run_id },
                );
                assert((piece + seq![cancel]).drop_last() =~= piece);
                lemma_finish(
                    x,
                    last,
                    piece + seq![cancel],
                    true,
                    RunResultModel::Cancelled { emit_run_cancelled_event: false },
                );
            } else {
                lemma_plain_finish(
                    x,
                    last,
                    Seq::empty(),
                    RunResultModel::Cancelled { emit_run_cancelled_event: false },
                );
            }
        },
        (RunPhaseModel::Streaming { .. }, RunInputModel::StreamEvent(Err(error))) => {
            lemma_fail(x, last, error);
        },
        (RunPhaseModel::Streaming { conversation, stream }, RunInputModel::StreamEnded) => {
            lemma_fail(
                x,
                last,
                "provider stream ended without completing the assistant message"@,
            );
            lemma_plain_finish(x, last, Seq::empty(), RunResultModel::Succeeded);
            lemma_plain_finish(
                x,
                last,
                Seq::empty(),
                RunResultModel::Cancelled { emit_run_cancelled_event: true },
            );
            if let Some(calls) = stream.tool_calls {
                lemma_next_tool(
                    x,
                    last,
                    ConversationModel {
                        saw_message: conversation.saw_message || stream.saw_message,
                        ..conversation
                    },
                    ToolTurnModel {
                        messages: seq![
                            LlmMessageModel {
                                role: MessageRole::Assistant,
                                body: protocol::assistant_body(
                                    stream.assistant_content,
                                    Some(calls),
                                ),
                                tool_call_id: None,
                            },
                        ],
                        calls,
                        next: 0,
                    },
                    cancelled,
                );
            }
        },
        (RunPhaseModel::SavingAssistant { .. }, RunInputModel::MessageAppended(Err(error))) => {
            lemma_fail(x, last, error);
        },
        _ => {},
    }
}

proof fn lemma_tool_step(
    x: RunExecutorModel,
    state: RunStateModel,
    input: RunInputModel,
    cancelled: bool,
)
    requires
        !(state.phase is Finished),
    ensures
        is_orderly(x, runner::tool_step(x, state, input, cancelled)),
{
    let last = state.last_entry_id;
    match (state.phase, input) {
        (RunPhaseModel::RunningTool { .. }, RunInputModel::ToolEnded) => {
            lemma_fail(x, last, "tool stream ended without producing a final result"@);
        },
        (
            RunPhaseModel::SavingToolResult { conversation, turn, output },
            RunInputModel::MessageAppended(Ok(id)),
        ) => {
            let call = turn.calls[turn.next];
            lemma_next_tool(
                x,
                id,
                conversation,
                ToolTurnModel {
                    messages: turn.messages.push(
                        LlmMessageModel {
                            role: MessageRole::Tool,
                            body: protocol::session::text_body(output),
                            tool_call_id: Some(call.id),
                        },
                    ),
                    calls: turn.calls,
                    next: turn.next + 1,
                },
                cancelled,
            );
        },
        (RunPhaseModel::SavingToolResult { .. }, RunInputModel::MessageAppended(Err(error))) => {
            lemma_fail(x, last, error);
        },
        _ => {},
    }
}

/// Once a run has started, every step goes on quietly or ends the run.
proof fn lemma_step(
    x: RunExecutorModel,
    state: RunStateModel,
    input: RunInputModel,
    cancelled: bool,
)
    requires
        !(state.phase is Finished),
        !(state.phase is Created),
    ensures
        is_orderly(x, runner::run_step(x, state, input, cancelled)),
{
    let last = state.last_entry_id;
    match state.phase {
        RunPhaseModel::LoadingSession => {
            if let RunInputModel::SessionLoaded(Err(error)) = input {
                lemma_fail(x, last, error);
            }
        },
        RunPhaseModel::LoadingCatalog { .. } => {
            if let RunInputModel::CatalogLoaded(Err(error)) = input {
                lemma_fail(x, last, error);
            }
        },
        RunPhaseModel::ReadingEntries { setup } => {
            match input {
                RunInputModel::EntriesRead(Err(error)) => {
                    lemma_fail(x, last, error);
                },
                RunInputModel::EntriesRead(Ok(records)) => {
                    lemma_next_turn(
                        x,
                        last,
                        ConversationModel {
                            messages: crate::runtime::llm_context::context_messages(
                                runner::run_context(x, setup.skills, records),
                            ),
                            saw_message: false,
                            workspace: setup.workspace,
                        },
                        cancelled,
                    );
                },
                _ => {},
            }
        },
        RunPhaseModel::RereadingEntries { setup } => {
            match input {
                RunInputModel::EntriesRead(Err(error)) => {
                    lemma_fail(x, last, error);
                },
                RunInputModel::EntriesRead(Ok(records)) => {
                    lemma_next_turn(
                        x,
                        last,
                        ConversationModel {
                            messages: crate::runtime::llm_context::context_messages(
                                runner::run_context(x, setup.skills, records),
                            ),
                            saw_message: false,
                            workspace: setup.workspace,
                        },
                        cancelled,
                    );
                },
                _ => {},
            }
        },
        RunPhaseModel::Compacting { .. } => {
            if let RunInputModel::Compacted(Err(error)) = input {
                lemma_plain_finish(
                    x,
                    last,
                    seq![
                        RunActionModel::Emit(
                            RuntimeEventKindModel::CompactionFailed {
                                run_id: x.run_id,
                                session_id: x.session_id,
                                error,
                            },
                        ),
                    ],
                    RunResultModel::Failed { message: error },
                );
            }
        },
        RunPhaseModel::AwaitingProvider { .. } => {
            if let RunInputModel::ProviderOpened(Err(error)) = input {
                lemma_fail(x, last, error);
            }
        },
        RunPhaseModel::Streaming { .. } => {
            lemma_stream_step(x, state, input, cancelled);
        },
        RunPhaseModel::SavingAssistant { .. } => {
            lemma_stream_step(x, state, input, cancelled);
        },
        RunPhaseModel::OpeningTool { .. } => {
            lemma_tool_step(x, state, input, cancelled);
        },
        RunPhaseModel::RunningTool { .. } => {
            lemma_tool_step(x, state, input, cancelled);
        },
        RunPhaseModel::SavingToolResult { .. } => {
            lemma_tool_step(x, state, input, cancelled);
        },
        _ => {},
    }
}

/// What the actions of a whole run are: nothing before it starts; then the announcement of
/// its start, quiet actions, and, once the run is over, its end.
pub open spec fn is_orderly_trace(x: RunExecutorModel, trace: StepModel) -> bool {
    let actions = trace.1;
    if trace.0.phase is Created {
        actions.len() == 0
    } else {
        &&& actions.len() > 0
        &&& actions[0] == RunActionModel::Emit(
            RuntimeEventKindModel::RunStarted { session_id: x.session_id, run_id: x.run_id },
        )
        &&& if trace.0.phase is Finished {
            is_ending(x, actions.skip(1))
        } else {
            is_quiet(actions.skip(1))
        }
    }
}

proof fn lemma_quiet_then(x: RunExecutorModel, a: Seq<RunActionModel>, b: Seq<RunActionModel>)
    requires
        is_quiet(a),
    ensures
        is_quiet(b) ==> is_quiet(a + b),
        is_ending(x, b) ==> is_ending(x, a + b),
{
    let whole = a + b;
    let k = a.len() as int;
    assert forall|i: int| 0 <= i < whole.len() implies #[trigger] whole[i] == (if i < k {
        a[i]
    } else {
        b[i - k]
    }) by {}
    if is_ending(x, b) {
        let n = whole.len() as int;
        let r = choose|r: int| #[trigger] released_at(b, r);
        assert(released_at(whole, k + r)) by {
            assert(whole[k + r] == b[r]);
            assert forall|i: int| 0 <= i < k + r implies !(#[trigger] whole[i] is ReleaseRun) by {
                if i >= k {
                    assert(whole[i] == b[i - k]);
                }
            }
            assert forall|i: int| k + r < i < n implies #[trigger] whole[i] is Emit by {
                assert(whole[i] == b[i - k]);
            }
        }
        assert(whole[n - 1] == b[b.len() - 1]);
        assert forall|i: int| 0 <= i < n - 1 implies !is_finish(#[trigger] whole[i]) by {
            if i >= k {
                assert(whole[i] == b[i - k]);
            }
        }
        assert forall|i: int, j: int| 0 <= i < j < n implies !(is_cancel(#[trigger] whole[i])
            && is_cancel(#[trigger] whole[j])) by {
            if i >= k {
                assert(whole[i] == b[i - k]);
                assert(whole[j] == b[j - k]);
            }
        }
        assert forall|i: int| 0 <= i < n && is_cancel(#[trigger] whole[i]) implies whole[n - 1]
            == RunActionModel::Emit(
            RuntimeEventKindModel::RunFinished {
                run_id: x.run_id,
                status: RunStatus::Cancelled,
                error: None,
            },
        ) by {
            assert(whole[i] == b[i - k]);
        }
        assert forall|i: int| 0 <= i < n implies !is_start(#[trigger] whole[i]) by {
            if i >= k {
                assert(whole[i] == b[i - k]);
            }
        }
    }
}

/// Every run goes in order: it begins with `RunStarted`; it publishes `RunFinished` exactly
/// once, as its last action, and nothing is asked for after it; the session is released
/// exactly once, right before the terminal events; `RunCancelled` is published at most once,
/// and only by a run that ends as cancelled.
pub proof fn law_run_is_orderly(x: RunExecutorModel, inputs: Seq<(RunInputModel, bool)>)
    ensures
        is_orderly_trace(x, run_trace(x, inputs)),
    decreases inputs.len(),
{
    if inputs.len() > 0 {
        law_run_is_orderly(x, inputs.drop_last());
        let (state, actions) = run_trace(x, inputs.drop_last());
        let (next, more) = runner::run_step(x, state, inputs.last().0, inputs.last().1);
        let whole = actions + more;
        if state.phase is Finished {
            assert(whole =~= actions);
        } else if state.phase is Created {
            assert(whole =~= more);
            if !(next.phase is Created) {
                assert(whole.skip(1) =~= seq![RunActionModel::LoadSession]);
            }
        } else {
            lemma_step(x, state, inputs.last().0, inputs.last().1);
            lemma_quiet_then(x, actions.skip(1), more);
            assert(whole.skip(1) =~= actions.skip(1) + more);
            assert(whole[0] == actions[0]);
            lemma_started_stays(x, state, inputs.last().0, inputs.last().1);
        }
    }
}

/// A started run is not brought back to its beginning.
proof fn lemma_started_stays(
    x: RunExecutorModel,
    state: RunStateModel,
    input: RunInputModel,
    cancelled: bool,
)
    requires
        !(state.phase is Created),
    ensures
        !(runner::run_step(x, state, input, cancelled).0.phase is Created),
{
}

/// The run is over exactly when `RunFinished` was published; it is published once, as the
/// last action of the run.
pub proof fn law_single_terminal_event(x: RunExecutorModel, inputs: Seq<(RunInputModel, bool)>)
    ensures
        ({
            let (state, actions) = run_trace(x, inputs);
            &&& state.phase is Finished <==> exists|i: int|
                0 <= i < actions.len() && is_finish(#[trigger] actions[i])
            &&& forall|i: int|
                0 <= i < actions.len() && is_finish(#[trigger] actions[i]) ==> i == actions.len()
                    - 1
        }),
{
    law_run_is_orderly(x, inputs);
    let (state, actions) = run_trace(x, inputs);
    if !(state.phase is Created) {
        let rest = actions.skip(1);
        assert forall|i: int| 0 < i < actions.len() implies #[trigger] actions[i] == rest[i - 1] by {}
        if state.phase is Finished {
            assert(is_finish(actions[actions.len() - 1]));
        }
    }
}

/// What each step asks to persist is a child of the last persisted message, and an assistant
/// message is persisted only whole: right after its completion was published with the same
/// identifier and the same body.
pub proof fn law_persisted_messages(
    x: RunExecutorModel,
    state: RunStateModel,
    input: RunInputModel,
    cancelled: bool,
)
    ensures
        ({
            let (next, actions) = runner::run_step(x, state, input, cancelled);
            forall|i: int| 0 <= i < actions.len() ==> (#[trigger] actions[i] matches
                RunActionModel::AppendMessage { id, parent_id, role, body, .. } ==> {
                &&& parent_id == Some(state.last_entry_id)
                &&& next.last_entry_id == state.last_entry_id
                &&& role == MessageRole::Assistant || role == MessageRole::Tool
                &&& role == MessageRole::Assistant ==> id is Some && i > 0 && actions[i - 1]
                    == RunActionModel::Emit(
                    RuntimeEventKindModel::MessageCompleted {
                        run_id: x.run_id,
                        message_id: id->0,
                        body: Some(body),
                    },
                )
            })
        }),
{
    let (next, actions) = runner::run_step(x, state, input, cancelled);
    assert forall|i: int| 0 <= i < actions.len() && #[trigger] actions[i] is AppendMessage implies
        appended_after_completion(x, state, next, actions, i) by {
        lemma_appends(x, state, input, cancelled, i);
    }
}

/// Action `i` persists a message as [`law_persisted_messages`] says.
spec fn appended_after_completion(
    x: RunExecutorModel,
    state: RunStateModel,
    next: RunStateModel,
    actions: Seq<RunActionModel>,
    i: int,
) -> bool {
    actions[i] matches RunActionModel::AppendMessage { id, parent_id, role, body, .. } && {
        &&& parent_id == Some(state.last_entry_id)
        &&& next.last_entry_id == state.last_entry_id
        &&& role == MessageRole::Assistant || role == MessageRole::Tool
        &&& role == MessageRole::Assistant ==> id is Some && i > 0 && actions[i - 1]
            == RunActionModel::Emit(
            RuntimeEventKindModel::MessageCompleted {
                run_id: x.run_id,
                message_id: id->0,
                body: Some(body),
            },
        )
    }
}

proof fn lemma_appends(
    x: RunExecutorModel,
    state: RunStateModel,
    input: RunInputModel,
    cancelled: bool,
    i: int,
)
    requires
        0 <= i < runner::run_step(x, state, input, cancelled).1.len(),
        runner::run_step(x, state, input, cancelled).1[i] is AppendMessage,
    ensures
        appended_after_completion(
            x,
            state,
            runner::run_step(x, state, input, cancelled).0,
            runner::run_step(x, state, input, cancelled).1,
            i,
        ),
{
    let (next, actions) = runner::run_step(x, state, input, cancelled);
    match (state.phase, input) {
        (
            RunPhaseModel::Streaming { conversation, stream },
            RunInputModel::StreamEvent(Ok(ProviderEventModel::MessageCompleted {
                message_id,
                tool_calls,
            })),
        ) => {
            let piece = runner::delta_actions(
                x.run_id,
                message_id,
                runner::remainder(stream.delta_buffer),
            );
            if i < piece.len() {
                assert(actions[i] == piece[i]);
            }
        },
        _ => {},
    }
}

/// A run that is cancelled while an assistant message is in flight publishes the text it
/// still held back, `RunCancelled`, and then `RunFinished` with status `Cancelled`, and
/// persists nothing.
pub proof fn law_cancelled_stream_persists_nothing(
    x: RunExecutorModel,
    last: Seq<char>,
    conversation: ConversationModel,
    stream: StreamStateModel,
    cancelled: bool,
)
    requires
        stream.message_id is Some,
    ensures
        ({
            let state = RunStateModel {
                phase: RunPhaseModel::Streaming { conversation, stream },
                last_entry_id: last,
            };
            let (next, actions) = runner::run_step(
                x,
                state,
                RunInputModel::StreamCancelled,
                cancelled,
            );
            let held_back = runner::delta_actions(
                x.run_id,
                stream.message_id->0,
                runner::remainder(stream.delta_buffer),
            );
            &&& next.phase is Finished
            &&& actions == held_back + seq![
                RunActionModel::Emit(RuntimeEventKindModel::RunCancelled { run_id: x.run_id }),
                RunActionModel::ReleaseRun,
                RunActionModel::Emit(
                    RuntimeEventKindModel::RunFinished {
                        run_id: x.run_id,
                        status: RunStatus::Cancelled,
                        error: None,
                    },
                ),
            ]
            &&& forall|i: int| 0 <= i < actions.len() ==> !(#[trigger] actions[i] is AppendMessage)
        }),
{
    let state = RunStateModel {
        phase: RunPhaseModel::Streaming { conversation, stream },
        last_entry_id: last,
    };
    let (next, actions) = runner::run_step(x, state, RunInputModel::StreamCancelled, cancelled);
    let held_back = runner::delta_actions(
        x.run_id,
        stream.message_id->0,
        runner::remainder(stream.delta_buffer),
    );
    assert(actions =~= held_back + seq![
        RunActionModel::Emit(RuntimeEventKindModel::RunCancelled { run_id: x.run_id }),
        RunActionModel::ReleaseRun,
        RunActionModel::Emit(
            RuntimeEventKindModel::RunFinished {
                run_id: x.run_id,
                status: RunStatus::Cancelled,
                error: None,
            },
        ),
    ]);
}

/// The results of a turn so far: one for each executed call, in the order of the calls,
/// after the assistant message that asked for them.
pub open spec fn results_in_order(turn: ToolTurnModel) -> bool {
    &&& 0 <= turn.next <= turn.calls.len()
    &&& turn.messages.len() == turn.next + 1
    &&& turn.messages[0].role == MessageRole::Assistant
    &&& turn.messages[0].body.len() == turn.calls.len() + 1
    &&& forall|k: int|
        0 <= k < turn.calls.len() ==> #[trigger] turn.messages[0].body[k + 1]
            == protocol::session::MessageBlockModel::ToolCall(turn.calls[k])
    &&& forall|k: int|
        0 <= k < turn.next ==> (#[trigger] turn.messages[k + 1]).role == MessageRole::Tool
            && turn.messages[k + 1].tool_call_id == Some(turn.calls[k].id)
}

/// The turn that a state executes, if it executes one.
pub open spec fn turn_of(state: RunStateModel) -> Option<ToolTurnModel> {
    match state.phase {
        RunPhaseModel::OpeningTool { turn, .. } => Some(turn),
        RunPhaseModel::RunningTool { turn, .. } => Some(turn),
        RunPhaseModel::SavingToolResult { turn, .. } => Some(turn),
        _ => None,
    }
}

/// In every state of a run, the tool calls of an assistant message have been executed one
/// after the other, each call once, and each result answers the call at its place.
pub proof fn law_tool_results_follow_calls(
    x: RunExecutorModel,
    inputs: Seq<(RunInputModel, bool)>,
)
    ensures
        runner::is_valid(run_trace(x, inputs).0),
        turn_of(run_trace(x, inputs).0) matches Some(turn) ==> results_in_order(turn),
    decreases inputs.len(),
{
    if inputs.len() > 0 {
        law_tool_results_follow_calls(x, inputs.drop_last());
        let (state, _) = run_trace(x, inputs.drop_last());
        lemma_results_step(x, state, inputs.last().0, inputs.last().1);
    }
}

proof fn lemma_results_step(
    x: RunExecutorModel,
    state: RunStateModel,
    input: RunInputModel,
    cancelled: bool,
)
    requires
        runner::is_valid(state),
        turn_of(state) matches Some(turn) ==> results_in_order(turn),
    ensures
        runner::is_valid(runner::run_step(x, state, input, cancelled).0),
        turn_of(runner::run_step(x, state, input, cancelled).0) matches Some(turn)
            ==> results_in_order(turn),
{
    let (next, _) = runner::run_step(x, state, input, cancelled);
    match (state.phase, input) {
        (RunPhaseModel::Streaming { conversation, stream }, RunInputModel::StreamEnded) => {
            if let Some(turn) = turn_of(next) {
                let calls = stream.tool_calls->0;
                let body = protocol::assistant_body(stream.assistant_content, Some(calls));
                assert(turn.messages[0].body == body);
                assert forall|k: int| 0 <= k < turn.calls.len() implies #[trigger] turn.messages[0].body[k
                    + 1] == protocol::session::MessageBlockModel::ToolCall(turn.calls[k]) by {
                    assert(body[k + 1] == protocol::call_blocks(calls)[k]);
                }
            }
        },
        (
            RunPhaseModel::SavingToolResult { conversation, turn, output },
            RunInputModel::MessageAppended(Ok(id)),
        ) => {
            if let Some(after) = turn_of(next) {
                assert forall|k: int| 0 <= k < after.next implies (
                #[trigger] after.messages[k + 1]).role == MessageRole::Tool
                    && after.messages[k + 1].tool_call_id == Some(after.calls[k].id) by {
                    if k < turn.next {
                        assert(after.messages[k + 1] == turn.messages[k + 1]);
                    }
                }
                assert(after.messages[0] == turn.messages[0]);
            }
        },
        _ => {},
    }
}

/// The request that a state builds up, if it has one.
pub open spec fn conversation_of(state: RunStateModel) -> Option<ConversationModel> {
    match state.phase {
        RunPhaseModel::AwaitingProvider { conversation } => Some(conversation),
        RunPhaseModel::Streaming { conversation, .. } => Some(conversation),
        RunPhaseModel::SavingAssistant { conversation, .. } => Some(conversation),
        RunPhaseModel::OpeningTool { conversation, .. } => Some(conversation),
        RunPhaseModel::RunningTool { conversation, .. } => Some(conversation),
        RunPhaseModel::SavingToolResult { conversation, .. } => Some(conversation),
        _ => None,
    }
}

/// From turn to turn the request only grows: it keeps all earlier messages in place, the
/// system prompt first among them, and adds the assistant message and the tool results.
pub proof fn law_requests_only_grow(
    x: RunExecutorModel,
    state: RunStateModel,
    input: RunInputModel,
    cancelled: bool,
)
    ensures
        conversation_of(state) matches Some(before) ==> conversation_of(
            runner::run_step(x, state, input, cancelled).0,
        ) matches Some(after) ==> before.messages.is_prefix_of(after.messages),
{
    let next = runner::run_step(x, state, input, cancelled).0;
    if conversation_of(state) is Some && conversation_of(next) is Some {
        let before = conversation_of(state)->0;
        let after = conversation_of(next)->0;
        assert(before.messages.is_prefix_of(after.messages)) by {
            assert(before.messages =~= after.messages.subrange(0, before.messages.len() as int));
        }
    }
}

/// The workspace that a run has learned of, while it goes on.
pub open spec fn workspace_of(state: RunStateModel) -> Option<Seq<char>> {
    match state.phase {
        RunPhaseModel::LoadingCatalog { workspace } => Some(workspace),
        RunPhaseModel::ReadingEntries { setup } => Some(setup.workspace),
        RunPhaseModel::Compacting { setup, .. } => Some(setup.workspace),
        RunPhaseModel::RereadingEntries { setup } => Some(setup.workspace),
        _ => match conversation_of(state) {
            Some(conversation) => Some(conversation.workspace),
            None => None,
        },
    }
}

/// A tool is started in the session of the run and in the workspace `workspace`, if the
/// action starts one; no catalog is loaded.
pub open spec fn works_in(
    x: RunExecutorModel,
    action: RunActionModel,
    workspace: Option<Seq<char>>,
) -> bool {
    match action {
        RunActionModel::InvokeTool { context, .. } => workspace is Some && context
            == runner::tool_context(x.session_id, workspace->0),
        RunActionModel::LoadCatalog { .. } => false,
        _ => true,
    }
}

#[verifier::rlimit(40)]
proof fn lemma_next_workspace(
    x: RunExecutorModel,
    state: RunStateModel,
    input: RunInputModel,
    cancelled: bool,
)
    ensures
        ({
            let (next, actions) = runner::run_step(x, state, input, cancelled);
            if state.phase is LoadingSession && next.phase is LoadingCatalog {
                actions == seq![
                    RunActionModel::LoadCatalog { workspace: workspace_of(next)->0 },
                ]
            } else {
                workspace_of(next) is Some ==> workspace_of(next) == workspace_of(state)
            }
        }),
{
}

#[verifier::rlimit(40)]
proof fn lemma_works_in(
    x: RunExecutorModel,
    state: RunStateModel,
    input: RunInputModel,
    cancelled: bool,
    i: int,
)
    requires
        0 <= i < runner::run_step(x, state, input, cancelled).1.len(),
        !(state.phase is LoadingSession && runner::run_step(
            x,
            state,
            input,
            cancelled,
        ).0.phase is LoadingCatalog),
    ensures
        works_in(x, runner::run_step(x, state, input, cancelled).1[i], workspace_of(state)),
{
    let (next, actions) = runner::run_step(x, state, input, cancelled);
    match (state.phase, input) {
        (
            RunPhaseModel::Streaming { conversation, stream },
            RunInputModel::StreamEvent(Ok(ProviderEventModel::MessageCompleted {
                message_id,
                tool_calls,
            })),
        ) => {
            let piece = runner::delta_actions(
                x.run_id,
                message_id,
                runner::remainder(stream.delta_buffer),
            );
            if i < piece.len() {
                assert(actions[i] == piece[i]);
            }
        },
        _ => {},
    }
}

proof fn lemma_step_workspace(
    x: RunExecutorModel,
    state: RunStateModel,
    input: RunInputModel,
    cancelled: bool,
)
    ensures
        ({
            let (next, actions) = runner::run_step(x, state, input, cancelled);
            if state.phase is LoadingSession && next.phase is LoadingCatalog {
                actions == seq![
                    RunActionModel::LoadCatalog { workspace: workspace_of(next)->0 },
                ]
            } else {
                &&& workspace_of(next) is Some ==> workspace_of(next) == workspace_of(state)
                &&& forall|i: int|
                    0 <= i < actions.len() ==> works_in(
                        x,
                        #[trigger] actions[i],
                        workspace_of(state),
                    )
            }
        }),
{
    let (next, actions) = runner::run_step(x, state, input, cancelled);
    lemma_next_workspace(x, state, input, cancelled);
    if !(state.phase is LoadingSession && next.phase is LoadingCatalog) {
        assert forall|i: int| 0 <= i < actions.len() implies works_in(
            x,
            #[trigger] actions[i],
            workspace_of(state),
        ) by {
            lemma_works_in(x, state, input, cancelled, i);
        }
    }
}

/// The catalog of the workspace is loaded somewhere before place `i`.
pub open spec fn catalog_before(
    actions: Seq<RunActionModel>,
    i: int,
    workspace: Seq<char>,
) -> bool {
    exists|k: int|
        0 <= k < i && #[trigger] actions[k] == (RunActionModel::LoadCatalog { workspace })
}

/// A run loads the catalog of one workspace at most, and every tool that it starts gets the
/// session of the run and that workspace.
pub proof fn law_tools_work_in_the_session(
    x: RunExecutorModel,
    inputs: Seq<(RunInputModel, bool)>,
)
    ensures
        ({
            let (state, actions) = run_trace(x, inputs);
            &&& state.phase is Created || state.phase is LoadingSession ==> forall|i: int|
                0 <= i < actions.len() ==> !(#[trigger] actions[i] is LoadCatalog)
            &&& forall|i: int, j: int|
                0 <= i < j < actions.len() ==> !(#[trigger] actions[i] is LoadCatalog
                    && #[trigger] actions[j] is LoadCatalog)
            &&& workspace_of(state) matches Some(workspace) ==> catalog_before(
                actions,
                actions.len() as int,
                workspace,
            )
            &&& forall|i: int|
                0 <= i < actions.len() ==> (#[trigger] actions[i] matches RunActionModel::InvokeTool {
                    context,
                    ..
                } ==> exists|workspace: Seq<char>| #[trigger]
                    catalog_before(actions, i, workspace) && context == runner::tool_context(
                        x.session_id,
                        workspace,
                    ))
        }),
    decreases inputs.len(),
{
    let (state, actions) = run_trace(x, inputs);
    if inputs.len() > 0 {
        let (before, earlier) = run_trace(x, inputs.drop_last());
        let (next, more) = runner::run_step(x, before, inputs.last().0, inputs.last().1);
        let n = earlier.len() as int;
        law_tools_work_in_the_session(x, inputs.drop_last());
        lemma_step_workspace(x, before, inputs.last().0, inputs.last().1);
        assert(actions == earlier + more);
        assert forall|i: int| 0 <= i < actions.len() implies #[trigger] actions[i] == (if i < n {
            earlier[i]
        } else {
            more[i - n]
        }) by {}
        if let Some(workspace) = workspace_of(state) {
            if before.phase is LoadingSession {
                assert(actions[n] == (RunActionModel::LoadCatalog { workspace }));
            } else {
                let k = choose|k: int|
                    0 <= k < n && #[trigger] earlier[k] == (RunActionModel::LoadCatalog {
                        workspace,
                    });
                assert(actions[k] == (RunActionModel::LoadCatalog { workspace }));
            }
        }
        assert forall|i: int| 0 <= i < actions.len() implies (
        #[trigger] actions[i] matches RunActionModel::InvokeTool { context, .. }
            ==> exists|workspace: Seq<char>| #[trigger]
            catalog_before(actions, i, workspace) && context == runner::tool_context(
                x.session_id,
                workspace,
            )) by {
            if let RunActionModel::InvokeTool { context, .. } = actions[i] {
                let workspace = if i < n {
                    choose|workspace: Seq<char>| #[trigger]
                        catalog_before(earlier, i, workspace) && context == runner::tool_context(
                            x.session_id,
                            workspace,
                        )
                } else {
                    workspace_of(before)->0
                };
                let limit = if i < n { i } else { n };
                assert(catalog_before(earlier, limit, workspace));
                let k = choose|k: int|
                    0 <= k < limit && #[trigger] earlier[k] == (RunActionModel::LoadCatalog {
                        workspace,
                    });
                assert(actions[k] == (RunActionModel::LoadCatalog { workspace }));
                assert(catalog_before(actions, i, workspace));
            }
        }
    }
}

/// The assistant text that actions publish, joined.
pub open spec fn published_text(actions: Seq<RunActionModel>) -> Seq<char>
    decreases actions.len(),
{
    if actions.len() == 0 {
        Seq::empty()
    } else {
        published_text(actions.drop_last()) + (match actions.last() {
            RunActionModel::Emit(
                RuntimeEventKindModel::MessageDelta {
                    delta: BlockDeltaModel::TextDelta { delta },
                    ..
                },
            ) => delta,
            _ => Seq::empty(),
        })
    }
}

/// Events of one assistant message, fed to the stream one after the other.
pub open spec fn stream_trace(
    x: RunExecutorModel,
    last: Seq<char>,
    stream: StreamStateModel,
    events: Seq<ProviderEventModel>,
) -> (StreamStateModel, Seq<RunActionModel>)
    decreases events.len(),
{
    if events.len() == 0 {
        (stream, Seq::empty())
    } else {
        let (state, actions) = stream_trace(x, last, stream, events.drop_last());
        let (next, more, _) = runner::provider_event(x, last, state, events.last());
        (next, actions + more)
    }
}

proof fn lemma_published(a: Seq<RunActionModel>, b: Seq<RunActionModel>)
    ensures
        published_text(a + b) == published_text(a) + published_text(b),
    decreases b.len(),
{
    if b.len() == 0 {
        assert(a + b =~= a);
        assert(published_text(a + b) =~= published_text(a) + published_text(b));
    } else {
        assert((a + b).drop_last() =~= a + b.drop_last());
        lemma_published(a, b.drop_last());
        assert(published_text(a + b) =~= published_text(a) + published_text(b));
    }
}

proof fn lemma_published_piece(
    run_id: Seq<char>,
    message_id: Seq<char>,
    piece: Option<Seq<char>>,
)
    ensures
        published_text(runner::delta_actions(run_id, message_id, piece)) == (match piece {
            Some(text) => text,
            None => Seq::empty(),
        }),
{
    let actions = runner::delta_actions(run_id, message_id, piece);
    if piece is Some {
        assert(actions.drop_last() =~= Seq::empty());
        assert(published_text(actions.drop_last()) =~= Seq::empty());
        assert(published_text(actions) =~= piece->0);
    } else {
        assert(published_text(actions) =~= Seq::empty());
    }
}

/// While text arrives, what was published and what is held back make up the content.
proof fn lemma_text_adds_up(
    x: RunExecutorModel,
    last: Seq<char>,
    stream: StreamStateModel,
    events: Seq<ProviderEventModel>,
)
    requires
        stream.assistant_content.len() == 0,
        stream.delta_buffer.buffer.len() == 0,
        forall|i: int| 0 <= i < events.len() ==> #[trigger] events[i] is TextDelta,
    ensures
        ({
            let (state, actions) = stream_trace(x, last, stream, events);
            &&& state.message_id == stream.message_id
            &&& published_text(actions) + state.delta_buffer.buffer == state.assistant_content
        }),
    decreases events.len(),
{
    let (state, actions) = stream_trace(x, last, stream, events);
    if events.len() == 0 {
        assert(published_text(actions) + state.delta_buffer.buffer =~= state.assistant_content);
    } else {
        let shorter = events.drop_last();
        assert forall|i: int| 0 <= i < shorter.len() implies #[trigger] shorter[i] is TextDelta by {
            assert(shorter[i] == events[i]);
        }
        lemma_text_adds_up(x, last, stream, shorter);
        let (before, so_far) = stream_trace(x, last, stream, shorter);
        let (_, more, _) = runner::provider_event(x, last, before, events.last());
        lemma_published(so_far, more);
        assert(events.last() == events[events.len() - 1]);
        if let ProviderEventModel::TextDelta { message_id, delta } = events.last() {
            if before.message_id == Some(message_id) {
                lemma_published_piece(
                    x.run_id,
                    message_id,
                    runner::flushed(before.delta_buffer, delta),
                );
            } else {
                assert(published_text(more) =~= Seq::empty());
            }
        }
        assert(published_text(actions) + state.delta_buffer.buffer =~= state.assistant_content);
    }
}

/// No assistant text is lost or repeated on the way to the client: when a message completes,
/// the deltas published for it, joined, are the text of its body.
pub proof fn law_deltas_make_up_the_message(
    x: RunExecutorModel,
    last: Seq<char>,
    message_id: Seq<char>,
    deltas: Seq<ProviderEventModel>,
    calls: Option<Seq<protocol::ToolCallModel>>,
)
    requires
        forall|i: int| 0 <= i < deltas.len() ==> #[trigger] deltas[i] is TextDelta,
    ensures
        ({
            let fresh = runner::fresh_stream(runner::DELTA_BUFFER_THRESHOLD);
            let start = ProviderEventModel::MessageStarted { message_id };
            let (started, first, _) = runner::provider_event(x, last, fresh, start);
            let (state, middle) = stream_trace(x, last, started, deltas);
            let (_, end, pending) = runner::provider_event(
                x,
                last,
                state,
                ProviderEventModel::MessageCompleted { message_id, tool_calls: calls },
            );
            &&& published_text(first + middle + end) == state.assistant_content
            &&& end.len() > 0
            &&& end.last() == (RunActionModel::AppendMessage {
                id: Some(message_id),
                parent_id: Some(last),
                role: MessageRole::Assistant,
                body: protocol::assistant_body(state.assistant_content, calls),
                tool_call_id: None,
            })
        }),
{
    let fresh = runner::fresh_stream(runner::DELTA_BUFFER_THRESHOLD);
    let start = ProviderEventModel::MessageStarted { message_id };
    let (started, first, _) = runner::provider_event(x, last, fresh, start);
    let (state, middle) = stream_trace(x, last, started, deltas);
    let completed = ProviderEventModel::MessageCompleted { message_id, tool_calls: calls };
    let (_, end, _) = runner::provider_event(x, last, state, completed);
    lemma_text_adds_up(x, last, started, deltas);
    lemma_published(first, middle);
    lemma_published(first + middle, end);
    assert(first.drop_last() =~= Seq::empty());
    assert(published_text(first) =~= Seq::empty()) by {
        assert(published_text(first.drop_last()) =~= Seq::empty());
    }
    let piece = runner::delta_actions(
        x.run_id,
        message_id,
        runner::remainder(state.delta_buffer),
    );
    lemma_published_piece(x.run_id, message_id, runner::remainder(state.delta_buffer));
    let rest = end.skip(piece.len() as int);
    assert(end =~= piece + rest);
    lemma_published(piece, rest);
    assert(rest.len() == 2);
    assert(rest.drop_last().drop_last() =~= Seq::empty());
    assert(published_text(rest.drop_last().drop_last()) =~= Seq::empty());
    assert(published_text(rest.drop_last()) =~= Seq::empty());
    assert(published_text(rest) =~= Seq::empty());
    assert(published_text(first + middle + end) =~= state.assistant_content);
}

/// Pieces flushed by pushing `deltas` one after the other, joined, and what stays buffered.
pub open spec fn pushed(buffer: DeltaBufferModel, deltas: Seq<Seq<char>>) -> (
    Seq<char>,
    DeltaBufferModel,
)
    decreases deltas.len(),
{
    if deltas.len() == 0 {
        (Seq::empty(), buffer)
    } else {
        let (out, before) = pushed(buffer, deltas.drop_last());
        let delta = deltas.last();
        (
            match runner::flushed(before, delta) {
                Some(piece) => out + piece,
                None => out,
            },
            runner::buffer_after(before, delta),
        )
    }
}

/// Texts, joined.
pub open spec fn joined(texts: Seq<Seq<char>>) -> Seq<char>
    decreases texts.len(),
{
    if texts.len() == 0 {
        Seq::empty()
    } else {
        joined(texts.drop_last()) + texts.last()
    }
}

/// A delta buffer loses and repeats nothing: what it has flushed and what it still holds
/// make up what it held and what was pushed.
pub proof fn law_delta_buffer_keeps_text(buffer: DeltaBufferModel, deltas: Seq<Seq<char>>)
    ensures
        pushed(buffer, deltas).0 + pushed(buffer, deltas).1.buffer == buffer.buffer + joined(
            deltas,
        ),
    decreases deltas.len(),
{
    if deltas.len() > 0 {
        law_delta_buffer_keeps_text(buffer, deltas.drop_last());
        let (out, before) = pushed(buffer, deltas.drop_last());
        let delta = deltas.last();
        assert((out + before.buffer) + delta =~= buffer.buffer + joined(deltas));
        assert(pushed(buffer, deltas).0 + pushed(buffer, deltas).1.buffer =~= (out
            + before.buffer) + delta);
    } else {
        assert(pushed(buffer, deltas).0 + pushed(buffer, deltas).1.buffer =~= buffer.buffer
            + joined(deltas));
    }
}

} // verus!

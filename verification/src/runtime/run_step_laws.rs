//! What each step of a run leads to.

use vstd::prelude::*;

use crate::models::provider::ProviderEventModel;
use crate::protocol;
use crate::protocol::message_laws;
use crate::protocol::session::{
    BlockDeltaModel, CompactionEntryModel, CompactionRangeModel, MessageBlockModel,
    SessionViewModel,
};
use crate::protocol::{
    LlmMessageModel, MessageRole, RunStatus, RuntimeEventKindModel, SessionContextModel,
    SkillEntryModel, ToolCallModel,
};
use crate::runtime::runner;
use crate::runtime::runner::{
    ConversationModel, DeltaBufferModel, RunActionModel, RunExecutorModel, RunInputModel,
    RunPhaseModel, RunResultModel, RunSetupModel, RunStateModel, StreamStateModel,
    ToolOutputResultModel, ToolStreamEventModel, ToolTurnModel,
};
use crate::runtime::runner_laws;
use crate::sequences;

verus! {

/// The actions that end a run with an error.
pub open spec fn failure_actions(run_id: Seq<char>, error: Seq<char>) -> Seq<RunActionModel> {
    seq![
        RunActionModel::ReleaseRun,
        RunActionModel::Emit(
            RuntimeEventKindModel::Error { message: error, run_id: Some(run_id) },
        ),
        RunActionModel::Emit(
            RuntimeEventKindModel::RunFinished {
                run_id,
                status: RunStatus::Failed,
                error: Some(error),
            },
        ),
    ]
}

/// The actions that end a run as cancelled, with or without the event that says so.
pub open spec fn cancel_actions(run_id: Seq<char>, told: bool) -> Seq<RunActionModel> {
    if told {
        seq![
            RunActionModel::ReleaseRun,
            RunActionModel::Emit(RuntimeEventKindModel::RunCancelled { run_id }),
            RunActionModel::Emit(
                RuntimeEventKindModel::RunFinished {
                    run_id,
                    status: RunStatus::Cancelled,
                    error: None,
                },
            ),
        ]
    } else {
        seq![
            RunActionModel::ReleaseRun,
            RunActionModel::Emit(
                RuntimeEventKindModel::RunFinished {
                    run_id,
                    status: RunStatus::Cancelled,
                    error: None,
                },
            ),
        ]
    }
}

/// The input tells a run in this phase that what it waits for failed, for the given reason.
pub open spec fn brings_failure(
    phase: RunPhaseModel,
    input: RunInputModel,
    error: Seq<char>,
) -> bool {
    ||| phase is LoadingSession && input == RunInputModel::SessionLoaded(Err(error))
    ||| phase is LoadingCatalog && input == RunInputModel::CatalogLoaded(Err(error))
    ||| (phase is ReadingEntries || phase is RereadingEntries) && input
        == RunInputModel::EntriesRead(Err(error))
    ||| phase is AwaitingProvider && input == RunInputModel::ProviderOpened(Err(error))
    ||| phase is Streaming && input == RunInputModel::StreamEvent(Err(error))
    ||| (phase is SavingAssistant || phase is SavingToolResult) && input
        == RunInputModel::MessageAppended(Err(error))
}

/// Whatever a run waits for fails it when it fails: the error is published, and the run
/// finishes as failed with it.
pub proof fn law_errors_fail_the_run(
    x: RunExecutorModel,
    state: RunStateModel,
    input: RunInputModel,
    error: Seq<char>,
    cancelled: bool,
)
    requires
        brings_failure(state.phase, input, error),
    ensures
        ({
            let (next, actions) = runner::run_step(x, state, input, cancelled);
            next.phase is Finished && actions == failure_actions(x.run_id, error)
        }),
{
    let (_, actions) = runner::run_step(x, state, input, cancelled);
    assert(actions =~= failure_actions(x.run_id, error));
}

/// How a run gets ready: it starts, loads its session, lists the skills of the workspace of
/// that session, and reads the records; what it learned is kept.
pub proof fn law_run_gets_ready(
    x: RunExecutorModel,
    last: Seq<char>,
    view: SessionViewModel,
    workspace: Seq<char>,
    skills: Seq<SkillEntryModel>,
    cancelled: bool,
)
    ensures
        runner::run_step(
            x,
            RunStateModel { phase: RunPhaseModel::Created, last_entry_id: last },
            RunInputModel::Start,
            cancelled,
        ) == (
            RunStateModel { phase: RunPhaseModel::LoadingSession, last_entry_id: last },
            seq![
                RunActionModel::Emit(
                    RuntimeEventKindModel::RunStarted {
                        session_id: x.session_id,
                        run_id: x.run_id,
                    },
                ),
                RunActionModel::LoadSession,
            ],
        ),
        runner::run_step(
            x,
            RunStateModel { phase: RunPhaseModel::LoadingSession, last_entry_id: last },
            RunInputModel::SessionLoaded(Ok(view)),
            cancelled,
        ) == (
            RunStateModel {
                phase: RunPhaseModel::LoadingCatalog { workspace: view.workspace },
                last_entry_id: last,
            },
            seq![RunActionModel::LoadCatalog { workspace: view.workspace }],
        ),
        runner::run_step(
            x,
            RunStateModel {
                phase: RunPhaseModel::LoadingCatalog { workspace },
                last_entry_id: last,
            },
            RunInputModel::CatalogLoaded(Ok(skills)),
            cancelled,
        ) == (
            RunStateModel {
                phase: RunPhaseModel::ReadingEntries {
                    setup: RunSetupModel { workspace, skills },
                },
                last_entry_id: last,
            },
            seq![RunActionModel::ReadEntries],
        ),
{
}

/// What comes of a compaction is published: a stored entry with its identifier, its summary
/// and its range, an error with its text. After a compaction that did not fail, the records
/// are read again; one that failed fails the run.
pub proof fn law_compaction_outcome_is_published(
    x: RunExecutorModel,
    last: Seq<char>,
    setup: RunSetupModel,
    range: CompactionRangeModel,
    entry: CompactionEntryModel,
    error: Seq<char>,
    cancelled: bool,
)
    ensures
        ({
            let state = RunStateModel {
                phase: RunPhaseModel::Compacting { setup, range },
                last_entry_id: last,
            };
            let again = RunStateModel {
                phase: RunPhaseModel::RereadingEntries { setup },
                last_entry_id: last,
            };
            &&& runner::run_step(x, state, RunInputModel::Compacted(Ok(Some(entry))), cancelled)
                == (
                again,
                seq![
                    RunActionModel::Emit(
                        RuntimeEventKindModel::CompactionCompleted {
                            run_id: x.run_id,
                            session_id: x.session_id,
                            entry_id: entry.id,
                            summary: entry.summary,
                            range,
                        },
                    ),
                    RunActionModel::ReadEntries,
                ],
            )
            &&& runner::run_step(x, state, RunInputModel::Compacted(Ok(None)), cancelled) == (
                again,
                seq![RunActionModel::ReadEntries],
            )
            &&& runner::run_step(x, state, RunInputModel::Compacted(Err(error)), cancelled).1
                == seq![
                RunActionModel::Emit(
                    RuntimeEventKindModel::CompactionFailed {
                        run_id: x.run_id,
                        session_id: x.session_id,
                        error,
                    },
                ),
            ] + failure_actions(x.run_id, error)
            &&& runner::run_step(
                x,
                state,
                RunInputModel::Compacted(Err(error)),
                cancelled,
            ).0.phase is Finished
        }),
{
    let state = RunStateModel {
        phase: RunPhaseModel::Compacting { setup, range },
        last_entry_id: last,
    };
    assert(runner::run_step(x, state, RunInputModel::Compacted(Ok(Some(entry))), cancelled).1
        =~= seq![
        RunActionModel::Emit(
            RuntimeEventKindModel::CompactionCompleted {
                run_id: x.run_id,
                session_id: x.session_id,
                entry_id: entry.id,
                summary: entry.summary,
                range,
            },
        ),
        RunActionModel::ReadEntries,
    ]);
    assert(runner::run_step(x, state, RunInputModel::Compacted(Ok(None)), cancelled).1 =~= seq![
        RunActionModel::ReadEntries,
    ]);
    assert(runner::run_step(x, state, RunInputModel::Compacted(Err(error)), cancelled).1 =~= seq![
        RunActionModel::Emit(
            RuntimeEventKindModel::CompactionFailed {
                run_id: x.run_id,
                session_id: x.session_id,
                error,
            },
        ),
    ] + failure_actions(x.run_id, error));
}

/// The text that events add to the message `id`.
pub open spec fn streamed_text(events: Seq<ProviderEventModel>, id: Seq<char>) -> Seq<char> {
    events.flat_map(
        |event: ProviderEventModel|
            match event {
                ProviderEventModel::TextDelta { message_id, delta } => if message_id == id {
                    delta
                } else {
                    Seq::empty()
                },
                _ => Seq::empty(),
            },
    )
}

/// What an assistant message is stored with: its text and its tool calls.
pub open spec fn answer_body(
    content: Seq<char>,
    calls: Option<Seq<ToolCallModel>>,
) -> Seq<MessageBlockModel> {
    seq![MessageBlockModel::Text { text: content }] + (match calls {
        Some(calls) => calls.map_values(|call: ToolCallModel| MessageBlockModel::ToolCall(call)),
        None => Seq::empty(),
    })
}

/// An assistant message holds what the model sent: it is announced when it starts, and when
/// it completes it is published and persisted, under the identifier that the model gave it
/// and behind the last message, with all text that was sent for it and all its tool calls.
pub proof fn law_answer_is_what_the_model_sent(
    x: RunExecutorModel,
    last: Seq<char>,
    id: Seq<char>,
    deltas: Seq<ProviderEventModel>,
    calls: Option<Seq<ToolCallModel>>,
)
    requires
        forall|i: int| 0 <= i < deltas.len() ==> #[trigger] deltas[i] is TextDelta,
    ensures
        ({
            let fresh = StreamStateModel {
                message_id: None,
                assistant_content: Seq::empty(),
                tool_calls: None,
                completed: false,
                saw_message: false,
                delta_buffer: DeltaBufferModel { threshold: 8, buffer: Seq::empty() },
            };
            let (started, first, none) = runner::provider_event(
                x,
                last,
                fresh,
                ProviderEventModel::MessageStarted { message_id: id },
            );
            let (state, middle) = runner_laws::stream_trace(x, last, started, deltas);
            let (after, end, pending) = runner::provider_event(
                x,
                last,
                state,
                ProviderEventModel::MessageCompleted { message_id: id, tool_calls: calls },
            );
            let content = streamed_text(deltas, id);
            let body = answer_body(content, calls);
            &&& fresh == runner::fresh_stream(runner::DELTA_BUFFER_THRESHOLD)
            &&& none is None
            &&& first == seq![
                RunActionModel::Emit(
                    RuntimeEventKindModel::MessageStarted {
                        run_id: x.run_id,
                        message_id: id,
                        role: MessageRole::Assistant,
                    },
                ),
            ]
            &&& end.len() >= 2
            &&& end[end.len() - 2] == RunActionModel::Emit(
                RuntimeEventKindModel::MessageCompleted {
                    run_id: x.run_id,
                    message_id: id,
                    body: Some(body),
                },
            )
            &&& end.last() == (RunActionModel::AppendMessage {
                id: Some(id),
                parent_id: Some(last),
                role: MessageRole::Assistant,
                body,
                tool_call_id: None,
            })
            &&& pending matches Some(pending) && pending.message_id == id && pending.calls == calls
            &&& after.assistant_content == content
            &&& after.saw_message
            &&& runner_laws::published_text(first + middle + end) == content
        }),
{
    let fresh = runner::fresh_stream(runner::DELTA_BUFFER_THRESHOLD);
    let (started, first, _) = runner::provider_event(
        x,
        last,
        fresh,
        ProviderEventModel::MessageStarted { message_id: id },
    );
    lemma_streamed(x, last, started, deltas, id);
    runner_laws::law_deltas_make_up_the_message(x, last, id, deltas, calls);
    let content = streamed_text(deltas, id);
    assert(Seq::<char>::empty() + content =~= content);
    message_laws::law_assistant_body_holds_text_and_calls(content, calls);
    assert(protocol::assistant_body(content, calls) =~= answer_body(content, calls));
}

proof fn lemma_streamed(
    x: RunExecutorModel,
    last: Seq<char>,
    stream: StreamStateModel,
    events: Seq<ProviderEventModel>,
    id: Seq<char>,
)
    requires
        stream.message_id == Some(id),
        forall|i: int| 0 <= i < events.len() ==> #[trigger] events[i] is TextDelta,
    ensures
        ({
            let (state, _) = runner_laws::stream_trace(x, last, stream, events);
            &&& state.message_id == Some(id)
            &&& state.saw_message == stream.saw_message
            &&& state.assistant_content == stream.assistant_content + streamed_text(events, id)
        }),
    decreases events.len(),
{
    let text = |event: ProviderEventModel|
        match event {
            ProviderEventModel::TextDelta { message_id, delta } => if message_id == id {
                delta
            } else {
                Seq::empty()
            },
            _ => Seq::empty(),
        };
    sequences::lemma_flat_map_last(events, text);
    let (state, _) = runner_laws::stream_trace(x, last, stream, events);
    if events.len() > 0 {
        let rest = events.drop_last();
        assert forall|i: int| 0 <= i < rest.len() implies #[trigger] rest[i] is TextDelta by {
            assert(rest[i] == events[i]);
        }
        lemma_streamed(x, last, stream, rest, id);
        assert(events.last() == events[events.len() - 1]);
        let (before, _) = runner_laws::stream_trace(x, last, stream, rest);
        assert(before.assistant_content + text(events.last()) =~= stream.assistant_content
            + streamed_text(events, id));
        if let ProviderEventModel::TextDelta { message_id, delta } = events.last() {
            if message_id != id {
                assert(before.assistant_content + Seq::<char>::empty()
                    =~= before.assistant_content);
            }
        }
    } else {
        assert(state.assistant_content =~= stream.assistant_content + streamed_text(events, id));
    }
}

/// A delta buffer gives out all it holds, and empties itself, as soon as that has as many
/// characters as the threshold; before that it gives out nothing. A flush gives out what is
/// left.
pub proof fn law_delta_buffer_flushes_at_the_threshold(
    buffer: DeltaBufferModel,
    delta: Seq<char>,
)
    ensures
        ({
            let whole = buffer.buffer + delta;
            let after = runner::buffer_after(buffer, delta);
            &&& after.threshold == buffer.threshold
            &&& if whole.len() >= buffer.threshold {
                runner::flushed(buffer, delta) == Some(whole) && after.buffer.len() == 0
            } else {
                runner::flushed(buffer, delta) is None && after.buffer == whole
            }
        }),
        runner::remainder(buffer) == if buffer.buffer.len() == 0 {
            None
        } else {
            Some(buffer.buffer)
        },
{
}

/// A stream that is cancelled publishes what was held back of the message in flight, as one
/// piece, and that the run was cancelled; without a message in flight only the end is
/// published.
pub proof fn law_cancelled_stream_publishes_the_rest(
    x: RunExecutorModel,
    state: RunStateModel,
    cancelled: bool,
)
    requires
        state.phase is Streaming,
    ensures
        ({
            let stream = state.phase->Streaming_stream;
            let (next, actions) = runner::run_step(
                x,
                state,
                RunInputModel::StreamCancelled,
                cancelled,
            );
            &&& next.phase is Finished
            &&& actions == match stream.message_id {
                Some(id) => (if stream.delta_buffer.buffer.len() == 0 {
                    Seq::empty()
                } else {
                    seq![
                        RunActionModel::Emit(
                            RuntimeEventKindModel::MessageDelta {
                                run_id: x.run_id,
                                message_id: id,
                                block_index: 0,
                                delta: BlockDeltaModel::TextDelta {
                                    delta: stream.delta_buffer.buffer,
                                },
                            },
                        ),
                    ]
                }) + seq![
                    RunActionModel::Emit(RuntimeEventKindModel::RunCancelled { run_id: x.run_id }),
                ],
                None => Seq::empty(),
            } + cancel_actions(x.run_id, false)
        }),
{
    let stream = state.phase->Streaming_stream;
    let (_, actions) = runner::run_step(x, state, RunInputModel::StreamCancelled, cancelled);
    assert(runner::terminal_events(
        x.run_id,
        RunResultModel::Cancelled { emit_run_cancelled_event: false },
    ) =~= seq![
        RuntimeEventKindModel::RunFinished {
            run_id: x.run_id,
            status: RunStatus::Cancelled,
            error: None,
        },
    ]);
    assert(actions =~= match stream.message_id {
        Some(id) => (if stream.delta_buffer.buffer.len() == 0 {
            Seq::empty()
        } else {
            seq![
                RunActionModel::Emit(
                    RuntimeEventKindModel::MessageDelta {
                        run_id: x.run_id,
                        message_id: id,
                        block_index: 0,
                        delta: BlockDeltaModel::TextDelta { delta: stream.delta_buffer.buffer },
                    },
                ),
            ]
        }) + seq![RunActionModel::Emit(RuntimeEventKindModel::RunCancelled { run_id: x.run_id })],
        None => Seq::empty(),
    } + cancel_actions(x.run_id, false));
}

/// The assistant message that goes back to the model.
pub open spec fn answer_message(
    content: Seq<char>,
    calls: Seq<ToolCallModel>,
) -> LlmMessageModel {
    LlmMessageModel {
        role: MessageRole::Assistant,
        body: answer_body(content, Some(calls)),
        tool_call_id: None,
    }
}

/// The tool result that goes back to the model.
pub open spec fn result_message(call: ToolCallModel, output: Seq<char>) -> LlmMessageModel {
    LlmMessageModel {
        role: MessageRole::Tool,
        body: seq![MessageBlockModel::Text { text: output }],
        tool_call_id: Some(call.id),
    }
}

/// What is to be done for the next call of a turn, the call `call`.
pub open spec fn start_actions(
    x: RunExecutorModel,
    conversation: ConversationModel,
    call: ToolCallModel,
) -> Seq<RunActionModel> {
    seq![
        RunActionModel::Emit(
            RuntimeEventKindModel::ToolStarted {
                run_id: x.run_id,
                tool_call_id: call.id,
                name: call.name,
            },
        ),
        RunActionModel::InvokeTool {
            context: SessionContextModel {
                session_id: Some(x.session_id),
                workspace_root: Some(conversation.workspace),
            },
            call,
        },
    ]
}

/// What follows a persisted assistant message at the end of its stream: without tool calls
/// the run succeeds; with tool calls it ends if it was cancelled; else the first call is
/// executed, or, where the list of calls is empty, the next request is sent at once. The
/// message is the parent of what is persisted next.
pub proof fn law_answer_is_acted_on(
    x: RunExecutorModel,
    state: RunStateModel,
    id: Seq<char>,
    a: bool,
    cancelled: bool,
)
    requires
        state.phase is SavingAssistant,
    ensures
        ({
            let conversation = state.phase->SavingAssistant_conversation;
            let stream = state.phase->SavingAssistant_stream;
            let saw = conversation.saw_message || stream.saw_message;
            let (saved, nothing) = runner::run_step(
                x,
                state,
                RunInputModel::MessageAppended(Ok(id)),
                a,
            );
            let (next, actions) = runner::run_step(x, saved, RunInputModel::StreamEnded, cancelled);
            &&& nothing.len() == 0
            &&& saved.last_entry_id == state.phase->SavingAssistant_message_id
            &&& match state.phase->SavingAssistant_calls {
                None => {
                    &&& next.phase is Finished
                    &&& actions == seq![
                        RunActionModel::ReleaseRun,
                        RunActionModel::Emit(
                            RuntimeEventKindModel::RunFinished {
                                run_id: x.run_id,
                                status: RunStatus::Succeeded,
                                error: None,
                            },
                        ),
                    ]
                },
                Some(calls) => if cancelled {
                    next.phase is Finished && actions == cancel_actions(x.run_id, true)
                } else if calls.len() > 0 {
                    &&& next.last_entry_id == saved.last_entry_id
                    &&& actions == start_actions(x, conversation, calls[0])
                    &&& next.phase == (RunPhaseModel::OpeningTool {
                        conversation: ConversationModel { saw_message: saw, ..conversation },
                        turn: ToolTurnModel {
                            messages: seq![answer_message(stream.assistant_content, calls)],
                            calls,
                            next: 0,
                        },
                    })
                } else {
                    actions == seq![
                        RunActionModel::SendToProvider {
                            messages: conversation.messages + seq![
                                answer_message(stream.assistant_content, calls),
                            ],
                            tools: x.tools,
                        },
                    ]
                },
            }
        }),
{
    let conversation = state.phase->SavingAssistant_conversation;
    let stream = state.phase->SavingAssistant_stream;
    let (saved, _) = runner::run_step(x, state, RunInputModel::MessageAppended(Ok(id)), a);
    let (next, actions) = runner::run_step(x, saved, RunInputModel::StreamEnded, cancelled);
    match state.phase->SavingAssistant_calls {
        None => {
            assert(actions =~= seq![
                RunActionModel::ReleaseRun,
                RunActionModel::Emit(
                    RuntimeEventKindModel::RunFinished {
                        run_id: x.run_id,
                        status: RunStatus::Succeeded,
                        error: None,
                    },
                ),
            ]);
        },
        Some(calls) => {
            assert(protocol::assistant_body(stream.assistant_content, Some(calls))
                =~= answer_body(stream.assistant_content, Some(calls)));
            if cancelled {
                assert(actions =~= cancel_actions(x.run_id, true));
            } else if calls.len() > 0 {
                assert(actions =~= start_actions(x, conversation, calls[0]));
            }
        },
    }
}

/// Publishing a piece of the text of a message.
pub open spec fn delta_action(
    run_id: Seq<char>,
    message_id: Seq<char>,
    piece: Seq<char>,
) -> RunActionModel {
    RunActionModel::Emit(
        RuntimeEventKindModel::MessageDelta {
            run_id,
            message_id,
            block_index: 0,
            delta: BlockDeltaModel::TextDelta { delta: piece },
        },
    )
}

/// What an event of the response stream does to a run: a message that starts is announced and
/// becomes the current one, without text; text of the current message is added to it, and
/// published with what was held back when there is enough of it; the completion of the current
/// message publishes what is still held back and the whole message, and persists it. Text and
/// completions of other messages do nothing.
pub proof fn law_stream_events_are_taken_in(
    x: RunExecutorModel,
    state: RunStateModel,
    event: ProviderEventModel,
    cancelled: bool,
)
    requires
        state.phase is Streaming,
    ensures
        ({
            let conversation = state.phase->Streaming_conversation;
            let stream = state.phase->Streaming_stream;
            let held = stream.delta_buffer.buffer;
            let (next, actions) = runner::run_step(
                x,
                state,
                RunInputModel::StreamEvent(Ok(event)),
                cancelled,
            );
            &&& next.last_entry_id == state.last_entry_id
            &&& match event {
                ProviderEventModel::MessageStarted { message_id } => {
                    &&& actions == seq![
                        RunActionModel::Emit(
                            RuntimeEventKindModel::MessageStarted {
                                run_id: x.run_id,
                                message_id,
                                role: MessageRole::Assistant,
                            },
                        ),
                    ]
                    &&& next.phase == (RunPhaseModel::Streaming {
                        conversation,
                        stream: StreamStateModel {
                            message_id: Some(message_id),
                            assistant_content: Seq::empty(),
                            tool_calls: None,
                            completed: false,
                            saw_message: true,
                            delta_buffer: stream.delta_buffer,
                        },
                    })
                },
                ProviderEventModel::TextDelta { message_id, delta } => if stream.message_id != Some(
                    message_id,
                ) {
                    next == state && actions.len() == 0
                } else {
                    let whole = held + delta;
                    let full = whole.len() >= stream.delta_buffer.threshold;
                    &&& actions == if full {
                        seq![delta_action(x.run_id, message_id, whole)]
                    } else {
                        Seq::empty()
                    }
                    &&& next.phase == (RunPhaseModel::Streaming {
                        conversation,
                        stream: StreamStateModel {
                            assistant_content: stream.assistant_content + delta,
                            delta_buffer: DeltaBufferModel {
                                threshold: stream.delta_buffer.threshold,
                                buffer: if full {
                                    Seq::empty()
                                } else {
                                    whole
                                },
                            },
                            ..stream
                        },
                    })
                },
                ProviderEventModel::MessageCompleted { message_id, tool_calls } =>
                    if stream.message_id != Some(message_id) {
                    next == state && actions.len() == 0
                } else {
                    let body = answer_body(stream.assistant_content, tool_calls);
                    &&& actions == (if held.len() == 0 {
                        Seq::empty()
                    } else {
                        seq![delta_action(x.run_id, message_id, held)]
                    }) + seq![
                        RunActionModel::Emit(
                            RuntimeEventKindModel::MessageCompleted {
                                run_id: x.run_id,
                                message_id,
                                body: Some(body),
                            },
                        ),
                        RunActionModel::AppendMessage {
                            id: Some(message_id),
                            parent_id: Some(state.last_entry_id),
                            role: MessageRole::Assistant,
                            body,
                            tool_call_id: None,
                        },
                    ]
                    &&& next.phase matches RunPhaseModel::SavingAssistant {
                        conversation: kept,
                        stream: after,
                        message_id: id,
                        calls,
                    }
                    &&& kept == conversation
                    &&& id == message_id
                    &&& calls == tool_calls
                    &&& after.assistant_content == stream.assistant_content
                    &&& after.saw_message == stream.saw_message
                },
            }
        }),
{
    let stream = state.phase->Streaming_stream;
    let (next, actions) = runner::run_step(
        x,
        state,
        RunInputModel::StreamEvent(Ok(event)),
        cancelled,
    );
    if let ProviderEventModel::MessageCompleted { message_id, tool_calls } = event {
        assert(protocol::assistant_body(stream.assistant_content, tool_calls)
            =~= answer_body(stream.assistant_content, tool_calls));
    }
}

/// A stream that ends before the assistant message was complete and persisted fails the run.
pub proof fn law_incomplete_stream_fails(
    x: RunExecutorModel,
    state: RunStateModel,
    cancelled: bool,
)
    requires
        state.phase matches RunPhaseModel::Streaming { stream, .. } && !stream.completed,
    ensures
        ({
            let (next, actions) = runner::run_step(x, state, RunInputModel::StreamEnded, cancelled);
            next.phase is Finished && actions == failure_actions(
                x.run_id,
                "provider stream ended without completing the assistant message"@,
            )
        }),
{
    let (_, actions) = runner::run_step(x, state, RunInputModel::StreamEnded, cancelled);
    assert(actions =~= failure_actions(
        x.run_id,
        "provider stream ended without completing the assistant message"@,
    ));
}

/// An opened response stream is read from its beginning, for the request that was sent.
pub proof fn law_response_is_read_from_its_beginning(
    x: RunExecutorModel,
    state: RunStateModel,
    cancelled: bool,
)
    requires
        state.phase is AwaitingProvider,
    ensures
        ({
            let (next, actions) = runner::run_step(
                x,
                state,
                RunInputModel::ProviderOpened(Ok(())),
                cancelled,
            );
            &&& actions.len() == 0
            &&& next.last_entry_id == state.last_entry_id
            &&& next.phase matches RunPhaseModel::Streaming { conversation, stream }
            &&& conversation == state.phase->AwaitingProvider_conversation
            &&& stream.message_id is None
            &&& stream.assistant_content.len() == 0
            &&& stream.tool_calls is None
            &&& !stream.completed
            &&& !stream.saw_message
            &&& stream.delta_buffer.buffer.len() == 0
        }),
{
}

/// While a tool runs, each piece of its output is published for its call, and its result is
/// kept until the tool is over.
pub proof fn law_tool_output_is_published(
    x: RunExecutorModel,
    state: RunStateModel,
    chunk: Seq<char>,
    result: ToolOutputResultModel,
    cancelled: bool,
)
    requires
        state.phase is RunningTool,
    ensures
        ({
            let turn = state.phase->RunningTool_turn;
            &&& runner::run_step(
                x,
                state,
                RunInputModel::ToolEvent(Ok(ToolStreamEventModel::Chunk { chunk })),
                cancelled,
            ) == (
                state,
                seq![
                    RunActionModel::Emit(
                        RuntimeEventKindModel::ToolOutputDelta {
                            run_id: x.run_id,
                            tool_call_id: turn.calls[turn.next].id,
                            chunk,
                        },
                    ),
                ],
            )
            &&& runner::run_step(
                x,
                state,
                RunInputModel::ToolEvent(Ok(ToolStreamEventModel::Done { result })),
                cancelled,
            ) == (
                RunStateModel {
                    phase: RunPhaseModel::RunningTool {
                        conversation: state.phase->RunningTool_conversation,
                        turn,
                        result: Some(result),
                    },
                    ..state
                },
                Seq::<RunActionModel>::empty(),
            )
        }),
{
}

/// A tool that has started runs, without a result so far.
pub proof fn law_started_tool_runs(x: RunExecutorModel, state: RunStateModel, cancelled: bool)
    requires
        state.phase is OpeningTool,
    ensures
        runner::run_step(x, state, RunInputModel::ToolOpened(Ok(())), cancelled) == (
            RunStateModel {
                phase: RunPhaseModel::RunningTool {
                    conversation: state.phase->OpeningTool_conversation,
                    turn: state.phase->OpeningTool_turn,
                    result: None,
                },
                ..state
            },
            Seq::<RunActionModel>::empty(),
        ),
{
}

/// The input tells that the tool of a run in this phase is over, with the given outcome: a
/// tool that could not start or failed gives its error, another one its result.
pub open spec fn ends_tool(
    phase: RunPhaseModel,
    input: RunInputModel,
    outcome: ToolOutputResultModel,
) -> bool {
    match (phase, input) {
        (RunPhaseModel::OpeningTool { .. }, RunInputModel::ToolOpened(Err(error))) => outcome.output
            == error && outcome.is_error && outcome.exit_code is None,
        (RunPhaseModel::RunningTool { .. }, RunInputModel::ToolEvent(Err(error))) => outcome.output
            == error && outcome.is_error && outcome.exit_code is None,
        (RunPhaseModel::RunningTool { result, .. }, RunInputModel::ToolEnded) => result == Some(
            outcome,
        ),
        _ => false,
    }
}

/// What comes of a tool is published with all its parts, persisted as the answer to its call
/// behind the last message, and handed back to the model: once it is persisted, the next call
/// of the turn is executed, with the result added to the turn; after the last call the next
/// request is sent, which is the one before with the assistant message and all results behind
/// it; a cancelled run ends instead.
pub proof fn law_tool_outcome_is_handed_back(
    x: RunExecutorModel,
    state: RunStateModel,
    input: RunInputModel,
    outcome: ToolOutputResultModel,
    id: Seq<char>,
    a: bool,
    cancelled: bool,
)
    requires
        ends_tool(state.phase, input, outcome),
        runner::is_valid(state),
    ensures
        ({
            let conversation = runner_laws::conversation_of(state)->0;
            let turn = runner_laws::turn_of(state)->0;
            let call = turn.calls[turn.next];
            let results = turn.messages.push(result_message(call, outcome.output));
            let (ended, told) = runner::run_step(x, state, input, a);
            let (next, actions) = runner::run_step(
                x,
                ended,
                RunInputModel::MessageAppended(Ok(id)),
                cancelled,
            );
            &&& told == seq![
                RunActionModel::Emit(
                    RuntimeEventKindModel::ToolFinished {
                        run_id: x.run_id,
                        tool_call_id: call.id,
                        output: outcome.output,
                        is_error: outcome.is_error,
                        exit_code: outcome.exit_code,
                    },
                ),
                RunActionModel::AppendMessage {
                    id: None,
                    parent_id: Some(state.last_entry_id),
                    role: MessageRole::Tool,
                    body: seq![MessageBlockModel::Text { text: outcome.output }],
                    tool_call_id: Some(call.id),
                },
            ]
            &&& next.last_entry_id == id
            &&& if turn.next + 1 < turn.calls.len() {
                &&& actions == start_actions(x, conversation, turn.calls[turn.next + 1])
                &&& next.phase == (RunPhaseModel::OpeningTool {
                    conversation,
                    turn: ToolTurnModel {
                        messages: results,
                        calls: turn.calls,
                        next: turn.next + 1,
                    },
                })
            } else if cancelled {
                &&& next.phase is Finished
                &&& actions == cancel_actions(x.run_id, conversation.saw_message)
            } else {
                &&& actions == seq![
                    RunActionModel::SendToProvider {
                        messages: conversation.messages + results,
                        tools: x.tools,
                    },
                ]
                &&& next.phase == (RunPhaseModel::AwaitingProvider {
                    conversation: ConversationModel {
                        messages: conversation.messages + results,
                        ..conversation
                    },
                })
            }
        }),
{
    let conversation = runner_laws::conversation_of(state)->0;
    let turn = runner_laws::turn_of(state)->0;
    let (ended, told) = runner::run_step(x, state, input, a);
    let (next, actions) = runner::run_step(
        x,
        ended,
        RunInputModel::MessageAppended(Ok(id)),
        cancelled,
    );
    if turn.next + 1 < turn.calls.len() {
        assert(actions =~= start_actions(x, conversation, turn.calls[turn.next + 1]));
    } else if cancelled {
        assert(actions =~= cancel_actions(x.run_id, conversation.saw_message));
    }
}

/// A tool that is over without a result fails the run.
pub proof fn law_tool_without_result_fails(
    x: RunExecutorModel,
    state: RunStateModel,
    cancelled: bool,
)
    requires
        state.phase matches RunPhaseModel::RunningTool { result, .. } && result is None,
    ensures
        ({
            let (next, actions) = runner::run_step(x, state, RunInputModel::ToolEnded, cancelled);
            next.phase is Finished && actions == failure_actions(
                x.run_id,
                "tool stream ended without producing a final result"@,
            )
        }),
{
    let (_, actions) = runner::run_step(x, state, RunInputModel::ToolEnded, cancelled);
    assert(actions =~= failure_actions(
        x.run_id,
        "tool stream ended without producing a final result"@,
    ));
}

/// A run begins before its first step, behind the user message that was persisted for it.
pub proof fn law_run_begins_behind_the_user_message(x: RunExecutorModel)
    ensures
        runner::initial_state(x).phase is Created,
        runner::initial_state(x).last_entry_id == x.developer_message_id,
{
}

} // verus!

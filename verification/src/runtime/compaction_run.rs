//! How a compaction proceeds: the model is asked for a summary, its answer is read, and the
//! summary is stored.

use vstd::prelude::*;

use crate::ids;
use crate::models::provider::{ProviderError, ProviderEvent, ProviderEventModel};
use crate::protocol::session::{
    CompactionEntry, CompactionEntryModel, CompactionRange, CompactionRangeModel, SessionEntry,
    SessionEntryModel,
};
use crate::protocol::{LlmMessage, LlmMessageModel, MessageRole};
use crate::runtime::active_path;
use crate::runtime::compaction;
use crate::runtime::compaction::{
    CompactionConfig, CompactionError, CompactionService, SummaryReader, SummaryReaderModel,
};
use crate::session_store::SessionError;

verus! {

/// How far a compaction has come.
#[derive(Debug, PartialEq, Eq)]
pub enum CompactState {
    /// The model is being asked for a summary.
    Opening {
        entries: Vec<SessionEntry>,
        range: CompactionRange,
    },
    /// The summary is being read.
    Reading {
        entries: Vec<SessionEntry>,
        range: CompactionRange,
        reader: SummaryReader,
    },
    /// The compaction entry is being stored.
    Storing {
        entries: Vec<SessionEntry>,
        entry: CompactionEntry,
    },
    /// The compaction is over.
    Done,
}

/// What a [`CompactState`] holds.
pub enum CompactStateModel {
    Opening { entries: Seq<SessionEntryModel>, range: CompactionRangeModel },
    Reading {
        entries: Seq<SessionEntryModel>,
        range: CompactionRangeModel,
        reader: SummaryReaderModel,
    },
    Storing { entries: Seq<SessionEntryModel>, entry: CompactionEntryModel },
    Done,
}

impl DeepView for CompactState {
    type V = CompactStateModel;

    open spec fn deep_view(&self) -> CompactStateModel {
        match self {
            CompactState::Opening { entries, range } => CompactStateModel::Opening {
                entries: entries.deep_view(),
                range: range.deep_view(),
            },
            CompactState::Reading { entries, range, reader } => CompactStateModel::Reading {
                entries: entries.deep_view(),
                range: range.deep_view(),
                reader: reader.deep_view(),
            },
            CompactState::Storing { entries, entry } => CompactStateModel::Storing {
                entries: entries.deep_view(),
                entry: entry.deep_view(),
            },
            CompactState::Done => CompactStateModel::Done,
        }
    }
}

/// What happened to a compaction.
#[derive(Debug)]
pub enum CompactInput {
    /// The provider has opened its response stream, or failed to.
    ProviderOpened(Result<(), ProviderError>),
    /// The provider stream gave an event, or failed.
    StreamEvent(Result<ProviderEvent, ProviderError>),
    /// The provider stream is over.
    StreamEnded {
        /// The time.
        now: String,
    },
    /// The run was cancelled.
    Cancelled,
    /// The entry was stored, or could not be.
    Stored(Result<(), SessionError>),
}

/// What a [`CompactInput`] says.
pub enum CompactInputModel {
    ProviderOpened(Result<(), ProviderError>),
    StreamEvent(Result<ProviderEventModel, ProviderError>),
    StreamEnded { now: Seq<char> },
    Cancelled,
    Stored(Result<(), SessionError>),
}

impl DeepView for CompactInput {
    type V = CompactInputModel;

    open spec fn deep_view(&self) -> CompactInputModel {
        match self {
            CompactInput::ProviderOpened(opened) => CompactInputModel::ProviderOpened(*opened),
            CompactInput::StreamEvent(Ok(event)) => CompactInputModel::StreamEvent(
                Ok(event.deep_view()),
            ),
            CompactInput::StreamEvent(Err(error)) => CompactInputModel::StreamEvent(Err(*error)),
            CompactInput::StreamEnded { now } => CompactInputModel::StreamEnded { now: now@ },
            CompactInput::Cancelled => CompactInputModel::Cancelled,
            CompactInput::Stored(stored) => CompactInputModel::Stored(*stored),
        }
    }
}

/// What is to be done next for a compaction.
#[derive(Debug, PartialEq, Eq)]
pub enum CompactAction {
    /// Send the request for a summary to the provider, without tools.
    Summarize {
        messages: Vec<LlmMessage>,
    },
    /// Wait for the next event of the response stream, or for a cancellation.
    ReadOn,
    /// Append the entry to the session.
    Store {
        entry: CompactionEntry,
    },
    /// The compaction is over.
    Finish(Result<Option<CompactionEntry>, CompactionError>),
    /// Nothing: the compaction did not wait for this.
    Ignore,
}

/// Why a compaction failed.
pub enum FailureModel {
    /// The model asked for tools instead of writing a summary.
    ToolsRequested,
    /// The answer of the model did not hold exactly one message.
    Malformed,
    /// Another error.
    Error(CompactionError),
}

/// What an error says.
pub open spec fn failure_of(error: CompactionError) -> FailureModel {
    match error {
        CompactionError::Provider(ProviderError::InvalidResponse(reason)) => if reason@
            == "compaction summary requested tool calls"@ {
            FailureModel::ToolsRequested
        } else if reason@ == "compaction summary stream is malformed"@ {
            FailureModel::Malformed
        } else {
            FailureModel::Error(error)
        },
        _ => FailureModel::Error(error),
    }
}

/// What a [`CompactAction`] holds.
pub enum CompactActionModel {
    Summarize { messages: Seq<LlmMessageModel> },
    ReadOn,
    Store { entry: CompactionEntryModel },
    Finish(Result<Option<CompactionEntryModel>, FailureModel>),
    Ignore,
}

impl DeepView for CompactAction {
    type V = CompactActionModel;

    open spec fn deep_view(&self) -> CompactActionModel {
        match self {
            CompactAction::Summarize { messages } => CompactActionModel::Summarize {
                messages: messages.deep_view(),
            },
            CompactAction::ReadOn => CompactActionModel::ReadOn,
            CompactAction::Store { entry } => CompactActionModel::Store {
                entry: entry.deep_view(),
            },
            CompactAction::Finish(Ok(entry)) => CompactActionModel::Finish(
                Ok(entry.deep_view()),
            ),
            CompactAction::Finish(Err(error)) => CompactActionModel::Finish(
                Err(failure_of(*error)),
            ),
            CompactAction::Ignore => CompactActionModel::Ignore,
        }
    }
}

/// A step of a compaction: the state after it, and what is to be done.
pub type CompactStep = (CompactState, CompactAction);

/// What a step holds.
pub open spec fn compact_step_model(step: CompactStep) -> (CompactStateModel, CompactActionModel) {
    (step.0.deep_view(), step.1.deep_view())
}

/// The compaction ends with an error.
pub open spec fn fails(error: CompactionError) -> (CompactStateModel, CompactActionModel) {
    (CompactStateModel::Done, CompactActionModel::Finish(Err(failure_of(error))))
}

/// How a compaction begins: when the active path is over its threshold, the model is asked
/// for a summary of the oldest block of messages.
pub open spec fn compact_begins(config: CompactionConfig, entries: Seq<SessionEntryModel>) -> (
    CompactStateModel,
    CompactActionModel,
) {
    match compaction::compaction_plan(config, entries, active_path::active_path(entries)) {
        Ok(None) => (CompactStateModel::Done, CompactActionModel::Finish(Ok(None))),
        Ok(Some(plan)) => (
            CompactStateModel::Opening { entries, range: plan.range },
            CompactActionModel::Summarize {
                messages: compaction::summary_prompt(plan.selected),
            },
        ),
        Err(error) => fails(error),
    }
}

/// How a compaction goes on. The entry that is stored gets the identifier `id`. After it has
/// been stored, the active path with it must be below the threshold.
pub open spec fn compact_goes_on(
    config: CompactionConfig,
    run_id: Seq<char>,
    state: CompactStateModel,
    input: CompactInputModel,
    id: Seq<char>,
) -> (CompactStateModel, CompactActionModel) {
    match (state, input) {
        (CompactStateModel::Opening { entries, range }, CompactInputModel::ProviderOpened(Ok(_))) =>
            (
            CompactStateModel::Reading { entries, range, reader: compaction::unread() },
            CompactActionModel::ReadOn,
        ),
        (CompactStateModel::Opening { .. }, CompactInputModel::ProviderOpened(Err(error))) =>
            fails(CompactionError::Provider(error)),
        (
            CompactStateModel::Reading { entries, range, reader },
            CompactInputModel::StreamEvent(Ok(event)),
        ) => if compaction::requests_tools(reader, event) {
            (
                CompactStateModel::Done,
                CompactActionModel::Finish(Err(FailureModel::ToolsRequested)),
            )
        } else if compaction::is_misplaced(reader, event) {
            (CompactStateModel::Done, CompactActionModel::Finish(Err(FailureModel::Malformed)))
        } else {
            (
                CompactStateModel::Reading {
                    entries,
                    range,
                    reader: compaction::after_event(reader, event),
                },
                CompactActionModel::ReadOn,
            )
        },
        (CompactStateModel::Reading { .. }, CompactInputModel::StreamEvent(Err(error))) => fails(
            CompactionError::Provider(error),
        ),
        (CompactStateModel::Reading { .. }, CompactInputModel::Cancelled) => fails(
            CompactionError::Cancelled,
        ),
        (
            CompactStateModel::Reading { entries, range, reader },
            CompactInputModel::StreamEnded { now },
        ) => if reader.completed {
            let entry = CompactionEntryModel {
                id,
                role: MessageRole::Summary,
                summary: reader.summary,
                compacted_range: range,
                created_at: now,
                run_id,
            };
            (CompactStateModel::Storing { entries, entry }, CompactActionModel::Store { entry })
        } else {
            (CompactStateModel::Done, CompactActionModel::Finish(Err(FailureModel::Malformed)))
        },
        (CompactStateModel::Storing { entries, entry }, CompactInputModel::Stored(Ok(_))) =>
            if compaction::over_threshold(
            config,
            active_path::active_path(entries.push(SessionEntryModel::CompactionEntry(entry))),
        ) {
            fails(CompactionError::IneffectiveCompaction)
        } else {
            (CompactStateModel::Done, CompactActionModel::Finish(Ok(Some(entry))))
        },
        (CompactStateModel::Storing { .. }, CompactInputModel::Stored(Err(error))) => fails(
            CompactionError::SessionStore(error),
        ),
        _ => (state, CompactActionModel::Ignore),
    }
}

impl CompactionService {
    /// Begins a compaction of the session that `entries` are the records of, if it is needed.
    pub fn compact_if_needed(&self, entries: Vec<SessionEntry>) -> (r: CompactStep)
        ensures
            compact_step_model(r) == compact_begins(self.config, entries.deep_view()),
    {
        match self.begin_compaction(&entries) {
            Ok(None) => (CompactState::Done, CompactAction::Finish(Ok(None))),
            Ok(Some(plan)) => {
                let messages = CompactionService::build_summary_prompt(&plan.selected);
                (
                    CompactState::Opening { entries, range: plan.range },
                    CompactAction::Summarize { messages },
                )
            },
            Err(error) => (CompactState::Done, CompactAction::Finish(Err(error))),
        }
    }

    /// Goes on with a compaction that belongs to the run `run_id`. An entry to store gets a
    /// generated identifier.
    pub fn summarize(&self, run_id: &str, state: CompactState, input: CompactInput) -> (r:
        CompactStep)
        ensures
            exists|id: Seq<char>|
                ids::is_uuid(id) && compact_step_model(r) == #[trigger] compact_goes_on(
                    self.config,
                    run_id@,
                    state.deep_view(),
                    input.deep_view(),
                    id,
                ),
    {
        let id = ids::new_id();
        let ghost model = id@;
        let r = self.summarize_as(run_id, state, input, id);
        assert(ids::is_uuid(model) && compact_step_model(r) == compact_goes_on(
            self.config,
            run_id@,
            state.deep_view(),
            input.deep_view(),
            model,
        ));
        r
    }

    /// Goes on with a compaction; an entry to store gets the identifier `id`.
    pub fn summarize_as(
        &self,
        run_id: &str,
        state: CompactState,
        input: CompactInput,
        id: String,
    ) -> (r: CompactStep)
        ensures
            compact_step_model(r) == compact_goes_on(
                self.config,
                run_id@,
                state.deep_view(),
                input.deep_view(),
                id@,
            ),
    {
        proof {
            reveal_strlit("compaction summary requested tool calls");
            reveal_strlit("compaction summary stream is malformed");
            assert("compaction summary stream is malformed"@.len() == 38);
            assert("compaction summary requested tool calls"@.len() == 39);
        }
        match (state, input) {
            (CompactState::Opening { entries, range }, CompactInput::ProviderOpened(Ok(_))) => (
                CompactState::Reading { entries, range, reader: SummaryReader::new() },
                CompactAction::ReadOn,
            ),
            (CompactState::Opening { .. }, CompactInput::ProviderOpened(Err(error))) => (
                CompactState::Done,
                CompactAction::Finish(Err(CompactionError::Provider(error))),
            ),
            (
                CompactState::Reading { entries, range, reader },
                CompactInput::StreamEvent(event),
            ) => {
                let mut reader = reader;
                match reader.read(event) {
                    Ok(_) => (
                        CompactState::Reading { entries, range, reader },
                        CompactAction::ReadOn,
                    ),
                    Err(error) => (CompactState::Done, CompactAction::Finish(Err(error))),
                }
            },
            (CompactState::Reading { .. }, CompactInput::Cancelled) => (
                CompactState::Done,
                CompactAction::Finish(Err(CompactionError::Cancelled)),
            ),
            (
                CompactState::Reading { entries, range, reader },
                CompactInput::StreamEnded { now },
            ) => match reader.finish() {
                Ok(summary) => {
                    let entry = compaction::new_compaction_entry(id, range, summary, now, run_id);
                    (
                        CompactState::Storing { entries, entry: entry.clone() },
                        CompactAction::Store { entry },
                    )
                },
                Err(error) => (CompactState::Done, CompactAction::Finish(Err(error))),
            },
            (CompactState::Storing { entries, entry }, CompactInput::Stored(stored)) => {
                match self.finish_compaction(entries, entry, stored) {
                    Ok(entry) => (CompactState::Done, CompactAction::Finish(Ok(Some(entry)))),
                    Err(error) => (CompactState::Done, CompactAction::Finish(Err(error))),
                }
            },
            (state, _) => (state, CompactAction::Ignore),
        }
    }
}

/// The state after all of `events` have come in on the response stream.
pub open spec fn after_stream(
    config: CompactionConfig,
    run_id: Seq<char>,
    state: CompactStateModel,
    events: Seq<ProviderEventModel>,
    id: Seq<char>,
) -> CompactStateModel
    decreases events.len(),
{
    if events.len() == 0 {
        state
    } else {
        compact_goes_on(
            config,
            run_id,
            after_stream(config, run_id, state, events.drop_last(), id),
            CompactInputModel::StreamEvent(Ok(events.last())),
            id,
        ).0
    }
}

proof fn lemma_stream_is_read(
    config: CompactionConfig,
    run_id: Seq<char>,
    entries: Seq<SessionEntryModel>,
    range: CompactionRangeModel,
    events: Seq<ProviderEventModel>,
    id: Seq<char>,
)
    ensures
        after_stream(
            config,
            run_id,
            CompactStateModel::Reading { entries, range, reader: compaction::unread() },
            events,
            id,
        ) == match compaction::read_all(events) {
            Ok(reader) => CompactStateModel::Reading { entries, range, reader },
            Err(_) => CompactStateModel::Done,
        },
    decreases events.len(),
{
    if events.len() > 0 {
        lemma_stream_is_read(config, run_id, entries, range, events.drop_last(), id);
    }
}

/// What follows the end of a response stream: the summary that the stream gives is stored,
/// with the range that the compaction began with; where it gives none, nothing is stored.
pub proof fn law_stored_summary_is_the_answer(
    config: CompactionConfig,
    run_id: Seq<char>,
    entries: Seq<SessionEntryModel>,
    range: CompactionRangeModel,
    events: Seq<ProviderEventModel>,
    now: Seq<char>,
    id: Seq<char>,
)
    ensures
        ({
            let reading = after_stream(
                config,
                run_id,
                CompactStateModel::Reading { entries, range, reader: compaction::unread() },
                events,
                id,
            );
            let step = compact_goes_on(
                config,
                run_id,
                reading,
                CompactInputModel::StreamEnded { now },
                id,
            );
            match compaction::summary_of(events) {
                Ok(summary) => {
                    &&& step.1 is Store
                    &&& step.1->entry.summary == summary
                    &&& step.1->entry.compacted_range == range
                    &&& step.1->entry.run_id == run_id
                    &&& step.0 == (CompactStateModel::Storing { entries, entry: step.1->entry })
                },
                Err(_) => step.0 is Done && !(step.1 is Store),
            }
        }),
{
    lemma_stream_is_read(config, run_id, entries, range, events, id);
}

/// A compaction stores an entry only when the response stream has ended after a message that
/// was started and completed: a stream that fails, asks for tools or is malformed, and a
/// cancelled compaction, leave the session as it is.
pub proof fn law_only_a_whole_answer_is_stored(
    config: CompactionConfig,
    run_id: Seq<char>,
    state: CompactStateModel,
    input: CompactInputModel,
    id: Seq<char>,
)
    ensures
        ({
            let step = compact_goes_on(config, run_id, state, input, id);
            &&& step.1 is Store <==> {
                &&& state matches CompactStateModel::Reading { reader, .. }
                &&& reader.completed
                &&& input is StreamEnded
            }
            &&& state is Reading && input is StreamEnded && !(step.1 is Store) ==> step == (
                CompactStateModel::Done,
                CompactActionModel::Finish(Err(FailureModel::Malformed)),
            )
            &&& state is Reading && input is Cancelled ==> step == fails(
                CompactionError::Cancelled,
            )
        }),
{
}

/// A compaction that is over stays so.
pub proof fn law_compaction_ends_once(
    config: CompactionConfig,
    run_id: Seq<char>,
    state: CompactStateModel,
    input: CompactInputModel,
    id: Seq<char>,
)
    ensures
        ({
            let step = compact_goes_on(config, run_id, state, input, id);
            &&& step.1 is Finish ==> step.0 is Done
            &&& state is Done ==> step == (state, CompactActionModel::Ignore)
        }),
{
}

} // verus!

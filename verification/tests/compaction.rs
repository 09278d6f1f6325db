use byte::models::provider::{ProviderError, ProviderEvent};
use byte::protocol::session::{
    CompactionEntry, CompactionRange, Message, MessageBlock, MessageBody, SessionEntry,
};
use byte::protocol::{LlmMessage, MessageRole, ToolCall};
use byte::runtime::compaction::{
    new_compaction_entry, CompactionConfig, CompactionError, CompactionService, SummaryReader,
};
use byte::runtime::compaction_run::{CompactAction, CompactInput, CompactState};
use byte::session_store::SessionError;

fn message(id: &str, role: MessageRole, text: &str) -> Message {
    Message {
        id: id.into(),
        parent_id: None,
        role,
        tool_call_id: None,
        body: MessageBody::text(text),
    }
}

fn session_message(id: &str, role: MessageRole, text: &str) -> SessionEntry {
    SessionEntry::Message(message(id, role, text))
}

fn header() -> SessionEntry {
    SessionEntry::Session {
        version: 1,
        id: "s1".into(),
        workspace: "/workspace".into(),
        created_at: "t".into(),
    }
}

fn compaction(first: &str, last: &str, summary: &str) -> SessionEntry {
    SessionEntry::CompactionEntry(CompactionEntry {
        id: "ce".into(),
        role: MessageRole::Summary,
        summary: summary.into(),
        compacted_range: CompactionRange {
            first_message_id: first.into(),
            last_message_id: last.into(),
        },
        created_at: "t".into(),
        run_id: "r1".into(),
    })
}

fn service(context_budget: usize) -> CompactionService {
    CompactionService::new(CompactionConfig {
        context_budget,
        threshold_percent: 90,
    })
}

fn summary_events(text: &str) -> Vec<ProviderEvent> {
    vec![
        ProviderEvent::MessageStarted {
            message_id: "s".into(),
        },
        ProviderEvent::TextDelta {
            message_id: "s".into(),
            delta: text.into(),
        },
        ProviderEvent::MessageCompleted {
            message_id: "s".into(),
            tool_calls: None,
        },
    ]
}

/// Answers everything that a compaction asks for until it is over, and returns the entries
/// that it stored and its outcome.
fn compact(
    service: &CompactionService,
    entries: Vec<SessionEntry>,
    events: Vec<Result<ProviderEvent, ProviderError>>,
    cancelled_after: Option<usize>,
    mut stored: Vec<Result<(), SessionError>>,
) -> (
    Vec<CompactionEntry>,
    Result<Option<CompactionEntry>, CompactionError>,
) {
    let mut events = events.into_iter().enumerate();
    let mut kept = Vec::new();
    let (mut state, mut action) = service.compact_if_needed(entries);
    loop {
        let input = match action {
            CompactAction::Summarize { messages } => {
                assert_eq!(messages[0].role, MessageRole::System);
                CompactInput::ProviderOpened(Ok(()))
            }
            CompactAction::ReadOn => match events.next() {
                Some((at, _)) if cancelled_after == Some(at) => CompactInput::Cancelled,
                Some((_, event)) => CompactInput::StreamEvent(event),
                None => CompactInput::StreamEnded {
                    now: "12.007Z".into(),
                },
            },
            CompactAction::Store { entry } => {
                kept.push(entry);
                CompactInput::Stored(stored.pop().unwrap_or(Ok(())))
            }
            CompactAction::Finish(outcome) => {
                assert_eq!(state, CompactState::Done);
                return (kept, outcome);
            }
            CompactAction::Ignore => panic!("the compaction waits for every answer"),
        };
        let step = service.summarize("run-1", state, input);
        state = step.0;
        action = step.1;
    }
}

fn two_messages() -> Vec<SessionEntry> {
    vec![
        header(),
        session_message("m1", MessageRole::Developer, "hello"),
        session_message("m2", MessageRole::Assistant, "hi there"),
    ]
}

fn answer(text: &str) -> Vec<Result<ProviderEvent, ProviderError>> {
    summary_events(text).into_iter().map(Ok).collect()
}

#[test]
fn select_compaction_range_chooses_oldest_block() {
    let messages = vec![
        message("m1", MessageRole::Developer, "hello"),
        message("m2", MessageRole::Assistant, "hi"),
        message("m3", MessageRole::Developer, "next"),
    ];

    let range = CompactionService::select_compaction_range(&messages, &Vec::new()).unwrap();
    assert_eq!(range.first_message_id, "m1");
    assert_eq!(range.last_message_id, "m3");
}

#[test]
fn select_compaction_range_with_already_compacted_messages_skips_them() {
    let messages = vec![
        message("m1", MessageRole::Developer, "hello"),
        message("m2", MessageRole::Assistant, "hi"),
        message("m3", MessageRole::Developer, "next"),
    ];
    let compacted = vec!["m1".to_string()];

    let range = CompactionService::select_compaction_range(&messages, &compacted).unwrap();
    assert_eq!(range.first_message_id, "m2");
    assert_eq!(range.last_message_id, "m3");
}

#[test]
fn build_summary_prompt_includes_system_instruction_and_messages() {
    let messages = vec![
        message("m1", MessageRole::Developer, "hello"),
        message("m2", MessageRole::Assistant, "hi"),
    ];

    let prompt = CompactionService::build_summary_prompt(&messages);
    assert_eq!(prompt.len(), 3);
    assert_eq!(prompt[0].role, MessageRole::System);
    assert!(prompt[0]
        .body
        .0
        .iter()
        .any(|block| matches!(block, MessageBlock::Text { text } if text.contains("Summarize"))));
    assert_eq!(prompt[1].role, MessageRole::Developer);
    assert_eq!(prompt[2].role, MessageRole::Assistant);
}

#[test]
fn is_compaction_needed_true_when_above_threshold() {
    let active_path = vec![LlmMessage::text(MessageRole::Developer, &"a".repeat(40))];
    assert!(service(4).is_compaction_needed(&active_path));
}

#[test]
fn is_compaction_needed_false_when_below_threshold() {
    let active_path = vec![LlmMessage::text(MessageRole::Developer, &"a".repeat(8))];
    assert!(!service(10).is_compaction_needed(&active_path));
}

#[test]
fn compact_if_needed_persists_summary_and_returns_entry() {
    let (stored, outcome) = compact(&service(4), two_messages(), answer("summary"), None, vec![]);
    let entry = outcome
        .expect("compaction succeeds")
        .expect("compaction was needed");
    assert_eq!(entry.role, MessageRole::Summary);
    assert_eq!(entry.summary, "summary");
    assert_eq!(entry.compacted_range.first_message_id, "m1");
    assert_eq!(entry.compacted_range.last_message_id, "m2");
    assert_eq!(entry.run_id, "run-1");
    assert_eq!(entry.created_at, "12.007Z");
    assert_eq!(entry.id.len(), 36);
    assert_eq!(stored, vec![entry]);
}

#[test]
fn compact_if_needed_cancellation_stops_summarization() {
    let entries = vec![
        header(),
        session_message("m1", MessageRole::Developer, &"a".repeat(10)),
        session_message("m2", MessageRole::Assistant, &"b".repeat(10)),
    ];
    let (stored, outcome) = compact(&service(4), entries, answer("summary"), Some(1), vec![]);
    assert!(matches!(outcome, Err(CompactionError::Cancelled)));
    assert!(stored.is_empty(), "no compaction entry should be persisted");
}

#[test]
fn compact_if_needed_returns_none_when_below_threshold() {
    let entries = vec![
        header(),
        session_message("m1", MessageRole::Developer, "hello"),
    ];
    assert_eq!(
        compact(&service(100), entries, vec![], None, vec![]),
        (vec![], Ok(None))
    );
}

#[test]
fn single_message_exceeds_budget_returns_error() {
    let entries = vec![
        header(),
        session_message("m1", MessageRole::Developer, &"a".repeat(1000)),
        session_message("m2", MessageRole::Assistant, "short"),
    ];
    let (stored, outcome) = compact(&service(10), entries, vec![], None, vec![]);
    assert!(matches!(
        outcome,
        Err(CompactionError::SingleMessageExceedsBudget)
    ));
    assert!(stored.is_empty(), "no compaction entry should be persisted");
}

#[test]
fn empty_prior_history_returns_no_prior_history() {
    let entries = vec![
        header(),
        session_message("m1", MessageRole::Developer, "hello"),
        compaction("m1", "m1", &"a".repeat(1000)),
    ];
    assert!(matches!(
        compact(&service(10), entries, vec![], None, vec![]).1,
        Err(CompactionError::NoPriorHistory)
    ));
}

#[test]
fn summarize_errors_on_tool_calls() {
    let events = vec![
        Ok(ProviderEvent::MessageStarted {
            message_id: "s".into(),
        }),
        Ok(ProviderEvent::MessageCompleted {
            message_id: "s".into(),
            tool_calls: Some(vec![ToolCall {
                id: "call-1".into(),
                name: "read_file".into(),
                arguments: "{\"path\":\"x\"}".into(),
            }]),
        }),
    ];
    let (stored, outcome) = compact(&service(4), two_messages(), events, None, vec![]);
    assert_eq!(
        outcome,
        Err(CompactionError::Provider(ProviderError::InvalidResponse(
            "compaction summary requested tool calls".into()
        )))
    );
    assert!(stored.is_empty());
}

#[test]
fn summarize_collects_text_deltas() {
    let mut events = summary_events("sum");
    events.insert(
        2,
        ProviderEvent::TextDelta {
            message_id: "another".into(),
            delta: "?".into(),
        },
    );
    events.insert(
        3,
        ProviderEvent::TextDelta {
            message_id: "s".into(),
            delta: "mary".into(),
        },
    );
    let events = events.into_iter().map(Ok).collect();
    let (stored, _) = compact(&service(4), two_messages(), events, None, vec![]);
    assert_eq!(stored[0].summary, "summary");
}

#[test]
fn a_provider_error_ends_the_summary() {
    let mut reader = SummaryReader::new();
    let error = reader
        .read(Err(ProviderError::Request("down".into())))
        .unwrap_err();
    assert_eq!(
        error,
        CompactionError::Provider(ProviderError::Request("down".into()))
    );
}

#[test]
fn collect_compacted_ids_marks_range_inclusive() {
    let entries = vec![
        session_message("m1", MessageRole::Developer, "a"),
        session_message("m2", MessageRole::Assistant, "b"),
        session_message("m3", MessageRole::Developer, "c"),
        compaction("m1", "m2", "ab"),
    ];

    let compacted = CompactionService::collect_compacted_ids(&entries);
    assert!(compacted.contains(&"m1".to_string()));
    assert!(compacted.contains(&"m2".to_string()));
    assert!(!compacted.contains(&"m3".to_string()));
}

#[test]
fn collect_compacted_ids_ignores_missing_message_ids() {
    let entries = vec![
        session_message("m1", MessageRole::Developer, "a"),
        compaction("missing-first", "missing-last", "?"),
    ];

    let compacted = CompactionService::collect_compacted_ids(&entries);
    assert!(compacted.is_empty());
}

#[test]
fn a_summary_that_is_too_long_is_ineffective() {
    let (stored, outcome) = compact(
        &service(4),
        two_messages(),
        answer(&"a".repeat(100)),
        None,
        vec![],
    );
    assert_eq!(outcome, Err(CompactionError::IneffectiveCompaction));
    assert_eq!(stored.len(), 1);
}

#[test]
fn an_entry_that_cannot_be_stored_fails_the_compaction() {
    let (_, outcome) = compact(
        &service(4),
        two_messages(),
        answer("summary"),
        None,
        vec![Err(SessionError::Read("full".into()))],
    );
    assert_eq!(
        outcome,
        Err(CompactionError::SessionStore(SessionError::Read("full".into())))
    );
}

#[test]
fn a_stream_that_fails_stores_nothing() {
    let mut events = answer("summary");
    events.insert(1, Err(ProviderError::Request("down".into())));
    let (stored, outcome) = compact(&service(4), two_messages(), events, None, vec![]);
    assert_eq!(
        outcome,
        Err(CompactionError::Provider(ProviderError::Request("down".into())))
    );
    assert!(stored.is_empty());

    let (state, _) = service(4).compact_if_needed(two_messages());
    let (state, action) = service(4).summarize(
        "run-1",
        state,
        CompactInput::ProviderOpened(Err(ProviderError::Request("no".into()))),
    );
    assert_eq!(
        action,
        CompactAction::Finish(Err(CompactionError::Provider(ProviderError::Request(
            "no".into()
        ))))
    );
    assert_eq!(
        service(4).summarize("run-1", state, CompactInput::Cancelled).1,
        CompactAction::Ignore
    );
}

#[test]
fn compacting_the_selected_block_leaves_nothing_of_it_to_compact() {
    let mut entries = vec![
        session_message("m1", MessageRole::Developer, "a"),
        session_message("m2", MessageRole::Assistant, "b"),
    ];
    let range = CompactionService::select_compaction_range(
        &[
            message("m1", MessageRole::Developer, "a"),
            message("m2", MessageRole::Assistant, "b"),
        ],
        &Vec::new(),
    )
    .unwrap();
    entries.push(SessionEntry::CompactionEntry(new_compaction_entry(
        "ce".into(),
        range,
        "ab".into(),
        "1.002Z".into(),
        "r",
    )));
    let compacted = CompactionService::collect_compacted_ids(&entries);
    assert_eq!(compacted.len(), 2);
}

#[test]
fn a_summary_stream_of_anything_but_one_message_is_malformed() {
    let malformed = Err(CompactionError::Provider(ProviderError::InvalidResponse(
        "compaction summary stream is malformed".into(),
    )));
    let whole = summary_events("summary");
    let streams = vec![
        vec![],
        vec![whole[0].clone()],
        vec![whole[0].clone(), whole[1].clone()],
        vec![whole[1].clone(), whole[2].clone()],
        vec![whole[2].clone()],
        vec![whole[0].clone(), whole[0].clone(), whole[2].clone()],
        vec![whole[0].clone(), whole[2].clone(), whole[2].clone()],
        vec![whole[0].clone(), whole[2].clone(), whole[1].clone()],
        [whole.clone(), whole.clone()].concat(),
        vec![
            whole[0].clone(),
            ProviderEvent::MessageCompleted {
                message_id: "another".into(),
                tool_calls: None,
            },
        ],
    ];
    for events in streams {
        let events = events.into_iter().map(Ok).collect();
        let (stored, outcome) = compact(&service(4), two_messages(), events, None, vec![]);
        assert_eq!(outcome, malformed);
        assert!(stored.is_empty());
    }
}

#[test]
fn a_complete_message_without_text_is_an_empty_summary() {
    let whole = summary_events("");
    let events = vec![Ok(whole[0].clone()), Ok(whole[2].clone())];
    let (stored, outcome) = compact(&service(4), two_messages(), events, None, vec![]);
    assert_eq!(stored.len(), 1);
    assert_eq!(stored[0].summary, "");
    assert!(outcome.is_ok());
}

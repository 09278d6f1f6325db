use byte::models::echo::EchoProvider;
use byte::models::provider::{ProviderError, ProviderEvent};
use byte::protocol::session::{
    BlockDelta, Message, MessageBlock, MessageBody, SessionEntry, SessionView,
};
use byte::protocol::{
    LlmMessage, MessageRole, RunStatus, RuntimeEvent, RuntimeEventKind, SendMessageParams,
    SkillDefinition, SkillEntry, ToolCall, ToolDefinition,
};
use byte::runtime::activate_skill::{ActivateSkillTool, SessionToolRegistry};
use byte::runtime::active_path::build_active_path;
use byte::runtime::compaction::{CompactionConfig, CompactionError, CompactionService};
use byte::runtime::compaction_run::{CompactAction, CompactInput};
use byte::runtime::event_bus::RecordingEventBus;
use byte::runtime::runner::{
    DeltaBuffer, Records, RunAction, RunError, RunExecutor, RunInput, RunOutcome, RunPhase,
    ToolOutputResult, ToolStreamEvent, DELTA_BUFFER_THRESHOLD,
};
use byte::runtime::session_runner::{RunnerError, SessionRunner};
use byte::runtime::session_view_repository::{
    InstructionFile, SessionViewError, SessionViewRepository,
};
use byte::session_store::{SessionError, SessionStore};
use byte::skills::SkillError;

type Reply = Result<Vec<Result<ProviderEvent, ProviderError>>, ProviderError>;
type ToolReply = Result<Vec<Result<ToolStreamEvent, String>>, String>;

/// When a run of the harness is cancelled.
#[derive(Clone, Copy)]
enum Cancel {
    Never,
    AfterStreamEvents(usize),
    AfterToolEvents(usize),
}

/// Everything around a run, kept in memory.
struct World {
    store: SessionStore,
    entries: Vec<SessionEntry>,
    bus: RecordingEventBus,
    runner: SessionRunner,
    provider: Box<dyn FnMut(&[LlmMessage]) -> Reply>,
    tool: Box<dyn FnMut(&ToolCall) -> ToolReply>,
    tools: Vec<ToolDefinition>,
    skills: Vec<SkillEntry>,
    config: CompactionConfig,
    cancel: Cancel,
    requests: Vec<Vec<LlmMessage>>,
    released: bool,
}

impl World {
    fn new(provider: Box<dyn FnMut(&[LlmMessage]) -> Reply>) -> World {
        let store = SessionStore::new("/sessions").unwrap();
        let header = store.new_session("s1", "/workspace", 1, 0).unwrap();
        World {
            store,
            entries: vec![header.entry],
            bus: RecordingEventBus::new(),
            runner: SessionRunner::new(),
            provider,
            tool: Box::new(|call| Err(format!("unknown tool: {}", call.name))),
            tools: vec![],
            skills: vec![],
            config: CompactionConfig::default(),
            cancel: Cancel::Never,
            requests: vec![],
            released: false,
        }
    }

    fn view(&self) -> SessionView {
        SessionViewRepository::load_session(
            "s1",
            Ok(self.entries.clone()),
            InstructionFile::Missing,
        )
        .expect("view loads")
    }

    fn append(
        &mut self,
        id: Option<String>,
        parent_id: Option<String>,
        role: MessageRole,
        body: MessageBody,
        tool_call_id: Option<String>,
    ) -> String {
        let append = self
            .store
            .append_message("s1", id, parent_id, role, body, tool_call_id)
            .unwrap();
        let id = match &append.entry {
            SessionEntry::Message(message) => message.id.clone(),
            _ => panic!("a message is appended"),
        };
        self.entries.push(append.entry);
        id
    }

    fn compact(&mut self, entries: Vec<SessionEntry>, run_id: &str) -> RunInput {
        let service = CompactionService::new(self.config);
        let mut stream = vec![].into_iter();
        let (mut state, mut action) = service.compact_if_needed(entries);
        loop {
            let input = match action {
                CompactAction::Summarize { messages } => match (self.provider)(&messages) {
                    Ok(events) => {
                        stream = events.into_iter();
                        CompactInput::ProviderOpened(Ok(()))
                    }
                    Err(error) => CompactInput::ProviderOpened(Err(error)),
                },
                CompactAction::ReadOn => match stream.next() {
                    Some(event) => CompactInput::StreamEvent(event),
                    None => CompactInput::StreamEnded {
                        now: "2.000Z".into(),
                    },
                },
                CompactAction::Store { entry } => {
                    self.entries.push(SessionEntry::CompactionEntry(entry));
                    CompactInput::Stored(Ok(()))
                }
                CompactAction::Finish(outcome) => return RunInput::Compacted(outcome),
                CompactAction::Ignore => panic!("the compaction waits for every answer"),
            };
            let step = service.summarize(run_id, state, input);
            state = step.0;
            action = step.1;
        }
    }

    fn start(&mut self, message: &str) -> RunExecutor {
        let run_id = self.runner.send_message().expect("send accepted");
        let view = self.view();
        let start = self.runner.session_loaded(message, Ok(view)).unwrap();
        let id = self.append(
            None,
            start.parent_id,
            MessageRole::Developer,
            start.body,
            None,
        );
        self.runner
            .message_appended(
                &run_id,
                SendMessageParams {
                    session_id: "s1".into(),
                    message: message.into(),
                },
                start.workspace_instructions,
                self.tools.clone(),
                self.config,
                Ok(id),
            )
            .unwrap()
    }

    fn run(&mut self, message: &str) -> (String, Vec<RuntimeEvent>) {
        let executor = self.start(message);
        self.execute(&executor);
        (executor.run_id.clone(), self.bus.take_events())
    }

    fn execute(&mut self, executor: &RunExecutor) {
        let mut state = executor.initial_state();
        let mut input = RunInput::Start;
        let mut stream = vec![].into_iter();
        let mut output = vec![].into_iter();
        let mut stream_events: usize = 0;
        let mut tool_events: usize = 0;
        loop {
            let (next, actions) = executor.run_inner(state, input, self.runner.is_cancelled());
            state = next;
            let mut answer = None;
            for action in actions {
                match action {
                    RunAction::Emit(kind) => self.bus.emit(kind),
                    RunAction::LoadSession => {
                        answer = Some(RunInput::SessionLoaded(Ok(self.view())));
                    }
                    RunAction::LoadCatalog { workspace } => {
                        assert_eq!(workspace, "/workspace");
                        answer = Some(RunInput::CatalogLoaded(Ok(self.skills.clone())));
                    }
                    RunAction::ReadEntries => {
                        answer = Some(RunInput::EntriesRead(Ok(Records::of_entries(
                            self.entries.clone(),
                        ))));
                    }
                    RunAction::Compact { entries } => {
                        answer = Some(self.compact(entries, &executor.run_id));
                    }
                    RunAction::SendToProvider { messages, tools } => {
                        assert_eq!(tools, self.tools);
                        self.requests.push(messages.clone());
                        answer = Some(match (self.provider)(&messages) {
                            Ok(events) => {
                                stream = events.into_iter();
                                RunInput::ProviderOpened(Ok(()))
                            }
                            Err(error) => RunInput::ProviderOpened(Err(error)),
                        });
                    }
                    RunAction::AppendMessage {
                        id,
                        parent_id,
                        role,
                        body,
                        tool_call_id,
                    } => {
                        let id = self.append(id, parent_id, role, body, tool_call_id);
                        answer = Some(RunInput::MessageAppended(Ok(id)));
                    }
                    RunAction::InvokeTool { context, call } => {
                        assert_eq!(context.session_id.as_deref(), Some("s1"));
                        assert_eq!(context.workspace_root.as_deref(), Some("/workspace"));
                        answer = Some(match (self.tool)(&call) {
                            Ok(events) => {
                                output = events.into_iter();
                                RunInput::ToolOpened(Ok(()))
                            }
                            Err(error) => RunInput::ToolOpened(Err(error)),
                        });
                    }
                    RunAction::ReleaseRun => {
                        self.released = true;
                        self.runner.clear_active_run();
                    }
                }
            }
            input = match answer {
                Some(answer) => answer,
                None => match &state.phase {
                    RunPhase::Streaming { .. } => {
                        if self.runner.is_cancelled() {
                            RunInput::StreamCancelled
                        } else {
                            stream_events += 1;
                            if matches!(self.cancel, Cancel::AfterStreamEvents(n) if n == stream_events)
                            {
                                self.runner.cancel_run();
                            }
                            match stream.next() {
                                Some(event) => RunInput::StreamEvent(event),
                                None => RunInput::StreamEnded,
                            }
                        }
                    }
                    RunPhase::RunningTool { .. } => {
                        tool_events += 1;
                        if matches!(self.cancel, Cancel::AfterToolEvents(n) if n == tool_events) {
                            self.runner.cancel_run();
                        }
                        match output.next() {
                            Some(event) => RunInput::ToolEvent(event),
                            None => RunInput::ToolEnded,
                        }
                    }
                    RunPhase::Finished => return,
                    phase => panic!("nothing to do in {:?}", phase),
                },
            };
        }
    }
}

fn echo(chunk_size: usize) -> Box<dyn FnMut(&[LlmMessage]) -> Reply> {
    Box::new(move |messages| {
        let provider = EchoProvider {
            chunk_size,
            delay_ms: 0,
        };
        let messages = messages.iter().map(|m| m.to_run_message()).collect();
        Ok(provider
            .send_message(&messages, &vec![])
            .expect("echo replies")
            .into_iter()
            .map(Ok)
            .collect())
    })
}

fn text_reply(id: &str, text: &str) -> Reply {
    Ok(vec![
        Ok(ProviderEvent::MessageStarted {
            message_id: id.into(),
        }),
        Ok(ProviderEvent::TextDelta {
            message_id: id.into(),
            delta: text.into(),
        }),
        Ok(ProviderEvent::MessageCompleted {
            message_id: id.into(),
            tool_calls: None,
        }),
    ])
}

fn calls_reply(id: &str, calls: Vec<ToolCall>) -> Reply {
    Ok(vec![
        Ok(ProviderEvent::MessageStarted {
            message_id: id.into(),
        }),
        Ok(ProviderEvent::MessageCompleted {
            message_id: id.into(),
            tool_calls: Some(calls),
        }),
    ])
}

fn call(id: &str, name: &str, arguments: &str) -> ToolCall {
    ToolCall {
        id: id.into(),
        name: name.into(),
        arguments: arguments.into(),
    }
}

fn done(text: &str) -> ToolReply {
    Ok(vec![Ok(ToolStreamEvent::Done {
        result: ToolOutputResult::success(text),
    })])
}

fn tool_results(messages: &[LlmMessage]) -> usize {
    messages
        .iter()
        .filter(|message| message.role == MessageRole::Tool)
        .count()
}

fn message_text(message: &Message) -> &str {
    match &message.body.0[..] {
        [MessageBlock::Text { text }] => text.as_str(),
        _ => "",
    }
}

fn llm_body_text(message: &LlmMessage) -> String {
    message
        .body
        .0
        .iter()
        .filter_map(|block| match block {
            MessageBlock::Text { text } => Some(text.as_str()),
            MessageBlock::ToolCall(_) => None,
        })
        .collect()
}

fn deltas(events: &[RuntimeEvent], run_id: &str) -> Vec<String> {
    events
        .iter()
        .filter_map(|event| match &event.kind {
            RuntimeEventKind::MessageDelta {
                delta: BlockDelta::TextDelta { delta },
                run_id: rid,
                ..
            } if rid == run_id => Some(delta.clone()),
            _ => None,
        })
        .collect()
}

fn finished(events: &[RuntimeEvent], run_id: &str) -> Vec<(RunStatus, Option<String>)> {
    events
        .iter()
        .filter_map(|event| match &event.kind {
            RuntimeEventKind::RunFinished {
                run_id: rid,
                status,
                error,
            } if rid == run_id => Some((*status, error.clone())),
            _ => None,
        })
        .collect()
}

fn roles(world: &World) -> Vec<MessageRole> {
    world.view().messages.iter().map(|m| m.role).collect()
}

fn coding_loop() -> Box<dyn FnMut(&[LlmMessage]) -> Reply> {
    Box::new(|messages| match tool_results(messages) {
        0 => calls_reply(
            "m0",
            vec![call("read-call", "read_file", r#"{"path":"main.rs"}"#)],
        ),
        1 => calls_reply(
            "m1",
            vec![call("edit-call", "apply_patch", r#"{"path":"main.rs"}"#)],
        ),
        2 => calls_reply(
            "m2",
            vec![call("cmd-call", "run_command", r#"{"command":"cat main.rs"}"#)],
        ),
        _ => text_reply("m3", "Done."),
    })
}

#[test]
fn core_coding_loop_read_edit_command_demo() {
    let mut world = World::new(coding_loop());
    world.tool = Box::new(|call| done(&format!("{} ran", call.name)));
    let (run_id, events) = world.run("Update the program and verify it");

    assert!(events.iter().any(|event| matches!(
        &event.kind,
        RuntimeEventKind::RunStarted { run_id: rid, .. } if rid == &run_id
    )));
    let tool_started: Vec<String> = events
        .iter()
        .filter_map(|event| match &event.kind {
            RuntimeEventKind::ToolStarted { name, .. } => Some(name.clone()),
            _ => None,
        })
        .collect();
    assert_eq!(tool_started, vec!["read_file", "apply_patch", "run_command"]);
    assert_eq!(
        finished(&events, &run_id),
        vec![(RunStatus::Succeeded, None)]
    );

    let view = world.view();
    let count = |role| view.messages.iter().filter(|m| m.role == role).count();
    assert_eq!(count(MessageRole::Developer), 1);
    assert_eq!(count(MessageRole::Assistant), 4);
    assert_eq!(count(MessageRole::Tool), 3);
    assert_eq!(view.messages.last().unwrap().role, MessageRole::Assistant);
    assert!(message_text(view.messages.last().unwrap()).contains("Done."));
}

#[test]
fn tool_results_feed_next_model_turn() {
    let mut world = World::new(coding_loop());
    world.tool = Box::new(|_| done("ok"));
    let (run_id, events) = world.run("Update the program and verify it");
    assert_eq!(
        finished(&events, &run_id),
        vec![(RunStatus::Succeeded, None)]
    );
    assert!(world.requests.len() >= 4);
    for (index, expected) in [(1, "read-call"), (2, "edit-call"), (3, "cmd-call")] {
        assert!(world.requests[index].iter().any(|message| {
            message.role == MessageRole::Tool && message.tool_call_id.as_deref() == Some(expected)
        }));
    }
    for pair in world.requests.windows(2) {
        assert_eq!(pair[0][..], pair[1][..pair[0].len()]);
    }
}

#[test]
fn mid_run_skill_activation_uses_tool_result_with_stable_system_prompt() {
    let mut world = World::new(Box::new(|messages| match tool_results(messages) {
        0 => calls_reply(
            "m0",
            vec![call("skill-call", "activate_skill", r#"{"name":"review"}"#)],
        ),
        _ => text_reply("m1", "Done"),
    }));
    world.tools = SessionToolRegistry::new(vec![]).definitions();
    world.skills = vec![SkillEntry {
        name: "review".into(),
        description: "Review code".into(),
    }];
    world.tool = Box::new(|call| {
        assert!(SessionToolRegistry::is_session_tool(&call.name));
        let name = ActivateSkillTool::requested_skill(call).unwrap();
        let output = ActivateSkillTool::new(vec![])
            .invoke(
                Ok(SkillDefinition {
                    name,
                    description: "Review code".into(),
                    content: "Review carefully.".into(),
                }),
                Some(Ok(())),
            )
            .unwrap();
        done(&output)
    });
    let (run_id, events) = world.run("review my code");
    assert_eq!(
        finished(&events, &run_id),
        vec![(RunStatus::Succeeded, None)]
    );

    let requests = &world.requests;
    assert_eq!(requests.len(), 2);
    assert_eq!(requests[0][0], requests[1][0]);
    assert!(!llm_body_text(&requests[1][0]).contains("Review carefully."));
    let tool_message = requests[1]
        .iter()
        .find(|message| {
            message.role == MessageRole::Tool
                && message.tool_call_id.as_deref() == Some("skill-call")
        })
        .expect("activate_skill tool result should be in the second request");
    let output: serde_json::Value =
        serde_json::from_str(&llm_body_text(tool_message)).expect("structured tool output");
    assert_eq!(output["name"], "review");
    assert_eq!(output["content"], "Review carefully.");
}

#[test]
fn multiple_tool_calls_in_one_message() {
    let mut world = World::new(Box::new(|messages| match tool_results(messages) {
        0 => calls_reply(
            "m0",
            vec![
                call("call-a", "read_file", r#"{"path":"a.txt"}"#),
                call("call-b", "read_file", r#"{"path":"b.txt"}"#),
            ],
        ),
        2 => text_reply("m1", "Done: both files read."),
        _ => text_reply("m1", "Echo"),
    }));
    world.tool = Box::new(|call| {
        done(if call.arguments.contains("a.txt") {
            "A"
        } else {
            "B"
        })
    });
    let (run_id, events) = world.run("Read both files");
    assert_eq!(
        finished(&events, &run_id),
        vec![(RunStatus::Succeeded, None)]
    );
    let started: Vec<&str> = events
        .iter()
        .filter_map(|event| match &event.kind {
            RuntimeEventKind::ToolStarted { tool_call_id, .. } => Some(tool_call_id.as_str()),
            _ => None,
        })
        .collect();
    assert_eq!(started, vec!["call-a", "call-b"]);

    let view = world.view();
    let results: Vec<(Option<&str>, &str)> = view
        .messages
        .iter()
        .filter(|message| message.role == MessageRole::Tool)
        .map(|message| (message.tool_call_id.as_deref(), message_text(message)))
        .collect();
    assert_eq!(results, vec![(Some("call-a"), "A"), (Some("call-b"), "B")]);
}

#[test]
fn compaction_triggered_when_budget_exceeded() {
    let mut world = World::new(Box::new(|messages| {
        let is_summary_request = messages.first().is_some_and(|message| {
            message.role == MessageRole::System && llm_body_text(message).contains("Summarize")
        });
        if is_summary_request {
            return text_reply("sum", "summary of prior conversation");
        }
        let last = messages
            .iter()
            .rev()
            .find(|message| message.role == MessageRole::Developer)
            .map(llm_body_text)
            .unwrap_or_default();
        text_reply("m", &format!("Echo: {}", last))
    }));
    world.config = CompactionConfig {
        context_budget: 20,
        threshold_percent: 90,
    };
    let mut last_id = None;
    for i in 0..4 {
        let developer = world.append(
            None,
            last_id,
            MessageRole::Developer,
            MessageBody::text(&format!(
                "This is a long developer message number {} with text.",
                i
            )),
            None,
        );
        last_id = Some(world.append(
            None,
            Some(developer),
            MessageRole::Assistant,
            MessageBody::text(&format!(
                "This is an assistant response number {} with many chars.",
                i
            )),
            None,
        ));
    }

    let (run_id, events) = world.run("Hello again");
    assert!(events.iter().any(|event| matches!(
        &event.kind,
        RuntimeEventKind::CompactionStarted { run_id: rid, session_id, .. }
            if rid == &run_id && session_id == "s1"
    )));
    let completed_summary = events.iter().find_map(|event| match &event.kind {
        RuntimeEventKind::CompactionCompleted {
            run_id: rid,
            session_id,
            summary,
            ..
        } if rid == &run_id && session_id == "s1" => Some(summary.clone()),
        _ => None,
    });
    assert_eq!(
        completed_summary.as_deref(),
        Some("summary of prior conversation")
    );
    assert_eq!(
        finished(&events, &run_id),
        vec![(RunStatus::Succeeded, None)]
    );
    assert!(world
        .entries
        .iter()
        .any(|entry| matches!(entry, SessionEntry::CompactionEntry(_))));
    let active_path = build_active_path(&world.entries);
    assert!(active_path
        .iter()
        .any(|message| message.role == MessageRole::Summary));
}

#[test]
fn a_failed_compaction_is_told_and_ends_the_run() {
    let executor = executor();
    let mut entries = vec![SessionEntry::Session {
        version: 1,
        id: "s1".into(),
        workspace: "/workspace".into(),
        created_at: "t".into(),
    }];
    for id in ["a", "b", "c"] {
        entries.push(SessionEntry::Message(Message {
            id: id.into(),
            parent_id: None,
            role: MessageRole::Developer,
            tool_call_id: None,
            body: MessageBody::text(&"x".repeat(60)),
        }));
    }
    let inputs = vec![
        RunInput::Start,
        RunInput::SessionLoaded(
            SessionViewRepository::build_view(entries.clone(), "s1", None, None),
        ),
        RunInput::CatalogLoaded(Ok(vec![])),
        RunInput::EntriesRead(Ok(Records::of_entries(entries))),
        RunInput::Compacted(Err(CompactionError::SingleMessageExceedsBudget)),
    ];
    let mut state = executor.initial_state();
    let mut actions = vec![];
    for input in inputs {
        let step = executor.run_inner(state, input, false);
        state = step.0;
        actions = step.1;
    }
    assert!(matches!(
        &actions[0],
        RunAction::Emit(RuntimeEventKind::CompactionFailed { error, .. })
            if error == &CompactionError::SingleMessageExceedsBudget.message()
    ));
    assert_eq!(state.phase, RunPhase::Finished);
    assert!(matches!(
        last_event(&actions),
        RuntimeEventKind::RunFinished {
            status: RunStatus::Failed,
            ..
        }
    ));
}

#[test]
fn delta_buffer_flushes_when_threshold_reached() {
    let mut buffer = DeltaBuffer::new(DELTA_BUFFER_THRESHOLD);
    assert_eq!(buffer.push("hello "), None);
    assert_eq!(buffer.push("world"), Some("hello world".to_owned()));
    assert!(buffer.buffer.is_empty());
}

#[test]
fn delta_buffer_flush_returns_remaining_content() {
    let mut buffer = DeltaBuffer::new(DELTA_BUFFER_THRESHOLD);
    assert_eq!(buffer.push("hi"), None);
    assert_eq!(buffer.flush(), Some("hi".to_owned()));
    assert_eq!(buffer.flush(), None);
}

#[test]
fn delta_buffer_counts_characters() {
    let mut buffer = DeltaBuffer::new(DELTA_BUFFER_THRESHOLD);
    assert_eq!(buffer.push("éééé"), None);
    assert_eq!(buffer.push("文文文"), None);
    assert_eq!(buffer.push("文"), Some("éééé文文文文".to_owned()));
    assert_eq!(buffer.flush(), None);
}

#[test]
fn concurrent_send_message_returns_busy() {
    let mut runner = SessionRunner::new();
    let first = runner.send_message().expect("first accepted");
    let second = runner.send_message();
    assert!(matches!(second, Err(RunnerError::Busy)));
    assert!(!first.is_empty());
    assert_eq!(RunnerError::Busy.message(), "session is busy with another run");
}

#[test]
fn echo_run_emits_lifecycle_events_and_persists_messages() {
    let mut world = World::new(echo(5));
    let (run_id, events) = world.run("hello");
    assert!(!events.is_empty());
    assert!(matches!(&events[0].kind,
        RuntimeEventKind::RunStarted { session_id, run_id: rid } if session_id == "s1" && rid == &run_id
    ));
    let deltas = deltas(&events, &run_id);
    assert!(!deltas.is_empty(), "should emit at least one delta");
    assert_eq!(deltas.concat(), "Echo: hello");
    assert!(events.iter().any(|event| matches!(&event.kind,
        RuntimeEventKind::MessageStarted { role, run_id: rid, .. } if rid == &run_id && *role == MessageRole::Assistant
    )));
    assert!(events.iter().any(|event| matches!(&event.kind,
        RuntimeEventKind::MessageCompleted { run_id: rid, .. } if rid == &run_id
    )));
    assert!(matches!(
        &events.last().unwrap().kind,
        RuntimeEventKind::RunFinished { status: RunStatus::Succeeded, error: None, run_id: rid } if rid == &run_id
    ));

    let view = world.view();
    assert_eq!(view.messages.len(), 2);
    assert_eq!(view.messages[0].role, MessageRole::Developer);
    assert_eq!(message_text(&view.messages[0]), "hello");
    assert_eq!(view.messages[1].role, MessageRole::Assistant);
    assert_eq!(message_text(&view.messages[1]), "Echo: hello");
    assert_eq!(
        view.messages[1].parent_id,
        Some(view.messages[0].id.clone())
    );
    assert!(world.released && !world.runner.is_running());
}

#[test]
fn echo_run_with_small_chunk_size_emits_multiple_deltas() {
    let mut world = World::new(echo(3));
    let (run_id, events) = world.run("hello world");
    let deltas = deltas(&events, &run_id);
    assert!(deltas.len() > 1, "should emit multiple deltas");
    assert_eq!(deltas.concat(), "Echo: hello world");
}

#[test]
fn provider_error_emits_error_and_failed_run() {
    let mut world = World::new(Box::new(|_| Err(ProviderError::Request("boom".into()))));
    let (run_id, events) = world.run("hi");
    assert!(matches!(&events[0].kind,
        RuntimeEventKind::RunStarted { run_id: rid, .. } if rid == &run_id
    ));
    assert!(events.iter().any(|event| matches!(&event.kind,
        RuntimeEventKind::Error { run_id: Some(rid), message } if rid == &run_id && message.contains("boom")
    )));
    assert!(matches!(
        &events.last().unwrap().kind,
        RuntimeEventKind::RunFinished { status: RunStatus::Failed, error: Some(msg), run_id: rid } if rid == &run_id && msg.contains("boom")
    ));
    assert!(!events
        .iter()
        .any(|event| matches!(&event.kind, RuntimeEventKind::MessageStarted { .. })));
    assert_eq!(roles(&world), vec![MessageRole::Developer]);
    assert!(!world.runner.is_running());
}

#[test]
fn cancel_run_does_not_persist_partial_assistant_message() {
    let mut world = World::new(echo(1));
    world.cancel = Cancel::AfterStreamEvents(9);
    let (run_id, events) = world.run("hello");
    assert!(!deltas(&events, &run_id).is_empty());
    let view = world.view();
    assert_eq!(view.messages.len(), 1);
    assert_eq!(view.messages[0].role, MessageRole::Developer);
    assert_eq!(message_text(&view.messages[0]), "hello");
}

#[test]
fn cancel_run_allows_next_run() {
    let mut world = World::new(echo(1));
    world.cancel = Cancel::AfterStreamEvents(9);
    let (first_id, _) = world.run("hello");
    world.cancel = Cancel::Never;
    let (second_id, events) = world.run("hello");
    assert_ne!(first_id, second_id);
    assert_eq!(
        finished(&events, &second_id),
        vec![(RunStatus::Succeeded, None)]
    );
}

#[test]
fn cancel_run_emits_single_terminal_cancelled_outcome() {
    let mut world = World::new(echo(1));
    world.cancel = Cancel::AfterStreamEvents(9);
    let (run_id, events) = world.run("hello");
    let cancelled = events
        .iter()
        .filter(|event| {
            matches!(
                &event.kind,
                RuntimeEventKind::RunCancelled { run_id: rid } if rid == &run_id
            )
        })
        .count();
    assert_eq!(cancelled, 1);
    assert_eq!(
        finished(&events, &run_id),
        vec![(RunStatus::Cancelled, None)]
    );
}

#[test]
fn cancel_run_flushes_buffer_and_emits_ordered_events() {
    let mut world = World::new(echo(1));
    // One event starts the message and ten hold a character each.
    world.cancel = Cancel::AfterStreamEvents(11);
    let (run_id, events) = world.run("hello");
    assert_eq!(deltas(&events, &run_id), vec!["Echo: he", "ll"]);
    assert!(matches!(&events[0].kind,
        RuntimeEventKind::RunStarted { run_id: rid, .. } if rid == &run_id
    ));
    assert!(events.iter().any(|event| matches!(
        &event.kind,
        RuntimeEventKind::MessageStarted { run_id: rid, .. } if rid == &run_id
    )));
    let last_three = &events[events.len() - 3..];
    assert!(matches!(&last_three[0].kind,
        RuntimeEventKind::MessageDelta { run_id: rid, .. } if rid == &run_id
    ));
    assert!(matches!(&last_three[1].kind,
        RuntimeEventKind::RunCancelled { run_id: rid } if rid == &run_id
    ));
    assert!(matches!(
        &last_three[2].kind,
        RuntimeEventKind::RunFinished { run_id: rid, status: RunStatus::Cancelled, error: None } if rid == &run_id
    ));
    let view = world.view();
    assert_eq!(view.messages.len(), 1);
    assert_eq!(message_text(&view.messages[0]), "hello");
}

#[test]
fn cancel_run_is_idempotent_when_idle() {
    let mut runner = SessionRunner::new();
    assert!(!runner.cancel_run());
    assert!(!runner.cancel_run());
    assert!(!runner.is_running() && !runner.is_cancelled());
}

#[test]
fn cancel_run_then_send_message_starts_new_run() {
    let mut runner = SessionRunner::new();
    let first = runner.send_message().unwrap();
    assert!(runner.cancel_run());
    assert!(runner.is_cancelled());
    assert!(matches!(runner.send_message(), Err(RunnerError::Busy)));
    runner.clear_active_run();
    let second = runner.send_message().unwrap();
    assert_ne!(first, second);
    assert!(!runner.is_cancelled());
}

#[test]
fn same_session_busy_during_multi_tool_loop() {
    let mut world = World::new(coding_loop());
    world.tool = Box::new(|_| done("ok"));
    let executor = world.start("Update the program and verify it");
    assert!(matches!(
        world.runner.send_message(),
        Err(RunnerError::Busy)
    ));
    world.execute(&executor);
    assert!(world.runner.send_message().is_ok());
}

#[test]
fn active_run_released_after_loop_error() {
    let mut world = World::new(Box::new(|messages| match tool_results(messages) {
        0 => calls_reply(
            "msg-1",
            vec![call("read-call", "read_file", r#"{"path":"main.rs"}"#)],
        ),
        _ => Err(ProviderError::Request(
            "provider failure after first turn".into(),
        )),
    }));
    world.tool = Box::new(|_| done("fn main() {}"));
    let (run_id, events) = world.run("Read it");
    assert_eq!(
        finished(&events, &run_id),
        vec![(
            RunStatus::Failed,
            Some("provider request failed: provider failure after first turn".into())
        )]
    );
    assert!(world.released && !world.runner.is_running());
}

#[test]
fn read_file_tool_loop_end_to_end() {
    let mut world = World::new(Box::new(|messages| {
        let tools = vec![ToolDefinition {
            name: "read_file".into(),
            description: "Read a file".into(),
            parameters: "{}".into(),
        }];
        let messages = messages.iter().map(|m| m.to_run_message()).collect();
        Ok(EchoProvider::default()
            .send_message(&messages, &tools)
            .unwrap()
            .into_iter()
            .map(Ok)
            .collect())
    }));
    world.tool = Box::new(|call| {
        assert_eq!(call.arguments, r#"{"path":"main.rs"}"#);
        done("fn main() {}")
    });
    let (_, events) = world.run("读一下 main.rs");
    assert!(events.iter().any(|event| matches!(
        &event.kind,
        RuntimeEventKind::ToolStarted { name, .. } if name == "read_file"
    )));
    assert!(events.iter().any(|event| matches!(
        &event.kind,
        RuntimeEventKind::ToolFinished { output, .. } if output.contains("fn main() {}")
    )));
    assert!(matches!(
        events.last().unwrap().kind,
        RuntimeEventKind::RunFinished {
            status: RunStatus::Succeeded,
            ..
        }
    ));
    let view = world.view();
    assert!(view.messages.len() >= 3, "expected at least three messages");
    assert_eq!(view.messages[0].role, MessageRole::Developer);
    assert_eq!(message_text(&view.messages[0]), "读一下 main.rs");
    let tool_message = view
        .messages
        .iter()
        .find(|m| m.role == MessageRole::Tool)
        .expect("tool message");
    assert!(message_text(tool_message).contains("fn main() {}"));
}

#[test]
fn write_file_tool_loop_end_to_end() {
    let mut world = World::new(Box::new(|messages| {
        let tools = vec![ToolDefinition {
            name: "write_file".into(),
            description: "Write a file".into(),
            parameters: "{}".into(),
        }];
        let messages = messages.iter().map(|m| m.to_run_message()).collect();
        Ok(EchoProvider::default()
            .send_message(&messages, &tools)
            .unwrap()
            .into_iter()
            .map(Ok)
            .collect())
    }));
    world.tool = Box::new(|call| {
        let arguments: serde_json::Value = serde_json::from_str(&call.arguments).unwrap();
        assert_eq!(arguments["path"], "hello.txt");
        done(arguments["content"].as_str().unwrap())
    });
    let (_, events) = world.run("write hello.txt");
    assert!(events.iter().any(|event| matches!(
        &event.kind,
        RuntimeEventKind::ToolStarted { name, .. } if name == "write_file"
    )));
    assert!(events.iter().any(|event| matches!(
        &event.kind,
        RuntimeEventKind::ToolFinished { output, .. } if output.contains("Hello, world!")
    )));
}

#[test]
fn message_completed_body_has_text_then_tool_calls() {
    let mut world = World::new(Box::new(|messages| match tool_results(messages) {
        0 => Ok(vec![
            Ok(ProviderEvent::MessageStarted {
                message_id: "msg-tool".into(),
            }),
            Ok(ProviderEvent::TextDelta {
                message_id: "msg-tool".into(),
                delta: "I will read the file.".into(),
            }),
            Ok(ProviderEvent::MessageCompleted {
                message_id: "msg-tool".into(),
                tool_calls: Some(vec![call(
                    "call-read",
                    "read_file",
                    r#"{"path":"main.rs"}"#,
                )]),
            }),
        ]),
        _ => text_reply("msg-final", "File read successfully."),
    }));
    world.tool = Box::new(|_| done("fn main() {}"));
    let (run_id, events) = world.run("Read the file");
    let body = events
        .iter()
        .find_map(|event| match &event.kind {
            RuntimeEventKind::MessageCompleted {
                run_id: rid, body, ..
            } if rid == &run_id => body.as_ref(),
            _ => None,
        })
        .expect("MessageCompleted should carry body");
    assert!(body.0.len() >= 2);
    assert!(
        matches!(&body.0[0], MessageBlock::Text { text } if text == "I will read the file.")
    );
    assert!(matches!(&body.0[1], MessageBlock::ToolCall(call) if call.name == "read_file"));

    let view = world.view();
    let assistant = view
        .messages
        .iter()
        .find(|message| message.role == MessageRole::Assistant)
        .expect("assistant message persisted");
    assert_eq!(assistant.body, *body);
}

#[test]
fn cancel_during_cancellable_tool_reaches_cancelled_outcome() {
    let mut world = World::new(Box::new(|_| {
        calls_reply(
            "msg-cancel",
            vec![call("call-cancel", "cancellable_wait", "{}")],
        )
    }));
    world.cancel = Cancel::AfterToolEvents(1);
    world.tool = Box::new(|_| {
        Ok(vec![
            Ok(ToolStreamEvent::Chunk {
                chunk: "started".into(),
            }),
            Ok(ToolStreamEvent::Done {
                result: ToolOutputResult::error("cancelled by user"),
            }),
        ])
    });
    let (run_id, events) = world.run("Run cancellable tool");
    let cancelled = events
        .iter()
        .filter(|event| {
            matches!(
                &event.kind,
                RuntimeEventKind::RunCancelled { run_id: rid } if rid == &run_id
            )
        })
        .count();
    assert_eq!(cancelled, 1);
    assert_eq!(
        finished(&events, &run_id),
        vec![(RunStatus::Cancelled, None)]
    );
    assert!(events.iter().any(|event| matches!(
        &event.kind,
        RuntimeEventKind::ToolOutputDelta { chunk, .. } if chunk == "started"
    )));
    assert_eq!(
        roles(&world),
        vec![
            MessageRole::Developer,
            MessageRole::Assistant,
            MessageRole::Tool
        ]
    );
    let view = world.view();
    assert!(view.messages[1].body.0.iter().any(|block| {
        matches!(block, MessageBlock::ToolCall(call) if call.name == "cancellable_wait")
    }));
    assert_eq!(message_text(&view.messages[2]), "cancelled by user");
}

#[test]
fn unknown_tool_represented_as_error_in_next_turn() {
    let mut world = World::new(Box::new(|messages| {
        let last_tool = messages
            .iter()
            .rev()
            .find(|message| message.role == MessageRole::Tool);
        match last_tool {
            None => calls_reply("msg-1", vec![call("unknown-call", "unknown_tool", "{}")]),
            Some(tool) => {
                let text = llm_body_text(tool).to_ascii_lowercase();
                if text.contains("unknown tool") || text.contains("error") {
                    text_reply("msg-2", "observed tool error")
                } else {
                    text_reply("msg-2", "no tool error observed")
                }
            }
        }
    }));
    let (run_id, events) = world.run("Call unknown tool");
    assert_eq!(
        finished(&events, &run_id),
        vec![(RunStatus::Succeeded, None)]
    );
    let view = world.view();
    let tool_texts: Vec<&str> = view
        .messages
        .iter()
        .filter(|message| message.role == MessageRole::Tool)
        .map(message_text)
        .collect();
    assert_eq!(tool_texts.len(), 1);
    assert!(tool_texts[0].to_ascii_lowercase().contains("unknown tool"));
    let assistants: Vec<&Message> = view
        .messages
        .iter()
        .filter(|message| message.role == MessageRole::Assistant)
        .collect();
    assert_eq!(assistants.len(), 2);
    assert!(message_text(assistants[1]).contains("observed tool error"));
}

#[test]
fn invalid_response_fails_run_with_single_terminal_outcome() {
    let mut world = World::new(Box::new(|_| {
        Err(ProviderError::InvalidResponse("malformed response".into()))
    }));
    let (run_id, events) = world.run("hello");
    let outcomes = finished(&events, &run_id);
    assert_eq!(outcomes.len(), 1);
    assert_eq!(outcomes[0].0, RunStatus::Failed);
    assert!(outcomes[0]
        .1
        .as_deref()
        .unwrap()
        .contains("malformed response"));
    assert_eq!(roles(&world), vec![MessageRole::Developer]);
}

fn executor() -> RunExecutor {
    RunExecutor {
        run_id: "r1".into(),
        session_id: "s1".into(),
        message: "hello".into(),
        developer_message_id: "d1".into(),
        workspace_instructions: None,
        tools: vec![],
        compaction_config: CompactionConfig {
            context_budget: 20,
            threshold_percent: 90,
        },
    }
}

fn last_event(actions: &[RunAction]) -> &RuntimeEventKind {
    actions
        .iter()
        .rev()
        .find_map(|action| match action {
            RunAction::Emit(kind) => Some(kind),
            _ => None,
        })
        .expect("an event is emitted")
}

#[test]
fn errors_before_the_first_turn_end_the_run() {
    let executor = executor();
    let (state, actions) = executor.run_inner(executor.initial_state(), RunInput::Start, false);
    assert_eq!(actions.len(), 2);
    let (state, actions) = executor.run_inner(
        state,
        RunInput::SessionLoaded(Err(SessionViewError::MissingHeader {
            session_id: "s1".into(),
        })),
        false,
    );
    assert_eq!(state.phase, RunPhase::Finished);
    assert!(actions.contains(&RunAction::ReleaseRun));
    assert_eq!(
        last_event(&actions),
        &RuntimeEventKind::RunFinished {
            run_id: "r1".into(),
            status: RunStatus::Failed,
            error: Some("session s1 has no header".into()),
        }
    );
    let (state, actions) = executor.run_inner(state, RunInput::Start, false);
    assert_eq!(state.phase, RunPhase::Finished);
    assert!(actions.is_empty());
}

#[test]
fn outcomes_are_told_by_events() {
    let executor = executor();
    let told = |outcome| {
        let actions = executor.run(outcome);
        assert_eq!(actions.first(), Some(&RunAction::ReleaseRun));
        actions.len()
    };
    assert_eq!(told(Ok(RunOutcome::Succeeded)), 2);
    assert_eq!(
        told(Ok(RunOutcome::Cancelled {
            emit_run_cancelled_event: true
        })),
        3
    );
    assert_eq!(
        told(Ok(RunOutcome::Cancelled {
            emit_run_cancelled_event: false
        })),
        2
    );
    assert_eq!(told(Err(RunError::Other("x".into()))), 3);
    assert_eq!(
        RunError::SessionStore(SessionError::NotFound("s".into())).message(),
        "session not found: s"
    );
    assert_eq!(
        RunError::SkillRegistry(SkillError::NotFound("k".into())).message(),
        "skill not found: k"
    );
    assert_eq!(RunError::Other("x".into()).message(), "x");
    assert_eq!(
        RunError::Provider(ProviderError::Request("r".into())).message(),
        "provider request failed: r"
    );
}

#[test]
fn a_session_that_cannot_be_loaded_or_written_is_free_again() {
    let mut runner = SessionRunner::new();
    runner.send_message().unwrap();
    let refused = runner.session_loaded(
        "hello",
        Err(SessionViewError::MissingHeader {
            session_id: "s1".into(),
        }),
    );
    assert!(matches!(refused, Err(RunnerError::SessionView(_))));
    assert!(!runner.is_running());

    let run_id = runner.send_message().unwrap();
    let refused = runner.message_appended(
        &run_id,
        SendMessageParams {
            session_id: "s1".into(),
            message: "hello".into(),
        },
        None,
        vec![],
        CompactionConfig::default(),
        Err(SessionError::Read("full".into())),
    );
    assert!(matches!(refused, Err(RunnerError::SessionStore(_))));
    assert!(!runner.is_running());
}

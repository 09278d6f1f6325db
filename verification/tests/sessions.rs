use byte::protocol::session::{MessageBlock, SessionEntry, SessionSummary, SessionView};
use byte::protocol::{
    ActivatedSkill, LlmMessage, RuntimeEventKind, SessionChangeAction, SkillDefinition,
};
use byte::runtime::active_path::build_active_path;
use byte::runtime::runner_pool::{activate_in, load_active_skills, CloseResult, RunnerPool};
use byte::runtime::session_manager::{
    parse_skill_command, SendAction, SendInput, SendState, SessionManager,
};
use byte::runtime::session_runner::RunnerError;
use byte::runtime::session_view_repository::{SessionViewError, SessionViewRepository};
use byte::session_store::{SessionError, SessionStore};
use byte::skills::SkillError;

fn header(id: &str) -> SessionEntry {
    SessionStore::new("/sessions")
        .unwrap()
        .new_session(id, "/workspace", 1, 0)
        .unwrap()
        .entry
}

fn activation(name: &str, content: &str) -> SessionEntry {
    SessionStore::new("/sessions")
        .unwrap()
        .append_skill_activation("s1", name, content)
        .unwrap()
        .entry
}

fn view(id: &str) -> SessionView {
    SessionViewRepository::build_view(vec![header(id)], id, None, None).unwrap()
}

fn review() -> SkillDefinition {
    SkillDefinition {
        name: "review".into(),
        description: "Review code".into(),
        content: "Review carefully.".into(),
    }
}

fn changed(event: &RuntimeEventKind, id: &str, expected: SessionChangeAction) -> bool {
    matches!(event, RuntimeEventKind::SessionChanged { session_id, action }
        if session_id == id && *action == expected)
}

fn holds(message: &LlmMessage, part: &str) -> bool {
    message
        .body
        .0
        .iter()
        .any(|block| matches!(block, MessageBlock::Text { text } if text.contains(part)))
}

/// Sends a message that names the review skill, with every step of it done.
fn send_review(manager: &mut SessionManager, entries: &mut Vec<SessionEntry>, message: &str) {
    let (state, action) = SessionManager::send_message(message);
    assert_eq!(action, SendAction::LoadView);
    let (state, action) = SessionManager::activate_skill_for_session(
        state,
        SendInput::ViewLoaded(Ok("/workspace".into())),
    );
    assert_eq!(
        action,
        SendAction::FindSkill {
            workspace: "/workspace".into(),
            name: "review".into()
        }
    );
    let (state, action) =
        SessionManager::activate_skill_for_session(state, SendInput::SkillFound(Ok(review())));
    match action {
        SendAction::SaveActivation { name, content } => entries.push(activation(&name, &content)),
        other => panic!("the activation is saved, not {:?}", other),
    }
    let (state, action) =
        SessionManager::activate_skill_for_session(state, SendInput::ActivationSaved(Ok(())));
    assert_eq!(state, SendState::Decided);
    match action {
        SendAction::StartRun {
            activation: Some(skill),
        } => {
            manager.pool.record_skill_activation("s1", skill, entries);
        }
        other => panic!("the run starts, not {:?}", other),
    }
    manager.start_run("s1", entries).expect("run accepted");
    manager.release_run("s1");
}

#[test]
fn parse_skill_command_matches_line_start_only() {
    assert_eq!(
        parse_skill_command("/skill:review").as_deref(),
        Some("review")
    );
    assert_eq!(
        parse_skill_command("/skill:review check this code").as_deref(),
        Some("review")
    );
    assert_eq!(
        parse_skill_command("  /skill:review\nmore text").as_deref(),
        Some("review")
    );
    assert_eq!(parse_skill_command("/skill:"), None);
    assert_eq!(parse_skill_command("/skill"), None);
    assert_eq!(parse_skill_command("hello /skill:review"), None);
    assert_eq!(parse_skill_command("/other:review"), None);
}

#[test]
fn new_session_creates_file_and_emits_created_event() {
    assert!(SessionManager::new_session("/workspace", true).is_ok());
    let (result, event) =
        SessionManager::session_created("s1", Ok(())).expect("new session succeeds");
    assert_eq!(result.session_id, "s1");
    assert!(changed(&event, "s1", SessionChangeAction::Created));
    assert_eq!(view("s1").workspace, "/workspace");
}

#[test]
fn a_workspace_must_be_a_directory() {
    assert_eq!(
        SessionManager::new_session("/file", false)
            .unwrap_err()
            .message(),
        "session directory is invalid: workspace is not a directory: /file"
    );
    assert!(matches!(
        SessionManager::session_created("s1", Err(SessionError::AlreadyExists("s1".into()))),
        Err(RunnerError::SessionStore(SessionError::AlreadyExists(id))) if id == "s1"
    ));
}

#[test]
fn delete_session_removes_file_and_emits_deleted_event() {
    let mut manager = SessionManager::new();
    assert!(manager.delete_session("s1").is_ok());
    let (result, event) = SessionManager::session_deleted("s1", Ok(())).expect("delete succeeds");
    assert_eq!(result.session_id, "s1");
    assert!(changed(&event, "s1", SessionChangeAction::Deleted));
    assert!(SessionManager::session_deleted("s1", Err(SessionError::NotFound("s1".into()))).is_err());
}

#[test]
fn delete_session_with_active_run_returns_busy() {
    let mut manager = SessionManager::new();
    manager.start_run("s1", &vec![header("s1")]).unwrap();
    assert!(matches!(
        manager.delete_session("s1"),
        Err(RunnerError::Busy)
    ));
    assert!(manager.is_running("s1", &vec![]));
    manager.release_run("s1");
    assert!(manager.delete_session("s1").is_ok());
    assert!(manager.pool.runner("s1").is_none());
}

#[test]
fn send_message_lazily_creates_runner_and_rejects_concurrent_runs() {
    let mut manager = SessionManager::new();
    assert!(manager.pool.runner("s1").is_none());
    assert_eq!(
        SessionManager::send_message("hello"),
        (SendState::Decided, SendAction::StartRun { activation: None })
    );
    let first = manager.start_run("s1", &vec![header("s1")]);
    assert!(!first.expect("first run accepted").is_empty());
    assert!(manager.pool.runner("s1").is_some());
    assert!(matches!(
        manager.start_run("s1", &vec![header("s1")]),
        Err(RunnerError::Busy)
    ));
}

#[test]
fn runs_on_different_sessions_execute_concurrently() {
    let mut manager = SessionManager::new();
    let first = manager.start_run("s1", &vec![]);
    let second = manager.start_run("s2", &vec![]);
    assert!(first.is_ok(), "s1 run should be accepted");
    assert!(second.is_ok(), "s2 run should be accepted");
    assert_ne!(first.unwrap(), second.unwrap());
}

#[test]
fn cross_session_runs_remain_independent_during_loop() {
    let mut manager = SessionManager::new();
    manager.start_run("s1", &vec![]).unwrap();
    manager.start_run("s2", &vec![]).unwrap();
    assert!(manager.cancel_run("s1", &vec![]));
    assert!(manager.pool.runner("s1").unwrap().is_cancelled());
    assert!(!manager.pool.runner("s2").unwrap().is_cancelled());
    manager.release_run("s1");
    assert!(!manager.is_running("s1", &vec![]) && manager.is_running("s2", &vec![]));
}

#[test]
fn load_session_emits_loaded_event() {
    let (result, event) =
        SessionManager::load_session("s1", Ok(view("s1"))).expect("load succeeds");
    assert_eq!(result.session.session_id, "s1");
    assert!(changed(&event, "s1", SessionChangeAction::Loaded));
    assert!(matches!(
        SessionManager::load_session(
            "s1",
            Err(SessionViewError::Store(SessionError::NotFound("s1".into())))
        ),
        Err(RunnerError::SessionView(SessionViewError::Store(SessionError::NotFound(id)))) if id == "s1"
    ));
}

#[test]
fn list_sessions_returns_sessions() {
    let summary = |id: &str| SessionSummary {
        session_id: id.into(),
        workspace: "/workspace".into(),
        created_at: "t".into(),
    };
    let result = SessionManager::list_sessions(Ok(vec![summary("s1"), summary("s2")]))
        .expect("list succeeds");
    let ids: Vec<_> = result
        .sessions
        .iter()
        .map(|summary| summary.session_id.clone())
        .collect();
    assert_eq!(ids, vec!["s1", "s2"]);
    assert!(SessionManager::list_sessions(Err(SessionError::Read("io".into()))).is_err());
}

#[test]
fn cancel_run_forwards_to_runner() {
    let mut manager = SessionManager::new();
    manager.start_run("s1", &vec![]).unwrap();
    assert!(manager.cancel_run("s1", &vec![]));
    assert!(manager.pool.runner("s1").unwrap().is_cancelled());
}

#[test]
fn cancel_run_without_runner_succeeds() {
    let mut manager = SessionManager::new();
    assert!(!manager.cancel_run("s1", &vec![]));
    assert!(!manager.is_running("s1", &vec![]));
}

#[test]
fn send_message_with_skill_command_activates_skill_and_runs() {
    let mut manager = SessionManager::new();
    let mut entries = vec![header("s1")];
    send_review(&mut manager, &mut entries, "/skill:review please check src");
    let activations: Vec<_> = entries
        .iter()
        .filter_map(|entry| match entry {
            SessionEntry::SkillActivated(skill) => Some(skill),
            _ => None,
        })
        .collect();
    assert_eq!(activations.len(), 1, "activation must be persisted");
    assert_eq!(activations[0].name, "review");
    assert!(activations[0].content.contains("Review carefully."));
    let active_path = build_active_path(&entries);
    assert!(active_path
        .iter()
        .any(|message| holds(message, "Review carefully.")));
    assert_eq!(manager.pool.skills_of("s1").unwrap().len(), 1);
}

#[test]
fn send_message_with_unknown_skill_errors_without_starting_run() {
    let (state, action) = SessionManager::send_message("/skill:missing do something");
    assert_eq!(
        state,
        SendState::LoadingView {
            skill: "missing".into()
        }
    );
    assert_eq!(action, SendAction::LoadView);
    let (state, _) = SessionManager::activate_skill_for_session(
        state,
        SendInput::ViewLoaded(Ok("/workspace".into())),
    );
    let (state, action) = SessionManager::activate_skill_for_session(
        state,
        SendInput::SkillFound(Err(SkillError::NotFound("missing".into()))),
    );
    assert_eq!(state, SendState::Decided);
    assert!(matches!(
        action,
        SendAction::Reject(RunnerError::SkillRegistry(SkillError::NotFound(name)))
            if name == "missing"
    ));
    let (_, action) =
        SessionManager::activate_skill_for_session(state, SendInput::ActivationSaved(Ok(())));
    assert_eq!(action, SendAction::Ignore);
}

#[test]
fn activations_that_cannot_be_saved_start_no_run() {
    let (_, action) = SessionManager::activate_skill_for_session(
        SendState::SavingActivation { skill: review() },
        SendInput::ActivationSaved(Err(SessionError::Read("full".into()))),
    );
    assert!(matches!(
        action,
        SendAction::Reject(RunnerError::SessionStore(SessionError::Read(error))) if error == "full"
    ));
    let (_, action) = SessionManager::activate_skill_for_session(
        SendState::LoadingView {
            skill: "review".into(),
        },
        SendInput::ViewLoaded(Err(SessionViewError::MissingHeader {
            session_id: "s1".into(),
        })),
    );
    assert!(matches!(
        action,
        SendAction::Reject(RunnerError::SessionView(_))
    ));
}

#[test]
fn repeated_skill_command_deduplicates_in_memory_activation() {
    let mut manager = SessionManager::new();
    let mut entries = vec![header("s1")];
    for text in ["/skill:review first", "/skill:review second"] {
        send_review(&mut manager, &mut entries, text);
    }
    let occurrences = build_active_path(&entries)
        .iter()
        .filter(|message| holds(message, "Skill `review` has been activated"))
        .count();
    assert_eq!(occurrences, 1, "repeated activation must be deduplicated");
    assert_eq!(manager.pool.skills_of("s1").unwrap().len(), 1);
}

#[test]
fn get_or_create_reuses_runner() {
    let mut pool = RunnerPool::new();
    assert!(pool.needs_entries("s1"));
    pool.get_or_create("s1", &vec![activation("review", "first")]);
    assert!(!pool.needs_entries("s1"));
    pool.get_or_create("s1", &vec![activation("test", "other")]);
    let names: Vec<&str> = pool
        .skills_of("s1")
        .unwrap()
        .iter()
        .map(|skill| skill.name.as_str())
        .collect();
    assert_eq!(names, vec!["review"]);
    assert!(pool.runner("s1").is_some() && pool.runner("s2").is_none());
}

#[test]
fn close_removes_idle_runner() {
    let mut pool = RunnerPool::new();
    pool.get_or_create("s1", &vec![]);
    assert_eq!(pool.close("s1"), CloseResult::Closed);
    assert!(pool.runner("s1").is_none() && pool.skills_of("s1").is_none());
    assert_eq!(pool.close("s1"), CloseResult::Absent);
}

#[test]
fn close_returns_busy_for_active_runner() {
    let mut pool = RunnerPool::new();
    pool.get_or_create("s1", &vec![]);
    let mut runner = pool.runner("s1").unwrap().clone();
    runner.send_message().unwrap();
    pool.set_runner("s1", runner);
    assert_eq!(pool.close("s1"), CloseResult::Busy);
    assert!(pool.runner("s1").unwrap().is_running());
}

#[test]
fn close_returns_absent_when_no_runner() {
    let mut pool = RunnerPool::new();
    assert_eq!(pool.close("missing"), CloseResult::Absent);
}

#[test]
fn load_active_skills_recovers_latest_activation() {
    let skills = load_active_skills(&vec![
        header("s1"),
        activation("review", "Review carefully."),
    ]);
    assert_eq!(skills.len(), 1);
    assert_eq!(skills[0].name, "review");
    assert_eq!(skills[0].content, "Review carefully.");
}

#[test]
fn load_active_skills_deduplicates_by_name() {
    let skills = load_active_skills(&vec![
        header("s1"),
        activation("review", "First version."),
        activation("review", "Updated version."),
        activation("test", "Test skill."),
    ]);
    assert_eq!(skills.len(), 2);
    let review = skills
        .iter()
        .find(|s| s.name == "review")
        .expect("review skill present");
    assert_eq!(review.content, "Updated version.");
    let test = skills
        .iter()
        .find(|s| s.name == "test")
        .expect("test skill present");
    assert_eq!(test.content, "Test skill.");
}

#[test]
fn activations_keep_the_place_of_a_skill() {
    let skill = |name: &str, content: &str| ActivatedSkill {
        name: name.into(),
        content: content.into(),
    };
    let mut skills = vec![skill("a", "1"), skill("b", "2")];
    assert!(activate_in(&mut skills, skill("a", "3")));
    assert!(!activate_in(&mut skills, skill("c", "4")));
    assert_eq!(
        skills,
        vec![skill("a", "3"), skill("b", "2"), skill("c", "4")]
    );
    let mut pool = RunnerPool::new();
    assert!(pool.record_skill_activation("s1", skill("a", "1"), &vec![activation("a", "0")]));
    assert!(!pool.record_skill_activation("s1", skill("b", "1"), &vec![]));
}

#[test]
fn concurrent_cancel_run_waits_for_run_to_finish() {
    let mut manager = SessionManager::new();
    manager.start_run("s1", &vec![]).unwrap();
    assert!(manager.cancel_run("s1", &vec![]));
    assert!(manager.cancel_run("s1", &vec![]));
    assert!(manager.is_running("s1", &vec![]));
    manager.release_run("s1");
    assert!(!manager.is_running("s1", &vec![]));
    assert!(!manager.cancel_run("s1", &vec![]));
}

#[test]
fn a_skill_name_stands_right_behind_the_colon() {
    assert_eq!(parse_skill_command("/skill: review"), None);
    assert_eq!(parse_skill_command("/skill:\nreview"), None);
    assert_eq!(
        parse_skill_command("\t/skill:a\u{a0}b").as_deref(),
        Some("a")
    );
}

#[test]
fn asking_for_a_run_loads_the_skills_of_the_session_once() {
    let entries = vec![
        header("s1"),
        SessionEntry::SkillActivated(ActivatedSkill {
            name: "review".into(),
            content: "R".into(),
        }),
    ];
    let mut manager = SessionManager::new();
    assert!(!manager.is_running("s1", &entries));
    assert!(manager.pool.runner("s1").is_some());
    assert_eq!(manager.pool.skills_of("s1").unwrap()[0].name, "review");
    manager.start_run("s1", &vec![]).unwrap();
    manager.release_run("s1");
    assert_eq!(manager.pool.skills_of("s1").unwrap().len(), 1);
    manager.pool.set_skills(
        "s1",
        vec![ActivatedSkill {
            name: "other".into(),
            content: "O".into(),
        }],
    );
    assert!(!manager.cancel_run("s1", &entries));
    assert_eq!(manager.pool.skills_of("s1").unwrap()[0].name, "other");
}

use byte::protocol::session::{CompactionSummary, SessionMessage};
use byte::protocol::{ActivatedSkill, MessageRole, SkillEntry, ToolDefinition};
use byte::runtime::prompt::{PromptBuilder, PromptContext};

fn two_skills() -> Vec<SkillEntry> {
    vec![
        SkillEntry {
            name: "rust".into(),
            description: "Rust best practices.".into(),
        },
        SkillEntry {
            name: "testing".into(),
            description: "Testing guidelines.".into(),
        },
    ]
}

#[test]
fn prompt_builder_includes_registered_tools() {
    let builder = PromptBuilder::new();
    let context = PromptContext {
        user_message: "hello".into(),
        history: vec![],
        compactions: vec![],
        tools: vec![ToolDefinition {
            name: "read_file".into(),
            description: "Read a file.".into(),
            parameters: r#"{"path":"string"}"#.into(),
        }],
        active_skills: vec![],
        available_skills: vec![],
    };
    let messages = builder.build(context);

    assert_eq!(messages.len(), 2);
    assert_eq!(messages[0].role, MessageRole::System);
    assert!(messages[0].content.contains("read_file"));
    assert_eq!(messages[1].role, MessageRole::Developer);
    assert_eq!(messages[1].content, "hello");
}

#[test]
fn builder_appends_history_and_compactions() {
    let builder = PromptBuilder::new();
    let context = PromptContext {
        user_message: "current".into(),
        history: vec![SessionMessage {
            id: "m1".into(),
            parent_id: None,
            role: MessageRole::Developer,
            content: "past".into(),
            tool_call_id: None,
            tool_calls: None,
        }],
        compactions: vec![CompactionSummary {
            id: "c1".into(),
            parent_id: "m1".into(),
            summary: "old topic".into(),
        }],
        tools: vec![],
        active_skills: vec![],
        available_skills: vec![],
    };
    let messages = builder.build(context);

    assert_eq!(messages.len(), 4);
    assert_eq!(messages[0].role, MessageRole::System);
    assert_eq!(messages[1].role, MessageRole::System);
    assert!(messages[1].content.contains("old topic"));
    assert_eq!(messages[2].role, MessageRole::Developer);
    assert_eq!(messages[2].content, "past");
    assert_eq!(messages[3].role, MessageRole::Developer);
    assert_eq!(messages[3].content, "current");
}

#[test]
fn prompt_builder_includes_available_skills_for_activation() {
    let builder = PromptBuilder::new();
    let context = PromptContext {
        user_message: "hello".into(),
        history: vec![],
        compactions: vec![],
        tools: vec![],
        active_skills: vec![],
        available_skills: two_skills(),
    };
    let messages = builder.build(context);

    assert_eq!(messages.len(), 2);
    assert_eq!(messages[0].role, MessageRole::System);
    let system = &messages[0].content;
    assert!(system.contains("rust: Rust best practices."));
    assert!(system.contains("testing: Testing guidelines."));
    assert!(system.contains("activate_skill"));
}

#[test]
fn prompt_builder_lists_only_inactive_available_skills() {
    let builder = PromptBuilder::new();
    let context = PromptContext {
        user_message: "hello".into(),
        history: vec![],
        compactions: vec![],
        tools: vec![],
        active_skills: vec![ActivatedSkill {
            name: "rust".into(),
            content: "Rust content.".into(),
        }],
        available_skills: two_skills(),
    };
    let messages = builder.build(context);

    assert_eq!(messages.len(), 2);
    let system = &messages[0].content;
    assert!(system.contains("Active skills:"));
    assert!(system.contains("## rust"));
    assert!(system.contains("testing: Testing guidelines."));
    assert!(!system.contains("rust: Rust best practices."));
}

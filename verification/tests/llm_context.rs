use byte::protocol::session::{Message, MessageBody};
use byte::protocol::{ActivatedSkill, MessageRole, SkillEntry, ToolDefinition};
use byte::runtime::llm_context::{body_text, LlmContextBuilder, LlmContextInput};

fn message_text(role: MessageRole, content: &str) -> Message {
    Message {
        id: "m1".into(),
        parent_id: None,
        role,
        tool_call_id: None,
        body: MessageBody::text(content),
    }
}

fn two_skills() -> Vec<SkillEntry> {
    vec![
        SkillEntry {
            name: "rust".into(),
            description: "Rust best practices.".into(),
        },
        SkillEntry {
            name: "testing".into(),
            description: "Testing guidelines.".into(),
        },
    ]
}

#[test]
fn llm_context_builder_includes_registered_tools() {
    let builder = LlmContextBuilder::new();
    let context = LlmContextInput {
        user_message: "hello".into(),
        history: vec![],
        tools: vec![ToolDefinition {
            name: "read_file".into(),
            description: "Read a file.".into(),
            parameters: r#"{"path":"string"}"#.into(),
        }],
        active_skills: vec![],
        available_skills: vec![],
        workspace_instructions: None,
    };
    let messages = builder.build(context);

    assert_eq!(messages.len(), 2);
    assert_eq!(messages[0].role, MessageRole::System);
    assert!(body_text(&messages[0].body).contains("read_file"));
    assert_eq!(messages[1].role, MessageRole::Developer);
    assert_eq!(body_text(&messages[1].body), "hello");
}

#[test]
fn builder_appends_history_and_summaries() {
    let builder = LlmContextBuilder::new();
    let context = LlmContextInput {
        user_message: "current".into(),
        history: vec![
            message_text(MessageRole::Developer, "past"),
            Message {
                id: "s1".into(),
                parent_id: Some("m1".into()),
                role: MessageRole::Summary,
                tool_call_id: None,
                body: MessageBody::text("old topic"),
            },
        ],
        tools: vec![],
        active_skills: vec![],
        available_skills: vec![],
        workspace_instructions: None,
    };
    let messages = builder.build(context);

    assert_eq!(messages.len(), 4);
    assert_eq!(messages[0].role, MessageRole::System);
    assert_eq!(messages[1].role, MessageRole::System);
    assert!(body_text(&messages[1].body).contains("old topic"));
    assert_eq!(messages[2].role, MessageRole::Developer);
    assert_eq!(body_text(&messages[2].body), "past");
    assert_eq!(messages[3].role, MessageRole::Developer);
    assert_eq!(body_text(&messages[3].body), "current");
}

#[test]
fn builder_preserves_tool_call_id_for_tool_messages() {
    let builder = LlmContextBuilder::new();
    let context = LlmContextInput {
        user_message: "current".into(),
        history: vec![Message {
            id: "m2".into(),
            parent_id: Some("m1".into()),
            role: MessageRole::Tool,
            tool_call_id: Some("call-1".into()),
            body: MessageBody::text("tool output"),
        }],
        tools: vec![],
        active_skills: vec![],
        available_skills: vec![],
        workspace_instructions: None,
    };
    let messages = builder.build(context);

    assert_eq!(messages.len(), 3);
    assert_eq!(messages[1].role, MessageRole::Tool);
    assert_eq!(messages[1].tool_call_id, Some("call-1".into()));
}

#[test]
fn llm_context_builder_includes_available_skills_for_activation() {
    let builder = LlmContextBuilder::new();
    let context = LlmContextInput {
        user_message: "hello".into(),
        history: vec![],
        tools: vec![],
        active_skills: vec![],
        available_skills: two_skills(),
        workspace_instructions: None,
    };
    let messages = builder.build(context);

    assert_eq!(messages.len(), 2);
    assert_eq!(messages[0].role, MessageRole::System);
    let system = body_text(&messages[0].body);
    assert!(system.contains("rust: Rust best practices."));
    assert!(system.contains("testing: Testing guidelines."));
    assert!(system.contains("activate_skill"));
}

#[test]
fn llm_context_builder_lists_only_inactive_available_skills() {
    let builder = LlmContextBuilder::new();
    let context = LlmContextInput {
        user_message: "hello".into(),
        history: vec![],
        tools: vec![],
        active_skills: vec![ActivatedSkill {
            name: "rust".into(),
            content: "Rust content.".into(),
        }],
        available_skills: two_skills(),
        workspace_instructions: None,
    };
    let messages = builder.build(context);

    assert_eq!(messages.len(), 2);
    let system = body_text(&messages[0].body);
    assert!(system.contains("Active skills:"));
    assert!(system.contains("## rust"));
    assert!(system.contains("testing: Testing guidelines."));
    assert!(!system.contains("rust: Rust best practices."));
}

#[test]
fn builder_injects_workspace_instructions_as_system_message() {
    let builder = LlmContextBuilder::new();
    let context = LlmContextInput {
        user_message: "hello".into(),
        history: vec![],
        tools: vec![],
        active_skills: vec![],
        available_skills: vec![],
        workspace_instructions: Some("Always write tests.".into()),
    };
    let messages = builder.build(context);

    assert_eq!(messages.len(), 3);
    assert_eq!(messages[0].role, MessageRole::System);
    assert!(body_text(&messages[0].body).contains("Byte Agent"));
    assert_eq!(messages[1].role, MessageRole::System);
    assert_eq!(body_text(&messages[1].body), "Always write tests.");
    assert_eq!(messages[2].role, MessageRole::Developer);
    assert_eq!(body_text(&messages[2].body), "hello");
}

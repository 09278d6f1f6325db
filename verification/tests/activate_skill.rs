use byte::protocol::{ActivatedSkill, SkillDefinition, ToolCall, ToolDefinition};
use byte::runtime::activate_skill::{ActivateSkillTool, SessionToolRegistry};
use byte::session_store::SessionError;
use byte::skills::SkillError;

fn review(content: &str) -> SkillDefinition {
    SkillDefinition {
        name: "review".into(),
        description: "Review skill".into(),
        content: content.into(),
    }
}

fn call(arguments: &str) -> ToolCall {
    ToolCall {
        id: "call-1".into(),
        name: "activate_skill".into(),
        arguments: arguments.into(),
    }
}

#[test]
fn activate_skill_appends_to_active_skills_and_returns_content() {
    let mut tool = ActivateSkillTool::new(Vec::new());
    let name = ActivateSkillTool::requested_skill(&call(r#"{"name":"review"}"#)).unwrap();
    assert_eq!(name, "review");

    let text = tool.invoke(Ok(review("Review carefully.")), None).unwrap();
    let output: serde_json::Value = serde_json::from_str(&text).unwrap();
    assert_eq!(output["name"], "review");
    assert_eq!(output["description"], "Review skill");
    assert_eq!(output["content"], "Review carefully.");
    assert_eq!(
        text,
        r#"{"content":"Review carefully.","description":"Review skill","name":"review"}"#
    );

    assert_eq!(
        tool.active_skills,
        vec![ActivatedSkill {
            name: "review".into(),
            content: "Review carefully.".into(),
        }]
    );
}

#[test]
fn activate_skill_deduplicates_and_updates_existing_skill() {
    let mut tool = ActivateSkillTool::new(Vec::new());
    let first = tool
        .invoke(Ok(review("First version.")), Some(Ok(())))
        .unwrap();
    assert!(first.contains("First version."));

    let second = tool
        .invoke(Ok(review("Updated version.")), Some(Ok(())))
        .unwrap();
    assert!(second.contains("already active"));

    assert_eq!(tool.active_skills.len(), 1);
    assert_eq!(tool.active_skills[0].name, "review");
    assert_eq!(tool.active_skills[0].content, "Updated version.");
}

#[test]
fn session_tool_registry_includes_activate_skill_definition() {
    let wrapper = SessionToolRegistry::new(Vec::new());

    let definitions = wrapper.definitions();
    assert!(definitions
        .iter()
        .any(|definition| definition.name == "activate_skill"));
    assert!(wrapper.names().contains(&"activate_skill".to_owned()));
}

#[test]
fn session_tools_come_after_those_of_the_base() {
    let wrapper = SessionToolRegistry::new(vec![ToolDefinition {
        name: "read_file".into(),
        description: "Read a file".into(),
        parameters: "{}".into(),
    }]);
    assert_eq!(wrapper.names(), vec!["read_file", "activate_skill"]);
    assert_eq!(wrapper.definitions()[0].name, "read_file");
    assert!(SessionToolRegistry::is_session_tool("activate_skill"));
    assert!(!SessionToolRegistry::is_session_tool("read_file"));
}

#[test]
fn the_schema_of_the_tool_is_json() {
    let definition = ActivateSkillTool::definition();
    let schema: serde_json::Value = serde_json::from_str(&definition.parameters).unwrap();
    assert_eq!(schema["type"], "object");
    assert_eq!(schema["properties"]["name"]["type"], "string");
    assert_eq!(schema["required"][0], "name");
    assert_eq!(schema.to_string(), definition.parameters);
}

#[test]
fn a_call_without_a_name_is_refused() {
    for arguments in ["{}", r#"{"name":1}"#, "not json"] {
        assert_eq!(
            ActivateSkillTool::requested_skill(&call(arguments)),
            Err("missing `name` argument".to_string())
        );
    }
}

#[test]
fn a_failed_activation_changes_nothing() {
    let mut tool = ActivateSkillTool::new(Vec::new());
    assert_eq!(
        tool.invoke(Err(SkillError::NotFound("x".into())), None),
        Err("skill not found: x".to_string())
    );
    assert_eq!(
        tool.invoke(
            Ok(review("c")),
            Some(Err(SessionError::Read("full".into())))
        ),
        Err("failed to read session file: full".to_string())
    );
    assert!(tool.active_skills.is_empty());
}

use byte::protocol::session::{
    CompactionEntry, CompactionRange, Message, MessageBlock, MessageBody, SessionEntry,
};
use byte::protocol::{ActivatedSkill, MessageRole, ToolCall};
use byte::runtime::active_path::{build_active_history, build_active_path};

fn msg(id: &str, parent_id: Option<&str>, role: MessageRole, text: &str) -> SessionEntry {
    SessionEntry::Message(Message {
        id: id.into(),
        parent_id: parent_id.map(Into::into),
        role,
        tool_call_id: None,
        body: MessageBody::text(text),
    })
}

fn compaction(id: &str, first: &str, last: &str, summary: &str) -> SessionEntry {
    SessionEntry::CompactionEntry(CompactionEntry {
        id: id.into(),
        role: MessageRole::Summary,
        summary: summary.into(),
        compacted_range: CompactionRange {
            first_message_id: first.into(),
            last_message_id: last.into(),
        },
        created_at: "t".into(),
        run_id: "r1".into(),
    })
}

fn body_text(body: &MessageBody) -> &str {
    match &body.0[..] {
        [MessageBlock::Text { text }] => text.as_str(),
        _ => "",
    }
}

fn skill(name: &str, content: &str) -> SessionEntry {
    SessionEntry::SkillActivated(ActivatedSkill {
        name: name.into(),
        content: content.into(),
    })
}

fn tool_call_msg(
    id: &str,
    parent_id: Option<&str>,
    call_id: &str,
    tool_name: &str,
    arguments: &str,
) -> SessionEntry {
    SessionEntry::Message(Message {
        id: id.into(),
        parent_id: parent_id.map(Into::into),
        role: MessageRole::Assistant,
        tool_call_id: None,
        body: MessageBody(vec![MessageBlock::ToolCall(ToolCall {
            id: call_id.into(),
            name: tool_name.into(),
            arguments: arguments.into(),
        })]),
    })
}

fn tool_result_msg(id: &str, parent_id: Option<&str>, call_id: &str, text: &str) -> SessionEntry {
    SessionEntry::Message(Message {
        id: id.into(),
        parent_id: parent_id.map(Into::into),
        role: MessageRole::Tool,
        tool_call_id: Some(call_id.into()),
        body: MessageBody::text(text),
    })
}

#[test]
fn active_path_includes_recent_messages_and_skips_compacted() {
    let entries = vec![
        msg("m1", None, MessageRole::Developer, "hello"),
        msg("m2", Some("m1"), MessageRole::Assistant, "hi"),
        msg("m3", Some("m2"), MessageRole::Developer, "next"),
        compaction("ce1", "m1", "m2", "greeting"),
        msg("m4", Some("m3"), MessageRole::Assistant, "answer"),
    ];

    let path = build_active_path(&entries);

    assert_eq!(path.len(), 3);
    assert_eq!(path[0].role, MessageRole::Summary);
    assert_eq!(body_text(&path[0].body), "greeting");
    assert_eq!(path[1].role, MessageRole::Developer);
    assert_eq!(body_text(&path[1].body), "next");
    assert_eq!(path[2].role, MessageRole::Assistant);
    assert_eq!(body_text(&path[2].body), "answer");
}

#[test]
fn active_path_compaction_summary_at_beginning() {
    let entries = vec![
        msg("m1", None, MessageRole::Developer, "first"),
        msg("m2", Some("m1"), MessageRole::Assistant, "second"),
        compaction("ce1", "m1", "m2", "summary"),
        msg("m3", Some("m2"), MessageRole::Developer, "third"),
    ];

    let path = build_active_path(&entries);

    assert_eq!(path.len(), 2);
    assert_eq!(path[0].role, MessageRole::Summary);
    assert_eq!(body_text(&path[0].body), "summary");
    assert_eq!(path[1].role, MessageRole::Developer);
    assert_eq!(body_text(&path[1].body), "third");
}

#[test]
fn active_path_with_multiple_compactions_reconstructs_correctly() {
    let entries = vec![
        msg("m1", None, MessageRole::Developer, "a"),
        msg("m2", Some("m1"), MessageRole::Assistant, "b"),
        compaction("ce1", "m1", "m2", "ab"),
        msg("m3", Some("m2"), MessageRole::Developer, "c"),
        msg("m4", Some("m3"), MessageRole::Assistant, "d"),
        compaction("ce2", "m3", "m4", "cd"),
        msg("m5", Some("m4"), MessageRole::Developer, "e"),
    ];

    let path = build_active_path(&entries);

    assert_eq!(path.len(), 3);
    assert_eq!(body_text(&path[0].body), "ab");
    assert_eq!(body_text(&path[1].body), "cd");
    assert_eq!(body_text(&path[2].body), "e");
}

#[test]
fn skill_activated_entry_becomes_synthetic_developer_message_in_position() {
    let entries = vec![
        msg("m1", None, MessageRole::Developer, "hello"),
        skill("review", "Review carefully."),
        msg("m2", Some("m1"), MessageRole::Developer, "next"),
    ];

    let path = build_active_path(&entries);

    assert_eq!(path.len(), 3);
    assert_eq!(body_text(&path[0].body), "hello");
    assert_eq!(path[1].role, MessageRole::Developer);
    assert!(body_text(&path[1].body).contains("Skill `review` has been activated"));
    assert!(body_text(&path[1].body).contains("Review carefully."));
    assert_eq!(body_text(&path[2].body), "next");
}

#[test]
fn repeated_skill_activation_keeps_latest_snapshot_only() {
    let entries = vec![
        msg("m1", None, MessageRole::Developer, "hello"),
        skill("review", "First version."),
        msg("m2", Some("m1"), MessageRole::Developer, "next"),
        skill("review", "Updated version."),
    ];

    let path = build_active_path(&entries);

    let skill_messages: Vec<_> = path
        .iter()
        .filter(|message| body_text(&message.body).contains("Skill `review`"))
        .collect();
    assert_eq!(skill_messages.len(), 1);
    assert!(body_text(&skill_messages[0].body).contains("Updated version."));
    assert!(!body_text(&skill_messages[0].body).contains("First version."));
}

#[test]
fn activate_skill_tool_result_is_replaced_with_pointer() {
    let full_content = r#"{"name":"review","description":"d","content":"Review carefully."}"#;
    let entries = vec![
        msg("m1", None, MessageRole::Developer, "hello"),
        tool_call_msg(
            "m2",
            Some("m1"),
            "call-1",
            "activate_skill",
            r#"{"name":"review"}"#,
        ),
        tool_result_msg("m3", Some("m2"), "call-1", full_content),
        skill("review", "Review carefully."),
    ];

    let path = build_active_path(&entries);

    assert_eq!(path.len(), 4);
    assert_eq!(path[2].role, MessageRole::Tool);
    assert_eq!(path[2].tool_call_id, Some("call-1".into()));
    assert!(body_text(&path[2].body).contains("Skill `review` activated"));
    assert!(!body_text(&path[2].body).contains("Review carefully."));
    let occurrences = path
        .iter()
        .filter(|message| body_text(&message.body).contains("Review carefully."))
        .count();
    assert_eq!(occurrences, 1);
}

#[test]
fn activate_skill_tool_result_without_activation_record_keeps_original_body() {
    let entries = vec![
        msg("m1", None, MessageRole::Developer, "hello"),
        tool_call_msg(
            "m2",
            Some("m1"),
            "call-1",
            "activate_skill",
            r#"{"name":"missing"}"#,
        ),
        tool_result_msg("m3", Some("m2"), "call-1", "error: skill not found"),
    ];

    let path = build_active_path(&entries);

    assert_eq!(path.len(), 3);
    assert_eq!(body_text(&path[2].body), "error: skill not found");
}

#[test]
fn skill_content_survives_compaction_of_surrounding_messages() {
    let entries = vec![
        msg("m1", None, MessageRole::Developer, "hello"),
        skill("review", "Review carefully."),
        msg("m2", Some("m1"), MessageRole::Assistant, "hi"),
        msg("m3", Some("m2"), MessageRole::Developer, "next"),
        msg("m4", Some("m3"), MessageRole::Assistant, "answer"),
        compaction("ce1", "m1", "m4", "everything so far"),
    ];

    let path = build_active_path(&entries);

    let skill_messages: Vec<_> = path
        .iter()
        .filter(|message| body_text(&message.body).contains("Review carefully."))
        .collect();
    assert_eq!(skill_messages.len(), 1);
}

#[test]
fn arguments_that_are_no_json_name_no_skill() {
    let entries = vec![
        tool_call_msg("m1", None, "call-1", "activate_skill", "{\"name\":"),
        tool_result_msg("m2", Some("m1"), "call-1", "full result"),
        skill("review", "Review carefully."),
    ];

    let path = build_active_path(&entries);

    assert_eq!(path.len(), 3);
    assert_eq!(body_text(&path[1].body), "full result");
}

#[test]
fn history_nodes_keep_message_ids() {
    let entries = vec![
        msg("m1", None, MessageRole::Developer, "a"),
        msg("m2", Some("m1"), MessageRole::Assistant, "b"),
        compaction("ce1", "m1", "m1", "sum"),
    ];

    let history = build_active_history(&entries);

    assert_eq!(history.len(), 2);
    assert_eq!(history[0].role, MessageRole::Summary);
    assert_eq!(history[1].id, "m2");
}

#[test]
fn a_skill_comes_before_the_summary_of_the_same_place() {
    let entries = vec![
        msg("m1", None, MessageRole::Developer, "hello"),
        skill("review", "R"),
        msg("m2", Some("m1"), MessageRole::Developer, "next"),
        compaction("c1", "m2", "m2", "s"),
    ];
    let path = build_active_path(&entries);
    let told: Vec<(MessageRole, &str)> = path
        .iter()
        .map(|message| (message.role, body_text(&message.body)))
        .collect();
    assert_eq!(
        told,
        vec![
            (MessageRole::Developer, "hello"),
            (
                MessageRole::Developer,
                "Skill `review` has been activated. Follow these instructions:\n\nR"
            ),
            (MessageRole::Summary, "s"),
        ]
    );
}

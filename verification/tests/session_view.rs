use byte::protocol::session::{
    CompactionEntry, CompactionRange, Message, MessageBlock, MessageBody, SessionEntry,
};
use byte::protocol::{ActivatedSkill, MessageRole, PROTOCOL_VERSION};
use byte::runtime::session_view_repository::{
    InstructionFile, SessionViewError, SessionViewRepository,
};
use byte::session_store::{SessionError, SessionStore};

fn message_text(message: &Message) -> &str {
    match &message.body.0[..] {
        [MessageBlock::Text { text }] => text.as_str(),
        _ => "",
    }
}

#[test]
fn build_view_includes_compaction_entry_as_summary() {
    let m1 = Message {
        id: "msg-1".into(),
        parent_id: None,
        role: MessageRole::Developer,
        tool_call_id: None,
        body: MessageBody::text("hello"),
    };
    let m2 = Message {
        id: "msg-2".into(),
        parent_id: Some("msg-1".into()),
        role: MessageRole::Assistant,
        tool_call_id: None,
        body: MessageBody::text("hi"),
    };
    let m3 = Message {
        id: "msg-3".into(),
        parent_id: Some("msg-2".into()),
        role: MessageRole::Developer,
        tool_call_id: None,
        body: MessageBody::text("next"),
    };
    let ce = CompactionEntry {
        id: "ce-1".into(),
        role: MessageRole::Summary,
        summary: "greeting exchange".into(),
        compacted_range: CompactionRange {
            first_message_id: "msg-1".into(),
            last_message_id: "msg-2".into(),
        },
        created_at: "2026-01-01T00:00:00Z".into(),
        run_id: "run-1".into(),
    };

    let entries = vec![
        SessionEntry::Session {
            version: PROTOCOL_VERSION,
            id: "session-1".into(),
            workspace: "/workspace".into(),
            created_at: "2026-01-01T00:00:00Z".into(),
        },
        SessionEntry::Message(m1),
        SessionEntry::Message(m2),
        SessionEntry::CompactionEntry(ce),
        SessionEntry::Message(m3),
    ];

    let view = SessionViewRepository::build_view(entries, "session-1", None, None)
        .expect("build view");

    assert_eq!(view.messages.len(), 2);
    assert!(
        view.messages
            .iter()
            .any(|m| m.role == MessageRole::Summary && m.id == "ce-1")
    );
    let summary = view
        .messages
        .iter()
        .find(|m| m.role == MessageRole::Summary)
        .expect("summary present");
    assert_eq!(summary.body, MessageBody::text("greeting exchange"));
    assert_eq!(summary.parent_id, None);

    let last = view
        .messages
        .iter()
        .find(|m| m.id == "msg-3")
        .expect("msg-3 present");
    assert_eq!(last.parent_id, Some("msg-2".into()));
}

#[test]
fn build_view_reconstructs_active_path() {
    let entries = vec![
        SessionEntry::Session {
            version: PROTOCOL_VERSION,
            id: "session-1".into(),
            workspace: "/workspace".into(),
            created_at: "2026-01-01T00:00:00Z".into(),
        },
        SessionEntry::Message(Message {
            id: "msg-1".into(),
            parent_id: None,
            role: MessageRole::Developer,
            tool_call_id: None,
            body: MessageBody::text("hello"),
        }),
        SessionEntry::Message(Message {
            id: "msg-2".into(),
            parent_id: Some("msg-1".into()),
            role: MessageRole::Assistant,
            tool_call_id: None,
            body: MessageBody::text("hi"),
        }),
    ];

    let view = SessionViewRepository::build_view(entries, "session-1", None, None)
        .expect("build view");

    assert_eq!(view.session_id, "session-1");
    assert_eq!(view.workspace, "/workspace");
    assert_eq!(view.messages.len(), 2);
    assert_eq!(view.messages[0].id, "msg-1");
    assert_eq!(view.messages[0].role, MessageRole::Developer);
    assert_eq!(message_text(&view.messages[0]), "hello");
    assert_eq!(view.messages[1].id, "msg-2");
    assert_eq!(view.messages[1].parent_id, Some("msg-1".into()));
    assert_eq!(view.messages[1].role, MessageRole::Assistant);
    assert_eq!(message_text(&view.messages[1]), "hi");
}

#[test]
fn build_view_preserves_tool_message() {
    let entries = vec![
        SessionEntry::Session {
            version: PROTOCOL_VERSION,
            id: "session-1".into(),
            workspace: "/workspace".into(),
            created_at: "2026-01-01T00:00:00Z".into(),
        },
        SessionEntry::Message(Message {
            id: "msg-1".into(),
            parent_id: None,
            role: MessageRole::Developer,
            tool_call_id: None,
            body: MessageBody::text("read main.rs"),
        }),
        SessionEntry::Message(Message {
            id: "msg-2".into(),
            parent_id: Some("msg-1".into()),
            role: MessageRole::Assistant,
            tool_call_id: None,
            body: MessageBody::text(""),
        }),
        SessionEntry::Message(Message {
            id: "msg-3".into(),
            parent_id: Some("msg-2".into()),
            role: MessageRole::Tool,
            tool_call_id: Some("tc-1".into()),
            body: MessageBody::text("fn main() {}"),
        }),
    ];

    let view = SessionViewRepository::build_view(entries, "session-1", None, None)
        .expect("build view");

    assert_eq!(view.messages.len(), 3);
    assert_eq!(view.messages[0].role, MessageRole::Developer);
    assert_eq!(view.messages[1].role, MessageRole::Assistant);
    assert_eq!(view.messages[2].role, MessageRole::Tool);
    assert_eq!(view.messages[2].tool_call_id, Some("tc-1".into()));
    assert_eq!(message_text(&view.messages[2]), "fn main() {}");
}

#[test]
fn build_view_reconstructs_summary_on_active_path() {
    let entries = vec![
        SessionEntry::Session {
            version: PROTOCOL_VERSION,
            id: "session-1".into(),
            workspace: "/workspace".into(),
            created_at: "2026-01-01T00:00:00Z".into(),
        },
        SessionEntry::Message(Message {
            id: "msg-1".into(),
            parent_id: None,
            role: MessageRole::Developer,
            tool_call_id: None,
            body: MessageBody::text("hello"),
        }),
        SessionEntry::Message(Message {
            id: "msg-2".into(),
            parent_id: Some("msg-1".into()),
            role: MessageRole::Assistant,
            tool_call_id: None,
            body: MessageBody::text("hi"),
        }),
        SessionEntry::Message(Message {
            id: "summary-1".into(),
            parent_id: Some("msg-2".into()),
            role: MessageRole::Summary,
            tool_call_id: None,
            body: MessageBody::text("assistant message compacted"),
        }),
    ];

    let view = SessionViewRepository::build_view(entries, "session-1", None, None)
        .expect("build view");

    assert_eq!(view.messages.len(), 3);
    let summary_message = view
        .messages
        .iter()
        .find(|m| m.id == "summary-1")
        .expect("summary message present");
    assert_eq!(summary_message.parent_id, Some("msg-2".into()));
    assert_eq!(summary_message.role, MessageRole::Summary);
    assert_eq!(
        summary_message.body,
        MessageBody::text("assistant message compacted")
    );
}

#[test]
fn build_view_missing_header_returns_error() {
    let entries = vec![SessionEntry::Message(Message {
        id: "msg-1".into(),
        parent_id: None,
        role: MessageRole::Developer,
        tool_call_id: None,
        body: MessageBody::text("hello"),
    })];

    let err = SessionViewRepository::build_view(entries, "session-1", None, None)
        .expect_err("missing header should fail");

    assert!(
        matches!(err, SessionViewError::MissingHeader { session_id } if session_id == "session-1")
    );
}

#[test]
fn build_view_with_broken_parent_chain_still_includes_messages() {
    let entries = vec![
        SessionEntry::Session {
            version: PROTOCOL_VERSION,
            id: "session-1".into(),
            workspace: "/workspace".into(),
            created_at: "2026-01-01T00:00:00Z".into(),
        },
        SessionEntry::Message(Message {
            id: "msg-1".into(),
            parent_id: Some("missing".into()),
            role: MessageRole::Developer,
            tool_call_id: None,
            body: MessageBody::text("hello"),
        }),
    ];

    let view = SessionViewRepository::build_view(entries, "session-1", None, None)
        .expect("build view");

    assert_eq!(view.messages.len(), 1);
    assert_eq!(view.messages[0].id, "msg-1");
}

#[test]
fn build_view_includes_workspace_instructions() {
    let entries = vec![SessionEntry::Session {
        version: PROTOCOL_VERSION,
        id: "session-1".into(),
        workspace: "/workspace".into(),
        created_at: "2026-01-01T00:00:00Z".into(),
    }];

    let view = SessionViewRepository::build_view(
        entries,
        "session-1",
        Some("Always use Rust.\n".into()),
        None,
    )
    .expect("build view");

    assert_eq!(
        view.workspace_instructions.as_deref(),
        Some("Always use Rust.\n")
    );
    assert_eq!(view.workspace_instructions_error, None);
}

#[test]
fn build_view_reloads_session_with_multiple_compaction_entries() {
    let m1 = Message {
        id: "msg-1".into(),
        parent_id: None,
        role: MessageRole::Developer,
        tool_call_id: None,
        body: MessageBody::text("first"),
    };
    let m2 = Message {
        id: "msg-2".into(),
        parent_id: Some("msg-1".into()),
        role: MessageRole::Assistant,
        tool_call_id: None,
        body: MessageBody::text("second"),
    };
    let m3 = Message {
        id: "msg-3".into(),
        parent_id: Some("msg-2".into()),
        role: MessageRole::Developer,
        tool_call_id: None,
        body: MessageBody::text("third"),
    };
    let m4 = Message {
        id: "msg-4".into(),
        parent_id: Some("msg-3".into()),
        role: MessageRole::Assistant,
        tool_call_id: None,
        body: MessageBody::text("fourth"),
    };
    let m5 = Message {
        id: "msg-5".into(),
        parent_id: Some("msg-4".into()),
        role: MessageRole::Developer,
        tool_call_id: None,
        body: MessageBody::text("recent"),
    };
    let ce1 = CompactionEntry {
        id: "ce-1".into(),
        role: MessageRole::Summary,
        summary: "first block".into(),
        compacted_range: CompactionRange {
            first_message_id: "msg-1".into(),
            last_message_id: "msg-2".into(),
        },
        created_at: "2026-01-01T00:00:00Z".into(),
        run_id: "run-1".into(),
    };
    let ce2 = CompactionEntry {
        id: "ce-2".into(),
        role: MessageRole::Summary,
        summary: "second block".into(),
        compacted_range: CompactionRange {
            first_message_id: "msg-3".into(),
            last_message_id: "msg-4".into(),
        },
        created_at: "2026-01-01T00:00:00Z".into(),
        run_id: "run-1".into(),
    };

    let entries = vec![
        SessionEntry::Session {
            version: PROTOCOL_VERSION,
            id: "session-1".into(),
            workspace: "/workspace".into(),
            created_at: "2026-01-01T00:00:00Z".into(),
        },
        SessionEntry::Message(m1),
        SessionEntry::Message(m2),
        SessionEntry::CompactionEntry(ce1),
        SessionEntry::Message(m3),
        SessionEntry::Message(m4),
        SessionEntry::CompactionEntry(ce2),
        SessionEntry::Message(m5),
    ];

    let view = SessionViewRepository::build_view(entries, "session-1", None, None)
        .expect("build view");

    assert_eq!(view.messages.len(), 3, "two summaries + recent message");
    assert_eq!(view.messages[0].id, "ce-1");
    assert_eq!(view.messages[0].role, MessageRole::Summary);
    assert_eq!(message_text(&view.messages[0]), "first block");
    assert_eq!(view.messages[1].id, "ce-2");
    assert_eq!(view.messages[1].role, MessageRole::Summary);
    assert_eq!(message_text(&view.messages[1]), "second block");
    assert_eq!(view.messages[2].id, "msg-5");
    assert_eq!(view.messages[2].role, MessageRole::Developer);
    assert_eq!(message_text(&view.messages[2]), "recent");
}

#[test]
fn build_view_backward_compatible_without_compaction_entries() {
    let entries = vec![
        SessionEntry::Session {
            version: PROTOCOL_VERSION,
            id: "session-1".into(),
            workspace: "/workspace".into(),
            created_at: "2026-01-01T00:00:00Z".into(),
        },
        SessionEntry::Message(Message {
            id: "msg-1".into(),
            parent_id: None,
            role: MessageRole::Developer,
            tool_call_id: None,
            body: MessageBody::text("hello"),
        }),
        SessionEntry::Message(Message {
            id: "msg-2".into(),
            parent_id: Some("msg-1".into()),
            role: MessageRole::Assistant,
            tool_call_id: None,
            body: MessageBody::text("hi"),
        }),
        SessionEntry::SkillActivated(ActivatedSkill {
            name: "read_file".into(),
            content: String::new(),
        }),
    ];

    let view = SessionViewRepository::build_view(entries, "session-1", None, None)
        .expect("build view");

    assert_eq!(view.messages.len(), 2);
    assert_eq!(view.messages[0].id, "msg-1");
    assert_eq!(view.messages[1].id, "msg-2");
}

fn header(workspace: &str) -> SessionEntry {
    SessionEntry::Session {
        version: PROTOCOL_VERSION,
        id: "session-1".into(),
        workspace: workspace.into(),
        created_at: "0.000Z".into(),
    }
}

#[test]
fn load_session_reads_agents_md() {
    let view = SessionViewRepository::load_session(
        "session-1",
        Ok(vec![header("/w")]),
        InstructionFile::Content("Always use Rust.\n".into()),
    )
    .expect("load session");

    assert_eq!(view.workspace, "/w");
    assert_eq!(
        view.workspace_instructions.as_deref(),
        Some("Always use Rust.\n")
    );
    assert_eq!(view.workspace_instructions_error, None);
}

#[test]
fn load_session_reports_error_when_agents_md_is_unreadable() {
    let view = SessionViewRepository::load_session(
        "session-1",
        Ok(vec![header("/w")]),
        InstructionFile::Unreadable("denied".into()),
    )
    .expect("load session");

    assert_eq!(view.workspace_instructions, None);
    assert!(view.workspace_instructions_error.is_some());
}

#[test]
fn load_session_missing_session_returns_store_error() {
    let err = SessionViewRepository::load_session(
        "missing",
        Err(SessionError::NotFound("missing".into())),
        InstructionFile::Missing,
    )
    .expect_err("missing session should fail");

    assert!(
        matches!(err, SessionViewError::Store(SessionError::NotFound(id)) if id == "missing")
    );
}

#[test]
fn build_view_original_messages_remain_after_compaction() {
    let store = SessionStore::new("/sessions").expect("store creates");
    let mut entries = vec![
        store
            .new_session("session-1", "/workspace", 1, 0)
            .expect("new session")
            .entry,
    ];
    let mut ids: Vec<String> = Vec::new();
    for (role, text) in [
        (MessageRole::Developer, "hello"),
        (MessageRole::Assistant, "hi"),
        (MessageRole::Developer, "next"),
        (MessageRole::Assistant, "answer"),
    ] {
        let append = store
            .append_message(
                "session-1",
                None,
                ids.last().cloned(),
                role,
                MessageBody::text(text),
                None,
            )
            .expect("append message");
        match &append.entry {
            SessionEntry::Message(message) => ids.push(message.id.clone()),
            _ => panic!("a message is appended"),
        }
        entries.push(append.entry);
    }
    let compaction = store
        .append_compaction_entry(
            "session-1",
            CompactionEntry {
                id: "ce-1".into(),
                role: MessageRole::Summary,
                summary: "greeting exchange".into(),
                compacted_range: CompactionRange {
                    first_message_id: ids[0].clone(),
                    last_message_id: ids[1].clone(),
                },
                created_at: "2026-01-01T00:00:00Z".into(),
                run_id: "run-1".into(),
            },
        )
        .expect("append compaction");
    entries.push(compaction.entry);

    let persisted: Vec<String> = entries
        .iter()
        .filter_map(|entry| match entry {
            SessionEntry::Message(message) => Some(message.id.clone()),
            _ => None,
        })
        .collect();
    assert_eq!(persisted, ids);

    let view =
        SessionViewRepository::load_session("session-1", Ok(entries), InstructionFile::Missing)
            .expect("load session");
    assert_eq!(view.messages.len(), 3, "summary + m3 + m4");
    assert_eq!(view.messages[0].id, "ce-1");
    assert_eq!(view.messages[0].role, MessageRole::Summary);
    assert_eq!(view.messages[1].id, ids[2]);
    assert_eq!(view.messages[2].id, ids[3]);
    assert_eq!(view.messages[2].parent_id, Some(ids[2].clone()));
}

use byte::ids::now_epoch_millis;
use byte::protocol::session::{
    CompactionEntry, CompactionRange, Message, MessageBody, SessionEntry,
};
use byte::protocol::{ActivatedSkill, MessageRole, PROTOCOL_VERSION};
use byte::session_store::listing::{list_sessions, session_name, SessionFile};
use byte::session_store::persistence::{decode_session_entries, read_records};
use byte::session_store::tree::Node;
use byte::session_store::{
    default_base_dir, read_session_header, FileOutcome, SessionError, SessionStore,
    MAX_SESSION_FILE_SIZE,
};

fn store() -> SessionStore {
    SessionStore::new("/data/sessions").expect("store creates")
}

fn sample_compaction_entry() -> CompactionEntry {
    CompactionEntry {
        id: "ce-1".into(),
        role: MessageRole::Summary,
        summary: "summary".into(),
        compacted_range: CompactionRange {
            first_message_id: "msg-1".into(),
            last_message_id: "msg-3".into(),
        },
        created_at: "2026-07-16T10:00:00Z".into(),
        run_id: "run-1".into(),
    }
}

#[test]
fn node_from_compaction_entry_roundtrips() {
    let entry = sample_compaction_entry();
    let node = Node::from_entry(SessionEntry::CompactionEntry(entry.clone()))
        .expect("compaction entry converts to node");
    let roundtripped = node.into_entry().expect("node converts back to entry");
    assert_eq!(roundtripped, SessionEntry::CompactionEntry(entry));
}

#[test]
fn node_id_returns_compaction_entry_id() {
    let entry = sample_compaction_entry();
    let node = Node::from_entry(SessionEntry::CompactionEntry(entry)).unwrap();
    assert_eq!(node.id(), Some("ce-1"));
}

#[test]
fn node_id_of_other_nodes() {
    let skill = Node::from_entry(SessionEntry::SkillActivated(ActivatedSkill {
        name: "review".into(),
        content: "c".into(),
    }))
    .unwrap();
    assert_eq!(skill.id(), None);
    let header = Node::from_entry(SessionEntry::Session {
        version: 1,
        id: "s1".into(),
        workspace: "/w".into(),
        created_at: "t".into(),
    })
    .unwrap();
    assert_eq!(header.id(), Some("s1"));
}

#[test]
fn rejects_path_traversal_session_id() {
    let store = store();
    assert!(store.session_path("../escape").is_err());
    assert!(store.session_path("foo/bar").is_err());
}

#[test]
fn session_ids_are_checked() {
    let store = store();
    assert_eq!(
        store.session_path("s1").unwrap(),
        "/data/sessions/s1.jsonl"
    );
    assert_eq!(
        store.session_path("").unwrap_err(),
        SessionError::InvalidSessionId("session id must not be empty".into())
    );
    assert!(store.session_path(&"a".repeat(128)).is_ok());
    assert_eq!(
        store.session_path(&"a".repeat(129)).unwrap_err(),
        SessionError::InvalidSessionId("session id must be 128 characters or fewer".into())
    );
    assert_eq!(
        store.session_path("a\\b").unwrap_err(),
        SessionError::InvalidSessionId("a\\b".into())
    );
    assert_eq!(
        store.session_path(".hidden").unwrap_err(),
        SessionError::InvalidSessionId("session id must not start with a dot".into())
    );
    for id in ["a\u{7f}", "a\nb", "a\u{80}b", "a\u{85}b", "a\u{9f}"] {
        assert_eq!(
            store.session_path(id).unwrap_err(),
            SessionError::InvalidSessionId("session id contains control characters".into())
        );
    }
    assert!(store.session_path("a\u{a0}b").is_ok());
}

#[test]
fn a_store_needs_an_absolute_directory() {
    assert_eq!(
        SessionStore::new("relative").unwrap_err(),
        SessionError::InvalidDirectory("session base dir must be absolute".into())
    );
    assert_eq!(
        SessionStore::with_default_dir(None, Some("/home/u"))
            .unwrap()
            .directory(),
        "/home/u/.local/share/byte/sessions"
    );
    assert!(SessionStore::with_default_dir(None, None).is_err());
    assert_eq!(
        default_base_dir(Some("/xdg"), Some("/home/u")),
        "/xdg/byte/sessions"
    );
}

#[test]
fn errors_tell_their_cause() {
    assert_eq!(
        SessionError::NotFound("s".into()).message(),
        "session not found: s"
    );
    assert_eq!(
        SessionError::Read("io".into()).message(),
        "failed to read session file: io"
    );
}

#[test]
fn new_session_writes_header() {
    let append = store()
        .new_session("session-1", "/workspace", 1700000000, 42)
        .expect("new session");
    assert_eq!(append.path, "/data/sessions/session-1.jsonl");
    assert_eq!(
        append.entry,
        SessionEntry::Session {
            version: PROTOCOL_VERSION,
            id: "session-1".into(),
            workspace: "/workspace".into(),
            created_at: "1700000000.042Z".into(),
        }
    );
}

#[test]
fn new_session_is_idempotent() {
    assert_eq!(SessionStore::session_created(FileOutcome::Done), Ok(()));
    assert_eq!(
        SessionStore::session_created(FileOutcome::AlreadyExists("exists".into())),
        Ok(())
    );
    assert_eq!(
        SessionStore::session_created(FileOutcome::Failed("denied".into())),
        Err(SessionError::Read("denied".into()))
    );
}

#[test]
fn delete_session_is_idempotent() {
    assert_eq!(SessionStore::session_deleted(FileOutcome::Done), Ok(()));
    assert_eq!(
        SessionStore::session_deleted(FileOutcome::NotFound("gone".into())),
        Ok(())
    );
    assert_eq!(
        SessionStore::session_deleted(FileOutcome::Failed("denied".into())),
        Err(SessionError::Read("denied".into()))
    );
}

#[test]
fn append_message_creates_entry_with_parent() {
    let store = store();
    let first = store
        .append_message(
            "session-1",
            None,
            None,
            MessageRole::Developer,
            MessageBody::text("hello"),
            None,
        )
        .expect("append first");
    let first_id = match &first.entry {
        SessionEntry::Message(message) => message.id.clone(),
        _ => panic!("a message is appended"),
    };
    assert_eq!(first_id.len(), 36);
    assert_eq!(first_id.as_bytes()[14], b'4');

    let second = store
        .append_message(
            "session-1",
            None,
            Some(first_id.clone()),
            MessageRole::Assistant,
            MessageBody::text("hi"),
            None,
        )
        .expect("append second");
    match &second.entry {
        SessionEntry::Message(Message {
            id,
            parent_id,
            role,
            tool_call_id,
            body,
        }) => {
            assert_ne!(id, &first_id);
            assert_eq!(parent_id, &Some(first_id));
            assert_eq!(*role, MessageRole::Assistant);
            assert_eq!(tool_call_id, &None);
            assert_eq!(body, &MessageBody::text("hi"));
        }
        _ => panic!("a message is appended"),
    }

    let given = store
        .append_message(
            "session-1",
            Some("m1".into()),
            None,
            MessageRole::Tool,
            MessageBody::text("out"),
            Some("call-1".into()),
        )
        .unwrap();
    assert!(matches!(
        &given.entry,
        SessionEntry::Message(message)
            if message.id == "m1" && message.tool_call_id.as_deref() == Some("call-1")
    ));
}

#[test]
fn append_skill_activation_writes_skill_entry() {
    let append = store()
        .append_skill_activation("session-1", "review", "Review carefully.")
        .expect("append skill activation");
    assert_eq!(
        append.entry,
        SessionEntry::SkillActivated(ActivatedSkill {
            name: "review".into(),
            content: "Review carefully.".into(),
        })
    );
}

#[test]
fn compaction_entry_roundtrips_through_store() {
    let append = store()
        .append_compaction_entry("s1", sample_compaction_entry())
        .expect("append compaction entry");
    assert_eq!(append.path, "/data/sessions/s1.jsonl");
    assert_eq!(
        append.entry,
        SessionEntry::CompactionEntry(sample_compaction_entry())
    );
}

#[test]
fn read_entries_missing_session_returns_not_found() {
    assert_eq!(
        store().read_entries("missing", None),
        Err(SessionError::NotFound("missing".into()))
    );
}

#[test]
fn read_entries_rejects_oversized_file() {
    let store = store();
    assert_eq!(MAX_SESSION_FILE_SIZE, 64 * 1024 * 1024);
    assert_eq!(
        store.read_entries("s1", Some(MAX_SESSION_FILE_SIZE)),
        Ok("/data/sessions/s1.jsonl".to_string())
    );
    assert_eq!(
        store.read_entries("s1", Some(MAX_SESSION_FILE_SIZE + 1)),
        Err(SessionError::Read(
            "session file /data/sessions/s1.jsonl exceeds 67108864 byte limit".into()
        ))
    );
}

fn session_file(name: &str, id: &str, created_at: &str) -> SessionFile {
    SessionFile {
        name: name.into(),
        is_file: true,
        header: Some(SessionEntry::Session {
            version: 1,
            id: id.into(),
            workspace: format!("/workspace/{}", id),
            created_at: created_at.into(),
        }),
    }
}

#[test]
fn list_sessions_returns_summaries_in_descending_created_order() {
    let summaries = list_sessions(vec![
        session_file("session-a.jsonl", "session-a", "1.000Z"),
        session_file("session-b.jsonl", "session-b", "2.000Z"),
    ]);

    assert_eq!(summaries.len(), 2);
    assert_eq!(summaries[0].session_id, "session-b");
    assert_eq!(summaries[0].workspace, "/workspace/session-b");
    assert_eq!(summaries[1].session_id, "session-a");
    assert_eq!(summaries[1].workspace, "/workspace/session-a");
}

#[test]
fn only_session_files_are_listed() {
    let mut directory = session_file("d.jsonl", "d", "1");
    directory.is_file = false;
    let mut headless = session_file("h.jsonl", "h", "1");
    headless.header = None;
    let mut skill = session_file("k.jsonl", "k", "1");
    skill.header = Some(SessionEntry::SkillActivated(ActivatedSkill {
        name: "n".into(),
        content: "c".into(),
    }));
    let summaries = list_sessions(vec![
        session_file("notes.txt", "notes", "1"),
        session_file("other.jsonl", "renamed", "1"),
        directory,
        headless,
        skill,
        session_file("x.jsonl", "x", "1"),
        session_file("y.jsonl", "y", "1"),
    ]);
    let ids: Vec<_> = summaries.iter().map(|s| s.session_id.as_str()).collect();
    assert_eq!(ids, vec!["x", "y"]);
    assert_eq!(session_name(".jsonl"), None);
    assert_eq!(session_name("a.b.jsonl"), Some("a.b".to_string()));
}

#[test]
fn a_session_file_has_a_header() {
    assert_eq!(
        read_session_header("/d/s.jsonl", Some("{}\r".into())),
        Ok("{}".to_string())
    );
    assert_eq!(
        read_session_header("/d/s.jsonl", None),
        Err(SessionError::Read(
            "session file /d/s.jsonl is missing its header".into()
        ))
    );
}

const SESSION: &str =
    r#"{"type":"session","version":8,"id":"s1","workspace":"/w","created_at":"t"}"#;
const MESSAGE: &str = r#"{"type":"message","id":"m1","parentId":null,"role":"developer","body":[{"type":"text","text":"hi"}]}"#;
const UNKNOWN: &str = r#"{"type":"future_variant","id":"x"}"#;
const COMPACTION: &str = r#"{"type":"compaction_entry","id":"ce-1","role":"summary","summary":"...","compactedRange":{"firstMessageId":"m1","lastMessageId":"m1"},"createdAt":"t","runId":"r1"}"#;

#[test]
fn decodes_known_entries_and_skips_unknown_variant() {
    let input = format!("{}\n{}\n{}\n{}\n", SESSION, MESSAGE, UNKNOWN, COMPACTION);

    let read = read_records(&input);
    assert_eq!(read.broken, None);
    assert_eq!(read.records, vec![SESSION, MESSAGE, COMPACTION]);
}

#[test]
fn backward_compatible_load_without_compaction_entries() {
    let input = format!("{}\n{}\n", SESSION, MESSAGE);

    let read = read_records(&input);
    assert_eq!(read.broken, None);
    assert_eq!(read.records.len(), 2);
    assert!(read
        .records
        .iter()
        .all(|record| !record.contains("compaction_entry")));
}

#[test]
fn a_line_that_is_no_json_ends_the_records() {
    let read = read_records(&format!("{}\n\n  \n{{oops\n{}\n", SESSION, MESSAGE));
    assert_eq!(read.records, vec![SESSION]);
    assert!(read.broken.is_some());
}

#[test]
fn the_first_error_of_a_file_counts() {
    let entry = || SessionEntry::CompactionEntry(sample_compaction_entry());
    assert_eq!(
        decode_session_entries(vec![Ok(entry())], None),
        Ok(vec![entry()])
    );
    assert_eq!(
        decode_session_entries(vec![Ok(entry()), Err("bad".into())], Some("worse".into())),
        Err(SessionError::Serialize("bad".into()))
    );
    assert_eq!(
        decode_session_entries(vec![Ok(entry())], Some("worse".into())),
        Err(SessionError::Serialize("worse".into()))
    );
}

#[test]
fn timestamps_have_three_millisecond_digits() {
    assert_eq!(now_epoch_millis(0, 0), "0.000Z");
    assert_eq!(now_epoch_millis(1700000000, 999), "1700000000.999Z");
    assert_eq!(now_epoch_millis(u64::MAX, 5), "18446744073709551615.005Z");
}

#[test]
fn a_generated_id_names_a_session() {
    let store = store();
    let append = store
        .append_message(
            "s",
            None,
            None,
            MessageRole::Developer,
            MessageBody::text(""),
            None,
        )
        .unwrap();
    if let SessionEntry::Message(message) = append.entry {
        assert!(store.session_path(&message.id).is_ok());
    }
}

#[test]
fn old_session_without_compaction_entries_loads_successfully() {
    let store = store();
    let entries = decode_session_entries(
        vec![
            Ok(store.new_session("s1", "/workspace", 1, 0).unwrap().entry),
            Ok(store
                .append_message(
                    "s1",
                    Some("m1".into()),
                    None,
                    MessageRole::Developer,
                    MessageBody::text("hello"),
                    None,
                )
                .unwrap()
                .entry),
        ],
        None,
    )
    .unwrap();
    assert_eq!(entries.len(), 2);
    assert!(matches!(&entries[0], SessionEntry::Session { id, .. } if id == "s1"));
    assert!(matches!(&entries[1], SessionEntry::Message(message) if message.id == "m1"));
}

#[test]
fn unknown_session_entry_variant_is_ignored() {
    let mut input = format!("{}\n{}\n", SESSION, MESSAGE);
    input.push_str("{\"type\":\"future_variant\",\"id\":\"x\"}\n");
    let read = read_records(&input);
    assert_eq!(read.records, vec![SESSION, MESSAGE]);
    assert_eq!(read.broken, None);
}

#[test]
fn delete_session_removes_file() {
    let store = store();
    assert_eq!(SessionStore::session_deleted(FileOutcome::Done), Ok(()));
    assert!(matches!(
        store.read_entries("session-1", None).unwrap_err(),
        SessionError::NotFound(id) if id == "session-1"
    ));
}

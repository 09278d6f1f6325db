//! In-memory tree node representation for a persisted session.

use vstd::prelude::*;

use crate::protocol::session::{CompactionEntry, Message, SessionEntry};
use crate::protocol::ActivatedSkill;

verus! {

/// A single node in a session tree.
#[derive(Debug, PartialEq, Eq)]
pub enum Node {
    /// Session header node.
    SessionHeader {
        /// File format version.
        version: u16,
        /// Session identifier.
        id: String,
        /// Workspace path.
        workspace: String,
        /// Creation timestamp.
        created_at: String,
    },
    /// Message node.
    Message(Message),
    /// Skill activation node.
    SkillActivated(ActivatedSkill),
    /// Compaction summary node.
    CompactionEntry(CompactionEntry),
}

/// The node of a record.
pub open spec fn node_of(entry: SessionEntry) -> Node {
    match entry {
        SessionEntry::Session { version, id, workspace, created_at } => Node::SessionHeader {
            version,
            id,
            workspace,
            created_at,
        },
        SessionEntry::Message(message) => Node::Message(message),
        SessionEntry::SkillActivated(skill) => Node::SkillActivated(skill),
        SessionEntry::CompactionEntry(compaction) => Node::CompactionEntry(compaction),
    }
}

/// The record of a node.
pub open spec fn entry_of(node: Node) -> SessionEntry {
    match node {
        Node::SessionHeader { version, id, workspace, created_at } => SessionEntry::Session {
            version,
            id,
            workspace,
            created_at,
        },
        Node::Message(message) => SessionEntry::Message(message),
        Node::SkillActivated(skill) => SessionEntry::SkillActivated(skill),
        Node::CompactionEntry(compaction) => SessionEntry::CompactionEntry(compaction),
    }
}

/// The identifier of a node, if it has one.
pub open spec fn node_id(node: &Node) -> Option<Seq<char>> {
    match node {
        Node::SessionHeader { id, .. } => Some(id@),
        Node::Message(message) => Some(message.id@),
        Node::SkillActivated(_) => None,
        Node::CompactionEntry(compaction) => Some(compaction.id@),
    }
}

impl Node {
    /// Convert a raw record into a tree node.
    pub fn from_entry(entry: SessionEntry) -> (r: Option<Self>)
        ensures
            r == Some(node_of(entry)),
    {
        match entry {
            SessionEntry::Session { version, id, workspace, created_at } => Some(
                Node::SessionHeader { version, id, workspace, created_at },
            ),
            SessionEntry::Message(message) => Some(Node::Message(message)),
            SessionEntry::SkillActivated(skill) => Some(Node::SkillActivated(skill)),
            SessionEntry::CompactionEntry(compaction) => Some(Node::CompactionEntry(compaction)),
        }
    }

    /// Convert this tree node back into a record.
    pub fn into_entry(self) -> (r: Option<SessionEntry>)
        ensures
            r == Some(entry_of(self)),
    {
        match self {
            Node::SessionHeader { version, id, workspace, created_at } => Some(
                SessionEntry::Session { version, id, workspace, created_at },
            ),
            Node::Message(message) => Some(SessionEntry::Message(message)),
            Node::SkillActivated(skill) => Some(SessionEntry::SkillActivated(skill)),
            Node::CompactionEntry(compaction) => Some(SessionEntry::CompactionEntry(compaction)),
        }
    }

    /// Return the stable identifier of this node, if it has one.
    pub fn id(&self) -> (r: Option<&str>)
        ensures
            match r {
                Some(id) => node_id(self) == Some(id@),
                None => node_id(self) is None,
            },
    {
        match self {
            Node::SessionHeader { id, .. } => Some(id.as_str()),
            Node::Message(message) => Some(message.id.as_str()),
            Node::SkillActivated(_) => None,
            Node::CompactionEntry(compaction) => Some(compaction.id.as_str()),
        }
    }
}

/// A record turned into a node and back is the same record, and the other way round.
pub proof fn law_node_round_trip(entry: SessionEntry, node: Node)
    ensures
        entry_of(node_of(entry)) == entry,
        node_of(entry_of(node)) == node,
{
}

} // verus!

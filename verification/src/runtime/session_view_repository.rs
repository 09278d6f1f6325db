//! Reconstruction of a [`SessionView`] from persisted entries.
//!
//! Separates how session history is persisted from how it is presented: reads raw records
//! and rebuilds the message view, with each compacted block replaced by its summary and
//! with the workspace instructions of `AGENTS.md`.

use std::sync::Arc;

use vstd::hash_set::StringHashSet;
use vstd::prelude::*;

use crate::protocol::session;
use crate::protocol::session::{
    CompactionEntry, CompactionEntryModel, Message, MessageBody, MessageModel, SessionEntry,
    SessionEntryModel, SessionView, SessionViewModel,
};
use crate::protocol::MessageRole;
use crate::runtime::history;
use crate::runtime::history::MessageIndex;
use crate::session_store::{SessionError, SessionStore};
use crate::text;

verus! {

/// Errors that can occur when reconstructing a [`SessionView`].
#[derive(Debug, PartialEq, Eq)]
pub enum SessionViewError {
    /// The session entries do not contain a header for the requested session.
    MissingHeader {
        /// Identifier of the session whose header is missing.
        session_id: String,
    },
    /// The session entries form a broken parent chain.
    BrokenChain {
        /// Identifier of the session with the broken chain.
        session_id: String,
    },
    /// An error originating from the session store.
    Store(SessionError),
}

impl SessionViewError {
    /// The text of the error.
    pub open spec fn spec_message(&self) -> Seq<char> {
        match self {
            SessionViewError::MissingHeader { session_id } => "session "@ + session_id@
                + " has no header"@,
            SessionViewError::BrokenChain { session_id } => "session "@ + session_id@
                + " has a broken parent chain"@,
            SessionViewError::Store(error) => error.spec_message(),
        }
    }

    /// Returns the text of the error.
    pub fn message(&self) -> (r: String)
        ensures
            r@ == self.spec_message(),
    {
        match self {
            SessionViewError::MissingHeader { session_id } => text::concat3(
                "session ",
                session_id,
                " has no header",
            ),
            SessionViewError::BrokenChain { session_id } => text::concat3(
                "session ",
                session_id,
                " has a broken parent chain",
            ),
            SessionViewError::Store(error) => error.message(),
        }
    }
}

/// What was found at the place of the workspace instruction file.
#[derive(Debug, PartialEq, Eq)]
pub enum InstructionFile {
    /// There is no such file.
    Missing,
    /// There is something of that name that is not a file.
    NotAFile,
    /// It could not be read, for the given reason.
    Unreadable(String),
    /// Its content.
    Content(String),
}

/// The workspace path of the first header of session `session_id`.
pub open spec fn header_workspace(
    entries: Seq<SessionEntryModel>,
    session_id: Seq<char>,
) -> Option<Seq<char>>
    decreases entries.len(),
{
    if entries.len() == 0 {
        None
    } else {
        match entries[0] {
            SessionEntryModel::Session { id, workspace, .. } if id == session_id => Some(
                workspace,
            ),
            _ => header_workspace(entries.skip(1), session_id),
        }
    }
}

/// The compaction entries among `entries`, in order.
pub open spec fn compactions_of(entries: Seq<SessionEntryModel>) -> Seq<CompactionEntryModel>
    decreases entries.len(),
{
    if entries.len() == 0 {
        Seq::empty()
    } else {
        let rest = compactions_of(entries.drop_last());
        match entries.last() {
            SessionEntryModel::CompactionEntry(compaction) => rest.push(compaction),
            _ => rest,
        }
    }
}

/// The block of `compaction` begins at position `index`.
pub open spec fn begins_at(
    messages: Seq<MessageModel>,
    compaction: CompactionEntryModel,
    index: int,
) -> bool {
    match history::bounds_of(messages, compaction.compacted_range) {
        Some(bounds) => bounds.0 == index,
        None => false,
    }
}

/// The first compaction entry whose block begins at position `index`.
pub open spec fn block_at(
    messages: Seq<MessageModel>,
    compactions: Seq<CompactionEntryModel>,
    index: int,
) -> Option<CompactionEntryModel>
    decreases compactions.len(),
{
    if compactions.len() == 0 {
        None
    } else if begins_at(messages, compactions[0], index) {
        Some(compactions[0])
    } else {
        block_at(messages, compactions.skip(1), index)
    }
}

pub proof fn lemma_block_at(
    messages: Seq<MessageModel>,
    compactions: Seq<CompactionEntryModel>,
    index: int,
)
    ensures
        block_at(messages, compactions, index) matches Some(compaction) ==> compactions.contains(
            compaction,
        ) && begins_at(messages, compaction, index),
        block_at(messages, compactions, index) is None ==> forall|k: int|
            0 <= k < compactions.len() ==> !begins_at(messages, #[trigger] compactions[k], index),
    decreases compactions.len(),
{
    if compactions.len() > 0 && !begins_at(messages, compactions[0], index) {
        lemma_block_at(messages, compactions.skip(1), index);
        let found = block_at(messages, compactions, index);
        if found is Some {
            let k = choose|k: int|
                0 <= k < compactions.skip(1).len() && compactions.skip(1)[k] == found->0;
            assert(compactions[k + 1] == found->0);
        } else {
            assert forall|k: int| 0 <= k < compactions.len() implies !begins_at(
                messages,
                #[trigger] compactions[k],
                index,
            ) by {
                if k > 0 {
                    assert(compactions.skip(1)[k - 1] == compactions[k]);
                }
            }
        }
    } else if compactions.len() > 0 {
        assert(compactions.contains(compactions[0]));
    }
}

/// The message that stands for a compacted block.
pub open spec fn summary_node(
    compaction: CompactionEntryModel,
    parent_id: Option<Seq<char>>,
) -> MessageModel {
    MessageModel {
        id: compaction.id,
        parent_id,
        role: MessageRole::Summary,
        tool_call_id: None,
        body: session::text_body(compaction.summary),
    }
}

/// What the view shows of the messages from position `index` on: one summary for each
/// compacted block, with the parent of the block's oldest message, and every message that
/// is not compacted.
pub open spec fn view_from(entries: Seq<SessionEntryModel>, index: int) -> Seq<MessageModel>
    decreases history::messages_of(entries).len() - index,
{
    let messages = history::messages_of(entries);
    if index < 0 || index >= messages.len() {
        Seq::empty()
    } else {
        match block_at(messages, compactions_of(entries), index) {
            Some(compaction) => {
                proof {
                    lemma_block_at(messages, compactions_of(entries), index);
                    history::lemma_bounds_of(messages, compaction.compacted_range);
                }
                let bounds = history::bounds_of(messages, compaction.compacted_range)->0;
                seq![summary_node(compaction, messages[index].parent_id)] + view_from(
                    entries,
                    bounds.1 + 1,
                )
            },
            None => if history::is_compacted(entries, messages[index].id) {
                view_from(entries, index + 1)
            } else {
                seq![messages[index]] + view_from(entries, index + 1)
            },
        }
    }
}

/// Extracts the workspace path from the session header.
pub fn extract_workspace(session_id: &str, entries: &[SessionEntry]) -> (r: Result<
    String,
    SessionViewError,
>)
    ensures
        match r {
            Ok(workspace) => header_workspace(entries.deep_view(), session_id@) == Some(
                workspace@,
            ),
            Err(error) => header_workspace(entries.deep_view(), session_id@) is None
                && error is MissingHeader && error->MissingHeader_session_id@ == session_id@,
        },
{
    let ghost all = entries.deep_view();
    assert(all.skip(0) =~= all);
    for i in 0..entries.len()
        invariant
            all == entries.deep_view(),
            header_workspace(all, session_id@) == header_workspace(
                all.skip(i as int),
                session_id@,
            ),
    {
        assert(all.skip(i as int).skip(1) =~= all.skip(i + 1));
        assert(all.skip(i as int)[0] == entries@[i as int].deep_view());
        if let SessionEntry::Session { id, workspace, .. } = &entries[i] {
            if text::same(id, session_id) {
                return Ok(workspace.clone());
            }
        }
    }
    Err(SessionViewError::MissingHeader { session_id: session_id.to_owned() })
}

/// What a view shows of the workspace instruction file: its content, or a warning.
pub open spec fn shown_instructions(file: InstructionFile) -> (Option<Seq<char>>, Option<
    Seq<char>,
>) {
    match file {
        InstructionFile::Missing => (None, None),
        InstructionFile::NotAFile => (None, Some("AGENTS.md 不是文件"@)),
        InstructionFile::Unreadable(error) => (
            None,
            Some("无法读取 Workspace Instructions: "@ + error@),
        ),
        InstructionFile::Content(content) => (Some(content@), None),
    }
}

/// The content of the workspace instruction file, or a warning when it is there but could
/// not be read.
pub fn read_workspace_instructions(file: InstructionFile) -> (r: (Option<String>, Option<String>))
    ensures
        (r.0.deep_view(), r.1.deep_view()) == shown_instructions(file),
{
    match file {
        InstructionFile::Missing => (None, None),
        InstructionFile::NotAFile => (None, Some("AGENTS.md 不是文件".to_owned())),
        InstructionFile::Unreadable(error) => (
            None,
            Some(text::concat("无法读取 Workspace Instructions: ", &error)),
        ),
        InstructionFile::Content(content) => (Some(content), None),
    }
}

/// The first compaction entry whose block begins at `position`, with the end of the block.
fn find_block(compactions: &Vec<CompactionEntry>, index: &MessageIndex, position: usize) -> (r:
    Option<(usize, usize)>)
    ensures
        match r {
            Some((k, last)) => k < compactions@.len() && history::looked_up_bounds(
                index.positions@,
                compactions@[k as int].deep_view().compacted_range,
            ) == Some((position as int, last as int)) && position <= last,
            None => true,
        },
        forall|messages: Seq<MessageModel>| #[trigger]
            index.indexes(messages) ==> block_at(
                messages,
                compactions.deep_view(),
                position as int,
            ) == (match r {
                Some((k, _)) => Some(compactions@[k as int].deep_view()),
                None => None,
            }),
{
    let ghost all = compactions.deep_view();
    assert(all.skip(0) =~= all);
    for k in 0..compactions.len()
        invariant
            all == compactions.deep_view(),
            forall|messages: Seq<MessageModel>| #[trigger]
                index.indexes(messages) ==> block_at(messages, all, position as int) == block_at(
                    messages,
                    all.skip(k as int),
                    position as int,
                ),
    {
        let ghost model = compactions@[k as int].deep_view();
        proof {
            assert(all.skip(k as int).skip(1) =~= all.skip(k + 1));
            assert(all.skip(k as int)[0] == model);
            assert forall|messages: Seq<MessageModel>| #[trigger]
                index.indexes(messages) implies history::looked_up_bounds(
                index.positions@,
                model.compacted_range,
            ) == history::bounds_of(messages, model.compacted_range) by {
                history::lemma_bounds(index, messages, model.compacted_range);
            }
        }
        if let Some((first, last)) = index.bounds(&compactions[k].compacted_range) {
            if first == position {
                return Some((k, last));
            }
        }
    }
    None
}

/// Reconstructs [`SessionView`] instances from persisted session entries.
#[derive(Debug)]
pub struct SessionViewRepository {
    /// Backing session store that names the files of sessions.
    pub store: Arc<SessionStore>,
}

impl SessionViewRepository {
    /// Create a new repository backed by the given session store.
    pub fn new(store: Arc<SessionStore>) -> (r: Self)
        ensures
            r.store == store,
    {
        SessionViewRepository { store }
    }

    /// Build a [`SessionView`] from raw entries.
    ///
    /// Fails when the header is missing.
    pub fn build_view(
        entries: Vec<SessionEntry>,
        session_id: &str,
        workspace_instructions: Option<String>,
        workspace_instructions_error: Option<String>,
    ) -> (r: Result<SessionView, SessionViewError>)
        ensures
            match r {
                Ok(view) => header_workspace(entries.deep_view(), session_id@) is Some
                    && view.deep_view() == (SessionViewModel {
                    session_id: session_id@,
                    workspace: header_workspace(entries.deep_view(), session_id@)->0,
                    workspace_instructions: workspace_instructions.deep_view(),
                    workspace_instructions_error: workspace_instructions_error.deep_view(),
                    messages: view_from(entries.deep_view(), 0),
                    compaction_entries: compactions_of(entries.deep_view()),
                }),
                Err(error) => header_workspace(entries.deep_view(), session_id@) is None
                    && error is MissingHeader && error->MissingHeader_session_id@ == session_id@,
            },
    {
        let workspace = match extract_workspace(session_id, &entries) {
            Ok(workspace) => workspace,
            Err(error) => return Err(error),
        };
        let ghost all = entries.deep_view();
        let ghost known = history::messages_of(all);

        // Collect all messages and compaction entries in chronological order.
        let index = MessageIndex::of_entries(&entries);
        let mut ordered_messages: Vec<Message> = Vec::new();
        let mut compaction_entries: Vec<CompactionEntry> = Vec::new();
        assert(ordered_messages.deep_view() =~= history::messages_of(all.take(0)));
        assert(compaction_entries.deep_view() =~= compactions_of(all.take(0)));
        for i in 0..entries.len()
            invariant
                all == entries.deep_view(),
                ordered_messages.deep_view() == history::messages_of(all.take(i as int)),
                compaction_entries.deep_view() == compactions_of(all.take(i as int)),
        {
            let ghost messages_before = ordered_messages.deep_view();
            let ghost compactions_before = compaction_entries.deep_view();
            assert(all.take(i + 1).drop_last() =~= all.take(i as int));
            assert(all.take(i + 1).last() == entries@[i as int].deep_view());
            match &entries[i] {
                SessionEntry::Message(message) => {
                    ordered_messages.push(message.clone());
                    assert(ordered_messages.deep_view() =~= messages_before.push(
                        message.deep_view(),
                    ));
                },
                SessionEntry::CompactionEntry(compaction) => {
                    compaction_entries.push(compaction.clone());
                    assert(compaction_entries.deep_view() =~= compactions_before.push(
                        compaction.deep_view(),
                    ));
                },
                _ => {},
            }
        }
        assert(all.take(all.len() as int) =~= all);

        // Mark every message that falls inside a compaction range as skipped.
        let compacted: StringHashSet = history::compacted_ids(&entries, &index);

        // Walk the message list; where a compacted block begins, replace it as a whole
        // with one summary message whose parent is the message before the block.
        let mut messages: Vec<Message> = Vec::new();
        let mut position: usize = 0;
        assert(messages.deep_view() + view_from(all, 0) =~= view_from(all, 0));
        while position < ordered_messages.len()
            invariant
                known == history::messages_of(all),
                index.indexes(known),
                ordered_messages.deep_view() == known,
                compaction_entries.deep_view() == compactions_of(all),
                forall|id: Seq<char>| #[trigger]
                    compacted@.contains(id) <==> history::is_compacted(all, id),
                position <= ordered_messages@.len(),
                messages.deep_view() + view_from(all, position as int) == view_from(all, 0),
            decreases ordered_messages@.len() - position,
        {
            let ghost before = messages.deep_view();
            let ghost here = position as int;
            assert(ordered_messages.deep_view()[here] == ordered_messages@[here].deep_view());
            if let Some((k, last)) = find_block(&compaction_entries, &index, position) {
                let compaction = &compaction_entries[k];
                proof {
                    history::lemma_bounds(
                        &index,
                        known,
                        compaction.deep_view().compacted_range,
                    );
                }
                let node = Message {
                    id: compaction.id.clone(),
                    parent_id: ordered_messages[position].parent_id.clone(),
                    role: MessageRole::Summary,
                    tool_call_id: None,
                    body: MessageBody::text(&compaction.summary),
                };
                messages.push(node);
                position = last + 1;
                assert(node.deep_view() == summary_node(
                    compaction.deep_view(),
                    known[here].parent_id,
                ));
                assert(messages.deep_view() =~= before.push(node.deep_view()));
                assert(messages.deep_view() + view_from(all, position as int) =~= before
                    + view_from(all, here));
            } else if compacted.contains(&ordered_messages[position].id) {
                // Part of a block that begins earlier; guards against overlapping ranges.
                position += 1;
            } else {
                let kept = ordered_messages[position].clone();
                messages.push(kept);
                position += 1;
                assert(messages.deep_view() =~= before.push(kept.deep_view()));
                assert(messages.deep_view() + view_from(all, position as int) =~= before
                    + view_from(all, here));
            }
        }
        assert(messages.deep_view() =~= view_from(all, 0));

        Ok(
            SessionView {
                session_id: session_id.to_owned(),
                workspace,
                workspace_instructions,
                workspace_instructions_error,
                messages,
                compaction_entries,
            },
        )
    }

    /// Load a [`SessionView`]: what the store gave for the session, with what was found at
    /// the place of the workspace instruction file.
    pub fn load_session(
        session_id: &str,
        entries: Result<Vec<SessionEntry>, SessionError>,
        instructions: InstructionFile,
    ) -> (r: Result<SessionView, SessionViewError>)
        ensures
            match (entries, r) {
                (Err(error), Err(SessionViewError::Store(source))) => source == error,
                (Err(_), _) => false,
                (Ok(entries), Ok(view)) => header_workspace(
                    entries.deep_view(),
                    session_id@,
                ) is Some && view.deep_view() == (SessionViewModel {
                    session_id: session_id@,
                    workspace: header_workspace(entries.deep_view(), session_id@)->0,
                    workspace_instructions: shown_instructions(instructions).0,
                    workspace_instructions_error: shown_instructions(instructions).1,
                    messages: view_from(entries.deep_view(), 0),
                    compaction_entries: compactions_of(entries.deep_view()),
                }),
                (Ok(entries), Err(error)) => header_workspace(
                    entries.deep_view(),
                    session_id@,
                ) is None && error is MissingHeader && error->MissingHeader_session_id@
                    == session_id@,
            },
    {
        match entries {
            Ok(entries) => {
                let (content, warning) = read_workspace_instructions(instructions);
                SessionViewRepository::build_view(entries, session_id, content, warning)
            },
            Err(error) => Err(SessionViewError::Store(error)),
        }
    }
}

/// A message at or after `index` that is not compacted is part of the view from `index`.
proof fn lemma_view_keeps(entries: Seq<SessionEntryModel>, index: int, k: int)
    requires
        0 <= index <= k < history::messages_of(entries).len(),
        !history::is_compacted(entries, history::messages_of(entries)[k].id),
    ensures
        view_from(entries, index).contains(history::messages_of(entries)[k]),
    decreases history::messages_of(entries).len() - index,
{
    let messages = history::messages_of(entries);
    let compactions = compactions_of(entries);
    let whole = view_from(entries, index);
    lemma_block_at(messages, compactions, index);
    match block_at(messages, compactions, index) {
        Some(compaction) => {
            let bounds = history::bounds_of(messages, compaction.compacted_range)->0;
            let c = lemma_compaction_source(entries, compaction);
            if k <= bounds.1 {
                assert(history::covers(entries, c, k));
                assert(false);
            }
            lemma_view_keeps(entries, bounds.1 + 1, k);
            let rest = view_from(entries, bounds.1 + 1);
            let at = choose|at: int| 0 <= at < rest.len() && rest[at] == messages[k];
            assert(whole[at + 1] == messages[k]);
        },
        None => {
            let rest = view_from(entries, index + 1);
            if history::is_compacted(entries, messages[index].id) {
                lemma_view_keeps(entries, index + 1, k);
            } else if k == index {
                assert(whole[0] == messages[k]);
            } else {
                lemma_view_keeps(entries, index + 1, k);
                let at = choose|at: int| 0 <= at < rest.len() && rest[at] == messages[k];
                assert(whole[at + 1] == messages[k]);
            }
        },
    }
}

/// A compaction entry of the list is one of the records.
proof fn lemma_compaction_source(
    entries: Seq<SessionEntryModel>,
    compaction: CompactionEntryModel,
) -> (c: int)
    requires
        compactions_of(entries).contains(compaction),
    ensures
        0 <= c < entries.len(),
        entries[c] == SessionEntryModel::CompactionEntry(compaction),
    decreases entries.len(),
{
    let shorter = compactions_of(entries.drop_last());
    let k = choose|k: int|
        0 <= k < compactions_of(entries).len() && compactions_of(entries)[k] == compaction;
    if k < shorter.len() {
        assert(shorter[k] == compaction);
        lemma_compaction_source(entries.drop_last(), compaction)
    } else {
        entries.len() - 1
    }
}

proof fn lemma_view_sources(entries: Seq<SessionEntryModel>, index: int, at: int)
    requires
        0 <= index,
        0 <= at < view_from(entries, index).len(),
    ensures
        is_shown(entries, view_from(entries, index)[at]),
    decreases history::messages_of(entries).len() - index,
{
    let messages = history::messages_of(entries);
    let compactions = compactions_of(entries);
    lemma_block_at(messages, compactions, index);
    match block_at(messages, compactions, index) {
        Some(compaction) => {
            if at == 0 {
                assert(summarizes(entries, compaction, view_from(entries, index)[0]));
            } else {
                let bounds = history::bounds_of(messages, compaction.compacted_range)->0;
                history::lemma_bounds_of(messages, compaction.compacted_range);
                lemma_view_sources(entries, bounds.1 + 1, at - 1);
            }
        },
        None => if history::is_compacted(entries, messages[index].id) {
            lemma_view_sources(entries, index + 1, at);
        } else if at == 0 {
            assert(messages.contains(messages[index]));
        } else {
            lemma_view_sources(entries, index + 1, at - 1);
        },
    }
}

/// `message` is the summary of `compaction`, with the parent of the oldest message of its
/// block.
pub open spec fn summarizes(
    entries: Seq<SessionEntryModel>,
    compaction: CompactionEntryModel,
    message: MessageModel,
) -> bool {
    let messages = history::messages_of(entries);
    &&& compactions_of(entries).contains(compaction)
    &&& history::bounds_of(messages, compaction.compacted_range) matches Some(bounds)
    &&& message == summary_node(compaction, messages[bounds.0].parent_id)
}

/// `message` is a message that is not compacted, or the summary of a compaction entry.
pub open spec fn is_shown(entries: Seq<SessionEntryModel>, message: MessageModel) -> bool {
    ||| history::messages_of(entries).contains(message) && !history::is_compacted(
        entries,
        message.id,
    )
    ||| exists|compaction: CompactionEntryModel| #[trigger]
        summarizes(entries, compaction, message)
}

/// The view of a session shows every message that is not compacted, and besides these
/// only summaries of compaction entries.
pub proof fn law_view_contents(entries: Seq<SessionEntryModel>)
    ensures
        forall|k: int|
            0 <= k < history::messages_of(entries).len() && !history::is_compacted(
                entries,
                (#[trigger] history::messages_of(entries)[k]).id,
            ) ==> view_from(entries, 0).contains(history::messages_of(entries)[k]),
        forall|at: int|
            0 <= at < view_from(entries, 0).len() ==> is_shown(
                entries,
                #[trigger] view_from(entries, 0)[at],
            ),
{
    assert forall|k: int|
        0 <= k < history::messages_of(entries).len() && !history::is_compacted(
            entries,
            (#[trigger] history::messages_of(entries)[k]).id,
        ) implies view_from(entries, 0).contains(history::messages_of(entries)[k]) by {
        lemma_view_keeps(entries, 0, k);
    }
    assert forall|at: int| 0 <= at < view_from(entries, 0).len() implies is_shown(
        entries,
        #[trigger] view_from(entries, 0)[at],
    ) by {
        lemma_view_sources(entries, 0, at);
    }
}

/// The view of a session without compaction entries shows its messages as they are.
pub proof fn law_view_without_compaction(entries: Seq<SessionEntryModel>)
    requires
        compactions_of(entries).len() == 0,
    ensures
        view_from(entries, 0) == history::messages_of(entries),
{
    lemma_plain_view(entries, 0);
    assert(history::messages_of(entries).skip(0) =~= history::messages_of(entries));
}

proof fn lemma_plain_view(entries: Seq<SessionEntryModel>, index: int)
    requires
        compactions_of(entries).len() == 0,
        0 <= index <= history::messages_of(entries).len(),
    ensures
        view_from(entries, index) == history::messages_of(entries).skip(index),
    decreases history::messages_of(entries).len() - index,
{
    let messages = history::messages_of(entries);
    if index < messages.len() {
        lemma_plain_view(entries, index + 1);
        if history::is_compacted(entries, messages[index].id) {
            let (k, j) = choose|k: int, j: int| #[trigger]
                history::covers(entries, k, j) && messages[j].id == messages[index].id;
            lemma_no_compaction(entries, k);
        }
        assert(view_from(entries, index) =~= messages.skip(index));
    } else {
        assert(view_from(entries, index) =~= messages.skip(index));
    }
}

proof fn lemma_no_compaction(entries: Seq<SessionEntryModel>, k: int)
    requires
        compactions_of(entries).len() == 0,
        0 <= k < entries.len(),
    ensures
        !(entries[k] is CompactionEntry),
    decreases entries.len(),
{
    if k < entries.len() - 1 {
        lemma_no_compaction(entries.drop_last(), k);
    }
}

} // verus!

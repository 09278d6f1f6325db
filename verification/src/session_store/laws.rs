//! What holds of session identifiers, session lists and session records.

use vstd::prelude::*;

use crate::ids;
use crate::protocol::session::{
    MessageBlockModel, SessionEntry, SessionEntryModel, SessionSummaryModel,
};
use crate::protocol::MessageRole;
use crate::sequences;
use crate::session_store;
use crate::session_store::listing;
use crate::session_store::listing::SessionFileModel;
use crate::session_store::persistence;
use crate::session_store::tree;
use crate::session_store::tree::Node;
use crate::text;

verus! {

/// An identifier is accepted exactly when it is not empty, takes at most 128 bytes, holds no
/// slash, no backslash and no two dots in a row, does not begin with a dot, and holds no
/// control character.
pub proof fn law_accepted_identifiers(id: Seq<char>)
    ensures
        session_store::id_fault(id) is None <==> {
            &&& id.len() > 0
            &&& text::byte_len(id) <= 128
            &&& id[0] != '.'
            &&& forall|i: int|
                0 <= i < id.len() ==> #[trigger] id[i] != '/' && id[i] != '\\' && !(id[i] as u32
                    <= 0x1f) && !(0x7f <= id[i] as u32 <= 0x9f)
            &&& forall|i: int|
                0 <= i < id.len() - 1 ==> !(#[trigger] id[i] == '.' && id[i + 1] == '.')
        },
{
    reveal_strlit("..");
    if session_store::id_fault(id) is None {
        assert forall|i: int| 0 <= i < id.len() implies #[trigger] id[i] != '/' && id[i] != '\\'
            && !(id[i] as u32 <= 0x1f) && !(0x7f <= id[i] as u32 <= 0x9f) by {
            assert(id.contains(id[i]));
            assert(!session_store::is_control(id[i]));
        }
        assert forall|i: int| 0 <= i < id.len() - 1 implies !(#[trigger] id[i] == '.' && id[i + 1]
            == '.') by {
            if id[i] == '.' && id[i + 1] == '.' {
                assert(id.subrange(i, i + 2) =~= ".."@);
                assert(text::occurs_at(id, ".."@, i));
            }
        }
    }
    if id.len() > 0 && text::byte_len(id) <= 128 && id[0] != '.' && (forall|i: int|
        0 <= i < id.len() ==> #[trigger] id[i] != '/' && id[i] != '\\' && !(id[i] as u32 <= 0x1f)
            && !(0x7f <= id[i] as u32 <= 0x9f)) && (forall|i: int|
        0 <= i < id.len() - 1 ==> !(#[trigger] id[i] == '.' && id[i + 1] == '.')) {
        if text::contains_text(id, ".."@) {
            let i = choose|i: int| text::occurs_at(id, ".."@, i);
            assert(id.subrange(i, i + 2)[0] == id[i]);
            assert(id.subrange(i, i + 2)[1] == id[i + 1]);
            assert(".."@[0] == '.' && ".."@[1] == '.');
        }
    }
}

/// A message is stored with its identifier, its parent, its role, the call that it answers and
/// its body.
pub proof fn law_messages_are_stored_whole(
    id: Seq<char>,
    parent_id: Option<Seq<char>>,
    role: MessageRole,
    tool_call_id: Option<Seq<char>>,
    body: Seq<MessageBlockModel>,
)
    ensures
        ({
            let entry = session_store::message_entry(id, parent_id, role, tool_call_id, body);
            &&& entry matches SessionEntryModel::Message(message)
            &&& message.id == id
            &&& message.parent_id == parent_id
            &&& message.role == role
            &&& message.tool_call_id == tool_call_id
            &&& message.body == body
        }),
{
}

/// The session of a file name is what stands before `.jsonl`, when something does.
pub proof fn law_file_name_gives_the_session(id: Seq<char>, name: Seq<char>)
    ensures
        id.len() > 0 ==> listing::session_of_name(id + ".jsonl"@) == Some(id),
        listing::session_of_name(name) matches Some(own) ==> own.len() > 0 && name == own
            + ".jsonl"@,
{
    reveal_strlit(".jsonl");
    let whole = id + ".jsonl"@;
    assert(whole.skip(whole.len() - 6) =~= ".jsonl"@);
    assert(whole.take(whole.len() - 6) =~= id);
    if let Some(own) = listing::session_of_name(name) {
        assert(name =~= own + ".jsonl"@);
    }
}

/// The summary of a file: that of its header, when it is a plain file that is named after the
/// session of the header.
pub open spec fn listed(file: SessionFileModel) -> Option<SessionSummaryModel> {
    match file.header {
        Some(SessionEntryModel::Session { id, workspace, created_at, .. }) => if file.is_file
            && id.len() > 0 && file.name == id + ".jsonl"@ {
            Some(SessionSummaryModel { session_id: id, workspace, created_at })
        } else {
            None
        },
        _ => None,
    }
}

/// Every session file is listed with the identifier, the workspace and the time of its header,
/// and nothing else is.
pub proof fn law_every_session_is_listed(files: Seq<SessionFileModel>)
    ensures
        listing::summaries(files) == files.filter_map(|file: SessionFileModel| listed(file)),
    decreases files.len(),
{
    if files.len() > 0 {
        let rest = listing::summaries(files.drop_last());
        let file = files.last();
        law_every_session_is_listed(files.drop_last());
        if let Some(SessionEntryModel::Session { id, .. }) = file.header {
            law_file_name_gives_the_session(id, file.name);
        }
        if let Some(summary) = listing::summary_of(file) {
            assert(rest.push(summary) =~= rest + seq![summary]);
        }
    }
}

/// Sessions of the same time keep their order in the list.
pub proof fn law_list_is_stable(list: Seq<SessionSummaryModel>, time: Seq<char>)
    ensures
        listing::newest_first(list).filter(|s: SessionSummaryModel| s.created_at == time)
            == list.filter(|s: SessionSummaryModel| s.created_at == time),
    decreases list.len(),
{
    let same = |s: SessionSummaryModel| s.created_at == time;
    sequences::lemma_filter_last(list, same);
    if list.len() > 0 {
        let sorted = listing::newest_first(list.drop_last());
        let last = list.last();
        let at = listing::place(sorted, last);
        law_list_is_stable(list.drop_last(), time);
        listing::law_list_is_ordered(list.drop_last());
        listing::lemma_place(sorted, last);
        let head = sorted.take(at);
        let tail = sorted.skip(at);
        assert(sorted =~= head + tail);
        assert(listing::newest_first(list) =~= head.push(last) + tail);
        Seq::filter_distributes_over_add(head, tail, same);
        Seq::filter_distributes_over_add(head.push(last), tail, same);
        sequences::lemma_filter_last(head.push(last), same);
        assert(head.push(last).drop_last() =~= head);
        if last.created_at == time {
            assert forall|i: int| 0 <= i < tail.len() implies (#[trigger] tail[i]).created_at
                != time by {
                assert(tail[i] == sorted[at + i]);
                if tail[i].created_at == time {
                    if i > 0 {
                        assert(text::text_le(sorted[at + i].created_at, sorted[at].created_at));
                    } else {
                        text::lemma_text_le_total(time, time);
                    }
                }
            }
            lemma_none_kept(tail, same);
            assert(head.filter(same).push(last) + tail.filter(same) =~= (head.filter(same)
                + tail.filter(same)).push(last));
        }
    } else {
        assert(listing::newest_first(list) =~= list);
    }
}

proof fn lemma_none_kept(s: Seq<SessionSummaryModel>, p: spec_fn(SessionSummaryModel) -> bool)
    requires
        forall|i: int| 0 <= i < s.len() ==> !p(#[trigger] s[i]),
    ensures
        s.filter(p) == Seq::<SessionSummaryModel>::empty(),
    decreases s.len(),
{
    sequences::lemma_filter_last(s, p);
    if s.len() > 0 {
        let rest = s.drop_last();
        assert forall|i: int| 0 <= i < rest.len() implies !p(#[trigger] rest[i]) by {
            assert(rest[i] == s[i]);
        }
        assert(s.last() == s[s.len() - 1]);
        lemma_none_kept(rest, p);
    }
}

/// Records of four types are read: headers, messages, activations and compaction entries.
pub proof fn law_records_of_four_types_are_read(ty: Seq<char>)
    ensures
        persistence::is_known_type(Some(ty)) <==> ty == "session"@ || ty == "message"@ || ty
            == "skill_activated"@ || ty == "compaction_entry"@,
        !persistence::is_known_type(None),
{
}

/// The first record that could not be decoded is the one that is told.
pub proof fn law_first_failure_is_told(decoded: Seq<Result<SessionEntry, String>>, i: int)
    requires
        0 <= i < decoded.len(),
        decoded[i] is Err,
        forall|j: int| 0 <= j < i ==> #[trigger] decoded[j] is Ok,
    ensures
        persistence::first_failure(decoded) == Some(decoded[i]->Err_0),
    decreases i,
{
    if i > 0 {
        assert(decoded[0] is Ok);
        let rest = decoded.skip(1);
        assert(rest[i - 1] == decoded[i]);
        assert forall|j: int| 0 <= j < i - 1 implies #[trigger] rest[j] is Ok by {
            assert(rest[j] == decoded[j + 1]);
        }
        law_first_failure_is_told(rest, i - 1);
    }
}

/// Text that is not JSON breaks a file where it stands: the known records before it are read,
/// and the reason is told.
pub proof fn law_broken_line_ends_the_reading(texts: Seq<Seq<char>>, i: int)
    requires
        0 <= i < texts.len(),
        persistence::type_of(texts[i]) is Err,
        forall|j: int| 0 <= j < i ==> persistence::type_of(#[trigger] texts[j]) is Ok,
    ensures
        persistence::first_broken(texts) == Some(persistence::type_of(texts[i])->Err_0),
        persistence::known_records(texts) == texts.take(i).filter(
            |record: Seq<char>| persistence::is_known_type(persistence::type_of(record)->Ok_0),
        ),
    decreases i,
{
    let known = |record: Seq<char>| persistence::is_known_type(persistence::type_of(record)->Ok_0);
    if i > 0 {
        assert(persistence::type_of(texts[0]) is Ok);
        let rest = texts.skip(1);
        assert(rest[i - 1] == texts[i]);
        assert forall|j: int| 0 <= j < i - 1 implies persistence::type_of(#[trigger] rest[j]) is Ok by {
            assert(rest[j] == texts[j + 1]);
        }
        law_broken_line_ends_the_reading(rest, i - 1);
        assert(texts.take(i) =~= seq![texts[0]] + rest.take(i - 1));
        rest.take(i - 1).lemma_filter_prepend(texts[0], known);
    } else {
        sequences::lemma_filter_last(texts.take(0), known);
    }
}

/// A node keeps the identifier of its record: that of a header, a message or a compaction
/// entry; an activation has none.
pub proof fn law_nodes_have_the_identifier_of_their_record(node: Node)
    ensures
        tree::node_id(&node) == match node {
            Node::SessionHeader { id, .. } => Some(id@),
            Node::Message(message) => Some(message.id@),
            Node::SkillActivated(_) => None,
            Node::CompactionEntry(entry) => Some(entry.id@),
        },
        tree::entry_of(node) is Session <==> node is SessionHeader,
        tree::entry_of(node) is Message <==> node is Message,
        tree::entry_of(node) is SkillActivated <==> node is SkillActivated,
{
}

/// Sessions are kept in `byte/sessions` below the data directory of the user, or below
/// `.local/share` in the home directory; files of up to 64 MiB are read.
pub proof fn law_sessions_are_kept_below_the_data_directory(
    data: &str,
    home: &str,
    other: Option<&str>,
)
    requires
        data@.len() > 0,
        data@.last() != '/',
        home@.len() > 0,
        home@.last() != '/',
    ensures
        session_store::default_dir(Some(data), other) == data@ + "/byte/sessions"@,
        session_store::default_dir(None, Some(home)) == home@ + "/.local/share/byte/sessions"@,
        session_store::MAX_SESSION_FILE_SIZE == 64 * 1024 * 1024,
{
    reveal_strlit("byte");
    reveal_strlit("sessions");
    reveal_strlit(".local");
    reveal_strlit("share");
    reveal_strlit("/byte/sessions");
    reveal_strlit("/.local/share/byte/sessions");
    assert(session_store::default_dir(Some(data), other) =~= data@ + "/byte/sessions"@);
    assert(session_store::default_dir(None, Some(home)) =~= home@
        + "/.local/share/byte/sessions"@);
}

/// A time is told in seconds and three digits of milliseconds.
pub proof fn law_times_are_told_in_milliseconds(secs: nat, millis: nat)
    ensures
        ids::timestamp(secs, millis) == text::decimal(secs) + "."@ + text::decimal3(millis) + "Z"@,
{
}

/// The first thing that is wrong with an identifier is told: that it is empty, that it is too
/// long, the identifier itself where it could leave the directory, that it begins with a dot,
/// or that it holds a control character.
pub proof fn law_refused_identifiers_are_told(id: Seq<char>)
    ensures
        id.len() == 0 ==> told_of(id) == Some("session id must not be empty"@),
        id.len() > 0 && text::byte_len(id) > 128 ==> told_of(id) == Some(
            "session id must be 128 characters or fewer"@,
        ),
        id.len() > 0 && text::byte_len(id) <= 128 && (id.contains('/') || id.contains('\\')
            || text::contains_text(id, ".."@)) ==> told_of(id) == Some(id),
        id.len() > 0 && text::byte_len(id) <= 128 && !id.contains('/') && !id.contains('\\')
            && !text::contains_text(id, ".."@) && id[0] == '.' ==> told_of(id) == Some(
            "session id must not start with a dot"@,
        ),
        id.len() > 0 && text::byte_len(id) <= 128 && !id.contains('/') && !id.contains('\\')
            && !text::contains_text(id, ".."@) && id[0] != '.' && (exists|i: int|
            0 <= i < id.len() && session_store::is_control(#[trigger] id[i])) ==> told_of(id)
            == Some("session id contains control characters"@),
{
}

/// What is told of a refused identifier.
pub open spec fn told_of(id: Seq<char>) -> Option<Seq<char>> {
    match session_store::id_fault(id) {
        Some(fault) => Some(session_store::fault_text(fault, id)),
        None => None,
    }
}

/// The errors of a session file name the file and what is wrong with it.
pub proof fn law_file_errors_name_the_file(path: Seq<char>)
    ensures
        session_store::size_error(path) == "session file "@ + path + " exceeds "@ + text::decimal(
            67108864,
        ) + " byte limit"@,
        session_store::header_error(path) == "session file "@ + path + " is missing its header"@,
{
}

} // verus!

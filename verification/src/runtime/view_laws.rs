//! What the view of a session shows of its records.

use vstd::prelude::*;

use crate::protocol::session::{
    CompactionEntryModel, MessageBlockModel, MessageModel, SessionEntryModel,
};
use crate::protocol::MessageRole;
use crate::runtime::history;
use crate::runtime::session_view_repository;
use crate::runtime::session_view_repository::InstructionFile;

verus! {

/// The compaction entries of a view are all compaction entries among the records, in order.
pub proof fn law_view_lists_all_compactions(entries: Seq<SessionEntryModel>)
    ensures
        session_view_repository::compactions_of(entries) == entries.filter_map(
            |entry: SessionEntryModel|
                match entry {
                    SessionEntryModel::CompactionEntry(compaction) => Some(compaction),
                    _ => None,
                },
        ),
    decreases entries.len(),
{
    if entries.len() > 0 {
        law_view_lists_all_compactions(entries.drop_last());
        if let SessionEntryModel::CompactionEntry(compaction) = entries.last() {
            let before = session_view_repository::compactions_of(entries.drop_last());
            assert(before.push(compaction) =~= before + seq![compaction]);
        }
    }
}

/// Record `i` is a header of the session.
pub open spec fn is_header(entries: Seq<SessionEntryModel>, i: int, id: Seq<char>) -> bool {
    &&& 0 <= i < entries.len()
    &&& entries[i] matches SessionEntryModel::Session { id: own, .. }
    &&& own == id
}

/// The workspace of a session is that of its first header; without a header it has none.
pub proof fn law_workspace_is_that_of_the_header(entries: Seq<SessionEntryModel>, id: Seq<char>)
    ensures
        forall|i: int|
            #[trigger] is_header(entries, i, id) && (forall|j: int|
                0 <= j < i ==> !#[trigger] is_header(entries, j, id))
                ==> session_view_repository::header_workspace(entries, id) == Some(
                entries[i]->Session_workspace,
            ),
        (forall|i: int| !#[trigger] is_header(entries, i, id))
            ==> session_view_repository::header_workspace(entries, id) is None,
    decreases entries.len(),
{
    if entries.len() > 0 {
        let rest = entries.skip(1);
        law_workspace_is_that_of_the_header(rest, id);
        assert(is_header(entries, 0, id) == (entries[0] matches SessionEntryModel::Session {
            id: own,
            ..
        } && own == id));
        assert forall|i: int| #[trigger] is_header(rest, i, id) implies is_header(
            entries,
            i + 1,
            id,
        ) by {
            assert(rest[i] == entries[i + 1]);
        }
        if !is_header(entries, 0, id) {
            assert forall|i: int|
                #[trigger] is_header(entries, i, id) && (forall|j: int|
                    0 <= j < i ==> !#[trigger] is_header(
                        entries,
                        j,
                        id,
                    )) implies session_view_repository::header_workspace(entries, id) == Some(
                entries[i]->Session_workspace,
            ) by {
                assert(rest[i - 1] == entries[i]);
                assert(is_header(rest, i - 1, id));
                assert forall|j: int| 0 <= j < i - 1 implies !#[trigger] is_header(rest, j, id) by {
                    assert(rest[j] == entries[j + 1]);
                    assert(!is_header(entries, j + 1, id));
                }
            }
        } else {
            assert forall|i: int|
                #[trigger] is_header(entries, i, id) && (forall|j: int|
                    0 <= j < i ==> !#[trigger] is_header(
                        entries,
                        j,
                        id,
                    )) implies session_view_repository::header_workspace(entries, id) == Some(
                entries[i]->Session_workspace,
            ) by {
                if i > 0 {
                    assert(is_header(entries, 0, id));
                }
            }
        }
    }
}

/// Compaction entry `k` is the first whose block begins at place `p`; the block ends at `end`.
pub open spec fn is_block(
    messages: Seq<MessageModel>,
    compactions: Seq<CompactionEntryModel>,
    k: int,
    p: int,
    end: int,
) -> bool {
    &&& 0 <= k < compactions.len()
    &&& history::bounds_of(messages, compactions[k].compacted_range) == Some((p, end))
    &&& forall|j: int|
        0 <= j < k ==> !(history::bounds_of(
            messages,
            (#[trigger] compactions[j]).compacted_range,
        ) matches Some(bounds) && bounds.0 == p)
}

/// Some block begins at place `p`.
pub open spec fn starts_block(
    messages: Seq<MessageModel>,
    compactions: Seq<CompactionEntryModel>,
    p: int,
) -> bool {
    exists|k: int, end: int| is_block(messages, compactions, k, p, end)
}

/// The message shows what stands at place `p`: where a block begins, the summary of the block,
/// under the identifier of its compaction entry and behind the parent of its first message;
/// else the message there as it is, which is not compacted.
pub open spec fn shows_place(
    entries: Seq<SessionEntryModel>,
    p: int,
    message: MessageModel,
) -> bool {
    let messages = history::messages_of(entries);
    let compactions = session_view_repository::compactions_of(entries);
    if starts_block(messages, compactions, p) {
        forall|k: int, end: int| #[trigger]
            is_block(messages, compactions, k, p, end) ==> {
                &&& message.id == compactions[k].id
                &&& message.parent_id == messages[p].parent_id
                &&& message.role == MessageRole::Summary
                &&& message.tool_call_id is None
                &&& message.body == seq![MessageBlockModel::Text { text: compactions[k].summary }]
            }
    } else {
        message == messages[p] && !history::is_compacted(entries, messages[p].id)
    }
}

/// Place `p` is not shown: it lies in the block that begins at place `q`, behind its first
/// message, or it is compacted and no block begins there.
pub open spec fn is_hidden(entries: Seq<SessionEntryModel>, p: int, q: int) -> bool {
    let messages = history::messages_of(entries);
    let compactions = session_view_repository::compactions_of(entries);
    ||| exists|k: int, end: int| #[trigger] is_block(messages, compactions, k, q, end) && q < p <= end
    ||| history::is_compacted(entries, messages[p].id) && !starts_block(messages, compactions, p)
}

/// The view walks through the messages in order: each place is shown once, or is hidden, and
/// nothing else is shown.
pub proof fn law_view_walks_through_the_messages(entries: Seq<SessionEntryModel>) -> (places: Seq<
    int,
>)
    ensures
        ({
            let view = session_view_repository::view_from(entries, 0);
            let messages = history::messages_of(entries);
            &&& places.len() == view.len()
            &&& forall|i: int, j: int| 0 <= i < j < places.len() ==> places[i] < places[j]
            &&& forall|i: int|
                0 <= i < places.len() ==> 0 <= #[trigger] places[i] && places[i] < messages.len()
            &&& forall|i: int|
                0 <= i < places.len() ==> shows_place(entries, places[i], #[trigger] view[i])
            &&& forall|p: int|
                0 <= p < messages.len() && !#[trigger] places.contains(p) ==> exists|q: int|
                    is_hidden(entries, p, q)
        }),
{
    lemma_walk(entries, 0)
}

proof fn lemma_walk(entries: Seq<SessionEntryModel>, index: int) -> (places: Seq<int>)
    requires
        0 <= index,
    ensures
        ({
            let view = session_view_repository::view_from(entries, index);
            let messages = history::messages_of(entries);
            &&& places.len() == view.len()
            &&& forall|i: int, j: int| 0 <= i < j < places.len() ==> places[i] < places[j]
            &&& forall|i: int|
                0 <= i < places.len() ==> index <= #[trigger] places[i] && places[i]
                    < messages.len()
            &&& forall|i: int|
                0 <= i < places.len() ==> shows_place(entries, places[i], #[trigger] view[i])
            &&& forall|p: int|
                index <= p < messages.len() && !#[trigger] places.contains(p) ==> exists|q: int|
                    is_hidden(entries, p, q)
        }),
    decreases history::messages_of(entries).len() - index,
{
    let messages = history::messages_of(entries);
    let compactions = session_view_repository::compactions_of(entries);
    let view = session_view_repository::view_from(entries, index);
    if index >= messages.len() {
        Seq::empty()
    } else {
        lemma_block(messages, compactions, index);
        match session_view_repository::block_at(messages, compactions, index) {
            Some(compaction) => {
                let bounds = history::bounds_of(messages, compaction.compacted_range)->0;
                history::lemma_bounds_of(messages, compaction.compacted_range);
                let rest = lemma_walk(entries, bounds.1 + 1);
                let later = session_view_repository::view_from(entries, bounds.1 + 1);
                let places = seq![index] + rest;
                let (k, end) = choose|k: int, end: int|
                    is_block(messages, compactions, k, index, end);
                assert(compactions[k] == compaction);
                assert(shows_place(entries, index, view[0])) by {
                    assert forall|j: int, e: int| #[trigger]
                        is_block(messages, compactions, j, index, e) implies j == k by {
                        if j < k {
                            assert(history::bounds_of(messages, compactions[j].compacted_range)
                                matches Some(b) && b.0 == index);
                        } else if k < j {
                            assert(history::bounds_of(messages, compactions[k].compacted_range)
                                matches Some(b) && b.0 == index);
                        }
                    }
                }
                assert forall|i: int| 0 <= i < places.len() implies shows_place(
                    entries,
                    places[i],
                    #[trigger] view[i],
                ) by {
                    if i > 0 {
                        assert(places[i] == rest[i - 1]);
                        assert(view[i] == later[i - 1]);
                    }
                }
                assert forall|i: int| 0 <= i < places.len() implies index <= #[trigger] places[i]
                    && places[i] < messages.len() by {
                    if i > 0 {
                        assert(places[i] == rest[i - 1]);
                    }
                }
                assert forall|i: int, j: int| 0 <= i < j < places.len() implies places[i]
                    < places[j] by {
                    assert(places[j] == rest[j - 1]);
                    if i > 0 {
                        assert(places[i] == rest[i - 1]);
                    }
                }
                assert forall|p: int|
                    index <= p < messages.len() && !#[trigger] places.contains(
                        p,
                    ) implies exists|q: int| is_hidden(entries, p, q) by {
                    assert(places[0] == index);
                    if p > bounds.1 {
                        assert(!rest.contains(p)) by {
                            if rest.contains(p) {
                                let i = choose|i: int| 0 <= i < rest.len() && rest[i] == p;
                                assert(places[i + 1] == p);
                            }
                        }
                    } else {
                        assert(is_block(messages, compactions, k, index, end));
                        assert(is_hidden(entries, p, index));
                    }
                }
                places
            },
            None => {
                let rest = lemma_walk(entries, index + 1);
                let later = session_view_repository::view_from(entries, index + 1);
                if history::is_compacted(entries, messages[index].id) {
                    assert forall|p: int|
                        index <= p < messages.len() && !#[trigger] rest.contains(
                            p,
                        ) implies exists|q: int| is_hidden(entries, p, q) by {
                        if p == index {
                            assert(is_hidden(entries, p, p));
                        }
                    }
                    rest
                } else {
                    let places = seq![index] + rest;
                    assert(shows_place(entries, index, view[0]));
                    assert forall|i: int| 0 <= i < places.len() implies shows_place(
                        entries,
                        places[i],
                        #[trigger] view[i],
                    ) by {
                        if i > 0 {
                            assert(places[i] == rest[i - 1]);
                            assert(view[i] == later[i - 1]);
                        }
                    }
                    assert forall|i: int| 0 <= i < places.len() implies index
                        <= #[trigger] places[i] && places[i] < messages.len() by {
                        if i > 0 {
                            assert(places[i] == rest[i - 1]);
                        }
                    }
                    assert forall|i: int, j: int| 0 <= i < j < places.len() implies places[i]
                        < places[j] by {
                        assert(places[j] == rest[j - 1]);
                        if i > 0 {
                            assert(places[i] == rest[i - 1]);
                        }
                    }
                    assert forall|p: int|
                        index <= p < messages.len() && !#[trigger] places.contains(
                            p,
                        ) implies exists|q: int| is_hidden(entries, p, q) by {
                        assert(places[0] == index);
                        assert(!rest.contains(p)) by {
                            if rest.contains(p) {
                                let i = choose|i: int| 0 <= i < rest.len() && rest[i] == p;
                                assert(places[i + 1] == p);
                            }
                        }
                    }
                    places
                }
            },
        }
    }
}

proof fn lemma_block(
    messages: Seq<MessageModel>,
    compactions: Seq<CompactionEntryModel>,
    p: int,
)
    ensures
        match session_view_repository::block_at(messages, compactions, p) {
            Some(compaction) => exists|k: int, end: int|
                is_block(messages, compactions, k, p, end) && compactions[k] == compaction,
            None => !starts_block(messages, compactions, p),
        },
        forall|k: int, end: int| #[trigger]
            is_block(messages, compactions, k, p, end) ==> session_view_repository::block_at(
                messages,
                compactions,
                p,
            ) == Some(compactions[k]),
    decreases compactions.len(),
{
    if compactions.len() > 0 {
        let rest = compactions.skip(1);
        if session_view_repository::begins_at(messages, compactions[0], p) {
            let bounds = history::bounds_of(messages, compactions[0].compacted_range)->0;
            assert(is_block(messages, compactions, 0, p, bounds.1));
            assert forall|k: int, end: int| #[trigger]
                is_block(messages, compactions, k, p, end) implies k == 0 by {
                if k > 0 {
                    assert(history::bounds_of(messages, compactions[0].compacted_range) matches Some(
                        b,
                    ) && b.0 == p);
                }
            }
        } else {
            lemma_block(messages, rest, p);
            assert forall|k: int, end: int| #[trigger]
                is_block(messages, compactions, k, p, end) implies is_block(
                messages,
                rest,
                k - 1,
                p,
                end,
            ) && rest[k - 1] == compactions[k] by {
                assert(k > 0);
                assert forall|j: int| 0 <= j < k - 1 implies !(history::bounds_of(
                    messages,
                    (#[trigger] rest[j]).compacted_range,
                ) matches Some(bounds) && bounds.0 == p) by {
                    assert(rest[j] == compactions[j + 1]);
                }
            }
            if let Some(compaction) = session_view_repository::block_at(messages, rest, p) {
                let (k, end) = choose|k: int, end: int|
                    is_block(messages, rest, k, p, end) && rest[k] == compaction;
                assert forall|j: int| 0 <= j < k + 1 implies !(history::bounds_of(
                    messages,
                    (#[trigger] compactions[j]).compacted_range,
                ) matches Some(bounds) && bounds.0 == p) by {
                    if j > 0 {
                        assert(compactions[j] == rest[j - 1]);
                    }
                }
                assert(is_block(messages, compactions, k + 1, p, end));
            }
        }
    }
}

/// The workspace instructions are the content of the instruction file, and there is a warning
/// exactly when something of that name is there that could not be read.
pub proof fn law_instructions_are_the_content(file: InstructionFile)
    ensures
        ({
            let (content, warning) = session_view_repository::shown_instructions(file);
            &&& content == match file {
                InstructionFile::Content(told) => Some(told@),
                _ => None,
            }
            &&& warning is Some <==> file is NotAFile || file is Unreadable
            &&& file matches InstructionFile::Unreadable(reason) ==> reason@.is_suffix_of(
                warning->0,
            )
        }),
{
    if let InstructionFile::Unreadable(reason) = file {
        let warning = session_view_repository::shown_instructions(file).1->0;
        assert(warning.subrange(warning.len() - reason@.len(), warning.len() as int) =~= reason@);
    }
}

} // verus!

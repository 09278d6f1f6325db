//! What a session's records say of its messages: their order, their positions and
//! which of them a compaction entry stands for.

use vstd::hash_map::StringHashMap;
use vstd::hash_set::StringHashSet;
use vstd::prelude::*;

use crate::protocol::session::{
    CompactionEntry, CompactionRange, CompactionRangeModel, MessageModel, SessionEntry,
    SessionEntryModel,
};

verus! {

/// The messages among `entries`, oldest first.
pub open spec fn messages_of(entries: Seq<SessionEntryModel>) -> Seq<MessageModel>
    decreases entries.len(),
{
    if entries.len() == 0 {
        Seq::empty()
    } else {
        let rest = messages_of(entries.drop_last());
        match entries.last() {
            SessionEntryModel::Message(message) => rest.push(message),
            _ => rest,
        }
    }
}

/// The position of the latest message with identifier `id`.
pub open spec fn position_of(messages: Seq<MessageModel>, id: Seq<char>) -> Option<int>
    decreases messages.len(),
{
    if messages.len() == 0 {
        None
    } else if messages.last().id == id {
        Some(messages.len() - 1)
    } else {
        position_of(messages.drop_last(), id)
    }
}

/// The first and the last position that `range` covers, when both of its ends are known.
pub open spec fn bounds_of(messages: Seq<MessageModel>, range: CompactionRangeModel) -> Option<
    (int, int),
> {
    match (
        position_of(messages, range.first_message_id),
        position_of(messages, range.last_message_id),
    ) {
        (Some(a), Some(b)) => if a <= b {
            Some((a, b))
        } else {
            Some((b, a))
        },
        _ => None,
    }
}

/// Entry `k` is a compaction entry whose range covers the message at position `j`.
pub open spec fn covers(entries: Seq<SessionEntryModel>, k: int, j: int) -> bool {
    &&& 0 <= k < entries.len()
    &&& entries[k] matches SessionEntryModel::CompactionEntry(compaction)
    &&& bounds_of(messages_of(entries), compaction.compacted_range) matches Some(bounds)
    &&& bounds.0 <= j <= bounds.1
}

/// Some compaction entry covers a message with identifier `id`.
pub open spec fn is_compacted(entries: Seq<SessionEntryModel>, id: Seq<char>) -> bool {
    exists|k: int, j: int| #[trigger]
        covers(entries, k, j) && messages_of(entries)[j].id == id
}

/// A position of [`position_of`] holds a message with that identifier, the last such.
pub proof fn lemma_position_of(messages: Seq<MessageModel>, id: Seq<char>)
    ensures
        position_of(messages, id) matches Some(p) ==> 0 <= p < messages.len() && messages[p].id
            == id && forall|j: int| p < j < messages.len() ==> messages[j].id != id,
        position_of(messages, id) is None ==> forall|j: int|
            0 <= j < messages.len() ==> messages[j].id != id,
    decreases messages.len(),
{
    if messages.len() > 0 && messages.last().id != id {
        lemma_position_of(messages.drop_last(), id);
        let shorter = messages.drop_last();
        assert forall|j: int| 0 <= j < messages.len() && j < shorter.len() implies messages[j]
            == shorter[j] by {}
    }
}

/// Known bounds are positions of messages.
pub proof fn lemma_bounds_of(messages: Seq<MessageModel>, range: CompactionRangeModel)
    ensures
        bounds_of(messages, range) matches Some(bounds) ==> 0 <= bounds.0 <= bounds.1
            < messages.len(),
{
    lemma_position_of(messages, range.first_message_id);
    lemma_position_of(messages, range.last_message_id);
}

/// The messages of a prefix are a prefix of the messages.
pub proof fn lemma_messages_of_prefix(entries: Seq<SessionEntryModel>, n: int)
    requires
        0 <= n < entries.len(),
    ensures
        messages_of(entries.take(n + 1)) == (match entries[n] {
            SessionEntryModel::Message(message) => messages_of(entries.take(n)).push(message),
            _ => messages_of(entries.take(n)),
        }),
{
    assert(entries.take(n + 1).drop_last() =~= entries.take(n));
}

/// Identifiers of `messages`, in order.
pub open spec fn ids_of(messages: Seq<MessageModel>) -> Seq<Seq<char>> {
    messages.map_values(|message: MessageModel| message.id)
}

/// The positions of message identifiers, as looked up in `positions`.
pub open spec fn looked_up_bounds(
    positions: Map<Seq<char>, usize>,
    range: CompactionRangeModel,
) -> Option<(int, int)> {
    if positions.contains_key(range.first_message_id) && positions.contains_key(
        range.last_message_id,
    ) {
        let a = positions[range.first_message_id] as int;
        let b = positions[range.last_message_id] as int;
        if a <= b {
            Some((a, b))
        } else {
            Some((b, a))
        }
    } else {
        None
    }
}

/// Message identifiers in chronological order, with the position of each.
pub struct MessageIndex {
    pub ids: Vec<String>,
    pub positions: StringHashMap<usize>,
}

impl MessageIndex {
    /// The index holds exactly the identifiers of `messages`.
    pub open spec fn indexes(&self, messages: Seq<MessageModel>) -> bool {
        &&& self.ids.deep_view() == ids_of(messages)
        &&& forall|id: Seq<char>| #[trigger]
            self.positions@.contains_key(id) <==> position_of(messages, id) is Some
        &&& forall|id: Seq<char>| #[trigger]
            self.positions@.contains_key(id) ==> position_of(messages, id) == Some(
                self.positions@[id] as int,
            )
    }

    /// Indexes the messages among `entries`.
    pub fn of_entries(entries: &[SessionEntry]) -> (r: Self)
        ensures
            r.indexes(messages_of(entries.deep_view())),
    {
        let mut r = MessageIndex { ids: Vec::new(), positions: StringHashMap::new() };
        let ghost all = entries.deep_view();
        assert(r.ids.deep_view() =~= ids_of(messages_of(all.take(0))));
        for i in 0..entries.len()
            invariant
                all == entries.deep_view(),
                r.indexes(messages_of(all.take(i as int))),
        {
            let ghost known = messages_of(all.take(i as int));
            let ghost before = r;
            proof {
                lemma_messages_of_prefix(all, i as int);
            }
            if let SessionEntry::Message(message) = &entries[i] {
                r.positions.insert(message.id.clone(), r.ids.len());
                r.ids.push(message.id.clone());
                proof {
                    let model = message.deep_view();
                    let grown = known.push(model);
                    assert(all[i as int] == SessionEntryModel::Message(model));
                    assert(grown.drop_last() =~= known);
                    assert(r.ids.deep_view() =~= before.ids.deep_view().push(model.id));
                    assert(ids_of(grown) =~= ids_of(known).push(model.id));
                    assert forall|id: Seq<char>| #[trigger]
                        r.positions@.contains_key(id) implies position_of(grown, id) == Some(
                        r.positions@[id] as int,
                    ) by {
                        if id != model.id {
                            assert(before.positions@.contains_key(id));
                        }
                    }
                    assert forall|id: Seq<char>| position_of(grown, id) is Some implies
                        #[trigger] r.positions@.contains_key(id) by {
                        if id != model.id {
                            assert(before.positions@.contains_key(id));
                        }
                    }
                }
            }
        }
        assert(all.take(all.len() as int) =~= all);
        r
    }

    /// The bounds of `range` in the index.
    pub fn bounds(&self, range: &CompactionRange) -> (r: Option<(usize, usize)>)
        ensures
            match r {
                Some((a, b)) => looked_up_bounds(self.positions@, range.deep_view()) == Some(
                    (a as int, b as int),
                ) && a <= b,
                None => looked_up_bounds(self.positions@, range.deep_view()) is None,
            },
    {
        let first = self.positions.get(&range.first_message_id);
        let last = self.positions.get(&range.last_message_id);
        match (first, last) {
            (Some(a), Some(b)) => if *a <= *b {
                Some((*a, *b))
            } else {
                Some((*b, *a))
            },
            _ => None,
        }
    }
}

/// An index finds the bounds that the messages give.
pub proof fn lemma_bounds(
    index: &MessageIndex,
    messages: Seq<MessageModel>,
    range: CompactionRangeModel,
)
    requires
        index.indexes(messages),
    ensures
        looked_up_bounds(index.positions@, range) == bounds_of(messages, range),
        bounds_of(messages, range) matches Some(bounds) ==> 0 <= bounds.0 <= bounds.1
            < messages.len(),
{
    lemma_position_of(messages, range.first_message_id);
    lemma_position_of(messages, range.last_message_id);
    assert(index.positions@.contains_key(range.first_message_id) <==> position_of(
        messages,
        range.first_message_id,
    ) is Some);
    assert(index.positions@.contains_key(range.last_message_id) <==> position_of(
        messages,
        range.last_message_id,
    ) is Some);
}

/// Identifiers from the range that `range` covers.
pub open spec fn marked_ids(
    positions: Map<Seq<char>, usize>,
    ids: Seq<Seq<char>>,
    range: CompactionRangeModel,
) -> Set<Seq<char>> {
    match looked_up_bounds(positions, range) {
        Some(bounds) if bounds.1 < ids.len() => Set::new(
            |id: Seq<char>| exists|j: int| bounds.0 <= j <= bounds.1 && #[trigger] ids[j] == id,
        ),
        _ => Set::empty(),
    }
}

/// Mark all message identifiers within a compaction range as compacted.
pub fn mark_compacted_messages(
    compaction: &CompactionEntry,
    index: &MessageIndex,
    compacted_ids: &mut StringHashSet,
)
    ensures
        final(compacted_ids)@ == old(compacted_ids)@.union(
            marked_ids(
                index.positions@,
                index.ids.deep_view(),
                compaction.compacted_range.deep_view(),
            ),
        ),
{
    let ghost ids = index.ids.deep_view();
    let ghost wanted = marked_ids(
        index.positions@,
        ids,
        compaction.compacted_range.deep_view(),
    );
    let (first_index, last_index) = match index.bounds(&compaction.compacted_range) {
        Some((a, b)) => (a, b),
        None => {
            assert(compacted_ids@ =~= old(compacted_ids)@.union(wanted));
            return;
        },
    };
    if last_index >= index.ids.len() {
        assert(compacted_ids@ =~= old(compacted_ids)@.union(wanted));
        return;
    }
    let end: usize = last_index + 1;
    for j in first_index..end
        invariant
            ids == index.ids.deep_view(),
            end == last_index + 1,
            end <= index.ids@.len(),
            forall|id: Seq<char>| #[trigger]
                compacted_ids@.contains(id) <==> old(compacted_ids)@.contains(id) || exists|k: int|
                    first_index <= k < j && #[trigger] ids[k] == id,
    {
        let ghost before = compacted_ids@;
        let _ = compacted_ids.insert(index.ids[j].clone());
        proof {
            assert(ids[j as int] == index.ids@[j as int]@);
            assert forall|id: Seq<char>| #[trigger]
                compacted_ids@.contains(id) <==> old(compacted_ids)@.contains(id) || exists|k: int|
                    first_index <= k < j + 1 && #[trigger] ids[k] == id by {
                assert(before.contains(id) <==> old(compacted_ids)@.contains(id) || exists|k: int|
                    first_index <= k < j && #[trigger] ids[k] == id);
                if id == ids[j as int] {
                    assert(compacted_ids@.contains(id));
                }
            }
        }
    }
    assert(compacted_ids@ =~= old(compacted_ids)@.union(wanted)) by {
        assert forall|id: Seq<char>| compacted_ids@.contains(id) <==> #[trigger] old(
            compacted_ids,
        )@.union(wanted).contains(id) by {
            assert(compacted_ids@.contains(id) <==> old(compacted_ids)@.contains(id)
                || wanted.contains(id));
        }
    }
}

/// The identifiers of all messages that a compaction entry stands for.
pub fn compacted_ids(entries: &[SessionEntry], index: &MessageIndex) -> (r: StringHashSet)
    requires
        index.indexes(messages_of(entries.deep_view())),
    ensures
        forall|id: Seq<char>| #[trigger]
            r@.contains(id) <==> is_compacted(entries.deep_view(), id),
{
    let mut r = StringHashSet::new();
    let ghost all = entries.deep_view();
    let ghost messages = messages_of(all);
    for i in 0..entries.len()
        invariant
            all == entries.deep_view(),
            messages == messages_of(all),
            index.indexes(messages),
            forall|id: Seq<char>| #[trigger]
                r@.contains(id) <==> exists|k: int, j: int|
                    k < i && #[trigger] covers(all, k, j) && messages[j].id == id,
    {
        let ghost before = r@;
        if let SessionEntry::CompactionEntry(compaction) = &entries[i] {
            mark_compacted_messages(compaction, index, &mut r);
            proof {
                let range = compaction.deep_view().compacted_range;
                let ids = index.ids.deep_view();
                let marked = marked_ids(index.positions@, ids, range);
                lemma_bounds(index, messages, range);
                assert(all[i as int] == SessionEntryModel::CompactionEntry(compaction.deep_view()));
                assert forall|id: Seq<char>| #[trigger] marked.contains(id) <==> exists|j: int|
                    #[trigger] covers(all, i as int, j) && messages[j].id == id by {
                    if marked.contains(id) {
                        let bounds = looked_up_bounds(index.positions@, range)->0;
                        let j = choose|j: int| bounds.0 <= j <= bounds.1 && #[trigger] ids[j] == id;
                        assert(covers(all, i as int, j));
                        assert(ids[j] == messages[j].id);
                    }
                    if exists|j: int| #[trigger] covers(all, i as int, j) && messages[j].id == id {
                        let j = choose|j: int| #[trigger]
                            covers(all, i as int, j) && messages[j].id == id;
                        assert(ids[j] == messages[j].id);
                    }
                }
            }
        }
        proof {
            assert forall|id: Seq<char>| #[trigger]
                r@.contains(id) <==> exists|k: int, j: int|
                    k < i + 1 && #[trigger] covers(all, k, j) && messages[j].id == id by {
                assert(before.contains(id) <==> exists|k: int, j: int|
                    k < i && #[trigger] covers(all, k, j) && messages[j].id == id);
                if exists|k: int, j: int|
                    k < i + 1 && #[trigger] covers(all, k, j) && messages[j].id == id {
                    let (k, j) = choose|k: int, j: int|
                        k < i + 1 && #[trigger] covers(all, k, j) && messages[j].id == id;
                    if k < i {
                        assert(before.contains(id));
                    } else {
                        assert(covers(all, i as int, j) && messages[j].id == id);
                    }
                }
            }
        }
    }
    proof {
        assert forall|id: Seq<char>| #[trigger] r@.contains(id) <==> is_compacted(all, id) by {
            if is_compacted(all, id) {
                let (k, j) = choose|k: int, j: int| #[trigger]
                    covers(all, k, j) && messages_of(all)[j].id == id;
                assert(k < entries.len() && covers(all, k, j) && messages[j].id == id);
            }
        }
    }
    r
}

} // verus!

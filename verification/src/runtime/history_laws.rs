//! What holds of the messages among the records of a session.

use vstd::prelude::*;

use crate::protocol::session::SessionEntryModel;
use crate::runtime::history;

verus! {

/// The messages among the records are all records of messages, in order.
pub proof fn law_messages_are_the_message_records(entries: Seq<SessionEntryModel>)
    ensures
        history::messages_of(entries) == entries.filter_map(
            |entry: SessionEntryModel|
                match entry {
                    SessionEntryModel::Message(message) => Some(message),
                    _ => None,
                },
        ),
    decreases entries.len(),
{
    if entries.len() > 0 {
        law_messages_are_the_message_records(entries.drop_last());
        if let SessionEntryModel::Message(message) = entries.last() {
            let before = history::messages_of(entries.drop_last());
            assert(before.push(message) =~= before + seq![message]);
        }
    }
}

/// No two records are of messages with the same identifier.
pub open spec fn distinct_messages(entries: Seq<SessionEntryModel>) -> bool {
    forall|i: int, j: int|
        0 <= i < j < entries.len() && #[trigger] entries[i] is Message && #[trigger] entries[j] is Message
            ==> entries[i]->Message_0.id != entries[j]->Message_0.id
}

/// Record `k` is a compaction entry whose range reaches from the message of record `a` to
/// that of record `b`, or the other way round.
pub open spec fn reaches(entries: Seq<SessionEntryModel>, k: int, a: int, b: int) -> bool {
    &&& 0 <= k < entries.len()
    &&& 0 <= a <= b < entries.len()
    &&& entries[k] matches SessionEntryModel::CompactionEntry(entry)
    &&& entries[a] matches SessionEntryModel::Message(first)
    &&& entries[b] matches SessionEntryModel::Message(last)
    &&& {
        ||| first.id == entry.compacted_range.first_message_id && last.id
            == entry.compacted_range.last_message_id
        ||| last.id == entry.compacted_range.first_message_id && first.id
            == entry.compacted_range.last_message_id
    }
}

/// Some compaction entry reaches over record `s`.
pub open spec fn is_summarized(entries: Seq<SessionEntryModel>, s: int) -> bool {
    exists|k: int, a: int, b: int| #[trigger] reaches(entries, k, a, b) && a <= s <= b
}

/// A message is compacted exactly when a compaction entry reaches over its record.
pub proof fn law_compacted_messages_are_summarized(entries: Seq<SessionEntryModel>, s: int)
    requires
        distinct_messages(entries),
        0 <= s < entries.len(),
        entries[s] is Message,
    ensures
        history::is_compacted(entries, entries[s]->Message_0.id) <==> is_summarized(entries, s),
{
    let messages = history::messages_of(entries);
    let id = entries[s]->Message_0.id;
    lemma_distinct(entries);
    lemma_message_at(entries, s);
    if history::is_compacted(entries, id) {
        let (k, j) = choose|k: int, j: int| #[trigger]
            history::covers(entries, k, j) && messages[j].id == id;
        let range = entries[k]->CompactionEntry_0.compacted_range;
        history::lemma_bounds_of(messages, range);
        history::lemma_position_of(messages, range.first_message_id);
        history::lemma_position_of(messages, range.last_message_id);
        let bounds = history::bounds_of(messages, range)->0;
        let a = lemma_record_of(entries, bounds.0);
        let b = lemma_record_of(entries, bounds.1);
        lemma_order(entries, s, a);
        lemma_order(entries, b, s);
        lemma_order(entries, b, a);
        assert(reaches(entries, k, a, b));
    }
    if is_summarized(entries, s) {
        let (k, a, b) = choose|k: int, a: int, b: int| #[trigger]
            reaches(entries, k, a, b) && a <= s <= b;
        let range = entries[k]->CompactionEntry_0.compacted_range;
        lemma_bounds(entries, k, a, b);
        lemma_order(entries, a, s);
        lemma_order(entries, s, b);
        assert(history::covers(entries, k, place(entries, s)));
    }
}

/// The bounds of a range are the places of the messages that it reaches between.
pub proof fn lemma_bounds(entries: Seq<SessionEntryModel>, k: int, a: int, b: int)
    requires
        distinct_messages(entries),
        reaches(entries, k, a, b),
    ensures
        history::bounds_of(
            history::messages_of(entries),
            entries[k]->CompactionEntry_0.compacted_range,
        ) == Some((place(entries, a), place(entries, b))),
{
    let messages = history::messages_of(entries);
    let range = entries[k]->CompactionEntry_0.compacted_range;
    lemma_distinct(entries);
    lemma_message_at(entries, a);
    lemma_message_at(entries, b);
    lemma_order(entries, a, b);
    history::lemma_position_of(messages, range.first_message_id);
    history::lemma_position_of(messages, range.last_message_id);
}

/// A range with known ends reaches between the records of two messages.
pub proof fn lemma_reaches(entries: Seq<SessionEntryModel>, k: int) -> (r: (int, int))
    requires
        0 <= k < entries.len(),
        entries[k] is CompactionEntry,
        history::bounds_of(
            history::messages_of(entries),
            entries[k]->CompactionEntry_0.compacted_range,
        ) is Some,
    ensures
        reaches(entries, k, r.0, r.1),
{
    let messages = history::messages_of(entries);
    let range = entries[k]->CompactionEntry_0.compacted_range;
    history::lemma_bounds_of(messages, range);
    history::lemma_position_of(messages, range.first_message_id);
    history::lemma_position_of(messages, range.last_message_id);
    let bounds = history::bounds_of(messages, range)->0;
    let a = lemma_record_of(entries, bounds.0);
    let b = lemma_record_of(entries, bounds.1);
    lemma_order(entries, b, a);
    if a > b {
        lemma_order(entries, b, a);
    }
    (a, b)
}

/// How many messages stand before record `s`.
pub open spec fn place(entries: Seq<SessionEntryModel>, s: int) -> int {
    history::messages_of(entries.take(s)).len() as int
}

/// Records in order have their places in order.
pub proof fn lemma_order(entries: Seq<SessionEntryModel>, a: int, b: int)
    requires
        0 <= a < entries.len(),
        0 <= b < entries.len(),
    ensures
        a <= b ==> place(entries, a) <= place(entries, b),
        a < b && entries[a] is Message ==> place(entries, a) < place(entries, b),
    decreases b - a,
{
    if a < b {
        history::lemma_messages_of_prefix(entries, a);
        if a + 1 < b {
            lemma_order(entries, a + 1, b);
        }
    }
}

/// A record of a message is found at its place.
pub proof fn lemma_message_at(entries: Seq<SessionEntryModel>, s: int)
    requires
        0 <= s < entries.len(),
        entries[s] is Message,
    ensures
        place(entries, s) < history::messages_of(entries).len(),
        history::messages_of(entries)[place(entries, s)] == entries[s]->Message_0,
{
    lemma_message_among(entries, s, entries.len() as int);
    assert(entries.take(entries.len() as int) =~= entries);
}

proof fn lemma_message_among(entries: Seq<SessionEntryModel>, s: int, n: int)
    requires
        0 <= s < n <= entries.len(),
        entries[s] is Message,
    ensures
        place(entries, s) < history::messages_of(entries.take(n)).len(),
        history::messages_of(entries.take(n))[place(entries, s)] == entries[s]->Message_0,
    decreases n,
{
    history::lemma_messages_of_prefix(entries, n - 1);
    if s < n - 1 {
        lemma_message_among(entries, s, n - 1);
    }
}

/// Every message comes from a record at its place.
pub proof fn lemma_record_of(entries: Seq<SessionEntryModel>, p: int) -> (s: int)
    requires
        0 <= p < history::messages_of(entries).len(),
    ensures
        0 <= s < entries.len(),
        entries[s] is Message,
        place(entries, s) == p,
        history::messages_of(entries)[p] == entries[s]->Message_0,
{
    assert(entries.take(entries.len() as int) =~= entries);
    let s = lemma_record_among(entries, p, entries.len() as int);
    lemma_message_at(entries, s);
    s
}

proof fn lemma_record_among(entries: Seq<SessionEntryModel>, p: int, n: int) -> (s: int)
    requires
        0 <= n <= entries.len(),
        0 <= p < history::messages_of(entries.take(n)).len(),
    ensures
        0 <= s < n,
        entries[s] is Message,
        place(entries, s) == p,
    decreases n,
{
    if n == 0 {
        assert(entries.take(0) =~= Seq::empty());
        0
    } else {
        history::lemma_messages_of_prefix(entries, n - 1);
        if p < history::messages_of(entries.take(n - 1)).len() {
            lemma_record_among(entries, p, n - 1)
        } else {
            n - 1
        }
    }
}

/// Messages of distinct records have distinct identifiers.
pub proof fn lemma_distinct(entries: Seq<SessionEntryModel>)
    requires
        distinct_messages(entries),
    ensures
        ({
            let messages = history::messages_of(entries);
            forall|i: int, j: int|
                0 <= i < j < messages.len() ==> (#[trigger] messages[i]).id != (
                #[trigger] messages[j]).id
        }),
{
    let messages = history::messages_of(entries);
    assert forall|i: int, j: int| 0 <= i < j < messages.len() implies (#[trigger] messages[i]).id
        != (#[trigger] messages[j]).id by {
        let a = lemma_record_of(entries, i);
        let b = lemma_record_of(entries, j);
        if b <= a {
            lemma_order(entries, b, a);
        }
    }
}

} // verus!

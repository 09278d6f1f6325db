//! What holds of every active path.

use vstd::prelude::*;

use crate::protocol::session::SessionEntryModel;
use crate::protocol::LlmMessageModel;
use crate::runtime::active_path;
use crate::runtime::active_path::{ActivateSkillCallModel, PathItem};
use crate::runtime::history;

verus! {

/// Entry `s` contributes a message to the active path: a message that is not compacted,
/// the first activation of a skill, or a compaction entry whose range is known.
pub open spec fn contributes(entries: Seq<SessionEntryModel>, s: int) -> bool {
    &&& 0 <= s < entries.len()
    &&& match entries[s] {
        SessionEntryModel::Message(message) => !history::is_compacted(entries, message.id),
        SessionEntryModel::SkillActivated(_) => active_path::is_first_activation(entries, s),
        SessionEntryModel::CompactionEntry(compaction) => history::bounds_of(
            history::messages_of(entries),
            compaction.compacted_range,
        ) is Some,
        SessionEntryModel::Session { .. } => false,
    }
}

/// The message that entry `s` contributes.
pub open spec fn contribution(
    entries: Seq<SessionEntryModel>,
    calls: Seq<ActivateSkillCallModel>,
    s: int,
) -> LlmMessageModel
    recommends
        contributes(entries, s),
{
    match entries[s] {
        SessionEntryModel::Message(message) => active_path::path_message(entries, calls, message),
        SessionEntryModel::SkillActivated(skill) => active_path::skill_message(
            skill.name,
            active_path::latest_content(entries, entries.len() as int, skill.name),
        ),
        SessionEntryModel::CompactionEntry(compaction) => active_path::summary_message(compaction),
        SessionEntryModel::Session { .. } => arbitrary(),
    }
}

/// Some item comes from entry `s`.
pub open spec fn has_source(items: Seq<PathItem>, s: int) -> bool {
    exists|i: int| 0 <= i < items.len() && (#[trigger] items[i]).source == s
}

/// No two items come from the same entry.
pub open spec fn distinct_sources(items: Seq<PathItem>) -> bool {
    forall|i: int, j: int|
        0 <= i < j < items.len() ==> (#[trigger] items[i]).source != (#[trigger] items[j]).source
}

/// The first item may stand before the second: it is not younger, and of two items at the
/// same position a skill comes first.
pub open spec fn may_precede(a: PathItem, b: PathItem) -> bool {
    a.position < b.position || (a.position == b.position && (b.is_skill ==> a.is_skill))
}

/// Positions never decrease, and at each position the skills come first.
pub open spec fn in_order(items: Seq<PathItem>) -> bool {
    forall|i: int, j: int|
        0 <= i <= j < items.len() ==> may_precede(#[trigger] items[i], #[trigger] items[j])
}

/// Where entry `s` stands in time, counted in messages: behind those before it; a summary
/// stands where the oldest message of its block stood.
pub open spec fn own_place(entries: Seq<SessionEntryModel>, s: int) -> int {
    match entries[s] {
        SessionEntryModel::CompactionEntry(compaction) => (history::bounds_of(
            history::messages_of(entries),
            compaction.compacted_range,
        )->0).0,
        _ => history::messages_of(entries.take(s)).len() as int,
    }
}

/// Every item stands at the place of its entry.
pub open spec fn at_own_places(entries: Seq<SessionEntryModel>, items: Seq<PathItem>) -> bool {
    forall|i: int|
        0 <= i < items.len() ==> (#[trigger] items[i]).position == own_place(
            entries,
            items[i].source,
        )
}

/// No two messages have the same identifier.
pub open spec fn distinct_ids(entries: Seq<SessionEntryModel>) -> bool {
    let messages = history::messages_of(entries);
    forall|i: int, j: int|
        0 <= i < j < messages.len() ==> (#[trigger] messages[i]).id != (#[trigger] messages[j]).id
}

proof fn lemma_kept_sources(
    entries: Seq<SessionEntryModel>,
    calls: Seq<ActivateSkillCallModel>,
    upto: int,
)
    requires
        0 <= upto <= entries.len(),
    ensures
        ({
            let items = active_path::kept_items(entries, calls, upto, entries.len() as int);
            &&& distinct_sources(items)
            &&& forall|i: int|
                0 <= i < items.len() ==> 0 <= (#[trigger] items[i]).source < upto && contributes(
                    entries,
                    items[i].source,
                ) && !(entries[items[i].source] is CompactionEntry) && items[i].message
                    == contribution(entries, calls, items[i].source) && items[i].is_skill
                    == entries[items[i].source] is SkillActivated
            &&& forall|s: int|
                0 <= s < upto && contributes(entries, s) && !(entries[s] is CompactionEntry)
                    ==> #[trigger] has_source(items, s)
        }),
    decreases upto,
{
    if upto > 0 {
        lemma_kept_sources(entries, calls, upto - 1);
        let rest = active_path::kept_items(entries, calls, upto - 1, entries.len() as int);
        let items = active_path::kept_items(entries, calls, upto, entries.len() as int);
        assert forall|s: int|
            0 <= s < upto && contributes(entries, s) && !(entries[s] is CompactionEntry) implies
            #[trigger] has_source(items, s) by {
            if s < upto - 1 {
                assert(has_source(rest, s));
                let i = choose|i: int| 0 <= i < rest.len() && (#[trigger] rest[i]).source == s;
                assert(items[i] == rest[i]);
            } else {
                assert(items[items.len() - 1].source == s);
            }
        }
    }
}

/// Inserting an item from a new entry keeps the sources apart.
proof fn lemma_inserted(items: Seq<PathItem>, at: int, item: PathItem)
    requires
        0 <= at <= items.len(),
    ensures
        ({
            let longer = items.insert(at, item);
            &&& longer.len() == items.len() + 1
            &&& longer[at] == item
            &&& forall|i: int| 0 <= i < at ==> longer[i] == items[i]
            &&& forall|i: int| at < i < longer.len() ==> longer[i] == items[i - 1]
            &&& distinct_sources(items) && !has_source(items, item.source) ==> distinct_sources(
                longer,
            )
            &&& forall|s: int| #[trigger]
                has_source(longer, s) <==> has_source(items, s) || s == item.source
        }),
{
    let longer = items.insert(at, item);
    assert forall|s: int| #[trigger]
        has_source(longer, s) <==> has_source(items, s) || s == item.source by {
        if has_source(items, s) {
            let i = choose|i: int| 0 <= i < items.len() && (#[trigger] items[i]).source == s;
            if i < at {
                assert(longer[i].source == s);
            } else {
                assert(longer[i + 1].source == s);
            }
        }
        if s == item.source {
            assert(longer[at].source == s);
        }
        if has_source(longer, s) && s != item.source {
            let i = choose|i: int| 0 <= i < longer.len() && (#[trigger] longer[i]).source == s;
            if i < at {
                assert(items[i].source == s);
            } else {
                assert(items[i - 1].source == s);
            }
        }
    }
    if distinct_sources(items) && !has_source(items, item.source) {
        assert forall|i: int, j: int| 0 <= i < j < longer.len() implies (
        #[trigger] longer[i]).source != (#[trigger] longer[j]).source by {
            let a = if i < at { i } else { i - 1 };
            let b = if j < at { j } else { j - 1 };
            if i == at {
                assert(items[b].source != item.source);
            } else if j == at {
                assert(items[a].source != item.source);
            } else {
                assert(longer[i] == items[a]);
                assert(longer[j] == items[b]);
            }
        }
    }
}

proof fn lemma_place_at_bounds(items: Seq<PathItem>, position: int)
    ensures
        0 <= active_path::place_at(items, position) <= items.len(),
        forall|k: int|
            0 <= k < active_path::place_at(items, position) ==> active_path::is_before(
                #[trigger] items[k],
                position,
            ),
        active_path::place_at(items, position) < items.len() ==> !active_path::is_before(
            items[active_path::place_at(items, position)],
            position,
        ),
    decreases items.len(),
{
    if items.len() > 0 && active_path::is_before(items[0], position) {
        lemma_place_at_bounds(items.skip(1), position);
        assert forall|k: int|
            0 <= k < active_path::place_at(items, position) implies active_path::is_before(
            #[trigger] items[k],
            position,
        ) by {
            if k > 0 {
                assert(items.skip(1)[k - 1] == items[k]);
            }
        }
    }
}

proof fn lemma_all_sources(
    entries: Seq<SessionEntryModel>,
    calls: Seq<ActivateSkillCallModel>,
    upto: int,
)
    requires
        0 <= upto <= entries.len(),
    ensures
        ({
            let n = entries.len() as int;
            let kept = active_path::kept_items(entries, calls, n, n);
            let items = active_path::with_summaries(entries, kept, upto);
            &&& distinct_sources(items)
            &&& forall|i: int|
                0 <= i < items.len() ==> contributes(entries, (#[trigger] items[i]).source)
                    && items[i].message == contribution(entries, calls, items[i].source)
                    && items[i].is_skill == entries[items[i].source] is SkillActivated
            &&& forall|s: int| #[trigger]
                has_source(items, s) <==> contributes(entries, s) && (
                entries[s] is CompactionEntry ==> s < upto)
        }),
    decreases upto,
{
    let n = entries.len() as int;
    let kept = active_path::kept_items(entries, calls, n, n);
    let items = active_path::with_summaries(entries, kept, upto);
    if upto == 0 {
        lemma_kept_sources(entries, calls, n);
        assert forall|s: int| #[trigger] has_source(items, s) implies contributes(entries, s) && (
        entries[s] is CompactionEntry ==> s < upto) by {
            let i = choose|i: int| 0 <= i < items.len() && (#[trigger] items[i]).source == s;
            assert(contributes(entries, items[i].source));
        }
    } else {
        lemma_all_sources(entries, calls, upto - 1);
        let rest = active_path::with_summaries(entries, kept, upto - 1);
        if let SessionEntryModel::CompactionEntry(compaction) = entries[upto - 1] {
            let bounds = history::bounds_of(
                history::messages_of(entries),
                compaction.compacted_range,
            );
            if bounds is Some {
                let item = PathItem {
                    source: upto - 1,
                    position: (bounds->0).0,
                    is_skill: false,
                    message: active_path::summary_message(compaction),
                };
                let at = active_path::place_at(rest, (bounds->0).0);
                lemma_place_at_bounds(rest, (bounds->0).0);
                lemma_inserted(rest, at, item);
                assert(!has_source(rest, upto - 1));
                assert forall|i: int| 0 <= i < items.len() implies contributes(
                    entries,
                    (#[trigger] items[i]).source,
                ) && items[i].message == contribution(entries, calls, items[i].source)
                    && items[i].is_skill == entries[items[i].source] is SkillActivated by {
                    if i < at {
                        assert(items[i] == rest[i]);
                    } else if i > at {
                        assert(items[i] == rest[i - 1]);
                    }
                }
                assert forall|s: int| #[trigger]
                    has_source(items, s) <==> contributes(entries, s) && (
                    entries[s] is CompactionEntry ==> s < upto) by {
                    assert(has_source(rest, s) <==> contributes(entries, s) && (
                    entries[s] is CompactionEntry ==> s < upto - 1));
                }
            } else {
                assert forall|s: int| #[trigger]
                    has_source(items, s) <==> contributes(entries, s) && (
                    entries[s] is CompactionEntry ==> s < upto) by {
                    assert(has_source(rest, s) <==> contributes(entries, s) && (
                    entries[s] is CompactionEntry ==> s < upto - 1));
                }
            }
        } else {
            assert forall|s: int| #[trigger]
                has_source(items, s) <==> contributes(entries, s) && (
                entries[s] is CompactionEntry ==> s < upto) by {
                assert(has_source(rest, s) <==> contributes(entries, s) && (
                entries[s] is CompactionEntry ==> s < upto - 1));
            }
        }
    }
}

/// The active path holds exactly one message for each entry that contributes one (a
/// message outside every compaction range, the first activation of a skill, a compaction
/// entry with a known range), and nothing else: compacted messages are left out.
pub proof fn law_active_path_contents(
    entries: Seq<SessionEntryModel>,
    calls: Seq<ActivateSkillCallModel>,
)
    ensures
        ({
            let items = active_path::active_items(entries, calls);
            &&& active_path::active_path_given(entries, calls) == active_path::item_messages(items)
            &&& distinct_sources(items)
            &&& forall|s: int| #[trigger] has_source(items, s) <==> contributes(entries, s)
            &&& forall|i: int|
                0 <= i < items.len() ==> (#[trigger] items[i]).message == contribution(
                    entries,
                    calls,
                    items[i].source,
                ) && items[i].is_skill == entries[items[i].source] is SkillActivated
        }),
{
    lemma_all_sources(entries, calls, entries.len() as int);
}

/// The content of an activated skill stays in the active path whatever is compacted: the
/// path holds its message with the content of the latest activation.
pub proof fn law_activated_skill_survives_compaction(
    entries: Seq<SessionEntryModel>,
    calls: Seq<ActivateSkillCallModel>,
    name: Seq<char>,
)
    requires
        active_path::is_activated(entries, name),
    ensures
        active_path::active_path_given(entries, calls).contains(
            active_path::skill_message(
                name,
                active_path::latest_content(entries, entries.len() as int, name),
            ),
        ),
{
    let any = choose|i: int| active_path::activates(entries, i, name);
    let first = lemma_first_activation(entries, any, name);
    law_active_path_contents(entries, calls);
    let items = active_path::active_items(entries, calls);
    assert(has_source(items, first));
    let i = choose|i: int| 0 <= i < items.len() && (#[trigger] items[i]).source == first;
    assert(active_path::active_path_given(entries, calls)[i] == items[i].message);
}

proof fn lemma_first_activation(
    entries: Seq<SessionEntryModel>,
    i: int,
    name: Seq<char>,
) -> (first: int)
    requires
        active_path::activates(entries, i, name),
    ensures
        active_path::is_first_activation(entries, first),
        active_path::activates(entries, first, name),
    decreases i,
{
    if active_path::is_first_activation(entries, i) {
        i
    } else {
        let j = choose|j: int| 0 <= j < i && #[trigger] active_path::activates(entries, j, name);
        lemma_first_activation(entries, j, name)
    }
}

/// The position of a message with a unique identifier is its index.
proof fn lemma_own_position(entries: Seq<SessionEntryModel>, i: int)
    requires
        0 <= i < entries.len(),
        entries[i] is Message,
        distinct_ids(entries),
    ensures
        history::position_of(
            history::messages_of(entries),
            entries[i]->Message_0.id,
        ) == Some(history::messages_of(entries.take(i)).len() as int),
{
    let n = entries.len() as int;
    let messages = history::messages_of(entries);
    lemma_message_at(entries, i, n);
    assert(entries.take(n) =~= entries);
    history::lemma_position_of(messages, entries[i]->Message_0.id);
}

proof fn lemma_message_at(entries: Seq<SessionEntryModel>, i: int, n: int)
    requires
        0 <= i < n <= entries.len(),
        entries[i] is Message,
    ensures
        ({
            let at = history::messages_of(entries.take(i)).len() as int;
            let messages = history::messages_of(entries.take(n));
            at < messages.len() && messages[at] == entries[i]->Message_0
        }),
    decreases n,
{
    history::lemma_messages_of_prefix(entries, n - 1);
    if i < n - 1 {
        lemma_message_at(entries, i, n - 1);
    }
}

proof fn lemma_kept_in_order(
    entries: Seq<SessionEntryModel>,
    calls: Seq<ActivateSkillCallModel>,
    upto: int,
)
    requires
        0 <= upto <= entries.len(),
        distinct_ids(entries),
    ensures
        ({
            let items = active_path::kept_items(entries, calls, upto, entries.len() as int);
            &&& in_order(items)
            &&& at_own_places(entries, items)
            &&& forall|i: int|
                0 <= i < items.len() ==> (#[trigger] items[i]).position <= history::messages_of(
                    entries.take(upto),
                ).len() && (items[i].is_skill || items[i].position < history::messages_of(
                    entries.take(upto),
                ).len())
        }),
    decreases upto,
{
    if upto > 0 {
        lemma_kept_in_order(entries, calls, upto - 1);
        history::lemma_messages_of_prefix(entries, upto - 1);
        if entries[upto - 1] is Message {
            lemma_own_position(entries, upto - 1);
        }
    }
}

proof fn lemma_summaries_in_order(
    entries: Seq<SessionEntryModel>,
    items: Seq<PathItem>,
    upto: int,
)
    requires
        0 <= upto <= entries.len(),
        in_order(items),
        at_own_places(entries, items),
    ensures
        in_order(active_path::with_summaries(entries, items, upto)),
        at_own_places(entries, active_path::with_summaries(entries, items, upto)),
    decreases upto,
{
    if upto > 0 {
        lemma_summaries_in_order(entries, items, upto - 1);
        let rest = active_path::with_summaries(entries, items, upto - 1);
        let longer = active_path::with_summaries(entries, items, upto);
        if let SessionEntryModel::CompactionEntry(compaction) = entries[upto - 1] {
            let bounds = history::bounds_of(
                history::messages_of(entries),
                compaction.compacted_range,
            );
            if bounds is Some {
                let item = PathItem {
                    source: upto - 1,
                    position: (bounds->0).0,
                    is_skill: false,
                    message: active_path::summary_message(compaction),
                };
                let at = active_path::place_at(rest, (bounds->0).0);
                lemma_place_at_bounds(rest, (bounds->0).0);
                lemma_inserted(rest, at, item);
                assert forall|i: int, j: int| 0 <= i <= j < longer.len() implies may_precede(
                    #[trigger] longer[i],
                    #[trigger] longer[j],
                ) by {
                    let a = if i < at { i } else { i - 1 };
                    let b = if j < at { j } else { j - 1 };
                    if i < at && j == at {
                        assert(active_path::is_before(rest[i], (bounds->0).0));
                    } else if i == at && j > at {
                        assert(may_precede(rest[at], rest[b]));
                    } else if i != at && j != at {
                        assert(longer[i] == rest[a]);
                        assert(longer[j] == rest[b]);
                    }
                }
                assert forall|i: int| 0 <= i < longer.len() implies (#[trigger] longer[i]).position
                    == own_place(entries, longer[i].source) by {
                    if i < at {
                        assert(longer[i] == rest[i]);
                    } else if i > at {
                        assert(longer[i] == rest[i - 1]);
                    }
                }
            }
        }
    }
}

/// When message identifiers are unique, the active path is in chronological order: each
/// message at its own place, each skill before the message that follows its first
/// activation and before a summary that stands for it, each summary at the place of the
/// oldest message of its block.
pub proof fn law_active_path_is_chronological(
    entries: Seq<SessionEntryModel>,
    calls: Seq<ActivateSkillCallModel>,
)
    requires
        distinct_ids(entries),
    ensures
        in_order(active_path::active_items(entries, calls)),
        at_own_places(entries, active_path::active_items(entries, calls)),
{
    let n = entries.len() as int;
    lemma_kept_in_order(entries, calls, n);
    lemma_summaries_in_order(entries, active_path::kept_items(entries, calls, n, n), n);
}

} // verus!

//! What the active path shows of the records of a session.

use vstd::prelude::*;

use crate::json;
use crate::protocol::session::{MessageBlockModel, SessionEntryModel};
use crate::protocol::{LlmMessageModel, MessageRole};
use crate::runtime::active_path;
use crate::runtime::active_path::ActivateSkillCallModel;
use crate::runtime::active_path_laws;
use crate::runtime::history;
use crate::runtime::history_laws;
use crate::sequences;

verus! {

/// Record `j` activates the skill `name` with the given content, and no later record
/// activates it again.
pub open spec fn is_latest(
    entries: Seq<SessionEntryModel>,
    j: int,
    name: Seq<char>,
    content: Seq<char>,
) -> bool {
    &&& 0 <= j < entries.len()
    &&& entries[j] matches SessionEntryModel::SkillActivated(skill)
    &&& skill.name == name
    &&& skill.content == content
    &&& forall|k: int|
        j < k < entries.len() ==> !(#[trigger] entries[k] matches SessionEntryModel::SkillActivated(
            later,
        ) && later.name == name)
}

/// Some record activates the skill `name`.
pub open spec fn has_record(entries: Seq<SessionEntryModel>, name: Seq<char>) -> bool {
    exists|k: int|
        0 <= k < entries.len() && (#[trigger] entries[k] matches SessionEntryModel::SkillActivated(
            skill,
        ) && skill.name == name)
}

/// Call `j` is the last one with the identifier `call_id`.
pub open spec fn is_last_call(
    calls: Seq<ActivateSkillCallModel>,
    j: int,
    call_id: Seq<char>,
) -> bool {
    &&& 0 <= j < calls.len()
    &&& calls[j].call_id == call_id
    &&& forall|k: int| j < k < calls.len() ==> (#[trigger] calls[k]).call_id != call_id
}

/// The message with the tool call identifier `id` answers a call that activates a skill with
/// a record, the skill `name`.
pub open spec fn answers(
    entries: Seq<SessionEntryModel>,
    calls: Seq<ActivateSkillCallModel>,
    id: Option<Seq<char>>,
    name: Seq<char>,
) -> bool {
    &&& id is Some
    &&& has_record(entries, name)
    &&& exists|j: int| #[trigger] is_last_call(calls, j, id->0) && calls[j].skill_name == name
}

/// What the path shows of record `s`. A message keeps its role, its body and the call that it
/// answers; only the body of a result that answers the activation of a skill with a record is
/// replaced by a pointer to the skill. An activation is a user message with the content of
/// the latest activation of the skill. A compaction entry is its summary.
pub open spec fn shows(
    entries: Seq<SessionEntryModel>,
    calls: Seq<ActivateSkillCallModel>,
    s: int,
    message: LlmMessageModel,
) -> bool {
    match entries[s] {
        SessionEntryModel::Message(own) => {
            &&& message.role == own.role
            &&& message.tool_call_id == own.tool_call_id
            &&& (forall|name: Seq<char>| !#[trigger] answers(entries, calls, own.tool_call_id, name))
                ==> message.body == own.body
            &&& forall|name: Seq<char>| #[trigger]
                answers(entries, calls, own.tool_call_id, name) ==> message.body == seq![
                    MessageBlockModel::Text {
                        text: "Skill `"@ + name
                            + "` activated; its instructions are provided in the conversation."@,
                    },
                ]
        },
        SessionEntryModel::SkillActivated(skill) => {
            &&& message.role == MessageRole::Developer
            &&& message.tool_call_id is None
            &&& forall|j: int, content: Seq<char>| #[trigger]
                is_latest(entries, j, skill.name, content) ==> message.body == seq![
                    MessageBlockModel::Text {
                        text: "Skill `"@ + skill.name
                            + "` has been activated. Follow these instructions:\n\n"@ + content,
                    },
                ]
        },
        SessionEntryModel::CompactionEntry(entry) => {
            &&& message.role == MessageRole::Summary
            &&& message.tool_call_id is None
            &&& message.body == seq![MessageBlockModel::Text { text: entry.summary }]
        },
        SessionEntryModel::Session { .. } => false,
    }
}

/// The path shows something of record `s`: of a message that no compaction entry reaches
/// over, of the first activation of a skill, of a compaction entry whose ends are known.
pub open spec fn is_on_path(entries: Seq<SessionEntryModel>, s: int) -> bool {
    &&& 0 <= s < entries.len()
    &&& match entries[s] {
        SessionEntryModel::Message(_) => !history_laws::is_summarized(entries, s),
        SessionEntryModel::SkillActivated(skill) => forall|k: int|
            0 <= k < s ==> !(#[trigger] entries[k] matches SessionEntryModel::SkillActivated(earlier)
                && earlier.name == skill.name),
        SessionEntryModel::CompactionEntry(_) => exists|a: int, b: int|
            history_laws::reaches(entries, s, a, b),
        SessionEntryModel::Session { .. } => false,
    }
}

/// The number of messages among the first `n` records.
pub open spec fn messages_before(entries: Seq<SessionEntryModel>, n: int) -> int {
    entries.take(n).filter(|entry: SessionEntryModel| entry is Message).len() as int
}

/// Record `s` belongs behind `time` messages: a message or an activation behind those before
/// it, a compaction entry where the oldest message that it reaches over stood.
pub open spec fn belongs_at(entries: Seq<SessionEntryModel>, s: int, time: int) -> bool {
    if entries[s] is CompactionEntry {
        exists|a: int, b: int| #[trigger]
            history_laws::reaches(entries, s, a, b) && time == messages_before(entries, a)
    } else {
        time == messages_before(entries, s)
    }
}

/// The active path shows each record that is on it exactly once, and nothing else, in the
/// order of time; at one time, activations come first.
pub proof fn law_path_shows_the_records(
    entries: Seq<SessionEntryModel>,
    calls: Seq<ActivateSkillCallModel>,
) -> (r: (Seq<int>, Seq<int>))
    requires
        history_laws::distinct_messages(entries),
    ensures
        ({
            let path = active_path::active_path_given(entries, calls);
            let (records, times) = r;
            &&& records.len() == path.len()
            &&& times.len() == path.len()
            &&& records.no_duplicates()
            &&& forall|s: int| #[trigger] records.contains(s) <==> is_on_path(entries, s)
            &&& forall|i: int|
                0 <= i < path.len() ==> shows(entries, calls, records[i], #[trigger] path[i])
            &&& forall|i: int|
                0 <= i < path.len() ==> belongs_at(entries, #[trigger] records[i], times[i])
            &&& forall|i: int, j: int|
                0 <= i < j < path.len() ==> {
                    ||| #[trigger] times[i] < #[trigger] times[j]
                    ||| times[i] == times[j] && (entries[records[j]] is SkillActivated
                        ==> entries[records[i]] is SkillActivated)
                }
        }),
{
    let items = active_path::active_items(entries, calls);
    let path = active_path::active_path_given(entries, calls);
    let records = Seq::new(path.len(), |i: int| items[i].source);
    let times = Seq::new(path.len(), |i: int| items[i].position);
    active_path_laws::law_active_path_contents(entries, calls);
    history_laws::lemma_distinct(entries);
    active_path_laws::law_active_path_is_chronological(entries, calls);
    assert forall|s: int| #[trigger] records.contains(s) <==> is_on_path(entries, s) by {
        assert(active_path_laws::has_source(items, s) <==> active_path_laws::contributes(
            entries,
            s,
        ));
        if records.contains(s) {
            let i = choose|i: int| 0 <= i < records.len() && records[i] == s;
            assert(items[i].source == s);
        }
        if active_path_laws::has_source(items, s) {
            let i = choose|i: int| 0 <= i < items.len() && (#[trigger] items[i]).source == s;
            assert(records[i] == s);
        }
        lemma_on_path(entries, s);
    }
    assert forall|i: int| 0 <= i < path.len() implies shows(
        entries,
        calls,
        records[i],
        #[trigger] path[i],
    ) by {
        let s = items[i].source;
        assert(path[i] == items[i].message);
        assert(active_path_laws::has_source(items, s));
        lemma_shows(entries, calls, s);
    }
    assert forall|i: int| 0 <= i < path.len() implies belongs_at(
        entries,
        #[trigger] records[i],
        times[i],
    ) by {
        let s = items[i].source;
        assert(active_path_laws::has_source(items, s));
        assert(items[i].position == active_path_laws::own_place(entries, s));
        if entries[s] is CompactionEntry {
            let (a, b) = history_laws::lemma_reaches(entries, s);
            history_laws::lemma_bounds(entries, s, a, b);
            lemma_place(entries, a);
        } else {
            lemma_place(entries, s);
        }
    }
    assert forall|i: int, j: int| 0 <= i < j < path.len() implies {
        ||| #[trigger] times[i] < #[trigger] times[j]
        ||| times[i] == times[j] && (entries[records[j]] is SkillActivated
            ==> entries[records[i]] is SkillActivated)
    } by {
        assert(active_path_laws::may_precede(items[i], items[j]));
        assert(items[i].is_skill == entries[items[i].source] is SkillActivated);
        assert(items[j].is_skill == entries[items[j].source] is SkillActivated);
    }
    assert forall|i: int, j: int| 0 <= i < records.len() && 0 <= j < records.len() && i
        != j implies records[i] != records[j] by {
        if i < j {
            assert(items[i].source != items[j].source);
        } else {
            assert(items[j].source != items[i].source);
        }
    }
    (records, times)
}

/// Every message that is not compacted contributes one message to the active path, which keeps
/// its role and the call that it answers, and its body unless it answers the activation of a
/// skill with a record. This holds whatever identifiers the messages have.
pub proof fn law_messages_stay_as_they_are(
    entries: Seq<SessionEntryModel>,
    calls: Seq<ActivateSkillCallModel>,
) -> (records: Seq<int>)
    ensures
        ({
            let path = active_path::active_path_given(entries, calls);
            &&& records.len() == path.len()
            &&& records.no_duplicates()
            &&& forall|i: int|
                0 <= i < path.len() ==> 0 <= #[trigger] records[i] && records[i] < entries.len()
            &&& forall|i: int|
                0 <= i < path.len() ==> shows(entries, calls, records[i], #[trigger] path[i])
            &&& forall|s: int|
                0 <= s < entries.len() && #[trigger] entries[s] is Message ==> (records.contains(s)
                    <==> !history::is_compacted(entries, entries[s]->Message_0.id))
        }),
{
    let items = active_path::active_items(entries, calls);
    let path = active_path::active_path_given(entries, calls);
    let records = Seq::new(path.len(), |i: int| items[i].source);
    active_path_laws::law_active_path_contents(entries, calls);
    assert forall|i: int| 0 <= i < path.len() implies 0 <= #[trigger] records[i] && records[i]
        < entries.len() by {
        assert(active_path_laws::has_source(items, items[i].source));
    }
    assert forall|i: int| 0 <= i < path.len() implies shows(
        entries,
        calls,
        records[i],
        #[trigger] path[i],
    ) by {
        let s = items[i].source;
        assert(path[i] == items[i].message);
        assert(active_path_laws::has_source(items, s));
        lemma_shows(entries, calls, s);
    }
    assert forall|s: int| 0 <= s < entries.len() && #[trigger] entries[s] is Message implies (
    records.contains(s) <==> !history::is_compacted(entries, entries[s]->Message_0.id)) by {
        assert(active_path_laws::has_source(items, s) <==> active_path_laws::contributes(
            entries,
            s,
        ));
        if records.contains(s) {
            let i = choose|i: int| 0 <= i < records.len() && records[i] == s;
            assert(items[i].source == s);
        }
        if active_path_laws::has_source(items, s) {
            let i = choose|i: int| 0 <= i < items.len() && (#[trigger] items[i]).source == s;
            assert(records[i] == s);
        }
    }
    assert forall|i: int, j: int| 0 <= i < records.len() && 0 <= j < records.len() && i
        != j implies records[i] != records[j] by {
        if i < j {
            assert(items[i].source != items[j].source);
        } else {
            assert(items[j].source != items[i].source);
        }
    }
    records
}

proof fn lemma_place(entries: Seq<SessionEntryModel>, n: int)
    requires
        0 <= n <= entries.len(),
    ensures
        history_laws::place(entries, n) == messages_before(entries, n),
    decreases n,
{
    let first = entries.take(n);
    sequences::lemma_filter_last(first, |entry: SessionEntryModel| entry is Message);
    if n > 0 {
        assert(first.drop_last() =~= entries.take(n - 1));
        lemma_place(entries, n - 1);
    }
}

proof fn lemma_on_path(entries: Seq<SessionEntryModel>, s: int)
    requires
        history_laws::distinct_messages(entries),
    ensures
        active_path_laws::contributes(entries, s) <==> is_on_path(entries, s),
{
    if 0 <= s < entries.len() {
        match entries[s] {
            SessionEntryModel::Message(_) => {
                history_laws::law_compacted_messages_are_summarized(entries, s);
            },
            SessionEntryModel::SkillActivated(skill) => {
                if active_path::is_first_activation(entries, s) {
                    assert forall|k: int| 0 <= k < s implies !(
                    #[trigger] entries[k] matches SessionEntryModel::SkillActivated(earlier)
                        && earlier.name == skill.name) by {
                        assert(!active_path::activates(entries, k, skill.name));
                    }
                }
                if is_on_path(entries, s) {
                    assert forall|k: int| 0 <= k < s implies !#[trigger] active_path::activates(
                        entries,
                        k,
                        skill.name,
                    ) by {
                        assert(!(entries[k] matches SessionEntryModel::SkillActivated(earlier)
                            && earlier.name == skill.name));
                    }
                }
            },
            SessionEntryModel::CompactionEntry(_) => {
                if active_path_laws::contributes(entries, s) {
                    let (a, b) = history_laws::lemma_reaches(entries, s);
                    assert(history_laws::reaches(entries, s, a, b));
                }
                if is_on_path(entries, s) {
                    let (a, b) = choose|a: int, b: int| history_laws::reaches(entries, s, a, b);
                    history_laws::lemma_bounds(entries, s, a, b);
                }
            },
            SessionEntryModel::Session { .. } => {},
        }
    }
}

proof fn lemma_call_target(calls: Seq<ActivateSkillCallModel>, call_id: Seq<char>)
    ensures
        forall|j: int| #[trigger]
            is_last_call(calls, j, call_id) ==> active_path::call_target(calls, call_id) == Some(
                calls[j].skill_name,
            ),
        active_path::call_target(calls, call_id) is Some ==> exists|j: int| #[trigger]
            is_last_call(calls, j, call_id),
    decreases calls.len(),
{
    if calls.len() > 0 {
        let rest = calls.drop_last();
        let n = calls.len() - 1;
        lemma_call_target(rest, call_id);
        if calls.last().call_id == call_id {
            assert(is_last_call(calls, n, call_id));
            assert forall|j: int| #[trigger] is_last_call(calls, j, call_id) implies j == n by {
                if j < n {
                    assert(calls[n].call_id != call_id);
                }
            }
        } else {
            assert forall|j: int| #[trigger] is_last_call(calls, j, call_id) implies is_last_call(
                rest,
                j,
                call_id,
            ) && calls[j] == rest[j] by {
                assert forall|k: int| j < k < rest.len() implies (#[trigger] rest[k]).call_id
                    != call_id by {
                    assert(rest[k] == calls[k]);
                }
            }
            if active_path::call_target(calls, call_id) is Some {
                let j = choose|j: int| #[trigger] is_last_call(rest, j, call_id);
                assert forall|k: int| j < k < calls.len() implies (#[trigger] calls[k]).call_id
                    != call_id by {
                    if k < n {
                        assert(rest[k] == calls[k]);
                    }
                }
                assert(is_last_call(calls, j, call_id));
            }
        }
    }
}

proof fn lemma_latest(
    entries: Seq<SessionEntryModel>,
    j: int,
    name: Seq<char>,
    content: Seq<char>,
    seen: int,
)
    requires
        is_latest(entries, j, name, content),
        j < seen <= entries.len(),
    ensures
        active_path::latest_content(entries, seen, name) == content,
    decreases seen,
{
    if seen - 1 > j {
        assert(!(entries[seen - 1] matches SessionEntryModel::SkillActivated(later) && later.name
            == name));
        lemma_latest(entries, j, name, content, seen - 1);
    }
}

proof fn lemma_shows(
    entries: Seq<SessionEntryModel>,
    calls: Seq<ActivateSkillCallModel>,
    s: int,
)
    requires
        active_path_laws::contributes(entries, s),
    ensures
        shows(entries, calls, s, active_path_laws::contribution(entries, calls, s)),
{
    match entries[s] {
        SessionEntryModel::Message(own) => {
            let message = active_path_laws::contribution(entries, calls, s);
            if let Some(id) = own.tool_call_id {
                lemma_call_target(calls, id);
                assert forall|name: Seq<char>| has_record(entries, name)
                    == #[trigger] active_path::is_activated(entries, name) by {
                    if has_record(entries, name) {
                        let k = choose|k: int|
                            0 <= k < entries.len() && (
                            #[trigger] entries[k] matches SessionEntryModel::SkillActivated(skill)
                                && skill.name == name);
                        assert(active_path::activates(entries, k, name));
                    }
                    if active_path::is_activated(entries, name) {
                        let k = choose|k: int| active_path::activates(entries, k, name);
                        assert(entries[k] matches SessionEntryModel::SkillActivated(skill)
                            && skill.name == name);
                    }
                }
                if let Some(name) = active_path::answered_activation(entries, calls, own) {
                    let j = choose|j: int| #[trigger] is_last_call(calls, j, id);
                    assert(active_path::is_activated(entries, name));
                    assert(answers(entries, calls, own.tool_call_id, name));
                }
                assert forall|name: Seq<char>| #[trigger]
                    answers(entries, calls, own.tool_call_id, name) implies message.body == seq![
                    MessageBlockModel::Text {
                        text: "Skill `"@ + name
                            + "` activated; its instructions are provided in the conversation."@,
                    },
                ] by {
                    assert(active_path::is_activated(entries, name));
                }
            }
        },
        SessionEntryModel::SkillActivated(skill) => {
            let message = active_path_laws::contribution(entries, calls, s);
            assert forall|j: int, content: Seq<char>| #[trigger]
                is_latest(entries, j, skill.name, content) implies message.body == seq![
                MessageBlockModel::Text {
                    text: "Skill `"@ + skill.name
                        + "` has been activated. Follow these instructions:\n\n"@ + content,
                },
            ] by {
                lemma_latest(entries, j, skill.name, content, entries.len() as int);
            }
        },
        _ => {},
    }
}

/// The history that goes into the model context is the active path, message by message, each
/// under the identifier of the record that it shows.
pub proof fn law_history_is_the_path(
    entries: Seq<SessionEntryModel>,
    calls: Seq<ActivateSkillCallModel>,
)
    ensures
        ({
            let nodes = active_path::active_history_given(entries, calls);
            let path = active_path::active_path_given(entries, calls);
            &&& nodes.len() == path.len()
            &&& forall|i: int|
                0 <= i < nodes.len() ==> {
                    &&& (#[trigger] nodes[i]).role == path[i].role
                    &&& nodes[i].body == path[i].body
                    &&& nodes[i].tool_call_id == path[i].tool_call_id
                }
            &&& forall|i: int|
                0 <= i < nodes.len() && (#[trigger] nodes[i]).role == MessageRole::Summary ==> {
                    ||| exists|s: int|
                        0 <= s < entries.len() && (
                        #[trigger] entries[s] matches SessionEntryModel::CompactionEntry(entry)
                            && nodes[i].id == entry.id && nodes[i].body == seq![
                            MessageBlockModel::Text { text: entry.summary },
                        ])
                    ||| exists|s: int|
                        0 <= s < entries.len() && (
                        #[trigger] entries[s] matches SessionEntryModel::Message(own) && nodes[i].id
                            == own.id && own.role == MessageRole::Summary)
                }
        }),
{
    let items = active_path::active_items(entries, calls);
    let nodes = active_path::active_history_given(entries, calls);
    active_path_laws::law_active_path_contents(entries, calls);
    assert forall|i: int|
        0 <= i < nodes.len() && (#[trigger] nodes[i]).role == MessageRole::Summary implies {
        ||| exists|s: int|
            0 <= s < entries.len() && (
            #[trigger] entries[s] matches SessionEntryModel::CompactionEntry(entry) && nodes[i].id
                == entry.id && nodes[i].body == seq![
                MessageBlockModel::Text { text: entry.summary },
            ])
        ||| exists|s: int|
            0 <= s < entries.len() && (#[trigger] entries[s] matches SessionEntryModel::Message(own)
                && nodes[i].id == own.id && own.role == MessageRole::Summary)
    } by {
        let s = items[i].source;
        assert(active_path_laws::has_source(items, s));
        assert(items[i].message == active_path_laws::contribution(entries, calls, s));
        assert(0 <= s < entries.len());
        assert(entries[s] == entries[s]);
    }
}

/// The calls that activate skills are all tool calls of all messages, in order, that go to
/// `activate_skill` and whose arguments name a skill.
pub proof fn law_activate_skill_calls_are_found(entries: Seq<SessionEntryModel>)
    ensures
        active_path::activate_skill_calls(entries) == entries.flat_map(
            |entry: SessionEntryModel| calls_in_record(entry),
        ),
    decreases entries.len(),
{
    sequences::lemma_flat_map_last(entries, |entry: SessionEntryModel| calls_in_record(entry));
    if entries.len() > 0 {
        law_activate_skill_calls_are_found(entries.drop_last());
        if let SessionEntryModel::Message(message) = entries.last() {
            lemma_body_calls(message.body);
        } else {
            let rest = active_path::activate_skill_calls(entries.drop_last());
            assert(rest + Seq::<ActivateSkillCallModel>::empty() =~= rest);
        }
    }
}

/// The calls of one record that activate skills.
pub open spec fn calls_in_record(entry: SessionEntryModel) -> Seq<ActivateSkillCallModel> {
    match entry {
        SessionEntryModel::Message(message) => message.body.filter_map(
            |block: MessageBlockModel|
                match block {
                    MessageBlockModel::ToolCall(call) => if call.name != "activate_skill"@ {
                        None
                    } else {
                        match json::json_string_member(call.arguments, "name"@) {
                            Ok(Some(name)) => Some(
                                ActivateSkillCallModel { call_id: call.id, skill_name: name },
                            ),
                            _ => None,
                        }
                    },
                    MessageBlockModel::Text { .. } => None,
                },
        ),
        _ => Seq::empty(),
    }
}

proof fn lemma_body_calls(body: Seq<MessageBlockModel>)
    ensures
        active_path::body_calls(body) == body.filter_map(
            |block: MessageBlockModel|
                match block {
                    MessageBlockModel::ToolCall(call) => if call.name != "activate_skill"@ {
                        None
                    } else {
                        match json::json_string_member(call.arguments, "name"@) {
                            Ok(Some(name)) => Some(
                                ActivateSkillCallModel { call_id: call.id, skill_name: name },
                            ),
                            _ => None,
                        }
                    },
                    MessageBlockModel::Text { .. } => None,
                },
        ),
    decreases body.len(),
{
    if body.len() > 0 {
        let rest = active_path::body_calls(body.drop_last());
        lemma_body_calls(body.drop_last());
        if let Some(call) = active_path::block_call(body.last()) {
            assert(rest.push(call) =~= rest + seq![call]);
        }
    }
}

/// The active path and the history of a session are made with the calls of its own records.
pub proof fn law_path_is_made_with_its_own_calls(entries: Seq<SessionEntryModel>)
    ensures
        active_path::active_path(entries) == active_path::active_path_given(
            entries,
            entries.flat_map(|entry: SessionEntryModel| calls_in_record(entry)),
        ),
        active_path::active_history(entries) == active_path::active_history_given(
            entries,
            entries.flat_map(|entry: SessionEntryModel| calls_in_record(entry)),
        ),
{
    law_activate_skill_calls_are_found(entries);
}

} // verus!

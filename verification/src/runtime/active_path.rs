//! Active-path reconstruction from persisted session entries.
//!
//! The active path is the ordered subset of a session's history that the runtime uses
//! when it builds the model context of the next turn. Compaction entries summarize older
//! messages and take their place in the active path while the original messages remain
//! persisted.
//!
//! Activated skills are injected as synthetic user-role messages at the position of their
//! first activation record, with the content of the latest one. Compaction ranges only
//! reference persisted message identifiers, so these messages are never compacted. Tool
//! results of `activate_skill` calls are replaced with a short pointer so that the skill
//! content is not duplicated.

use vstd::hash_map::StringHashMap;
use vstd::hash_set::StringHashSet;
use vstd::prelude::*;

use crate::json;
use crate::protocol::session;
use crate::protocol::session::{
    CompactionEntry, CompactionEntryModel, Message, MessageBlock, MessageBlockModel,
    MessageBody, MessageModel, SessionEntry, SessionEntryModel,
};
use crate::protocol::{ActivatedSkill, LlmMessage, LlmMessageModel, MessageRole};
use crate::runtime::history;
use crate::runtime::history::MessageIndex;
use crate::text;

verus! {

/// The skill that an `activate_skill` tool call activates.
#[derive(Debug, PartialEq, Eq)]
pub struct ActivateSkillCall {
    /// Identifier of the tool call.
    pub call_id: String,
    /// Name of the skill.
    pub skill_name: String,
}

/// What an [`ActivateSkillCall`] holds.
pub struct ActivateSkillCallModel {
    pub call_id: Seq<char>,
    pub skill_name: Seq<char>,
}

impl DeepView for ActivateSkillCall {
    type V = ActivateSkillCallModel;

    open spec fn deep_view(&self) -> ActivateSkillCallModel {
        ActivateSkillCallModel { call_id: self.call_id@, skill_name: self.skill_name@ }
    }
}

/// The activation that one block asks for, if it is an `activate_skill` call whose
/// arguments name a skill.
pub open spec fn block_call(block: MessageBlockModel) -> Option<ActivateSkillCallModel> {
    match block {
        MessageBlockModel::ToolCall(call) if call.name == "activate_skill"@ =>
            match json::json_string_member(call.arguments, "name"@) {
                Ok(Some(name)) => Some(
                    ActivateSkillCallModel { call_id: call.id, skill_name: name },
                ),
                _ => None,
            },
        _ => None,
    }
}

/// The activations that a body asks for, in order.
pub open spec fn body_calls(blocks: Seq<MessageBlockModel>) -> Seq<ActivateSkillCallModel>
    decreases blocks.len(),
{
    if blocks.len() == 0 {
        Seq::empty()
    } else {
        let rest = body_calls(blocks.drop_last());
        match block_call(blocks.last()) {
            Some(call) => rest.push(call),
            None => rest,
        }
    }
}

/// The activations that the messages among `entries` ask for, in order.
pub open spec fn activate_skill_calls(entries: Seq<SessionEntryModel>) -> Seq<
    ActivateSkillCallModel,
>
    decreases entries.len(),
{
    if entries.len() == 0 {
        Seq::empty()
    } else {
        let rest = activate_skill_calls(entries.drop_last());
        match entries.last() {
            SessionEntryModel::Message(message) => rest + body_calls(message.body),
            _ => rest,
        }
    }
}

/// The skill of the latest call with identifier `call_id`.
pub open spec fn call_target(calls: Seq<ActivateSkillCallModel>, call_id: Seq<char>) -> Option<
    Seq<char>,
>
    decreases calls.len(),
{
    if calls.len() == 0 {
        None
    } else if calls.last().call_id == call_id {
        Some(calls.last().skill_name)
    } else {
        call_target(calls.drop_last(), call_id)
    }
}

/// Entry `i` records an activation of the skill `name`.
pub open spec fn activates(entries: Seq<SessionEntryModel>, i: int, name: Seq<char>) -> bool {
    &&& 0 <= i < entries.len()
    &&& entries[i] matches SessionEntryModel::SkillActivated(skill)
    &&& skill.name == name
}

/// The skill `name` has an activation record.
pub open spec fn is_activated(entries: Seq<SessionEntryModel>, name: Seq<char>) -> bool {
    exists|i: int| activates(entries, i, name)
}

/// Entry `i` is the first activation record of its skill.
pub open spec fn is_first_activation(entries: Seq<SessionEntryModel>, i: int) -> bool {
    &&& 0 <= i < entries.len()
    &&& entries[i] matches SessionEntryModel::SkillActivated(skill)
    &&& forall|j: int| 0 <= j < i ==> !#[trigger] activates(entries, j, skill.name)
}

/// The content of the latest activation record of `name` among the first `seen` entries.
pub open spec fn latest_content(
    entries: Seq<SessionEntryModel>,
    seen: int,
    name: Seq<char>,
) -> Seq<char>
    decreases seen,
{
    if seen <= 0 {
        Seq::empty()
    } else {
        match entries[seen - 1] {
            SessionEntryModel::SkillActivated(skill) if skill.name == name => skill.content,
            _ => latest_content(entries, seen - 1, name),
        }
    }
}

/// The text that stands for an `activate_skill` tool result.
pub open spec fn pointer_text(name: Seq<char>) -> Seq<char> {
    "Skill `"@ + name + "` activated; its instructions are provided in the conversation."@
}

/// The text of an activated skill.
pub open spec fn skill_text(name: Seq<char>, content: Seq<char>) -> Seq<char> {
    "Skill `"@ + name + "` has been activated. Follow these instructions:\n\n"@ + content
}

/// The synthetic user-role message of an activated skill.
pub open spec fn skill_message(name: Seq<char>, content: Seq<char>) -> LlmMessageModel {
    LlmMessageModel {
        role: MessageRole::Developer,
        body: session::text_body(skill_text(name, content)),
        tool_call_id: None,
    }
}

/// The message of a compaction entry.
pub open spec fn summary_message(compaction: CompactionEntryModel) -> LlmMessageModel {
    LlmMessageModel {
        role: MessageRole::Summary,
        body: session::text_body(compaction.summary),
        tool_call_id: None,
    }
}

/// The message answers an `activate_skill` call for a skill with an activation record;
/// gives the name of the skill.
pub open spec fn answered_activation(
    entries: Seq<SessionEntryModel>,
    calls: Seq<ActivateSkillCallModel>,
    message: MessageModel,
) -> Option<Seq<char>> {
    match message.tool_call_id {
        Some(call_id) => match call_target(calls, call_id) {
            Some(name) if is_activated(entries, name) => Some(name),
            _ => None,
        },
        None => None,
    }
}

/// What the model context holds of a persisted message.
pub open spec fn path_message(
    entries: Seq<SessionEntryModel>,
    calls: Seq<ActivateSkillCallModel>,
    message: MessageModel,
) -> LlmMessageModel {
    LlmMessageModel {
        role: message.role,
        body: match answered_activation(entries, calls, message) {
            Some(name) => session::text_body(pointer_text(name)),
            None => message.body,
        },
        tool_call_id: message.tool_call_id,
    }
}

/// One message of the active path, with the entry it comes from and its place among all
/// messages of the session. A skill at a position stands before the message there.
pub struct PathItem {
    pub source: int,
    pub position: int,
    pub is_skill: bool,
    pub message: LlmMessageModel,
}

/// The messages and skills of the first `upto` entries that are part of the active path,
/// with skill contents as of the first `seen` entries.
pub open spec fn kept_items(
    entries: Seq<SessionEntryModel>,
    calls: Seq<ActivateSkillCallModel>,
    upto: int,
    seen: int,
) -> Seq<PathItem>
    decreases upto,
{
    if upto <= 0 {
        Seq::empty()
    } else {
        let rest = kept_items(entries, calls, upto - 1, seen);
        match entries[upto - 1] {
            SessionEntryModel::Message(message) => if history::is_compacted(entries, message.id) {
                rest
            } else {
                rest.push(
                    PathItem {
                        source: upto - 1,
                        position: history::position_of(
                            history::messages_of(entries),
                            message.id,
                        )->0,
                        is_skill: false,
                        message: path_message(entries, calls, message),
                    },
                )
            },
            SessionEntryModel::SkillActivated(skill) => if is_first_activation(entries, upto - 1) {
                rest.push(
                    PathItem {
                        source: upto - 1,
                        position: history::messages_of(entries.take(upto - 1)).len() as int,
                        is_skill: true,
                        message: skill_message(
                            skill.name,
                            latest_content(entries, seen, skill.name),
                        ),
                    },
                )
            } else {
                rest
            },
            _ => rest,
        }
    }
}

/// The item stands before the message at `position`: it is older, or it is a skill that was
/// activated between that message and the one before it.
pub open spec fn is_before(item: PathItem, position: int) -> bool {
    item.position < position || (item.position == position && item.is_skill)
}

/// Index of the first item that does not stand before the message at `position`, or the
/// number of items.
pub open spec fn place_at(items: Seq<PathItem>, position: int) -> int
    decreases items.len(),
{
    if items.len() == 0 || !is_before(items[0], position) {
        0
    } else {
        1 + place_at(items.skip(1), position)
    }
}

/// `items` with the summaries of the first `upto` entries, each at the place of the oldest
/// message of the block it stands for: behind the skills that were activated before that
/// message.
pub open spec fn with_summaries(
    entries: Seq<SessionEntryModel>,
    items: Seq<PathItem>,
    upto: int,
) -> Seq<PathItem>
    decreases upto,
{
    if upto <= 0 {
        items
    } else {
        let rest = with_summaries(entries, items, upto - 1);
        match entries[upto - 1] {
            SessionEntryModel::CompactionEntry(compaction) => match history::bounds_of(
                history::messages_of(entries),
                compaction.compacted_range,
            ) {
                Some(bounds) => rest.insert(
                    place_at(rest, bounds.0),
                    PathItem {
                        source: upto - 1,
                        position: bounds.0,
                        is_skill: false,
                        message: summary_message(compaction),
                    },
                ),
                None => rest,
            },
            _ => rest,
        }
    }
}

/// The active path of `entries`, item by item.
pub open spec fn active_items(
    entries: Seq<SessionEntryModel>,
    calls: Seq<ActivateSkillCallModel>,
) -> Seq<PathItem> {
    let n = entries.len() as int;
    with_summaries(entries, kept_items(entries, calls, n, n), n)
}

/// The messages of path items.
pub open spec fn item_messages(items: Seq<PathItem>) -> Seq<LlmMessageModel> {
    items.map_values(|item: PathItem| item.message)
}

/// The identifier of the record at `s`: that of a message or compaction entry, the name of
/// a skill.
pub open spec fn source_id(entries: Seq<SessionEntryModel>, s: int) -> Seq<char> {
    match entries[s] {
        SessionEntryModel::Session { id, .. } => id,
        SessionEntryModel::Message(message) => message.id,
        SessionEntryModel::SkillActivated(skill) => skill.name,
        SessionEntryModel::CompactionEntry(compaction) => compaction.id,
    }
}

/// A path item as a history node, with the identifier of the record it comes from.
pub open spec fn item_node(entries: Seq<SessionEntryModel>, item: PathItem) -> MessageModel {
    MessageModel {
        id: source_id(entries, item.source),
        parent_id: None,
        role: item.message.role,
        tool_call_id: item.message.tool_call_id,
        body: item.message.body,
    }
}

/// Path items as history nodes.
pub open spec fn item_nodes(
    entries: Seq<SessionEntryModel>,
    items: Seq<PathItem>,
) -> Seq<MessageModel> {
    items.map_values(|item: PathItem| item_node(entries, item))
}

/// The active path of `entries` as history nodes, given the skill that each
/// `activate_skill` call names.
pub open spec fn active_history_given(
    entries: Seq<SessionEntryModel>,
    calls: Seq<ActivateSkillCallModel>,
) -> Seq<MessageModel> {
    item_nodes(entries, active_items(entries, calls))
}

/// The active path of `entries` as history nodes.
pub open spec fn active_history(entries: Seq<SessionEntryModel>) -> Seq<MessageModel> {
    active_history_given(entries, activate_skill_calls(entries))
}

/// The active path of `entries`, given the skill that each `activate_skill` call names.
pub open spec fn active_path_given(
    entries: Seq<SessionEntryModel>,
    calls: Seq<ActivateSkillCallModel>,
) -> Seq<LlmMessageModel> {
    item_messages(active_items(entries, calls))
}

/// The active path of `entries`.
pub open spec fn active_path(entries: Seq<SessionEntryModel>) -> Seq<LlmMessageModel> {
    active_path_given(entries, activate_skill_calls(entries))
}

/// An entry that activates no skill leaves the skill contents as they are.
proof fn lemma_contents_kept(
    entries: Seq<SessionEntryModel>,
    calls: Seq<ActivateSkillCallModel>,
    upto: int,
    seen: int,
)
    requires
        0 <= upto <= entries.len(),
        0 <= seen < entries.len(),
        !(entries[seen] is SkillActivated),
    ensures
        kept_items(entries, calls, upto, seen + 1) == kept_items(entries, calls, upto, seen),
    decreases upto,
{
    if upto > 0 {
        lemma_contents_kept(entries, calls, upto - 1, seen);
    }
}

/// How many items an entry prefix gives does not depend on the skill contents.
proof fn lemma_item_count(
    entries: Seq<SessionEntryModel>,
    calls: Seq<ActivateSkillCallModel>,
    upto: int,
    a: int,
    b: int,
)
    ensures
        kept_items(entries, calls, upto, a).len() == kept_items(entries, calls, upto, b).len(),
    decreases upto,
{
    if upto > 0 {
        lemma_item_count(entries, calls, upto - 1, a, b);
    }
}

/// Where the message of a skill stands whose first activation is entry `first`.
spec fn skill_slot(
    entries: Seq<SessionEntryModel>,
    calls: Seq<ActivateSkillCallModel>,
    first: int,
) -> int {
    kept_items(entries, calls, first, 0).len() as int
}

/// A new activation of a skill only refreshes the content at the slot of the skill.
proof fn lemma_refresh(
    entries: Seq<SessionEntryModel>,
    calls: Seq<ActivateSkillCallModel>,
    upto: int,
    seen: int,
    first: int,
)
    requires
        0 <= upto <= entries.len(),
        0 <= seen < entries.len(),
        entries[seen] is SkillActivated,
        is_first_activation(entries, first),
        activates(entries, first, entries[seen]->SkillActivated_0.name),
    ensures
        first >= upto ==> kept_items(entries, calls, upto, seen + 1) == kept_items(
            entries,
            calls,
            upto,
            seen,
        ),
        first < upto ==> {
            let slot = skill_slot(entries, calls, first);
            let items = kept_items(entries, calls, upto, seen);
            &&& 0 <= slot < items.len()
            &&& items[slot].source == first
            &&& kept_items(entries, calls, upto, seen + 1) == items.update(
                slot,
                PathItem {
                    message: skill_message(
                        entries[seen]->SkillActivated_0.name,
                        entries[seen]->SkillActivated_0.content,
                    ),
                    ..items[slot]
                },
            )
        },
    decreases upto,
{
    if upto > 0 {
        lemma_refresh(entries, calls, upto - 1, seen, first);
        let name = entries[seen]->SkillActivated_0.name;
        let slot = skill_slot(entries, calls, first);
        let rest = kept_items(entries, calls, upto - 1, seen);
        let items = kept_items(entries, calls, upto, seen);
        if upto - 1 == first {
            lemma_item_count(entries, calls, first, 0, seen);
            lemma_item_count(entries, calls, first, 0, seen + 1);
            assert(kept_items(entries, calls, upto, seen + 1) =~= items.update(
                slot,
                PathItem {
                    message: skill_message(name, entries[seen]->SkillActivated_0.content),
                    ..items[slot]
                },
            ));
        } else if is_first_activation(entries, upto - 1) {
            let other = entries[upto - 1]->SkillActivated_0.name;
            assert(activates(entries, upto - 1, other));
            if other == name {
                if first < upto - 1 {
                    assert(activates(entries, first, other));
                } else {
                    assert(activates(entries, upto - 1, name));
                }
                assert(false);
            }
            if first < upto {
                assert(kept_items(entries, calls, upto, seen + 1) =~= items.update(
                    slot,
                    PathItem {
                        message: skill_message(name, entries[seen]->SkillActivated_0.content),
                        ..items[slot]
                    },
                ));
            }
        } else if first < upto {
            assert(kept_items(entries, calls, upto, seen + 1) =~= items.update(
                slot,
                PathItem {
                    message: skill_message(name, entries[seen]->SkillActivated_0.content),
                    ..items[slot]
                },
            ));
        }
    }
}

proof fn lemma_place_at(items: Seq<PathItem>, position: int, at: int)
    requires
        0 <= at <= items.len(),
        at < items.len() ==> !is_before(items[at], position),
        forall|k: int| 0 <= k < at ==> is_before(#[trigger] items[k], position),
    ensures
        place_at(items, position) == at,
    decreases items.len(),
{
    if at > 0 {
        assert(is_before(items[0], position));
        assert forall|k: int| 0 <= k < at - 1 implies is_before(
            #[trigger] items.skip(1)[k],
            position,
        ) by {
            assert(items.skip(1)[k] == items[k + 1]);
        }
        lemma_place_at(items.skip(1), position, at - 1);
    }
}

/// Convert a compaction entry into a summary message.
pub fn compaction_to_llm_message(compaction: &CompactionEntry) -> (r: LlmMessage)
    ensures
        r.deep_view() == summary_message(compaction.deep_view()),
{
    LlmMessage {
        role: MessageRole::Summary,
        body: MessageBody::text(&compaction.summary),
        tool_call_id: None,
    }
}

/// Convert an activated skill record into a synthetic user-role message that carries the
/// full skill instructions.
pub fn skill_to_llm_message(skill: &ActivatedSkill) -> (r: LlmMessage)
    ensures
        r.deep_view() == skill_message(skill.name@, skill.content@),
{
    let mut content = text::concat3(
        "Skill `",
        &skill.name,
        "` has been activated. Follow these instructions:\n\n",
    );
    content.push_str(&skill.content);
    LlmMessage {
        role: MessageRole::Developer,
        body: MessageBody::text(&content),
        tool_call_id: None,
    }
}

/// The `activate_skill` calls among the messages of `entries`, with the skill each names.
pub fn collect_activate_skill_calls(entries: &[SessionEntry]) -> (calls: Vec<ActivateSkillCall>)
    ensures
        calls.deep_view() == activate_skill_calls(entries.deep_view()),
{
    let mut calls: Vec<ActivateSkillCall> = Vec::new();
    let ghost all = entries.deep_view();
    assert(calls.deep_view() =~= activate_skill_calls(all.take(0)));
    for i in 0..entries.len()
        invariant
            all == entries.deep_view(),
            calls.deep_view() == activate_skill_calls(all.take(i as int)),
    {
        assert(all.take(i + 1).drop_last() =~= all.take(i as int));
        let ghost before = calls.deep_view();
        if let SessionEntry::Message(message) = &entries[i] {
            let blocks = &message.body.0;
            let ghost blocks_model = blocks.deep_view();
            assert(before + body_calls(blocks_model.take(0)) =~= before);
            for j in 0..blocks.len()
                invariant
                    blocks_model == blocks.deep_view(),
                    calls.deep_view() == before + body_calls(blocks_model.take(j as int)),
            {
                assert(blocks_model.take(j + 1).drop_last() =~= blocks_model.take(j as int));
                let ghost so_far = calls.deep_view();
                if let MessageBlock::ToolCall(call) = &blocks[j] {
                    if text::same(&call.name, "activate_skill") {
                        if let Ok(Some(name)) = json::string_member(&call.arguments, "name") {
                            let found = ActivateSkillCall {
                                call_id: call.id.clone(),
                                skill_name: name,
                            };
                            calls.push(found);
                            assert(calls.deep_view() =~= so_far.push(found.deep_view()));
                        }
                    }
                }
                assert(calls.deep_view() =~= before + body_calls(blocks_model.take(j + 1)));
            }
            assert(blocks_model.take(blocks_model.len() as int) =~= blocks_model);
            assert(all[i as int] == SessionEntryModel::Message(message.deep_view()));
        }
    }
    assert(all.take(all.len() as int) =~= all);
    calls
}

/// The skill of each call identifier.
fn call_targets(calls: &Vec<ActivateSkillCall>) -> (targets: StringHashMap<String>)
    ensures
        forall|id: Seq<char>| #[trigger]
            targets@.contains_key(id) <==> call_target(calls.deep_view(), id) is Some,
        forall|id: Seq<char>| #[trigger]
            targets@.contains_key(id) ==> call_target(calls.deep_view(), id) == Some(
                targets@[id]@,
            ),
{
    let mut targets: StringHashMap<String> = StringHashMap::new();
    let ghost all = calls.deep_view();
    for i in 0..calls.len()
        invariant
            all == calls.deep_view(),
            forall|id: Seq<char>| #[trigger]
                targets@.contains_key(id) <==> call_target(all.take(i as int), id) is Some,
            forall|id: Seq<char>| #[trigger]
                targets@.contains_key(id) ==> call_target(all.take(i as int), id) == Some(
                    targets@[id]@,
                ),
    {
        let ghost before = targets@;
        targets.insert(calls[i].call_id.clone(), calls[i].skill_name.clone());
        proof {
            assert(all.take(i + 1).drop_last() =~= all.take(i as int));
            assert(all[i as int] == calls@[i as int].deep_view());
            assert forall|id: Seq<char>| #[trigger]
                targets@.contains_key(id) <==> call_target(all.take(i + 1), id) is Some by {
                assert(before.contains_key(id) <==> call_target(all.take(i as int), id) is Some);
            }
            assert forall|id: Seq<char>| #[trigger]
                targets@.contains_key(id) implies call_target(all.take(i + 1), id) == Some(
                targets@[id]@,
            ) by {
                if id != all[i as int].call_id {
                    assert(before.contains_key(id));
                }
            }
        }
    }
    assert(all.take(all.len() as int) =~= all);
    targets
}

/// The names of skills with an activation record.
fn activated_names(entries: &[SessionEntry]) -> (names: StringHashSet)
    ensures
        forall|name: Seq<char>| #[trigger]
            names@.contains(name) <==> is_activated(entries.deep_view(), name),
{
    let mut names = StringHashSet::new();
    let ghost all = entries.deep_view();
    for i in 0..entries.len()
        invariant
            all == entries.deep_view(),
            forall|name: Seq<char>| #[trigger]
                names@.contains(name) <==> exists|k: int| k < i && #[trigger]
                    activates(all, k, name),
    {
        let ghost before = names@;
        if let SessionEntry::SkillActivated(skill) = &entries[i] {
            let _ = names.insert(skill.name.clone());
            assert(all[i as int] == SessionEntryModel::SkillActivated(skill.deep_view()));
        }
        proof {
            assert forall|name: Seq<char>| #[trigger]
                names@.contains(name) <==> exists|k: int| k < i + 1 && #[trigger]
                    activates(all, k, name) by {
                assert(before.contains(name) <==> exists|k: int| k < i && #[trigger]
                    activates(all, k, name));
                if names@.contains(name) && !before.contains(name) {
                    assert(activates(all, i as int, name));
                }
            }
        }
    }
    proof {
        assert forall|name: Seq<char>| #[trigger]
            names@.contains(name) <==> is_activated(all, name) by {
            if is_activated(all, name) {
                let k = choose|k: int| activates(all, k, name);
                assert(k < entries.len() && activates(all, k, name));
            }
        }
    }
    names
}

/// What the model context holds of `message`.
fn to_path_message(
    message: &Message,
    targets: &StringHashMap<String>,
    names: &StringHashSet,
    Ghost(entries): Ghost<Seq<SessionEntryModel>>,
    Ghost(calls): Ghost<Seq<ActivateSkillCallModel>>,
) -> (r: LlmMessage)
    requires
        forall|id: Seq<char>| #[trigger]
            targets@.contains_key(id) <==> call_target(calls, id) is Some,
        forall|id: Seq<char>| #[trigger]
            targets@.contains_key(id) ==> call_target(calls, id) == Some(targets@[id]@),
        forall|name: Seq<char>| #[trigger] names@.contains(name) <==> is_activated(entries, name),
    ensures
        r.deep_view() == path_message(entries, calls, message.deep_view()),
{
    if let Some(call_id) = &message.tool_call_id {
        if let Some(name) = targets.get(call_id) {
            if names.contains(name) {
                // Keep the tool result so the assistant tool call stays paired, but drop
                // the duplicated full content.
                let pointer = text::concat3(
                    "Skill `",
                    name,
                    "` activated; its instructions are provided in the conversation.",
                );
                return LlmMessage {
                    role: message.role,
                    body: MessageBody::text(&pointer),
                    tool_call_id: message.tool_call_id.clone(),
                };
            }
        }
    }
    LlmMessage {
        role: message.role,
        body: message.body.clone(),
        tool_call_id: message.tool_call_id.clone(),
    }
}

/// The slots of the skills seen among the first `n` entries.
spec fn slots_known(
    slots: Map<Seq<char>, usize>,
    entries: Seq<SessionEntryModel>,
    calls: Seq<ActivateSkillCallModel>,
    n: int,
) -> bool {
    &&& forall|name: Seq<char>| #[trigger]
        slots.contains_key(name) ==> exists|first: int|
            first < n && is_first_activation(entries, first) && #[trigger] activates(
                entries,
                first,
                name,
            ) && slots[name] == skill_slot(entries, calls, first)
    &&& forall|name: Seq<char>, j: int|
        j < n && #[trigger] activates(entries, j, name) ==> slots.contains_key(name)
}

/// A message of the active path as a history node.
fn to_node(id: &str, message: LlmMessage) -> (r: Message)
    ensures
        r.deep_view() == (MessageModel {
            id: id@,
            parent_id: None,
            role: message.deep_view().role,
            tool_call_id: message.deep_view().tool_call_id,
            body: message.deep_view().body,
        }),
{
    Message {
        id: id.to_owned(),
        parent_id: None,
        role: message.role,
        tool_call_id: message.tool_call_id,
        body: message.body,
    }
}

/// Build the active path as history nodes, given the skill that each `activate_skill` call
/// names.
pub fn build_active_history_given(
    entries: &[SessionEntry],
    calls: &Vec<ActivateSkillCall>,
) -> (path: Vec<Message>)
    ensures
        path.deep_view() == active_history_given(entries.deep_view(), calls.deep_view()),
{
    let ghost all = entries.deep_view();
    let ghost known = calls.deep_view();
    let ghost messages = history::messages_of(all);
    let index = MessageIndex::of_entries(entries);
    let compacted = history::compacted_ids(entries, &index);
    let targets = call_targets(calls);
    let names = activated_names(entries);

    // Build the non-compacted path in chronological order, tracking the original position
    // of each surviving message so that summaries can be inserted at the right place.
    let mut path: Vec<Message> = Vec::new();
    let mut positions: Vec<usize> = Vec::new();
    let mut skills: Vec<bool> = Vec::new();
    let mut slots: StringHashMap<usize> = StringHashMap::new();
    let mut messages_seen: usize = 0;
    let ghost mut items: Seq<PathItem> = Seq::empty();
    assert(path.deep_view() =~= item_nodes(all, items));
    for i in 0..entries.len()
        invariant
            all == entries.deep_view(),
            known == calls.deep_view(),
            messages == history::messages_of(all),
            index.indexes(messages),
            forall|id: Seq<char>| #[trigger]
                compacted@.contains(id) <==> history::is_compacted(all, id),
            forall|id: Seq<char>| #[trigger]
                targets@.contains_key(id) <==> call_target(known, id) is Some,
            forall|id: Seq<char>| #[trigger]
                targets@.contains_key(id) ==> call_target(known, id) == Some(targets@[id]@),
            forall|name: Seq<char>| #[trigger] names@.contains(name) <==> is_activated(all, name),
            items == kept_items(all, known, i as int, i as int),
            path.deep_view() == item_nodes(all, items),
            positions@.len() == items.len(),
            skills@.len() == items.len(),
            forall|k: int|
                0 <= k < items.len() ==> positions@[k] == (#[trigger] items[k]).position
                    && skills@[k] == items[k].is_skill,
            messages_seen == history::messages_of(all.take(i as int)).len(),
            messages_seen <= i,
            slots_known(slots@, all, known, i as int),
    {
        let ghost before = items;
        let ghost slots_before = slots@;
        proof {
            history::lemma_messages_of_prefix(all, i as int);
            lemma_path_len(all, path, items);
        }
        match &entries[i] {
            SessionEntry::Message(message) => {
                assert(all[i as int] == SessionEntryModel::Message(message.deep_view()));
                proof {
                    lemma_contents_kept(all, known, i as int, i as int);
                    lemma_message_known(all, i as int);
                }
                messages_seen += 1;
                if !compacted.contains(&message.id) {
                    let position: usize = match index.positions.get(&message.id) {
                        Some(position) => *position,
                        None => {
                            assert(false);
                            0
                        },
                    };
                    let kept = to_node(
                        &message.id,
                        to_path_message(message, &targets, &names, Ghost(all), Ghost(known)),
                    );
                    proof {
                        items = kept_items(all, known, i + 1, i + 1);
                        assert(items.drop_last() =~= before);
                        lemma_push_message(all, path, before, kept, items);
                    }
                    path.push(kept);
                    positions.push(position);
                    skills.push(false);
                } else {
                    proof {
                        items = kept_items(all, known, i + 1, i + 1);
                    }
                }
                assert(slots_known(slots@, all, known, i + 1)) by {
                    lemma_slots_kept(slots@, all, known, i as int);
                }
            },
            SessionEntry::SkillActivated(skill) => {
                let ghost name = skill.name@;
                assert(all[i as int] == SessionEntryModel::SkillActivated(skill.deep_view()));
                assert(activates(all, i as int, name));
                if let Some(slot) = slots.get(&skill.name) {
                    // The latest activation refreshes the content in place.
                    let at: usize = *slot;
                    let ghost first = choose|first: int|
                        first < i && is_first_activation(all, first) && #[trigger] activates(
                            all,
                            first,
                            name,
                        ) && slots@[name] == skill_slot(all, known, first);
                    proof {
                        lemma_refresh(all, known, i as int, i as int, first);
                        assert(!is_first_activation(all, i as int));
                        items = kept_items(all, known, i + 1, i + 1);
                        assert(items == before.update(
                            at as int,
                            PathItem {
                                message: skill_message(name, skill.content@),
                                ..before[at as int]
                            },
                        ));
                    }
                    let refreshed = to_node(&skill.name, skill_to_llm_message(skill));
                    let ghost path_before = path;
                    path.set(at, refreshed);
                    assert(path.deep_view() =~= item_nodes(all, items)) by {
                        assert(path_before.deep_view().len() == path_before@.len());
                        assert forall|k: int| 0 <= k < path@.len() implies #[trigger] path@[k].deep_view()
                            == item_node(all, items[k]) by {
                            assert(path_before.deep_view()[k] == item_node(all, before[k]));
                            assert(activates(all, before[at as int].source, name));
                        }
                    }
                } else {
                    let fresh = to_node(&skill.name, skill_to_llm_message(skill));
                    proof {
                        lemma_first(all, slots@, known, i as int);
                        lemma_refresh(all, known, i as int, i as int, i as int);
                        lemma_item_count(all, known, i as int, 0, i as int);
                        assert(latest_content(all, i + 1, name) == skill.content@);
                        items = kept_items(all, known, i + 1, i + 1);
                        assert(items.drop_last() =~= before);
                        lemma_push_message(all, path, before, fresh, items);
                    }
                    slots.insert(skill.name.clone(), path.len());
                    path.push(fresh);
                    // The synthetic message stands after all messages seen so far and
                    // before any later one.
                    positions.push(messages_seen);
                    skills.push(true);
                    assert(slots_known(slots@, all, known, i + 1)) by {
                        assert forall|other: Seq<char>| #[trigger]
                            slots@.contains_key(other) implies exists|first: int|
                            first < i + 1 && is_first_activation(all, first) && #[trigger] activates(
                                all,
                                first,
                                other,
                            ) && slots@[other] == skill_slot(all, known, first) by {
                            if other == name {
                                assert(activates(all, i as int, other));
                            } else {
                                assert(slots_before.contains_key(other));
                                let first = choose|first: int|
                                    first < i && is_first_activation(all, first)
                                        && #[trigger] activates(all, first, other)
                                        && slots_before[other] == skill_slot(all, known, first);
                                assert(activates(all, first, other));
                            }
                        }
                        assert forall|other: Seq<char>, j: int|
                            j < i + 1 && #[trigger] activates(all, j, other) implies slots@.contains_key(
                            other,
                        ) by {
                            if j < i {
                                assert(slots_before.contains_key(other));
                            }
                        }
                    }
                }
            },
            _ => {
                proof {
                    lemma_contents_kept(all, known, i as int, i as int);
                    items = kept_items(all, known, i + 1, i + 1);
                    lemma_slots_kept(slots@, all, known, i as int);
                }
            },
        }
    }

    // Insert each summary at the position of the oldest message of its block, behind the
    // skills that were activated before that message.
    let ghost kept = items;
    let ghost n = all.len() as int;
    for i in 0..entries.len()
        invariant
            all == entries.deep_view(),
            messages == history::messages_of(all),
            index.indexes(messages),
            items == with_summaries(all, kept, i as int),
            path.deep_view() == item_nodes(all, items),
            positions@.len() == items.len(),
            skills@.len() == items.len(),
            forall|k: int|
                0 <= k < items.len() ==> positions@[k] == (#[trigger] items[k]).position
                    && skills@[k] == items[k].is_skill,
    {
        if let SessionEntry::CompactionEntry(compaction) = &entries[i] {
            let ghost model = compaction.deep_view();
            assert(all[i as int] == SessionEntryModel::CompactionEntry(model));
            proof {
                history::lemma_bounds(&index, messages, model.compacted_range);
            }
            if let Some((oldest, _)) = index.bounds(&compaction.compacted_range) {
                let mut at: usize = 0;
                while at < positions.len() && (positions[at] < oldest || (positions[at] == oldest
                    && skills[at]))
                    invariant
                        at <= positions@.len(),
                        positions@.len() == items.len(),
                        skills@.len() == items.len(),
                        forall|k: int|
                            0 <= k < items.len() ==> positions@[k] == (#[trigger] items[k]).position
                                && skills@[k] == items[k].is_skill,
                        forall|k: int| 0 <= k < at ==> is_before(#[trigger] items[k], oldest as int),
                    decreases positions@.len() - at,
                {
                    assert(is_before(items[at as int], oldest as int));
                    at += 1;
                }
                let summary = to_node(&compaction.id, compaction_to_llm_message(compaction));
                let ghost before = items;
                proof {
                    lemma_path_len(all, path, items);
                    if at < items.len() {
                        assert(positions@[at as int] == items[at as int].position);
                    }
                    lemma_place_at(items, oldest as int, at as int);
                    items = with_summaries(all, kept, i + 1);
                }
                let ghost path_before = path;
                path.insert(at, summary);
                positions.insert(at, oldest);
                skills.insert(at, false);
                proof {
                    assert(path.deep_view() =~= path_before.deep_view().insert(
                        at as int,
                        summary.deep_view(),
                    ));
                    assert(item_nodes(all, items) =~= item_nodes(all, before).insert(
                        at as int,
                        summary.deep_view(),
                    ));
                }
            } else {
                proof {
                    items = with_summaries(all, kept, i + 1);
                }
            }
        } else {
            proof {
                items = with_summaries(all, kept, i + 1);
            }
        }
    }
    path
}

/// Build the active path as history nodes.
pub fn build_active_history(entries: &[SessionEntry]) -> (path: Vec<Message>)
    ensures
        path.deep_view() == active_history(entries.deep_view()),
{
    let calls = collect_activate_skill_calls(entries);
    build_active_history_given(entries, &calls)
}

/// Build the active path, given the skill that each `activate_skill` call names.
pub fn build_active_path_given(entries: &[SessionEntry], calls: &Vec<ActivateSkillCall>) -> (path:
    Vec<LlmMessage>)
    ensures
        path.deep_view() == active_path_given(entries.deep_view(), calls.deep_view()),
{
    let nodes = build_active_history_given(entries, calls);
    let ghost all = entries.deep_view();
    let ghost items = active_items(all, calls.deep_view());
    let mut path: Vec<LlmMessage> = Vec::new();
    proof {
        lemma_path_len(all, nodes, items);
    }
    for i in 0..nodes.len()
        invariant
            nodes@.len() == items.len(),
            forall|k: int|
                0 <= k < items.len() ==> nodes@[k].deep_view() == item_node(
                    all,
                    #[trigger] items[k],
                ),
            path@.len() == i,
            forall|k: int|
                0 <= k < i ==> path@[k].deep_view() == (#[trigger] items[k]).message,
    {
        let node = &nodes[i];
        assert(node.deep_view() == item_node(all, items[i as int]));
        path.push(
            LlmMessage {
                role: node.role,
                body: node.body.clone(),
                tool_call_id: node.tool_call_id.clone(),
            },
        );
    }
    assert(path.deep_view() =~= item_messages(items));
    path
}

/// Build the active conversation path as a list of model messages.
///
/// Walks the persisted entries from oldest to newest, keeping messages that no compaction
/// entry stands for, one message for each activated skill, and one summary for each
/// compaction entry whose range is known. The path is ordered from oldest to newest: a skill
/// stands at the place of its first activation, before any later message, and a summary at
/// the place of the oldest message of its block.
pub fn build_active_path(entries: &[SessionEntry]) -> (path: Vec<LlmMessage>)
    ensures
        path.deep_view() == active_path(entries.deep_view()),
{
    let calls = collect_activate_skill_calls(entries);
    build_active_path_given(entries, &calls)
}

proof fn lemma_path_len(
    entries: Seq<SessionEntryModel>,
    path: Vec<Message>,
    items: Seq<PathItem>,
)
    requires
        path.deep_view() == item_nodes(entries, items),
    ensures
        path@.len() == items.len(),
        forall|k: int|
            0 <= k < items.len() ==> path@[k].deep_view() == item_node(
                entries,
                #[trigger] items[k],
            ),
{
    assert(path.deep_view().len() == path@.len());
    assert(item_nodes(entries, items).len() == items.len());
    assert forall|k: int| 0 <= k < items.len() implies path@[k].deep_view() == item_node(
        entries,
        #[trigger] items[k],
    ) by {
        assert(path.deep_view()[k] == item_nodes(entries, items)[k]);
    }
}

proof fn lemma_push_message(
    entries: Seq<SessionEntryModel>,
    path: Vec<Message>,
    items: Seq<PathItem>,
    message: Message,
    grown: Seq<PathItem>,
)
    requires
        path.deep_view() == item_nodes(entries, items),
        grown.len() == items.len() + 1,
        grown.drop_last() == items,
        item_node(entries, grown.last()) == message.deep_view(),
    ensures
        forall|longer: Vec<Message>|
            longer@ == path@.push(message) ==> #[trigger] longer.deep_view() == item_nodes(
                entries,
                grown,
            ),
{
    lemma_path_len(entries, path, items);
    assert forall|longer: Vec<Message>|
        longer@ == path@.push(message) implies #[trigger] longer.deep_view() == item_nodes(
        entries,
        grown,
    ) by {
        assert forall|k: int| 0 <= k < grown.len() implies #[trigger] longer@[k].deep_view()
            == item_node(entries, grown[k]) by {
            if k < items.len() {
                assert(grown[k] == items[k]);
                assert(longer@[k] == path@[k]);
            }
        }
        assert(longer.deep_view() =~= item_nodes(entries, grown));
    }
}

proof fn lemma_message_known(entries: Seq<SessionEntryModel>, i: int)
    requires
        0 <= i < entries.len(),
        entries[i] is Message,
    ensures
        history::position_of(
            history::messages_of(entries),
            entries[i]->Message_0.id,
        ) is Some,
    decreases entries.len() - i,
{
    let n = entries.len() as int;
    lemma_message_among(entries, i, n);
    assert(entries.take(n) =~= entries);
    let messages = history::messages_of(entries);
    let j = choose|j: int| 0 <= j < messages.len() && messages[j] == entries[i]->Message_0;
    history::lemma_position_of(messages, entries[i]->Message_0.id);
}

proof fn lemma_message_among(entries: Seq<SessionEntryModel>, i: int, n: int)
    requires
        0 <= i < n <= entries.len(),
        entries[i] is Message,
    ensures
        exists|j: int|
            0 <= j < history::messages_of(entries.take(n)).len() && #[trigger] history::messages_of(
                entries.take(n),
            )[j] == entries[i]->Message_0,
    decreases n,
{
    history::lemma_messages_of_prefix(entries, n - 1);
    let shorter = history::messages_of(entries.take(n - 1));
    let longer = history::messages_of(entries.take(n));
    if i == n - 1 {
        assert(longer[longer.len() - 1] == entries[i]->Message_0);
    } else {
        lemma_message_among(entries, i, n - 1);
        let j = choose|j: int| 0 <= j < shorter.len() && shorter[j] == entries[i]->Message_0;
        assert(longer[j] == shorter[j]);
    }
}

proof fn lemma_slots_kept(
    slots: Map<Seq<char>, usize>,
    entries: Seq<SessionEntryModel>,
    calls: Seq<ActivateSkillCallModel>,
    n: int,
)
    requires
        0 <= n < entries.len(),
        slots_known(slots, entries, calls, n),
        !(entries[n] is SkillActivated),
    ensures
        slots_known(slots, entries, calls, n + 1),
{
    assert forall|name: Seq<char>| #[trigger] slots.contains_key(name) implies exists|first: int|
        first < n + 1 && is_first_activation(entries, first) && #[trigger] activates(
            entries,
            first,
            name,
        ) && slots[name] == skill_slot(entries, calls, first) by {
        let first = choose|first: int|
            first < n && is_first_activation(entries, first) && #[trigger] activates(
                entries,
                first,
                name,
            ) && slots[name] == skill_slot(entries, calls, first);
        assert(activates(entries, first, name));
    }
}

proof fn lemma_first(
    entries: Seq<SessionEntryModel>,
    slots: Map<Seq<char>, usize>,
    calls: Seq<ActivateSkillCallModel>,
    n: int,
)
    requires
        0 <= n < entries.len(),
        entries[n] is SkillActivated,
        slots_known(slots, entries, calls, n),
        !slots.contains_key(entries[n]->SkillActivated_0.name),
    ensures
        is_first_activation(entries, n),
{
    let name = entries[n]->SkillActivated_0.name;
    assert forall|j: int| 0 <= j < n implies !#[trigger] activates(entries, j, name) by {}
}

} // verus!

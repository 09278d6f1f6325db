//! Compaction: when the model context grows too large, the oldest messages are replaced by
//! a summary of them.

use vstd::hash_set::StringHashSet;
use vstd::prelude::*;

use crate::models::provider::{ProviderError, ProviderEvent, ProviderEventModel};
use crate::protocol;
use crate::protocol::session::{
    CompactionEntry, CompactionEntryModel, CompactionRange, CompactionRangeModel, Message,
    MessageModel, SessionEntry, SessionEntryModel,
};
use crate::protocol::{LlmMessage, LlmMessageModel, MessageRole};
use crate::runtime::active_path;
use crate::runtime::budget;
use crate::runtime::history;
use crate::runtime::history::MessageIndex;
use crate::session_store::SessionError;
use crate::text;

verus! {

/// Errors that can occur during compaction.
#[derive(Debug, PartialEq, Eq)]
pub enum CompactionError {
    /// The context budget is exceeded but there is no prior history to compact.
    NoPriorHistory,
    /// A single message already exceeds the context budget.
    SingleMessageExceedsBudget,
    /// The provider call for summarization failed.
    Provider(ProviderError),
    /// The compaction entry could not be persisted.
    SessionStore(SessionError),
    /// The summary did not reduce the active path below the budget.
    IneffectiveCompaction,
    /// Compaction was cancelled by the user while the summarization was in progress.
    Cancelled,
}

impl CompactionError {
    /// The text of the error.
    pub open spec fn spec_message(&self) -> Seq<char> {
        match self {
            CompactionError::NoPriorHistory => "context budget exceeded with no prior history"@,
            CompactionError::SingleMessageExceedsBudget => "message exceeds context budget"@,
            CompactionError::Provider(error) => error.spec_message(),
            CompactionError::SessionStore(error) => error.spec_message(),
            CompactionError::IneffectiveCompaction =>
                "compaction did not reduce context below budget"@,
            CompactionError::Cancelled => "compaction was cancelled"@,
        }
    }

    /// Returns the text of the error.
    pub fn message(&self) -> (r: String)
        ensures
            r@ == self.spec_message(),
    {
        match self {
            CompactionError::NoPriorHistory =>
                "context budget exceeded with no prior history".to_owned(),
            CompactionError::SingleMessageExceedsBudget =>
                "message exceeds context budget".to_owned(),
            CompactionError::Provider(error) => error.message(),
            CompactionError::SessionStore(error) => error.message(),
            CompactionError::IneffectiveCompaction =>
                "compaction did not reduce context below budget".to_owned(),
            CompactionError::Cancelled => "compaction was cancelled".to_owned(),
        }
    }
}

/// Configuration for compaction decisions.
#[derive(Debug, Clone, Copy, PartialEq, Eq)]
pub struct CompactionConfig {
    /// Context budget in tokens.
    pub context_budget: usize,
    /// Threshold percentage (0-100) at which compaction triggers.
    pub threshold_percent: u32,
}

impl Default for CompactionConfig {
    fn default() -> (r: Self)
        ensures
            r.context_budget == 8192,
            r.threshold_percent == 90,
    {
        CompactionConfig { context_budget: 8192, threshold_percent: 90 }
    }
}

/// The path is at or above the configured threshold.
pub open spec fn over_threshold(config: CompactionConfig, path: Seq<LlmMessageModel>) -> bool {
    budget::reaches(
        budget::estimated_tokens(path),
        config.context_budget as nat,
        config.threshold_percent as nat,
    )
}

/// How many messages from position `from` on are in a row in `ids` (when `inside`), or in a
/// row outside of it (when not).
pub open spec fn run_length(
    messages: Seq<MessageModel>,
    ids: Set<Seq<char>>,
    from: int,
    inside: bool,
) -> int
    decreases messages.len() - from,
{
    if 0 <= from < messages.len() && ids.contains(messages[from].id) == inside {
        1 + run_length(messages, ids, from + 1, inside)
    } else {
        0
    }
}

/// The first and last position of the oldest block of messages outside of `ids`.
pub open spec fn oldest_block(messages: Seq<MessageModel>, ids: Set<Seq<char>>) -> Option<
    (int, int),
> {
    let first = run_length(messages, ids, 0, true);
    if first < messages.len() {
        Some((first, first + run_length(messages, ids, first, false) - 1))
    } else {
        None
    }
}

/// The range of a block of messages.
pub open spec fn block_range(
    messages: Seq<MessageModel>,
    block: (int, int),
) -> CompactionRangeModel {
    CompactionRangeModel {
        first_message_id: messages[block.0].id,
        last_message_id: messages[block.1].id,
    }
}

/// The identifiers of compacted messages.
pub open spec fn compacted_set(entries: Seq<SessionEntryModel>) -> Set<Seq<char>> {
    Set::new(|id: Seq<char>| history::is_compacted(entries, id))
}

/// Position of the first message with identifier `id`, or the number of messages.
pub open spec fn first_position(messages: Seq<MessageModel>, id: Seq<char>) -> int
    decreases messages.len(),
{
    if messages.len() == 0 || messages[0].id == id {
        0
    } else {
        1 + first_position(messages.skip(1), id)
    }
}

/// The messages that `range` selects for summarization.
pub open spec fn selected_messages(
    messages: Seq<MessageModel>,
    range: CompactionRangeModel,
) -> Seq<MessageModel> {
    let a = first_position(messages, range.first_message_id);
    let b = first_position(messages, range.last_message_id);
    if a <= b {
        messages.subrange(a, b + 1)
    } else {
        messages.subrange(b, a + 1)
    }
}

/// One of the messages alone is larger than the budget.
pub open spec fn exceeds_budget(messages: Seq<MessageModel>, context_budget: nat) -> bool {
    exists|i: int|
        0 <= i < messages.len() && single_tokens(#[trigger] messages[i]) > context_budget
}

/// The estimate for one message.
pub open spec fn single_tokens(message: MessageModel) -> nat {
    budget::message_tokens(message.body)
}

/// A block chosen for compaction.
pub struct CompactionPlanModel {
    pub range: CompactionRangeModel,
    pub selected: Seq<MessageModel>,
}

/// What is to be compacted of `entries`, whose active path is `path`: nothing while the path
/// is below the threshold, else the oldest block of messages that are not compacted yet.
pub open spec fn compaction_plan(
    config: CompactionConfig,
    entries: Seq<SessionEntryModel>,
    path: Seq<LlmMessageModel>,
) -> Result<Option<CompactionPlanModel>, CompactionError> {
    let messages = history::messages_of(entries);
    if !over_threshold(config, path) {
        Ok(None)
    } else {
        match oldest_block(messages, compacted_set(entries)) {
            None => Err(CompactionError::NoPriorHistory),
            Some(block) => {
                let range = block_range(messages, block);
                let selected = selected_messages(messages, range);
                if exceeds_budget(selected, config.context_budget as nat) {
                    Err(CompactionError::SingleMessageExceedsBudget)
                } else {
                    Ok(Some(CompactionPlanModel { range, selected }))
                }
            },
        }
    }
}

/// A block chosen for compaction.
#[derive(Debug, PartialEq, Eq)]
pub struct CompactionPlan {
    /// The block, as a compaction entry records it.
    pub range: CompactionRange,
    /// The messages to be summarized.
    pub selected: Vec<Message>,
}

impl DeepView for CompactionPlan {
    type V = CompactionPlanModel;

    open spec fn deep_view(&self) -> CompactionPlanModel {
        CompactionPlanModel {
            range: self.range.deep_view(),
            selected: self.selected.deep_view(),
        }
    }
}

/// The instruction that asks the model for a summary.
pub open spec fn summary_instruction() -> Seq<char> {
    "Summarize the following conversation block concisely. Preserve facts, decisions, and context needed for future turns."@
}

/// A persisted message in the model context.
pub open spec fn context_message(message: MessageModel) -> LlmMessageModel {
    LlmMessageModel {
        role: message.role,
        body: message.body,
        tool_call_id: message.tool_call_id,
    }
}

/// The request for a summary of `messages`.
pub open spec fn summary_prompt(messages: Seq<MessageModel>) -> Seq<LlmMessageModel> {
    seq![protocol::llm_text(MessageRole::System, summary_instruction())] + messages.map_values(
        |message: MessageModel| context_message(message),
    )
}

/// The messages among `entries`.
pub fn collect_messages(entries: &[SessionEntry]) -> (r: Vec<Message>)
    ensures
        r.deep_view() == history::messages_of(entries.deep_view()),
{
    let mut r: Vec<Message> = Vec::new();
    let ghost all = entries.deep_view();
    assert(r.deep_view() =~= history::messages_of(all.take(0)));
    for i in 0..entries.len()
        invariant
            all == entries.deep_view(),
            r.deep_view() == history::messages_of(all.take(i as int)),
    {
        let ghost before = r.deep_view();
        proof {
            history::lemma_messages_of_prefix(all, i as int);
        }
        assert(all[i as int] == entries@[i as int].deep_view());
        if let SessionEntry::Message(message) = &entries[i] {
            r.push(message.clone());
            assert(r.deep_view() =~= before.push(message.deep_view()));
        }
    }
    assert(all.take(all.len() as int) =~= all);
    r
}

/// Position of the first message with identifier `id`, or the number of messages.
fn find_message(messages: &Vec<Message>, id: &str) -> (at: usize)
    ensures
        at == first_position(messages.deep_view(), id@),
        at <= messages@.len(),
{
    let ghost all = messages.deep_view();
    let mut at: usize = 0;
    assert(all.skip(0) =~= all);
    while at < messages.len()
        invariant
            all == messages.deep_view(),
            at <= messages@.len(),
            first_position(all, id@) == at + first_position(all.skip(at as int), id@),
        decreases messages@.len() - at,
    {
        assert(all.skip(at as int)[0] == messages@[at as int].deep_view());
        assert(all.skip(at as int).skip(1) =~= all.skip(at + 1));
        if text::same(&messages[at].id, id) {
            return at;
        }
        at += 1;
    }
    at
}

proof fn lemma_run_length(
    messages: Seq<MessageModel>,
    ids: Set<Seq<char>>,
    from: int,
    inside: bool,
    end: int,
)
    requires
        0 <= from <= end <= messages.len(),
        forall|i: int| from <= i < end ==> ids.contains((#[trigger] messages[i]).id) == inside,
        end < messages.len() ==> ids.contains(messages[end].id) != inside,
    ensures
        run_length(messages, ids, from, inside) == end - from,
    decreases end - from,
{
    if from < end {
        assert(ids.contains(messages[from].id) == inside);
        lemma_run_length(messages, ids, from + 1, inside, end);
    }
}

proof fn lemma_run_length_bounds(
    messages: Seq<MessageModel>,
    ids: Set<Seq<char>>,
    from: int,
    inside: bool,
)
    requires
        0 <= from <= messages.len(),
    ensures
        0 <= run_length(messages, ids, from, inside) <= messages.len() - from,
        forall|i: int|
            from <= i < from + run_length(messages, ids, from, inside) ==> ids.contains(
                (#[trigger] messages[i]).id,
            ) == inside,
        from + run_length(messages, ids, from, inside) < messages.len() ==> ids.contains(
            messages[from + run_length(messages, ids, from, inside)].id,
        ) != inside,
    decreases messages.len() - from,
{
    if from < messages.len() && ids.contains(messages[from].id) == inside {
        lemma_run_length_bounds(messages, ids, from + 1, inside);
    }
}

/// The first and last position of the oldest block outside of `ids`.
fn find_block(messages: &[Message], ids: &StringHashSet) -> (r: Option<(usize, usize)>)
    ensures
        match r {
            Some((a, b)) => a <= b < messages@.len() && oldest_block(
                messages.deep_view(),
                ids@,
            ) == Some((a as int, b as int)),
            None => oldest_block(messages.deep_view(), ids@) is None,
        },
{
    let ghost all = messages.deep_view();
    let mut first: usize = 0;
    while first < messages.len() && ids.contains(&messages[first].id)
        invariant
            all == messages.deep_view(),
            first <= messages@.len(),
            forall|i: int| 0 <= i < first ==> ids@.contains((#[trigger] all[i]).id),
        decreases messages@.len() - first,
    {
        assert(all[first as int] == messages@[first as int].deep_view());
        first += 1;
    }
    proof {
        if first < messages@.len() {
            assert(all[first as int] == messages@[first as int].deep_view());
        }
        lemma_run_length(all, ids@, 0, true, first as int);
    }
    if first == messages.len() {
        return None;
    }
    let mut end: usize = first;
    while end < messages.len() && !ids.contains(&messages[end].id)
        invariant
            all == messages.deep_view(),
            first <= end <= messages@.len(),
            forall|i: int| first <= i < end ==> !ids@.contains((#[trigger] all[i]).id),
        decreases messages@.len() - end,
    {
        assert(all[end as int] == messages@[end as int].deep_view());
        end += 1;
    }
    proof {
        if end < messages@.len() {
            assert(all[end as int] == messages@[end as int].deep_view());
        }
        lemma_run_length(all, ids@, first as int, false, end as int);
    }
    Some((first, end - 1))
}

/// The set of the given identifiers.
fn id_set(ids: &Vec<String>) -> (r: StringHashSet)
    ensures
        r@ == ids.deep_view().to_set(),
{
    let mut r = StringHashSet::new();
    let ghost all = ids.deep_view();
    assert(r@ =~= all.take(0).to_set());
    for i in 0..ids.len()
        invariant
            all == ids.deep_view(),
            r@ == all.take(i as int).to_set(),
    {
        let ghost before = r@;
        let _ = r.insert(ids[i].clone());
        assert(all[i as int] == ids@[i as int]@);
        proof {
            let shorter = all.take(i as int);
            let longer = all.take(i + 1);
            assert forall|id: Seq<char>| #[trigger] r@.contains(id) <==> longer.to_set().contains(
                id,
            ) by {
                assert(before.contains(id) <==> shorter.contains(id));
                if shorter.contains(id) {
                    let k = choose|k: int| 0 <= k < shorter.len() && shorter[k] == id;
                    assert(longer[k] == id);
                }
                if longer.contains(id) {
                    let k = choose|k: int| 0 <= k < longer.len() && longer[k] == id;
                    if k < i {
                        assert(shorter[k] == id);
                    }
                }
                if id == all[i as int] {
                    assert(longer[i as int] == id);
                }
            }
            assert(r@ =~= longer.to_set());
        }
    }
    assert(all.take(all.len() as int) =~= all);
    r
}

/// Decides when to compact and what a compaction records.
#[derive(Debug, Clone, Copy, PartialEq, Eq)]
pub struct CompactionService {
    /// Configuration controlling compaction decisions.
    pub config: CompactionConfig,
}

impl CompactionService {
    /// Create a new compaction service.
    pub fn new(config: CompactionConfig) -> (r: Self)
        ensures
            r.config == config,
    {
        CompactionService { config }
    }

    /// Build the active path from raw session entries.
    pub fn build_active_path(entries: &[SessionEntry]) -> (r: Vec<LlmMessage>)
        ensures
            r.deep_view() == active_path::active_path(entries.deep_view()),
    {
        active_path::build_active_path(entries)
    }

    /// Estimate tokens of the active path.
    pub fn estimate_tokens(path: &[LlmMessage]) -> (r: usize)
        ensures
            r == budget::estimated_tokens(path.deep_view()),
    {
        budget::estimate_tokens(path)
    }

    /// Return true if the active path is at or above the configured threshold.
    pub fn is_compaction_needed(&self, path: &[LlmMessage]) -> (r: bool)
        ensures
            r == over_threshold(self.config, path.deep_view()),
    {
        budget::is_above_threshold(
            CompactionService::estimate_tokens(path),
            self.config.context_budget,
            self.config.threshold_percent,
        )
    }

    /// Select the oldest contiguous block of messages that are not in `compacted_ids`.
    pub fn select_compaction_range(messages: &[Message], compacted_ids: &Vec<String>) -> (r: Option<
        CompactionRange,
    >)
        ensures
            match oldest_block(messages.deep_view(), compacted_ids.deep_view().to_set()) {
                Some(block) => r is Some && r->0.deep_view() == block_range(
                    messages.deep_view(),
                    block,
                ),
                None => r is None,
            },
    {
        let ids = id_set(compacted_ids);
        match find_block(messages, &ids) {
            Some((first, last)) => {
                assert(messages.deep_view()[first as int]
                    == messages@[first as int].deep_view());
                assert(messages.deep_view()[last as int] == messages@[last as int].deep_view());
                Some(
                    CompactionRange {
                        first_message_id: messages[first].id.clone(),
                        last_message_id: messages[last].id.clone(),
                    },
                )
            },
            None => None,
        }
    }

    /// Build a summarization prompt from the messages to be compacted.
    pub fn build_summary_prompt(messages: &[Message]) -> (r: Vec<LlmMessage>)
        ensures
            r.deep_view() == summary_prompt(messages.deep_view()),
            r@.len() == messages@.len() + 1,
            r@[0].role == MessageRole::System,
            forall|i: int|
                0 <= i < messages@.len() ==> {
                    &&& r@[i + 1].role == (#[trigger] messages@[i]).role
                    &&& r@[i + 1].body.deep_view() == messages@[i].body.deep_view()
                    &&& r@[i + 1].tool_call_id.deep_view() == messages@[i].tool_call_id.deep_view()
                },
    {
        let mut prompt: Vec<LlmMessage> = Vec::new();
        let instruction = LlmMessage::text(
            MessageRole::System,
            "Summarize the following conversation block concisely. Preserve facts, decisions, and context needed for future turns.",
        );
        prompt.push(instruction);
        let ghost all = messages.deep_view();
        assert(prompt.deep_view() =~= summary_prompt(all.take(0)));
        for i in 0..messages.len()
            invariant
                all == messages.deep_view(),
                prompt.deep_view() == summary_prompt(all.take(i as int)),
        {
            let ghost before = prompt.deep_view();
            let message = &messages[i];
            let entry = LlmMessage {
                role: message.role,
                body: message.body.clone(),
                tool_call_id: message.tool_call_id.clone(),
            };
            prompt.push(entry);
            assert(all[i as int] == message.deep_view());
            assert(prompt.deep_view() =~= before.push(entry.deep_view()));
            assert(summary_prompt(all.take(i + 1)) =~= summary_prompt(all.take(i as int)).push(
                context_message(all[i as int]),
            ));
        }
        assert(all.take(all.len() as int) =~= all);
        proof {
            let told = prompt.deep_view();
            assert(told[0] == prompt@[0].deep_view());
            assert forall|i: int| 0 <= i < messages@.len() implies {
                &&& prompt@[i + 1].role == (#[trigger] messages@[i]).role
                &&& prompt@[i + 1].body.deep_view() == messages@[i].body.deep_view()
                &&& prompt@[i + 1].tool_call_id.deep_view() == messages@[i].tool_call_id.deep_view()
            } by {
                assert(told[i + 1] == prompt@[i + 1].deep_view());
                assert(all[i] == messages@[i].deep_view());
            }
        }
        prompt
    }

    /// Collect the identifiers of all messages already covered by compaction entries.
    pub fn collect_compacted_ids(entries: &[SessionEntry]) -> (r: Vec<String>)
        ensures
            r.deep_view().to_set() == compacted_set(entries.deep_view()),
            r.deep_view().no_duplicates(),
    {
        let ghost all = entries.deep_view();
        let ghost messages = history::messages_of(all);
        let index = MessageIndex::of_entries(entries);
        let compacted = history::compacted_ids(entries, &index);
        let mut seen = StringHashSet::new();
        let mut r: Vec<String> = Vec::new();
        for i in 0..index.ids.len()
            invariant
                index.indexes(messages),
                forall|id: Seq<char>| #[trigger]
                    compacted@.contains(id) <==> history::is_compacted(all, id),
                seen@ == r.deep_view().to_set(),
                r.deep_view().no_duplicates(),
                forall|id: Seq<char>| #[trigger]
                    seen@.contains(id) ==> history::is_compacted(all, id),
                forall|k: int|
                    0 <= k < i && history::is_compacted(all, (#[trigger] messages[k]).id)
                        ==> seen@.contains(messages[k].id),
        {
            let ghost before = r.deep_view();
            let ghost seen_before = seen@;
            let id = &index.ids[i];
            assert(index.ids.deep_view()[i as int] == id@);
            assert(history::ids_of(messages).len() == index.ids@.len());
            assert(history::ids_of(messages)[i as int] == messages[i as int].id);
            assert(id@ == messages[i as int].id);
            if compacted.contains(id) && !seen.contains(id) {
                let _ = seen.insert(id.clone());
                r.push(id.clone());
                proof {
                    assert(r.deep_view() =~= before.push(id@));
                    assert(!before.contains(id@));
                    assert(r.deep_view().to_set() =~= before.to_set().insert(id@)) by {
                        assert forall|x: Seq<char>| #[trigger]
                            r.deep_view().to_set().contains(x) <==> before.to_set().insert(
                                id@,
                            ).contains(x) by {
                            if before.contains(x) {
                                let k = choose|k: int| 0 <= k < before.len() && before[k] == x;
                                assert(r.deep_view()[k] == x);
                            }
                            if x == id@ {
                                assert(r.deep_view()[before.len() as int] == x);
                            }
                        }
                    }
                }
            }
        }
        assert(r.deep_view().to_set() =~= compacted_set(all)) by {
            assert forall|id: Seq<char>| #[trigger]
                compacted_set(all).contains(id) implies r.deep_view().to_set().contains(id) by {
                let (k, j) = choose|k: int, j: int| #[trigger]
                    history::covers(all, k, j) && messages[j].id == id;
                history::lemma_bounds_of(
                    messages,
                    all[k]->CompactionEntry_0.compacted_range,
                );
                assert(index.ids.deep_view().len() == index.ids@.len());
                assert(history::ids_of(messages).len() == messages.len());
                assert(seen@.contains(messages[j].id));
            }
            assert forall|id: Seq<char>| #[trigger]
                r.deep_view().to_set().contains(id) implies compacted_set(all).contains(id) by {
                assert(seen@.contains(id));
            }
        }
        r
    }

    /// Decide what to compact, given the active path of the entries: nothing while the path
    /// is below the threshold, else the oldest block that is not compacted yet.
    ///
    /// Fails when there is no such block, or when a message of it alone exceeds the budget.
    pub fn plan_compaction(&self, entries: &[SessionEntry], path: &[LlmMessage]) -> (r: Result<
        Option<CompactionPlan>,
        CompactionError,
    >)
        ensures
            match compaction_plan(self.config, entries.deep_view(), path.deep_view()) {
                Ok(plan) => r is Ok && r->Ok_0.deep_view() == plan,
                Err(error) => r == Err::<Option<CompactionPlan>, CompactionError>(error),
            },
    {
        if !self.is_compaction_needed(path) {
            return Ok(None);
        }
        let ghost all = entries.deep_view();
        let messages = collect_messages(entries);
        let ghost known = messages.deep_view();
        let compacted_ids = CompactionService::collect_compacted_ids(entries);
        let range = match CompactionService::select_compaction_range(&messages, &compacted_ids) {
            Some(range) => range,
            None => return Err(CompactionError::NoPriorHistory),
        };
        let a = find_message(&messages, &range.first_message_id);
        let b = find_message(&messages, &range.last_message_id);
        proof {
            let block = oldest_block(known, compacted_set(all))->0;
            let first = run_length(known, compacted_set(all), 0, true);
            lemma_run_length_bounds(known, compacted_set(all), 0, true);
            lemma_run_length_bounds(known, compacted_set(all), first, false);
            lemma_first_position(known, block.0);
            lemma_first_position(known, block.1);
        }
        let (low, high) = if a <= b {
            (a, b)
        } else {
            (b, a)
        };
        let mut selected: Vec<Message> = Vec::new();
        let mut oversized = false;
        assert(selected.deep_view() =~= known.subrange(low as int, low as int));
        for i in low..high + 1
            invariant
                known == messages.deep_view(),
                low <= i <= high + 1,
                high < messages@.len(),
                selected.deep_view() == known.subrange(low as int, i as int),
                oversized == exceeds_budget(
                    known.subrange(low as int, i as int),
                    self.config.context_budget as nat,
                ),
        {
            let ghost before = selected.deep_view();
            let message = messages[i].clone();
            let alone = LlmMessage {
                role: message.role,
                body: message.body.clone(),
                tool_call_id: None,
            };
            let tokens = budget::estimate_message(&alone);
            assert(known[i as int] == message.deep_view());
            proof {
                lemma_exceeds_push(
                    before,
                    message.deep_view(),
                    self.config.context_budget as nat,
                );
                assert(known.subrange(low as int, i + 1) =~= before.push(message.deep_view()));
            }
            if tokens > self.config.context_budget {
                oversized = true;
            }
            selected.push(message);
            assert(selected.deep_view() =~= before.push(known[i as int]));
        }
        if oversized {
            return Err(CompactionError::SingleMessageExceedsBudget);
        }
        Ok(Some(CompactionPlan { range, selected }))
    }

    /// Decide what to compact of `entries`.
    pub fn begin_compaction(&self, entries: &[SessionEntry]) -> (r: Result<
        Option<CompactionPlan>,
        CompactionError,
    >)
        ensures
            match compaction_plan(
                self.config,
                entries.deep_view(),
                active_path::active_path(entries.deep_view()),
            ) {
                Ok(plan) => r is Ok && r->Ok_0.deep_view() == plan,
                Err(error) => r == Err::<Option<CompactionPlan>, CompactionError>(error),
            },
    {
        let path = CompactionService::build_active_path(entries);
        self.plan_compaction(entries, &path)
    }

    /// Whether a compaction has reduced the context: fails when the active path after it is
    /// still at or above the threshold.
    pub fn check_effective(&self, path: &[LlmMessage]) -> (r: Result<(), CompactionError>)
        ensures
            r == (if over_threshold(self.config, path.deep_view()) {
                Err(CompactionError::IneffectiveCompaction)
            } else {
                Ok::<(), CompactionError>(())
            }),
    {
        if self.is_compaction_needed(path) {
            Err(CompactionError::IneffectiveCompaction)
        } else {
            Ok(())
        }
    }

    /// Finish a compaction once its entry was handed to the store: the entry, unless it
    /// could not be stored or the active path with it is still at or above the threshold.
    pub fn finish_compaction(
        &self,
        entries: Vec<SessionEntry>,
        entry: CompactionEntry,
        stored: Result<(), SessionError>,
    ) -> (r: Result<CompactionEntry, CompactionError>)
        ensures
            match (stored, r) {
                (Err(error), Err(CompactionError::SessionStore(source))) => source == error,
                (Err(_), _) => false,
                (Ok(_), Ok(kept)) => kept == entry && !over_threshold(
                    self.config,
                    active_path::active_path(
                        entries.deep_view().push(
                            SessionEntryModel::CompactionEntry(entry.deep_view()),
                        ),
                    ),
                ),
                (Ok(_), Err(error)) => error == CompactionError::IneffectiveCompaction
                    && over_threshold(
                    self.config,
                    active_path::active_path(
                        entries.deep_view().push(
                            SessionEntryModel::CompactionEntry(entry.deep_view()),
                        ),
                    ),
                ),
            },
    {
        if let Err(error) = stored {
            return Err(CompactionError::SessionStore(error));
        }
        let ghost before = entries.deep_view();
        let mut updated = entries;
        updated.push(SessionEntry::CompactionEntry(entry.clone()));
        assert(updated.deep_view() =~= before.push(
            SessionEntryModel::CompactionEntry(entry.deep_view()),
        ));
        let path = CompactionService::build_active_path(&updated);
        match self.check_effective(&path) {
            Ok(_) => Ok(entry),
            Err(error) => Err(error),
        }
    }
}

/// The entry that records a compaction.
pub fn new_compaction_entry(
    id: String,
    range: CompactionRange,
    summary: String,
    created_at: String,
    run_id: &str,
) -> (r: CompactionEntry)
    ensures
        r.deep_view() == (CompactionEntryModel {
            id: id@,
            role: MessageRole::Summary,
            summary: summary@,
            compacted_range: range.deep_view(),
            created_at: created_at@,
            run_id: run_id@,
        }),
{
    CompactionEntry {
        id,
        role: MessageRole::Summary,
        summary,
        compacted_range: range,
        created_at,
        run_id: run_id.to_owned(),
    }
}

proof fn lemma_first_position(messages: Seq<MessageModel>, k: int)
    requires
        0 <= k < messages.len(),
    ensures
        0 <= first_position(messages, messages[k].id) <= k,
    decreases messages.len(),
{
    if k > 0 && messages[0].id != messages[k].id {
        assert(messages.skip(1)[k - 1] == messages[k]);
        lemma_first_position(messages.skip(1), k - 1);
    }
}

proof fn lemma_exceeds_push(messages: Seq<MessageModel>, message: MessageModel, limit: nat)
    ensures
        exceeds_budget(messages.push(message), limit) == (exceeds_budget(messages, limit)
            || single_tokens(message) > limit),
{
    let longer = messages.push(message);
    if exceeds_budget(messages, limit) {
        let i = choose|i: int|
            0 <= i < messages.len() && single_tokens(#[trigger] messages[i]) > limit;
        assert(single_tokens(longer[i]) > limit);
    }
    if single_tokens(message) > limit {
        assert(single_tokens(longer[messages.len() as int]) > limit);
    }
    if exceeds_budget(longer, limit) {
        let i = choose|i: int|
            0 <= i < longer.len() && single_tokens(#[trigger] longer[i]) > limit;
        if i < messages.len() {
            assert(single_tokens(messages[i]) > limit);
        }
    }
}

/// What has been read of a summary so far.
#[derive(Debug, PartialEq, Eq)]
pub struct SummaryReader {
    /// The message being read.
    pub message_id: Option<String>,
    /// The text of the summary.
    pub summary: String,
    /// Whether the message is complete.
    pub completed: bool,
}

/// What a [`SummaryReader`] holds.
pub struct SummaryReaderModel {
    pub message_id: Option<Seq<char>>,
    pub summary: Seq<char>,
    pub completed: bool,
}

impl DeepView for SummaryReader {
    type V = SummaryReaderModel;

    open spec fn deep_view(&self) -> SummaryReaderModel {
        SummaryReaderModel {
            message_id: self.message_id.deep_view(),
            summary: self.summary@,
            completed: self.completed,
        }
    }
}

/// Nothing has been read of a summary yet.
pub open spec fn unread() -> SummaryReaderModel {
    SummaryReaderModel { message_id: None, summary: Seq::empty(), completed: false }
}

/// The event completes the current message with tool calls instead of a summary.
pub open spec fn requests_tools(state: SummaryReaderModel, event: ProviderEventModel) -> bool {
    match event {
        ProviderEventModel::MessageCompleted { message_id, tool_calls } => state.message_id
            == Some(message_id) && tool_calls is Some,
        _ => false,
    }
}

/// The event has no place in a stream of one message: it starts a second message, completes
/// one that is not being read, or adds text to one that is complete.
pub open spec fn is_misplaced(state: SummaryReaderModel, event: ProviderEventModel) -> bool {
    match event {
        ProviderEventModel::MessageStarted { .. } => state.message_id is Some,
        ProviderEventModel::TextDelta { message_id, .. } => state.message_id == Some(message_id)
            && state.completed,
        ProviderEventModel::MessageCompleted { message_id, .. } => state.message_id != Some(
            message_id,
        ) || state.completed,
    }
}

/// The state after an event: a started message becomes the current one, text of the current
/// message is appended.
pub open spec fn after_event(
    state: SummaryReaderModel,
    event: ProviderEventModel,
) -> SummaryReaderModel {
    match event {
        ProviderEventModel::MessageStarted { message_id } => SummaryReaderModel {
            message_id: Some(message_id),
            ..state
        },
        ProviderEventModel::TextDelta { message_id, delta } => if state.message_id == Some(
            message_id,
        ) {
            SummaryReaderModel { summary: state.summary + delta, ..state }
        } else {
            state
        },
        ProviderEventModel::MessageCompleted { .. } => SummaryReaderModel {
            completed: true,
            ..state
        },
    }
}

/// Whether the optional identifier is `id`.
pub fn is_current(current: &Option<String>, id: &str) -> (r: bool)
    ensures
        r == (current.deep_view() == Some(id@)),
{
    match current {
        Some(known) => text::same(known, id),
        None => false,
    }
}

impl SummaryReader {
    /// Nothing read yet.
    pub fn new() -> (r: Self)
        ensures
            r.deep_view() == unread(),
    {
        SummaryReader { message_id: None, summary: String::new(), completed: false }
    }

    /// Take in one event of the provider stream.
    ///
    /// Fails when the model asks for tool calls instead of writing a summary, when the event
    /// has no place in a stream of one message, and when the stream fails.
    pub fn read(&mut self, event: Result<ProviderEvent, ProviderError>) -> (r: Result<
        (),
        CompactionError,
    >)
        ensures
            match event {
                Ok(event) => {
                    let state = old(self).deep_view();
                    if requests_tools(state, event.deep_view()) {
                        &&& final(self).deep_view() == state
                        &&& r is Err
                        &&& r->Err_0 is Provider
                        &&& r->Err_0->Provider_0 is InvalidResponse
                        &&& r->Err_0->Provider_0->InvalidResponse_0@
                            == "compaction summary requested tool calls"@
                    } else if is_misplaced(state, event.deep_view()) {
                        &&& final(self).deep_view() == state
                        &&& r is Err
                        &&& is_malformed(r->Err_0)
                    } else {
                        &&& final(self).deep_view() == after_event(state, event.deep_view())
                        &&& r is Ok
                    }
                },
                Err(error) => {
                    &&& final(self).deep_view() == old(self).deep_view()
                    &&& r == Err::<(), CompactionError>(CompactionError::Provider(error))
                },
            },
    {
        match event {
            Ok(ProviderEvent::MessageStarted { message_id }) => {
                if self.message_id.is_some() {
                    return Err(malformed());
                }
                self.message_id = Some(message_id);
                Ok(())
            },
            Ok(ProviderEvent::TextDelta { message_id, delta }) => {
                if is_current(&self.message_id, &message_id) {
                    if self.completed {
                        return Err(malformed());
                    }
                    self.summary.push_str(&delta);
                }
                Ok(())
            },
            Ok(ProviderEvent::MessageCompleted { message_id, tool_calls }) => {
                let current = is_current(&self.message_id, &message_id);
                if current && tool_calls.is_some() {
                    return Err(
                        CompactionError::Provider(
                            ProviderError::InvalidResponse(
                                "compaction summary requested tool calls".to_owned(),
                            ),
                        ),
                    );
                }
                if !current || self.completed {
                    return Err(malformed());
                }
                self.completed = true;
                Ok(())
            },
            Err(error) => Err(CompactionError::Provider(error)),
        }
    }

    /// The summary, once the stream has ended.
    ///
    /// Fails when the stream held no complete message.
    pub fn finish(self) -> (r: Result<String, CompactionError>)
        ensures
            match r {
                Ok(summary) => self.deep_view().completed && summary@ == self.deep_view().summary,
                Err(error) => !self.deep_view().completed && is_malformed(error),
            },
    {
        if self.completed {
            Ok(self.summary)
        } else {
            Err(malformed())
        }
    }
}

/// The error says that the stream did not hold exactly one message.
pub open spec fn is_malformed(error: CompactionError) -> bool {
    &&& error is Provider
    &&& error->Provider_0 is InvalidResponse
    &&& error->Provider_0->InvalidResponse_0@ == "compaction summary stream is malformed"@
}

/// The error for a stream that did not hold exactly one message.
fn malformed() -> (r: CompactionError)
    ensures
        is_malformed(r),
{
    CompactionError::Provider(
        ProviderError::InvalidResponse("compaction summary stream is malformed".to_owned()),
    )
}

/// Why a summary was refused.
pub enum Refusal {
    /// The model asked for tools.
    ToolsRequested,
    /// The stream did not hold exactly one message.
    Malformed,
}

/// What has been read after `events`, or why one of them was refused.
pub open spec fn read_all(events: Seq<ProviderEventModel>) -> Result<
    SummaryReaderModel,
    Refusal,
>
    decreases events.len(),
{
    if events.len() == 0 {
        Ok(unread())
    } else {
        match read_all(events.drop_last()) {
            Err(refusal) => Err(refusal),
            Ok(state) => if requests_tools(state, events.last()) {
                Err(Refusal::ToolsRequested)
            } else if is_misplaced(state, events.last()) {
                Err(Refusal::Malformed)
            } else {
                Ok(after_event(state, events.last()))
            },
        }
    }
}

/// What a whole stream of events gives: the text of its message, or a refusal.
pub open spec fn summary_of(events: Seq<ProviderEventModel>) -> Result<Seq<char>, Refusal> {
    match read_all(events) {
        Err(refusal) => Err(refusal),
        Ok(state) => if state.completed {
            Ok(state.summary)
        } else {
            Err(Refusal::Malformed)
        },
    }
}

/// The text that `events` add to the message `id`.
pub open spec fn text_of(events: Seq<ProviderEventModel>, id: Seq<char>) -> Seq<char>
    decreases events.len(),
{
    if events.len() == 0 {
        Seq::empty()
    } else {
        match events.last() {
            ProviderEventModel::TextDelta { message_id, delta } => if message_id == id {
                text_of(events.drop_last(), id) + delta
            } else {
                text_of(events.drop_last(), id)
            },
            _ => text_of(events.drop_last(), id),
        }
    }
}

/// The only event of `events` that is no text is the one at `start`, which starts the
/// message `id`.
pub open spec fn only_starts(events: Seq<ProviderEventModel>, id: Seq<char>, start: int) -> bool {
    &&& 0 <= start < events.len()
    &&& events[start] == (ProviderEventModel::MessageStarted { message_id: id })
    &&& forall|i: int| 0 <= i < events.len() && i != start ==> #[trigger] events[i] is TextDelta
}

/// The only events of `events` that are no text are the one at `start`, which starts the
/// message `id`, and the later one at `end`, which completes it without tool calls; no text
/// of the message follows.
pub open spec fn one_message(
    events: Seq<ProviderEventModel>,
    id: Seq<char>,
    start: int,
    end: int,
) -> bool {
    &&& 0 <= start < end < events.len()
    &&& events[start] == (ProviderEventModel::MessageStarted { message_id: id })
    &&& events[end] == (ProviderEventModel::MessageCompleted { message_id: id, tool_calls: None })
    &&& forall|i: int|
        0 <= i < events.len() && i != start && i != end ==> #[trigger] events[i] is TextDelta
    &&& forall|i: int| end < i < events.len() ==> (#[trigger] events[i])->TextDelta_message_id != id
}

/// How far the reading of one message has come after `events`.
spec fn is_read_up_to(events: Seq<ProviderEventModel>, state: SummaryReaderModel) -> bool {
    match state.message_id {
        None => state == unread() && forall|i: int|
            0 <= i < events.len() ==> #[trigger] events[i] is TextDelta,
        Some(id) => if state.completed {
            exists|start: int, end: int|
                #[trigger] one_message(events, id, start, end) && state.summary == text_of(
                    events.subrange(start, end),
                    id,
                )
        } else {
            exists|start: int|
                #[trigger] only_starts(events, id, start) && state.summary == text_of(
                    events.skip(start),
                    id,
                )
        },
    }
}

proof fn lemma_read_all(events: Seq<ProviderEventModel>)
    ensures
        read_all(events) matches Ok(state) ==> is_read_up_to(events, state),
    decreases events.len(),
{
    if events.len() > 0 && read_all(events) is Ok {
        let before = events.drop_last();
        let event = events.last();
        let last = before.len() as int;
        assert(forall|i: int| 0 <= i < last ==> #[trigger] events[i] == before[i]);
        lemma_read_all(before);
        let state = read_all(before)->Ok_0;
        let after = read_all(events)->Ok_0;
        match state.message_id {
            None => {
                if let ProviderEventModel::MessageStarted { message_id } = event {
                    assert(only_starts(events, message_id, last));
                    assert(text_of(events.skip(last).drop_last(), message_id) =~= Seq::empty());
                    assert(events.skip(last).last() == event);
                    assert(after.summary == text_of(events.skip(last), message_id));
                    assert(exists|start: int|
                        #[trigger] only_starts(events, message_id, start) && after.summary
                            == text_of(events.skip(start), message_id));
                    assert(after.message_id->0 == message_id);
                }
            },
            Some(id) => if state.completed {
                let (start, end) = choose|start: int, end: int|
                    #[trigger] one_message(before, id, start, end) && state.summary == text_of(
                        before.subrange(start, end),
                        id,
                    );
                assert(one_message(events, id, start, end));
                assert(events.subrange(start, end) =~= before.subrange(start, end));
                assert(after.summary == text_of(events.subrange(start, end), id));
            } else {
                let start = choose|start: int|
                    #[trigger] only_starts(before, id, start) && state.summary == text_of(
                        before.skip(start),
                        id,
                    );
                if event is MessageCompleted {
                    assert(one_message(events, id, start, last));
                    assert(events.subrange(start, last) =~= before.skip(start));
                    assert(after.summary == text_of(events.subrange(start, last), id));
                } else {
                    assert(only_starts(events, id, start));
                    assert(events.skip(start).drop_last() =~= before.skip(start));
                    assert(events.skip(start).last() == event);
                    assert(after.summary == text_of(events.skip(start), id));
                }
            },
        }
    }
}

proof fn lemma_text_is_passed_over(events: Seq<ProviderEventModel>)
    requires
        forall|i: int| 0 <= i < events.len() ==> #[trigger] events[i] is TextDelta,
    ensures
        read_all(events) == Ok::<SummaryReaderModel, Refusal>(unread()),
    decreases events.len(),
{
    if events.len() > 0 {
        lemma_text_is_passed_over(events.drop_last());
    }
}

proof fn lemma_started(events: Seq<ProviderEventModel>, id: Seq<char>, start: int)
    requires
        only_starts(events, id, start),
    ensures
        read_all(events) matches Ok(state) && state.message_id == Some(id) && !state.completed,
    decreases events.len(),
{
    let before = events.drop_last();
    if start == before.len() {
        lemma_text_is_passed_over(before);
    } else {
        lemma_started(before, id, start);
    }
}

proof fn lemma_completed(events: Seq<ProviderEventModel>, id: Seq<char>, start: int, end: int)
    requires
        one_message(events, id, start, end),
    ensures
        read_all(events) matches Ok(state) && state.message_id == Some(id) && state.completed,
    decreases events.len(),
{
    let before = events.drop_last();
    if end == before.len() {
        lemma_started(before, id, start);
    } else {
        lemma_completed(before, id, start, end);
    }
}

/// A stream gives a summary exactly when it holds one message, started and then completed
/// without tool calls; the summary is the text that the stream adds to it in between.
pub proof fn law_summary_is_one_message(events: Seq<ProviderEventModel>)
    ensures
        summary_of(events) is Ok <==> exists|id: Seq<char>, start: int, end: int|
            one_message(events, id, start, end),
        forall|id: Seq<char>, start: int, end: int| #[trigger]
            one_message(events, id, start, end) ==> summary_of(events) == Ok::<Seq<char>, Refusal>(
                text_of(events.subrange(start, end), id),
            ),
{
    lemma_read_all(events);
    if summary_of(events) is Ok {
        let state = read_all(events)->Ok_0;
        let id = state.message_id->0;
        let (a, b) = choose|a: int, b: int|
            #[trigger] one_message(events, id, a, b) && state.summary == text_of(
                events.subrange(a, b),
                id,
            );
        assert(one_message(events, id, a, b));
    }
    assert forall|id: Seq<char>, start: int, end: int| #[trigger]
        one_message(events, id, start, end) implies summary_of(events) == Ok::<Seq<char>, Refusal>(
        text_of(events.subrange(start, end), id),
    ) by {
        lemma_completed(events, id, start, end);
        let (a, b) = choose|a: int, b: int|
            #[trigger] one_message(events, id, a, b) && read_all(events)->Ok_0.summary == text_of(
                events.subrange(a, b),
                id,
            );
        assert(events[a] is MessageStarted && events[b] is MessageCompleted);
        assert(a == start && b == end);
    }
}

/// The block that [`CompactionService::select_compaction_range`] picks is the oldest one:
/// every message before it is compacted, none in it is, and it ends at the newest message or
/// before a compacted one.
pub proof fn law_oldest_block(messages: Seq<MessageModel>, ids: Set<Seq<char>>)
    ensures
        match oldest_block(messages, ids) {
            Some((a, b)) => {
                &&& 0 <= a <= b < messages.len()
                &&& forall|i: int| 0 <= i < a ==> ids.contains((#[trigger] messages[i]).id)
                &&& forall|i: int| a <= i <= b ==> !ids.contains((#[trigger] messages[i]).id)
                &&& b + 1 == messages.len() || ids.contains(messages[b + 1].id)
            },
            None => forall|i: int|
                0 <= i < messages.len() ==> ids.contains((#[trigger] messages[i]).id),
        },
{
    let first = run_length(messages, ids, 0, true);
    lemma_run_length_bounds(messages, ids, 0, true);
    if first < messages.len() {
        lemma_run_length_bounds(messages, ids, first, false);
    }
}

/// A new compaction entry for the oldest block compacts at least one more message: the first
/// message of the block was not compacted before and is afterwards.
pub proof fn law_compaction_makes_progress(
    entries: Seq<SessionEntryModel>,
    block: (int, int),
    entry: CompactionEntryModel,
)
    requires
        oldest_block(history::messages_of(entries), compacted_set(entries)) == Some(block),
        entry.compacted_range == block_range(history::messages_of(entries), block),
    ensures
        ({
            let id = history::messages_of(entries)[block.0].id;
            let longer = entries.push(SessionEntryModel::CompactionEntry(entry));
            !history::is_compacted(entries, id) && history::is_compacted(longer, id)
        }),
{
    let messages = history::messages_of(entries);
    let longer = entries.push(SessionEntryModel::CompactionEntry(entry));
    law_oldest_block(messages, compacted_set(entries));
    assert(longer.drop_last() =~= entries);
    assert(history::messages_of(longer) == messages);
    let id = messages[block.0].id;
    assert(!compacted_set(entries).contains(id));
    history::lemma_position_of(messages, id);
    history::lemma_position_of(messages, messages[block.1].id);
    let k = entries.len() as int;
    let p = history::position_of(messages, id)->0;
    assert(history::covers(longer, k, p));
    assert(history::messages_of(longer)[p].id == id);
}

} // verus!

//! A provider without a model: it echoes the developer message back in chunks, or asks for
//! a tool call when the message sounds like one.

use vstd::prelude::*;

use crate::ids;
use crate::models::provider::{ProviderEvent, ProviderEventModel};
use crate::protocol::{
    MessageRole, RunMessage, RunMessageModel, ToolCall, ToolCallModel, ToolDefinition,
    ToolDefinitionModel,
};
use crate::text;

verus! {

/// Whether a character has the Unicode property `Alphabetic`, as `char::is_alphabetic`
/// decides it.
pub uninterp spec fn char_is_alphabetic(c: char) -> bool;

/// Names what `char::is_alphabetic` returns; which characters are alphabetic is left to the
/// Unicode tables of the standard library.
pub assume_specification[ char::is_alphabetic ](c: char) -> (r: bool)
    ensures
        r == char_is_alphabetic(c),
;

/// A mock provider that echoes the final developer message back in chunks.
#[derive(Debug, Clone, Copy)]
pub struct EchoProvider {
    /// Number of characters of a chunk.
    pub chunk_size: usize,
    /// Delay before each chunk, in milliseconds.
    pub delay_ms: u64,
}

impl Default for EchoProvider {
    fn default() -> (r: Self)
        ensures
            r.chunk_size == 5,
            r.delay_ms == 0,
    {
        EchoProvider { chunk_size: 5, delay_ms: 0 }
    }
}

/// For each character of `s` whether it is alphabetic.
pub open spec fn alphabetic_flags(s: Seq<char>) -> Seq<bool> {
    s.map_values(|c: char| char_is_alphabetic(c))
}

/// The character at `k` belongs to a word, given which characters are alphabetic.
pub open spec fn in_word(s: Seq<char>, alphabetic: Seq<bool>, k: int) -> bool {
    alphabetic[k] || s[k] == '\''
}

/// The characters from `a` to `b` are a whole word.
pub open spec fn is_word(s: Seq<char>, alphabetic: Seq<bool>, a: int, b: int) -> bool {
    &&& 0 <= a <= b <= s.len()
    &&& forall|k: int| a <= k < b ==> #[trigger] in_word(s, alphabetic, k)
    &&& a > 0 ==> !in_word(s, alphabetic, a - 1)
    &&& b < s.len() ==> !in_word(s, alphabetic, b)
}

/// An English word that negates a command.
pub open spec fn is_negation(word: Seq<char>) -> bool {
    ||| word == "no"@
    ||| word == "not"@
    ||| word == "never"@
    ||| word == "don't"@
    ||| word == "dont"@
    ||| word == "cannot"@
    ||| word == "cant"@
}

/// Some whole word of `s`, in any case, negates a command.
pub open spec fn negated_in_english(s: Seq<char>, alphabetic: Seq<bool>) -> bool {
    exists|a: int, b: int| #[trigger]
        is_word(s, alphabetic, a, b) && is_negation(text::ascii_lower(s.subrange(a, b)))
}

/// Some Chinese phrase in `s` negates a command.
pub open spec fn negated_in_chinese(s: Seq<char>) -> bool {
    ||| text::contains_text(s, "不要"@)
    ||| text::contains_text(s, "别"@)
    ||| text::contains_text(s, "不想"@)
    ||| text::contains_text(s, "不用"@)
    ||| text::contains_text(s, "不需要"@)
    ||| text::contains_text(s, "不能"@)
    ||| text::contains_text(s, "不会"@)
    ||| text::contains_text(s, "没有"@)
    ||| text::contains_text(s, "请勿"@)
}

/// `s` negates a command.
pub open spec fn is_negated(s: Seq<char>) -> bool {
    negated_in_english(s, alphabetic_flags(s)) || negated_in_chinese(s)
}

/// `message` asks for a file to be written, given whether it negates that.
pub open spec fn asks_to_write(message: Seq<char>, negated: bool) -> bool {
    !negated && (text::contains_text(message, "创建"@) || text::contains_text(message, "写入"@)
        || text::contains_text(text::ascii_lower(message), "write"@))
}

/// `message` asks for a patch to be applied, given whether it negates that.
pub open spec fn asks_to_patch(message: Seq<char>, negated: bool) -> bool {
    !negated && (text::contains_text(message, "替换"@) || text::contains_text(
        text::ascii_lower(message),
        "patch"@,
    ) || text::contains_text(text::ascii_lower(message), "apply_patch"@))
}

/// Whether `word` negates a command.
fn negates(word: &str) -> (r: bool)
    ensures
        r == is_negation(word@),
{
    text::same(word, "no") || text::same(word, "not") || text::same(word, "never") || text::same(
        word,
        "don't",
    ) || text::same(word, "dont") || text::same(word, "cannot") || text::same(word, "cant")
}

/// Returns for each character of `message` whether it is alphabetic.
pub fn alphabetic_characters(message: &str) -> (r: Vec<bool>)
    ensures
        r@ == alphabetic_flags(message@),
{
    let chars = text::chars_of(message);
    let mut flags: Vec<bool> = Vec::new();
    for i in 0..chars.len()
        invariant
            chars@ == message@,
            flags@ == alphabetic_flags(message@.take(i as int)),
    {
        flags.push(chars[i].is_alphabetic());
        assert(flags@ =~= alphabetic_flags(message@.take(i + 1)));
    }
    assert(message@.take(message@.len() as int) =~= message@);
    flags
}

/// Whether a whole word of `message` negates a command, given which of its characters are
/// alphabetic. Words consist of alphabetic characters and apostrophes.
pub fn negation_among_words(message: &str, alphabetic: &Vec<bool>) -> (r: bool)
    requires
        alphabetic@.len() == message@.len(),
    ensures
        r == negated_in_english(message@, alphabetic@),
{
    let chars = text::chars_of(message);
    let total: usize = chars.len();
    let mut start: usize = 0;
    for i in 0..total
        invariant
            chars@ == message@,
            total == chars@.len(),
            alphabetic@.len() == total,
            start <= i <= total,
            forall|k: int| start <= k < i ==> #[trigger] in_word(message@, alphabetic@, k),
            start > 0 ==> !in_word(message@, alphabetic@, start - 1),
            forall|a: int, b: int|
                b < i && #[trigger] is_word(message@, alphabetic@, a, b) ==> !is_negation(
                    text::ascii_lower(message@.subrange(a, b)),
                ),
    {
        if !(alphabetic[i] || chars[i] == '\'') {
            let word = text::string_of(&chars, start, i);
            let lower = text::to_ascii_lower(&word);
            assert(!in_word(message@, alphabetic@, i as int));
            assert(is_word(message@, alphabetic@, start as int, i as int));
            if negates(&lower) {
                return true;
            }
            assert forall|a: int, b: int|
                b < i + 1 && #[trigger] is_word(
                    message@,
                    alphabetic@,
                    a,
                    b,
                ) implies !is_negation(text::ascii_lower(message@.subrange(a, b))) by {
                if b == i {
                    if a > start {
                        assert(in_word(message@, alphabetic@, a - 1));
                    }
                    if a < start {
                        assert(in_word(message@, alphabetic@, start - 1));
                    }
                    assert(a == start);
                }
            }
            start = i + 1;
        } else {
            assert(in_word(message@, alphabetic@, i as int));
            assert forall|a: int, b: int|
                b < i + 1 && #[trigger] is_word(
                    message@,
                    alphabetic@,
                    a,
                    b,
                ) implies !is_negation(text::ascii_lower(message@.subrange(a, b))) by {}
        }
    }
    let word = text::string_of(&chars, start, total);
    let lower = text::to_ascii_lower(&word);
    assert(is_word(message@, alphabetic@, start as int, total as int));
    let r = negates(&lower);
    assert forall|a: int, b: int|
        !r && #[trigger] is_word(message@, alphabetic@, a, b) implies !is_negation(
        text::ascii_lower(message@.subrange(a, b)),
    ) by {
        if b == total {
            if a > start {
                assert(in_word(message@, alphabetic@, a - 1));
            }
            if a < start {
                assert(in_word(message@, alphabetic@, start - 1));
            }
            assert(a == start);
        }
    }
    r
}

/// Whether a whole English word of `message` negates a command.
pub fn has_english_negation(message: &str) -> (r: bool)
    ensures
        r == negated_in_english(message@, alphabetic_flags(message@)),
{
    negation_among_words(message, &alphabetic_characters(message))
}

/// Whether a Chinese phrase in `message` negates a command.
pub fn has_chinese_negation(message: &str) -> (r: bool)
    ensures
        r == negated_in_chinese(message@),
{
    text::contains(message, "不要") || text::contains(message, "别") || text::contains(
        message,
        "不想",
    ) || text::contains(message, "不用") || text::contains(message, "不需要") || text::contains(
        message,
        "不能",
    ) || text::contains(message, "不会") || text::contains(message, "没有") || text::contains(
        message,
        "请勿",
    )
}

/// Whether `message` negates a command, in whole English words or common Chinese phrases.
pub fn has_negation(message: &str) -> (r: bool)
    ensures
        r == is_negated(message@),
{
    has_english_negation(message) || has_chinese_negation(message)
}

/// Whether `message` asks for a file to be written.
pub fn is_write_file_intent(message: &str) -> (r: bool)
    ensures
        r == asks_to_write(message@, is_negated(text::ascii_lower(message@))),
{
    let lower = text::to_ascii_lower(message);
    write_file_intent(message, has_negation(&lower))
}

/// Whether `message` asks for a file to be written, given whether it negates that.
pub fn write_file_intent(message: &str, negated: bool) -> (r: bool)
    ensures
        r == asks_to_write(message@, negated),
{
    if negated {
        return false;
    }
    text::contains(message, "创建") || text::contains(message, "写入") || text::contains(
        &text::to_ascii_lower(message),
        "write",
    )
}

/// Whether `message` asks for a patch to be applied.
pub fn is_apply_patch_intent(message: &str) -> (r: bool)
    ensures
        r == asks_to_patch(message@, is_negated(text::ascii_lower(message@))),
{
    let lower = text::to_ascii_lower(message);
    apply_patch_intent(message, has_negation(&lower))
}

/// Whether `message` asks for a patch to be applied, given whether it negates that.
pub fn apply_patch_intent(message: &str, negated: bool) -> (r: bool)
    ensures
        r == asks_to_patch(message@, negated),
{
    if negated {
        return false;
    }
    let lower = text::to_ascii_lower(message);
    text::contains(message, "替换") || text::contains(&lower, "patch") || text::contains(
        &lower,
        "apply_patch",
    )
}

/// A tool of that name is offered.
pub open spec fn offers(tools: Seq<ToolDefinitionModel>, name: Seq<char>) -> bool {
    exists|i: int| 0 <= i < tools.len() && (#[trigger] tools[i]).name == name
}

/// The content of the last developer message; empty when there is none.
pub open spec fn last_developer_text(messages: Seq<RunMessageModel>) -> Seq<char>
    decreases messages.len(),
{
    if messages.len() == 0 {
        Seq::empty()
    } else if messages.last().role == MessageRole::Developer {
        messages.last().content
    } else {
        last_developer_text(messages.drop_last())
    }
}

/// The call that the provider asks for, given what it is asked for: none right after a tool
/// result; else to write a file or to apply a patch, when the last developer message asks
/// for it and the tool is offered; else to read a file, when that tool is offered.
pub open spec fn requested_call(
    messages: Seq<RunMessageModel>,
    tools: Seq<ToolDefinitionModel>,
    negated: bool,
) -> Option<ToolCallModel> {
    let wish = last_developer_text(messages);
    if messages.len() > 0 && messages.last().role == MessageRole::Tool {
        None
    } else if offers(tools, "write_file"@) && asks_to_write(wish, negated) {
        Some(
            ToolCallModel {
                id: "echo-call-1"@,
                name: "write_file"@,
                arguments: "{\"content\":\"Hello, world!\",\"path\":\"hello.txt\"}"@,
            },
        )
    } else if offers(tools, "apply_patch"@) && asks_to_patch(wish, negated) {
        Some(
            ToolCallModel {
                id: "echo-call-1"@,
                name: "apply_patch"@,
                arguments:
                    "{\"patch\":[{\"replace\":\"fn new_one() {}\",\"search\":\"fn old_one() {}\"},{\"replace\":\"fn new_two() {}\",\"search\":\"fn old_two() {}\"}],\"path\":\"src/lib.rs\"}"@,
            },
        )
    } else if offers(tools, "read_file"@) {
        Some(
            ToolCallModel {
                id: "echo-call-1"@,
                name: "read_file"@,
                arguments: "{\"path\":\"main.rs\"}"@,
            },
        )
    } else {
        None
    }
}

/// `s` in pieces of `size` characters; the last may be shorter.
pub open spec fn chunks(s: Seq<char>, size: nat) -> Seq<Seq<char>>
    decreases s.len(),
{
    if s.len() == 0 || size == 0 {
        Seq::empty()
    } else if s.len() <= size {
        seq![s]
    } else {
        seq![s.take(size as int)] + chunks(s.skip(size as int), size)
    }
}

/// The events of a message made of `pieces`.
pub open spec fn text_events(message_id: Seq<char>, pieces: Seq<Seq<char>>) -> Seq<
    ProviderEventModel,
> {
    seq![ProviderEventModel::MessageStarted { message_id }] + pieces.map_values(
        |delta: Seq<char>| ProviderEventModel::TextDelta { message_id, delta },
    ) + seq![ProviderEventModel::MessageCompleted { message_id, tool_calls: None }]
}

/// The events of a message that asks for one tool call.
pub open spec fn call_events(message_id: Seq<char>, call: ToolCallModel) -> Seq<
    ProviderEventModel,
> {
    seq![
        ProviderEventModel::MessageStarted { message_id },
        ProviderEventModel::MessageCompleted { message_id, tool_calls: Some(seq![call]) },
    ]
}

/// The events of a reply, given the call that it asks for.
pub open spec fn reply(
    chunk_size: nat,
    messages: Seq<RunMessageModel>,
    call: Option<ToolCallModel>,
    message_id: Seq<char>,
) -> Seq<ProviderEventModel> {
    match call {
        Some(call) => call_events(message_id, call),
        None => text_events(
            message_id,
            chunks("Echo: "@ + last_developer_text(messages), chunk_size),
        ),
    }
}

/// The call that a reply to `messages` asks for.
pub open spec fn echo_call(messages: Seq<RunMessageModel>, tools: Seq<ToolDefinitionModel>) -> Option<
    ToolCallModel,
> {
    requested_call(
        messages,
        tools,
        is_negated(text::ascii_lower(last_developer_text(messages))),
    )
}

/// Whether a tool of that name is offered.
fn is_offered(tools: &Vec<ToolDefinition>, name: &str) -> (r: bool)
    ensures
        r == offers(tools.deep_view(), name@),
{
    for i in 0..tools.len()
        invariant
            forall|k: int|
                0 <= k < i ==> (#[trigger] tools.deep_view()[k]).name != name@,
    {
        assert(tools.deep_view()[i as int] == tools@[i as int].deep_view());
        if text::same(&tools[i].name, name) {
            return true;
        }
    }
    false
}

/// Returns the content of the last developer message; empty when there is none.
pub fn last_developer_message(messages: &Vec<RunMessage>) -> (r: String)
    ensures
        r@ == last_developer_text(messages.deep_view()),
{
    let ghost model = messages.deep_view();
    let total: usize = messages.len();
    assert(model.take(total as int) =~= model);
    let mut i: usize = total;
    while i > 0
        invariant
            i <= total,
            total == messages@.len(),
            model == messages.deep_view(),
            last_developer_text(model) == last_developer_text(model.take(i as int)),
        decreases i,
    {
        let at: usize = i - 1;
        assert(model.take(i as int).last() == messages@[at as int].deep_view());
        assert(model.take(i as int).drop_last() =~= model.take(at as int));
        if messages[at].role == MessageRole::Developer {
            return messages[at].content.clone();
        }
        i = at;
    }
    let r = String::new();
    assert(r@ =~= Seq::empty());
    r
}

/// Returns the call to ask for, given whether the last developer message negates what it
/// names.
pub fn tool_call_for(messages: &Vec<RunMessage>, tools: &Vec<ToolDefinition>, negated: bool) -> (r:
    Option<ToolCall>)
    ensures
        r.deep_view() == requested_call(messages.deep_view(), tools.deep_view(), negated),
{
    let ghost model = messages.deep_view();
    if messages.len() > 0 {
        assert(model.last() == messages@[messages@.len() - 1].deep_view());
        if messages[messages.len() - 1].role == MessageRole::Tool {
            return None;
        }
    }
    let wish = last_developer_message(messages);
    if is_offered(tools, "write_file") && write_file_intent(&wish, negated) {
        return Some(
            ToolCall {
                id: "echo-call-1".to_owned(),
                name: "write_file".to_owned(),
                arguments: "{\"content\":\"Hello, world!\",\"path\":\"hello.txt\"}".to_owned(),
            },
        );
    }
    if is_offered(tools, "apply_patch") && apply_patch_intent(&wish, negated) {
        return Some(
            ToolCall {
                id: "echo-call-1".to_owned(),
                name: "apply_patch".to_owned(),
                arguments:
                    "{\"patch\":[{\"replace\":\"fn new_one() {}\",\"search\":\"fn old_one() {}\"},{\"replace\":\"fn new_two() {}\",\"search\":\"fn old_two() {}\"}],\"path\":\"src/lib.rs\"}".to_owned(),
            },
        );
    }
    if is_offered(tools, "read_file") {
        return Some(
            ToolCall {
                id: "echo-call-1".to_owned(),
                name: "read_file".to_owned(),
                arguments: "{\"path\":\"main.rs\"}".to_owned(),
            },
        );
    }
    None
}

/// Returns the events of a message that asks for one tool call.
pub fn tool_call_stream(tool_call: ToolCall, message_id: &str) -> (r: Vec<ProviderEvent>)
    ensures
        r.deep_view() == call_events(message_id@, tool_call.deep_view()),
{
    let mut calls: Vec<ToolCall> = Vec::new();
    let ghost call = tool_call.deep_view();
    calls.push(tool_call);
    assert(calls.deep_view() =~= seq![call]);
    let mut events: Vec<ProviderEvent> = Vec::new();
    events.push(ProviderEvent::MessageStarted { message_id: message_id.to_owned() });
    events.push(
        ProviderEvent::MessageCompleted {
            message_id: message_id.to_owned(),
            tool_calls: Some(calls),
        },
    );
    assert(events.deep_view() =~= call_events(message_id@, call));
    events
}

/// Returns `content` in pieces of `size` characters; the last may be shorter.
fn split_into_chunks(content: &str, size: usize) -> (r: Vec<String>)
    requires
        size > 0,
    ensures
        r.deep_view() == chunks(content@, size as nat),
{
    let chars = text::chars_of(content);
    let total: usize = chars.len();
    let mut pieces: Vec<String> = Vec::new();
    let mut at: usize = 0;
    assert(content@.skip(0) =~= content@);
    assert(pieces.deep_view() + chunks(content@, size as nat) =~= chunks(content@, size as nat));
    while total - at > size
        invariant
            size > 0,
            chars@ == content@,
            total == chars@.len(),
            at <= total,
            pieces.deep_view() + chunks(content@.skip(at as int), size as nat) == chunks(
                content@,
                size as nat,
            ),
        decreases total - at,
    {
        let ghost rest = content@.skip(at as int);
        let ghost before = pieces.deep_view();
        let next: usize = at + size;
        let piece = text::string_of(&chars, at, next);
        assert(piece@ =~= rest.take(size as int));
        assert(rest.skip(size as int) =~= content@.skip(next as int));
        pieces.push(piece);
        assert(pieces.deep_view() =~= before.push(piece@));
        assert(pieces.deep_view() + chunks(content@.skip(next as int), size as nat) =~= before
            + chunks(rest, size as nat));
        at = next;
    }
    if at < total {
        let ghost rest = content@.skip(at as int);
        let ghost before = pieces.deep_view();
        let piece = text::string_of(&chars, at, total);
        assert(piece@ =~= rest);
        pieces.push(piece);
        assert(pieces.deep_view() =~= before + chunks(rest, size as nat));
    } else {
        assert(pieces.deep_view() =~= pieces.deep_view() + chunks(
            content@.skip(at as int),
            size as nat,
        ));
    }
    pieces
}

impl EchoProvider {
    /// Returns the events of the reply, given the call that it asks for. A text reply needs
    /// chunks that hold something.
    pub fn respond(
        &self,
        messages: &Vec<RunMessage>,
        call: Option<ToolCall>,
        message_id: &str,
    ) -> (r: Vec<ProviderEvent>)
        requires
            self.chunk_size > 0 || call is Some,
        ensures
            r.deep_view() == reply(
                self.chunk_size as nat,
                messages.deep_view(),
                call.deep_view(),
                message_id@,
            ),
    {
        if let Some(tool_call) = call {
            return tool_call_stream(tool_call, message_id);
        }
        let content = text::concat("Echo: ", &last_developer_message(messages));
        let pieces = split_into_chunks(&content, self.chunk_size);
        let ghost model = pieces.deep_view();
        let ghost started = seq![ProviderEventModel::MessageStarted { message_id: message_id@ }];
        let ghost to_event = |delta: Seq<char>|
            ProviderEventModel::TextDelta { message_id: message_id@, delta };
        let mut events: Vec<ProviderEvent> = Vec::new();
        events.push(ProviderEvent::MessageStarted { message_id: message_id.to_owned() });
        assert(events.deep_view() =~= started + model.take(0).map_values(to_event));
        for i in 0..pieces.len()
            invariant
                model == pieces.deep_view(),
                to_event == (|delta: Seq<char>|
                    ProviderEventModel::TextDelta { message_id: message_id@, delta }),
                events.deep_view() == started + model.take(i as int).map_values(to_event),
        {
            let ghost before = events.deep_view();
            let event = ProviderEvent::TextDelta {
                message_id: message_id.to_owned(),
                delta: pieces[i].clone(),
            };
            events.push(event);
            assert(event.deep_view() == to_event(model[i as int]));
            assert(events.deep_view() =~= before.push(event.deep_view()));
            assert(model.take(i + 1) =~= model.take(i as int).push(model[i as int]));
            assert(events.deep_view() =~= started + model.take(i + 1).map_values(to_event));
        }
        assert(model.take(model.len() as int) =~= model);
        let ghost before = events.deep_view();
        let completed = ProviderEvent::MessageCompleted {
            message_id: message_id.to_owned(),
            tool_calls: None,
        };
        events.push(completed);
        assert(events.deep_view() =~= before.push(completed.deep_view()));
        assert(events.deep_view() =~= text_events(message_id@, model));
        events
    }

    /// Returns the events of the reply to `messages` under a generated message identifier,
    /// or `None` when the reply is a text and the chunks hold nothing.
    pub fn send_message(&self, messages: &Vec<RunMessage>, tools: &Vec<ToolDefinition>) -> (r:
        Option<Vec<ProviderEvent>>)
        ensures
            r is None <==> self.chunk_size == 0 && echo_call(
                messages.deep_view(),
                tools.deep_view(),
            ) is None,
            r matches Some(events) ==> exists|message_id: Seq<char>| #[trigger]
                ids::is_uuid(message_id) && events.deep_view() == reply(
                    self.chunk_size as nat,
                    messages.deep_view(),
                    echo_call(messages.deep_view(), tools.deep_view()),
                    message_id,
                ),
    {
        let wish = last_developer_message(messages);
        let negated = has_negation(&text::to_ascii_lower(&wish));
        let call = tool_call_for(messages, tools, negated);
        if self.chunk_size == 0 && call.is_none() {
            return None;
        }
        let message_id = ids::new_id();
        Some(self.respond(messages, call, &message_id))
    }

    /// Returns how long to wait before an event is handed on, in milliseconds: before a
    /// piece of text, and before a requested tool call.
    pub fn delay_before(&self, event: &ProviderEvent) -> (r: u64)
        ensures
            r == (match event.deep_view() {
                ProviderEventModel::MessageStarted { .. } => 0,
                ProviderEventModel::TextDelta { .. } => self.delay_ms,
                ProviderEventModel::MessageCompleted { tool_calls, .. } => if tool_calls is Some {
                    self.delay_ms
                } else {
                    0
                },
            }),
    {
        match event {
            ProviderEvent::MessageStarted { .. } => 0,
            ProviderEvent::TextDelta { .. } => self.delay_ms,
            ProviderEvent::MessageCompleted { tool_calls, .. } => if tool_calls.is_some() {
                self.delay_ms
            } else {
                0
            },
        }
    }
}

/// Pieces, joined.
pub open spec fn joined(pieces: Seq<Seq<char>>) -> Seq<char>
    decreases pieces.len(),
{
    if pieces.len() == 0 {
        Seq::empty()
    } else {
        pieces[0] + joined(pieces.skip(1))
    }
}

/// The pieces of a text make up the text, and none of them is empty or longer than asked.
pub proof fn law_chunks_make_up_the_text(s: Seq<char>, size: nat)
    requires
        size > 0,
    ensures
        joined(chunks(s, size)) == s,
        forall|i: int|
            0 <= i < chunks(s, size).len() ==> 0 < (#[trigger] chunks(s, size)[i]).len() <= size,
    decreases s.len(),
{
    let pieces = chunks(s, size);
    if s.len() == 0 {
        assert(joined(pieces) =~= s);
    } else if s.len() <= size {
        assert(pieces.skip(1) =~= Seq::empty());
        assert(joined(pieces.skip(1)) =~= Seq::empty());
        assert(joined(pieces) =~= s);
    } else {
        let rest = s.skip(size as int);
        law_chunks_make_up_the_text(rest, size);
        assert(pieces.skip(1) =~= chunks(rest, size));
        assert(joined(pieces) =~= s);
        assert forall|i: int| 0 <= i < pieces.len() implies 0 < (#[trigger] pieces[i]).len()
            <= size by {
            if i > 0 {
                assert(pieces[i] == chunks(rest, size)[i - 1]);
            }
        }
    }
}

/// A reply is one message: it starts, goes on with text only, and completes, all under one
/// identifier; and it asks for no tool right after a tool result.
pub proof fn law_reply_is_one_message(
    chunk_size: nat,
    messages: Seq<RunMessageModel>,
    tools: Seq<ToolDefinitionModel>,
    negated: bool,
    message_id: Seq<char>,
)
    ensures
        ({
            let call = requested_call(messages, tools, negated);
            let events = reply(chunk_size, messages, call, message_id);
            let n = events.len() as int;
            &&& n >= 2
            &&& events[0] == (ProviderEventModel::MessageStarted { message_id })
            &&& events[n - 1] matches ProviderEventModel::MessageCompleted {
                message_id: id,
                tool_calls,
            } && id == message_id && (tool_calls is Some <==> call is Some)
            &&& forall|i: int|
                0 < i < n - 1 ==> (#[trigger] events[i] matches ProviderEventModel::TextDelta {
                    message_id: id,
                    ..
                } && id == message_id)
            &&& messages.len() > 0 && messages.last().role == MessageRole::Tool ==> call is None
        }),
{
    let call = requested_call(messages, tools, negated);
    let events = reply(chunk_size, messages, call, message_id);
    if call is None {
        let pieces = chunks("Echo: "@ + last_developer_text(messages), chunk_size);
        let deltas = pieces.map_values(
            |delta: Seq<char>| ProviderEventModel::TextDelta { message_id, delta },
        );
        assert forall|i: int| 0 < i < events.len() - 1 implies #[trigger] events[i] == deltas[i
            - 1] by {}
    }
}

} // verus!

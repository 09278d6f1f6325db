//! Line-delimited JSON: one JSON text per line.

use vstd::prelude::*;

use crate::json;
use crate::protocol::rpc::ProtocolError;
use crate::sequences;
use crate::text;
use crate::text_laws;

verus! {

/// The line of a JSON text.
pub open spec fn json_line(message: Seq<char>) -> Seq<char> {
    message.push('\n')
}

/// The lines of JSON texts, one after the other.
pub open spec fn json_lines(messages: Seq<Seq<char>>) -> Seq<char>
    decreases messages.len(),
{
    if messages.len() == 0 {
        Seq::empty()
    } else {
        json_line(messages[0]) + json_lines(messages.skip(1))
    }
}

/// The line holds more than white space.
pub open spec fn is_filled(line: Seq<char>) -> bool {
    text::trimmed(line).len() > 0
}

/// The JSON texts of lines: lines of white space are left out, and line ends are cut off.
pub open spec fn filled_texts(lines: Seq<Seq<char>>) -> Seq<Seq<char>>
    decreases lines.len(),
{
    if lines.len() == 0 {
        Seq::empty()
    } else {
        let rest = filled_texts(lines.skip(1));
        if is_filled(lines[0]) {
            seq![text::trimmed_line_end(lines[0])] + rest
        } else {
            rest
        }
    }
}

/// The JSON texts that line-delimited input holds.
pub open spec fn json_texts(input: Seq<char>) -> Seq<Seq<char>> {
    filled_texts(text::lines_of(input))
}

/// Encodes a message as one line, given its JSON text or the reason why it has none.
pub fn encode_json_line(message: Result<String, String>) -> (r: Result<String, ProtocolError>)
    ensures
        match (message, r) {
            (Ok(message), Ok(line)) => line@ == json_line(message@),
            (Err(reason), Err(ProtocolError::Serialize(error))) => error@ == reason@,
            _ => false,
        },
{
    match message {
        Ok(message) => {
            let mut line = message;
            line.push('\n');
            Ok(line)
        },
        Err(error) => Err(ProtocolError::Serialize(error)),
    }
}

/// Returns the JSON text of a line.
pub fn decode_json_line(line: &str) -> (r: String)
    ensures
        r@ == text::trimmed_line_end(line@),
{
    text::trim_line_end(line)
}

/// Whether the line holds more than white space.
pub fn has_content(line: &str) -> (r: bool)
    ensures
        r == is_filled(line@),
{
    let trimmed = text::trim(line);
    !trimmed.as_str().is_empty()
}

/// Returns the JSON texts that line-delimited input holds, in order.
pub fn decode_json_lines(input: &str) -> (r: Vec<String>)
    ensures
        r.deep_view() == json_texts(input@),
{
    let lines = text::lines(input);
    let ghost model = lines.deep_view();
    let mut texts: Vec<String> = Vec::new();
    assert(model.skip(0) =~= model);
    assert(texts.deep_view() + filled_texts(model) =~= filled_texts(model));
    for i in 0..lines.len()
        invariant
            model == lines.deep_view(),
            texts.deep_view() + filled_texts(model.skip(i as int)) == filled_texts(model),
    {
        let ghost before = texts.deep_view();
        let ghost rest = model.skip(i as int);
        assert(rest[0] == lines@[i as int]@);
        assert(rest.skip(1) =~= model.skip(i + 1));
        if has_content(&lines[i]) {
            let line = decode_json_line(&lines[i]);
            texts.push(line);
            assert(texts.deep_view() =~= before.push(line@));
            assert(texts.deep_view() + filled_texts(model.skip(i + 1)) =~= before + filled_texts(
                rest,
            ));
        }
    }
    assert(model.skip(model.len() as int) =~= Seq::empty());
    assert(texts.deep_view() =~= texts.deep_view() + filled_texts(Seq::empty()));
    texts
}

/// A text on one line has no line end to lose.
pub proof fn lemma_one_line(message: Seq<char>)
    requires
        json::is_one_line(message),
    ensures
        text::trimmed_line_end(message) == message,
        text::without_cr(message) == message,
{
    if message.len() > 0 {
        assert(message[message.len() - 1] != '\n');
    }
}

/// The first line of input that begins with the line of a text is that text.
pub proof fn lemma_first_line(message: Seq<char>, rest: Seq<char>)
    requires
        json::is_one_line(message),
    ensures
        text::lines_of(json_line(message) + rest) == seq![message] + text::lines_of(rest),
{
    let input = json_line(message) + rest;
    let n = message.len() as int;
    assert(input[n] == '\n');
    assert forall|k: int| 0 <= k < n implies input[k] != '\n' by {
        assert(input[k] == message[k]);
    }
    text::lemma_first_char_unique(input, '\n', n);
    assert(input.take(n) =~= message);
    assert(input.skip(n + 1) =~= rest);
    lemma_one_line(message);
}

/// The lines of texts on one line each are those texts.
pub proof fn lemma_lines_of_json_lines(messages: Seq<Seq<char>>)
    requires
        forall|i: int| 0 <= i < messages.len() ==> json::is_one_line(#[trigger] messages[i]),
    ensures
        text::lines_of(json_lines(messages)) == messages,
    decreases messages.len(),
{
    if messages.len() > 0 {
        let rest = messages.skip(1);
        assert forall|i: int| 0 <= i < rest.len() implies json::is_one_line(#[trigger] rest[i]) by {
            assert(rest[i] == messages[i + 1]);
        }
        lemma_lines_of_json_lines(rest);
        lemma_first_line(messages[0], json_lines(rest));
    }
    assert(text::lines_of(json_lines(messages)) =~= messages);
}

/// Reading gives back what was written: the JSON texts of encoded lines are the texts that
/// were encoded, in order, when each stands on one line and holds more than white space.
pub proof fn law_lines_give_back_messages(messages: Seq<Seq<char>>)
    requires
        forall|i: int|
            0 <= i < messages.len() ==> json::is_one_line(#[trigger] messages[i]) && is_filled(
                messages[i],
            ),
    ensures
        json_texts(json_lines(messages)) == messages,
{
    lemma_lines_of_json_lines(messages);
    lemma_all_filled(messages);
}

proof fn lemma_all_filled(lines: Seq<Seq<char>>)
    requires
        forall|i: int|
            0 <= i < lines.len() ==> json::is_one_line(#[trigger] lines[i]) && is_filled(lines[i]),
    ensures
        filled_texts(lines) == lines,
    decreases lines.len(),
{
    if lines.len() > 0 {
        let rest = lines.skip(1);
        assert forall|i: int| 0 <= i < rest.len() implies json::is_one_line(#[trigger] rest[i])
            && is_filled(rest[i]) by {
            assert(rest[i] == lines[i + 1]);
        }
        lemma_all_filled(rest);
        lemma_one_line(lines[0]);
    }
    assert(filled_texts(lines) =~= lines);
}

/// Lines that are appended to lines come after them.
pub proof fn lemma_json_lines_push(messages: Seq<Seq<char>>, message: Seq<char>)
    ensures
        json_lines(messages.push(message)) == json_lines(messages) + json_line(message),
    decreases messages.len(),
{
    if messages.len() == 0 {
        assert(messages.push(message).skip(1) =~= Seq::empty());
        assert(json_lines(messages.push(message).skip(1)) =~= Seq::empty());
        assert(json_lines(messages.push(message)) =~= json_lines(messages) + json_line(message));
    } else {
        lemma_json_lines_push(messages.skip(1), message);
        assert(messages.push(message).skip(1) =~= messages.skip(1).push(message));
        assert(json_lines(messages.push(message)) =~= json_lines(messages) + json_line(message));
    }
}

/// An encoded line is one line: it ends with the only line feed it holds.
pub proof fn law_an_encoded_line_is_one_line(message: Seq<char>)
    requires
        json::is_one_line(message),
    ensures
        json_line(message).last() == '\n',
        forall|i: int| 0 <= i < message.len() ==> #[trigger] json_line(message)[i] != '\n',
        text::trimmed_line_end(json_line(message)) == message,
{
    assert(json_line(message).drop_last() =~= message);
    lemma_one_line(message);
    assert forall|i: int| 0 <= i < message.len() implies #[trigger] json_line(message)[i] != '\n' by {
        assert(json_line(message)[i] == message[i]);
    }
}

/// The JSON texts of lines are those of all lines with anything but white space, in order,
/// each without its line end.
pub proof fn law_filled_lines_are_read(lines: Seq<Seq<char>>)
    ensures
        filled_texts(lines) == lines.filter(
            |line: Seq<char>|
                exists|i: int| 0 <= i < line.len() && !text::is_space(#[trigger] line[i]),
        ).map_values(|line: Seq<char>| text::trimmed_line_end(line)),
    decreases lines.len(),
{
    let filled = |line: Seq<char>|
        exists|i: int| 0 <= i < line.len() && !text::is_space(#[trigger] line[i]);
    let cut = |line: Seq<char>| text::trimmed_line_end(line);
    if lines.len() > 0 {
        let first = lines[0];
        let rest = lines.skip(1);
        law_filled_lines_are_read(rest);
        assert(lines =~= seq![first] + rest);
        rest.lemma_filter_prepend(first, filled);
        let (lead, tail) = text_laws::law_trimming_leaves_nothing_to_trim(first);
        assert(is_filled(first) == filled(first)) by {
            if is_filled(first) {
                assert(first[lead.len() as int] == text::trimmed(first)[0]);
                assert(!text::is_space(first[lead.len() as int]));
            } else {
                assert(first =~= lead + tail);
                assert forall|i: int| 0 <= i < first.len() implies text::is_space(
                    #[trigger] first[i],
                ) by {
                    if i < lead.len() {
                        assert(first[i] == lead[i]);
                    } else {
                        assert(first[i] == tail[i - lead.len()]);
                    }
                }
            }
        }
        assert(filled_texts(lines) =~= lines.filter(filled).map_values(cut));
    } else {
        sequences::lemma_filter_last(lines, filled);
        assert(filled_texts(lines) =~= lines.filter(filled).map_values(cut));
    }
}

/// A text is written on a line of its own, ended by a line feed; texts are written one after
/// the other.
pub proof fn law_texts_are_written_on_lines(messages: Seq<Seq<char>>)
    ensures
        json_lines(messages) == messages.flat_map(|message: Seq<char>| message + seq!['\n']),
    decreases messages.len(),
{
    let line = |message: Seq<char>| message + seq!['\n'];
    sequences::lemma_flat_map_last(messages, line);
    if messages.len() > 0 {
        let rest = messages.drop_last();
        let last = messages.last();
        law_texts_are_written_on_lines(rest);
        lemma_json_lines_push(rest, last);
        assert(rest.push(last) =~= messages);
        assert(json_line(last) =~= line(last));
    }
}

} // verus!

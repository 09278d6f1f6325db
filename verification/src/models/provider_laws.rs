//! What holds of the configuration of a provider and of the replies of the echo provider.

use vstd::prelude::*;

use crate::models::config;
use crate::models::config::{ConfigErrorModel, ConfigFile, OpenAiSectionModel, RawConfigModel};
use crate::models::echo;
use crate::models::provider::ProviderEventModel;
use crate::protocol::{MessageRole, RunMessageModel, ToolCallModel, ToolDefinitionModel};
use crate::sequences;
use crate::text;

verus! {

/// The value of a field: that at the top level, else that of the section, where there is one.
pub open spec fn field(flat: Option<Seq<char>>, section: Option<Seq<char>>) -> Option<Seq<char>> {
    match flat {
        Some(value) => Some(value),
        None => section,
    }
}

/// A configuration takes each field from the top level of the file, else from its section. A
/// provider that is not named is `openai`; one that is not known is refused before anything
/// else; then the first field that is missing is told.
pub proof fn law_configuration_takes_the_fields_of_the_file(raw: RawConfigModel)
    ensures
        ({
            let provider = match raw.provider {
                Some(provider) => provider,
                None => "openai"@,
            };
            let section = match raw.openai {
                Some(section) => section,
                None => OpenAiSectionModel { base_url: None, api_key: None, model: None },
            };
            let known = provider == "openai"@ || provider == "openai-compatible"@ || provider
                == "echo"@;
            let base_url = field(raw.base_url, section.base_url);
            let api_key = field(raw.api_key, section.api_key);
            let model = field(raw.model, section.model);
            match config::configured(raw) {
                Ok(read) => {
                    &&& known
                    &&& read.provider == provider
                    &&& base_url == Some(read.base_url)
                    &&& api_key == Some(read.api_key)
                    &&& model == Some(read.model)
                    &&& read.echo_chunk_size == raw.echo_chunk_size
                    &&& read.echo_delay_ms == raw.echo_delay_ms
                    &&& read.context_budget == raw.context_budget
                },
                Err(error) => if !known {
                    error == (ConfigErrorModel::UnsupportedProvider { provider })
                } else if base_url is None {
                    error == (ConfigErrorModel::MissingField { field: "base_url"@ })
                } else if api_key is None {
                    error == (ConfigErrorModel::MissingField { field: "api_key"@ })
                } else {
                    model is None && error == (ConfigErrorModel::MissingField { field: "model"@ })
                },
            }
        }),
{
}

/// What is wrong with the file of a configuration is told: that it is missing, that it could
/// not be read, or that it is invalid; else what it holds counts.
pub proof fn law_faulty_configuration_file_is_told(path: Seq<char>, file: ConfigFile)
    ensures
        config::loaded(path, file) == match file {
            ConfigFile::Missing => Err(ConfigErrorModel::NotFound(path)),
            ConfigFile::Unreadable(source) => Err(
                ConfigErrorModel::Read { path, source: source@ },
            ),
            ConfigFile::Invalid(error) => Err(ConfigErrorModel::Parse(error@)),
            ConfigFile::Parsed(raw) => config::configured(raw.deep_view()),
        },
{
}

/// Where the configuration is looked for: at the given path; else in `byte/config.toml` below
/// the configuration directory, or below `.config` in the home directory.
pub proof fn law_configuration_is_looked_for(
    path: Seq<char>,
    dir: Seq<char>,
    home: Seq<char>,
    a: Option<Seq<char>>,
    b: Option<Seq<char>>,
)
    requires
        dir.len() > 0,
        dir.last() != '/',
        home.len() > 0,
        home.last() != '/',
    ensures
        config::config_path(Some(path), a, b) == path,
        config::config_path(None, Some(dir), b) == dir + "/byte/config.toml"@,
        config::config_path(None, None, Some(home)) == home + "/.config/byte/config.toml"@,
{
    reveal_strlit("byte");
    reveal_strlit("config.toml");
    reveal_strlit(".config");
    reveal_strlit("/byte/config.toml");
    reveal_strlit("/.config/byte/config.toml");
    assert(config::config_path(None, Some(dir), b) =~= dir + "/byte/config.toml"@);
    assert(config::config_path(None, None, Some(home)) =~= home + "/.config/byte/config.toml"@);
}

/// The text that is echoed is that of the last message of the developer.
pub proof fn law_last_developer_message_is_echoed(messages: Seq<RunMessageModel>)
    ensures
        forall|i: int|
            0 <= i < messages.len() && (#[trigger] messages[i]).role == MessageRole::Developer && (
            forall|j: int|
                i < j < messages.len() ==> (#[trigger] messages[j]).role != MessageRole::Developer)
                ==> echo::last_developer_text(messages) == messages[i].content,
        (forall|i: int|
            0 <= i < messages.len() ==> (#[trigger] messages[i]).role != MessageRole::Developer)
            ==> echo::last_developer_text(messages).len() == 0,
    decreases messages.len(),
{
    if messages.len() > 0 {
        let rest = messages.drop_last();
        let n = messages.len() - 1;
        law_last_developer_message_is_echoed(rest);
        assert(messages[n] == messages.last());
        assert forall|i: int| 0 <= i < n implies #[trigger] messages[i] == rest[i] by {}
        assert forall|i: int|
            0 <= i < messages.len() && (#[trigger] messages[i]).role == MessageRole::Developer && (
            forall|j: int|
                i < j < messages.len() ==> (#[trigger] messages[j]).role
                    != MessageRole::Developer) implies echo::last_developer_text(messages)
            == messages[i].content by {
            if i < n {
                assert(messages[n].role != MessageRole::Developer);
                assert(rest[i] == messages[i]);
                assert forall|j: int| i < j < rest.len() implies (#[trigger] rest[j]).role
                    != MessageRole::Developer by {
                    assert(rest[j] == messages[j]);
                }
            }
        }
        if forall|i: int|
            0 <= i < messages.len() ==> (#[trigger] messages[i]).role != MessageRole::Developer {
            assert(messages[n].role != MessageRole::Developer);
            assert forall|i: int| 0 <= i < rest.len() implies (#[trigger] rest[i]).role
                != MessageRole::Developer by {
                assert(rest[i] == messages[i]);
            }
        }
    }
}

/// All pieces of a text but the last are as long as asked.
pub proof fn law_pieces_are_as_long_as_asked(s: Seq<char>, size: nat)
    requires
        size > 0,
    ensures
        forall|i: int|
            0 <= i < echo::chunks(s, size).len() - 1 ==> (#[trigger] echo::chunks(s, size)[i]).len()
                == size,
        s.len() > 0 ==> echo::chunks(s, size).len() > 0,
    decreases s.len(),
{
    if s.len() > size {
        let rest = s.skip(size as int);
        let pieces = echo::chunks(s, size);
        law_pieces_are_as_long_as_asked(rest, size);
        assert forall|i: int| 0 <= i < pieces.len() - 1 implies (#[trigger] pieces[i]).len() == size by {
            if i > 0 {
                assert(pieces[i] == echo::chunks(rest, size)[i - 1]);
            }
        }
    }
}

/// A reply without a call says `Echo: ` and the last message of the developer, in order; a
/// reply with a call asks for that call alone.
pub proof fn law_reply_echoes(
    size: nat,
    messages: Seq<RunMessageModel>,
    call: Option<ToolCallModel>,
    id: Seq<char>,
)
    requires
        size > 0,
    ensures
        ({
            let events = echo::reply(size, messages, call, id);
            let said = events.flat_map(
                |event: ProviderEventModel|
                    match event {
                        ProviderEventModel::TextDelta { delta, .. } => delta,
                        _ => Seq::empty(),
                    },
            );
            match call {
                None => said == "Echo: "@ + echo::last_developer_text(messages) && events.last() == (
                ProviderEventModel::MessageCompleted { message_id: id, tool_calls: None }),
                Some(call) => said.len() == 0 && events == seq![
                    ProviderEventModel::MessageStarted { message_id: id },
                    ProviderEventModel::MessageCompleted {
                        message_id: id,
                        tool_calls: Some(seq![call]),
                    },
                ],
            }
        }),
{
    let delta = |event: ProviderEventModel|
        match event {
            ProviderEventModel::TextDelta { delta, .. } => delta,
            _ => Seq::empty(),
        };
    let events = echo::reply(size, messages, call, id);
    match call {
        None => {
            let pieces = echo::chunks("Echo: "@ + echo::last_developer_text(messages), size);
            echo::law_chunks_make_up_the_text(
                "Echo: "@ + echo::last_developer_text(messages),
                size,
            );
            lemma_said(id, pieces, pieces.len() as int);
            lemma_joined(pieces);
            let before = events.drop_last();
            assert(pieces.take(pieces.len() as int) =~= pieces);
            assert(before =~= seq![ProviderEventModel::MessageStarted { message_id: id }]
                + pieces.map_values(
                |delta: Seq<char>| ProviderEventModel::TextDelta { message_id: id, delta },
            ));
            sequences::lemma_flat_map_last(events, delta);
            assert(events.flat_map(delta) =~= "Echo: "@ + echo::last_developer_text(messages));
        },
        Some(_) => {
            sequences::lemma_flat_map_last(events, delta);
            sequences::lemma_flat_map_last(events.drop_last(), delta);
            sequences::lemma_flat_map_last(events.drop_last().drop_last(), delta);
        },
    }
}

proof fn lemma_said(id: Seq<char>, pieces: Seq<Seq<char>>, n: int)
    requires
        0 <= n <= pieces.len(),
    ensures
        (seq![ProviderEventModel::MessageStarted { message_id: id }] + pieces.take(n).map_values(
            |delta: Seq<char>| ProviderEventModel::TextDelta { message_id: id, delta },
        )).flat_map(
            |event: ProviderEventModel|
                match event {
                    ProviderEventModel::TextDelta { delta, .. } => delta,
                    _ => Seq::empty(),
                },
        ) == pieces.take(n).flatten_alt(),
    decreases n,
{
    let delta = |event: ProviderEventModel|
        match event {
            ProviderEventModel::TextDelta { delta, .. } => delta,
            _ => Seq::empty(),
        };
    let to_event = |delta: Seq<char>| ProviderEventModel::TextDelta { message_id: id, delta };
    let events = seq![ProviderEventModel::MessageStarted { message_id: id }] + pieces.take(
        n,
    ).map_values(to_event);
    sequences::lemma_flat_map_last(events, delta);
    if n > 0 {
        lemma_said(id, pieces, n - 1);
        assert(pieces.take(n).drop_last() =~= pieces.take(n - 1));
        assert(events.drop_last() =~= seq![ProviderEventModel::MessageStarted { message_id: id }]
            + pieces.take(n - 1).map_values(to_event));
        assert(events.last() == to_event(pieces[n - 1]));
        assert(pieces.take(n).last() == pieces[n - 1]);
    } else {
        sequences::lemma_flat_map_last(events.drop_last(), delta);
        assert(events.flat_map(delta) =~= Seq::empty());
        assert(pieces.take(0) =~= Seq::empty());
    }
}

proof fn lemma_joined(pieces: Seq<Seq<char>>)
    ensures
        echo::joined(pieces) == pieces.flatten_alt(),
    decreases pieces.len(),
{
    pieces.lemma_flatten_and_flatten_alt_are_equivalent();
    if pieces.len() > 0 {
        lemma_joined(pieces.skip(1));
        pieces.skip(1).lemma_flatten_and_flatten_alt_are_equivalent();
        assert(pieces.drop_first() =~= pieces.skip(1));
    }
}

/// The word negates a command.
pub open spec fn is_negating_word(word: Seq<char>) -> bool {
    word == "no"@ || word == "not"@ || word == "never"@ || word == "don't"@ || word == "dont"@
        || word == "cannot"@ || word == "cant"@
}

/// The phrase negates a command.
pub open spec fn is_negating_phrase(phrase: Seq<char>) -> bool {
    phrase == "不要"@ || phrase == "别"@ || phrase == "不想"@ || phrase == "不用"@ || phrase
        == "不需要"@ || phrase == "不能"@ || phrase == "不会"@ || phrase == "没有"@ || phrase
        == "请勿"@
}

/// A message negates a command exactly when one of its whole words, in any case, is a negating
/// one, or a negating phrase stands anywhere in it. A word is what alphabetic characters and
/// apostrophes make up between others.
pub proof fn law_negations_are_found(s: Seq<char>)
    ensures
        echo::is_negated(s) <==> {
            ||| exists|a: int, b: int|
                0 <= a <= b <= s.len() && is_negating_word(
                    text::ascii_lower(#[trigger] s.subrange(a, b)),
                ) && (forall|k: int|
                    a <= k < b ==> echo::char_is_alphabetic(#[trigger] s[k]) || s[k] == '\'') && (a
                    > 0 ==> !echo::char_is_alphabetic(s[a - 1]) && s[a - 1] != '\'') && (b
                    < s.len() ==> !echo::char_is_alphabetic(s[b]) && s[b] != '\'')
            ||| exists|a: int, b: int|
                0 <= a <= b <= s.len() && is_negating_phrase(#[trigger] s.subrange(a, b))
        },
{
    let flags = echo::alphabetic_flags(s);
    if echo::negated_in_english(s, flags) {
        let (a, b) = choose|a: int, b: int| #[trigger]
            echo::is_word(s, flags, a, b) && echo::is_negation(
                text::ascii_lower(s.subrange(a, b)),
            );
        assert(is_negating_word(text::ascii_lower(s.subrange(a, b))));
        assert forall|k: int| a <= k < b implies echo::char_is_alphabetic(#[trigger] s[k]) || s[k]
            == '\'' by {
            assert(echo::in_word(s, flags, k));
        }
    }
    if exists|a: int, b: int|
        0 <= a <= b <= s.len() && is_negating_word(text::ascii_lower(#[trigger] s.subrange(a, b)))
            && (forall|k: int|
            a <= k < b ==> echo::char_is_alphabetic(#[trigger] s[k]) || s[k] == '\'') && (a > 0
            ==> !echo::char_is_alphabetic(s[a - 1]) && s[a - 1] != '\'') && (b < s.len()
            ==> !echo::char_is_alphabetic(s[b]) && s[b] != '\'') {
        let (a, b) = choose|a: int, b: int|
            0 <= a <= b <= s.len() && is_negating_word(
                text::ascii_lower(#[trigger] s.subrange(a, b)),
            ) && (forall|k: int|
                a <= k < b ==> echo::char_is_alphabetic(#[trigger] s[k]) || s[k] == '\'') && (a > 0
                ==> !echo::char_is_alphabetic(s[a - 1]) && s[a - 1] != '\'') && (b < s.len()
                ==> !echo::char_is_alphabetic(s[b]) && s[b] != '\'');
        assert forall|k: int| a <= k < b implies #[trigger] echo::in_word(s, flags, k) by {
            assert(echo::char_is_alphabetic(s[k]) || s[k] == '\'');
        }
        assert(echo::is_word(s, flags, a, b));
    }
    lemma_phrase(s, "不要"@);
    lemma_phrase(s, "别"@);
    lemma_phrase(s, "不想"@);
    lemma_phrase(s, "不用"@);
    lemma_phrase(s, "不需要"@);
    lemma_phrase(s, "不能"@);
    lemma_phrase(s, "不会"@);
    lemma_phrase(s, "没有"@);
    lemma_phrase(s, "请勿"@);
}

proof fn lemma_phrase(s: Seq<char>, phrase: Seq<char>)
    ensures
        text::contains_text(s, phrase) <==> exists|a: int, b: int|
            0 <= a <= b <= s.len() && #[trigger] s.subrange(a, b) == phrase,
{
    if text::contains_text(s, phrase) {
        let i = choose|i: int| text::occurs_at(s, phrase, i);
        assert(s.subrange(i, i + phrase.len()) == phrase);
    }
    if exists|a: int, b: int| 0 <= a <= b <= s.len() && #[trigger] s.subrange(a, b) == phrase {
        let (a, b) = choose|a: int, b: int|
            0 <= a <= b <= s.len() && #[trigger] s.subrange(a, b) == phrase;
        assert(b == a + phrase.len());
        assert(text::occurs_at(s, phrase, a));
    }
}

/// A call is asked for only of a tool that is offered, and never right after a tool result: a
/// wish to write or to patch comes first, which a negation takes back; else the file is read.
pub proof fn law_calls_follow_the_wish(
    messages: Seq<RunMessageModel>,
    tools: Seq<ToolDefinitionModel>,
    negated: bool,
)
    ensures
        ({
            let wish = echo::last_developer_text(messages);
            let lower = text::ascii_lower(wish);
            let writes = text::contains_text(wish, "创建"@) || text::contains_text(wish, "写入"@)
                || text::contains_text(lower, "write"@);
            let patches = text::contains_text(wish, "替换"@) || text::contains_text(lower, "patch"@);
            let offered = |name: Seq<char>|
                exists|i: int| 0 <= i < tools.len() && (#[trigger] tools[i]).name == name;
            match echo::requested_call(messages, tools, negated) {
                None => messages.len() > 0 && messages.last().role == MessageRole::Tool || {
                    &&& !offered("read_file"@)
                    &&& !(offered("write_file"@) && writes && !negated)
                    &&& !(offered("apply_patch"@) && patches && !negated)
                },
                Some(call) => {
                    &&& messages.len() > 0 ==> messages.last().role != MessageRole::Tool
                    &&& offered(call.name)
                    &&& call.name == if offered("write_file"@) && writes && !negated {
                        "write_file"@
                    } else if offered("apply_patch"@) && patches && !negated {
                        "apply_patch"@
                    } else {
                        "read_file"@
                    }
                },
            }
        }),
{
    let wish = text::ascii_lower(echo::last_developer_text(messages));
    if text::contains_text(wish, "apply_patch"@) {
        reveal_strlit("apply_patch");
        reveal_strlit("patch");
        let i = choose|i: int| text::occurs_at(wish, "apply_patch"@, i);
        assert(wish.subrange(i + 6, i + 11) =~= "patch"@) by {
            assert forall|k: int| 0 <= k < 5 implies wish[i + 6 + k] == "patch"@[k] by {
                assert(wish.subrange(i, i + 11)[k + 6] == wish[i + 6 + k]);
                assert("apply_patch"@[k + 6] == "patch"@[k]);
            }
        }
        assert(text::occurs_at(wish, "patch"@, i + 6));
    }
    assert forall|name: Seq<char>| #[trigger] echo::offers(tools, name) == exists|i: int|
        0 <= i < tools.len() && (#[trigger] tools[i]).name == name by {}
}

/// The wish is read in the last message of the developer, and so is its negation, in any case
/// of its letters.
pub proof fn law_wish_and_negation_are_in_the_last_message(
    messages: Seq<RunMessageModel>,
    tools: Seq<ToolDefinitionModel>,
)
    ensures
        echo::echo_call(messages, tools) == echo::requested_call(
            messages,
            tools,
            echo::is_negated(text::ascii_lower(echo::last_developer_text(messages))),
        ),
{
}

} // verus!

use byte::models::config::{
    load_config_at_path, parse_config, resolve_config_path_with_env, ConfigError, ConfigFile,
    ModelProviderConfig, OpenAiSection, RawConfig,
};
use byte::models::echo::{
    alphabetic_characters, has_english_negation, is_apply_patch_intent, is_write_file_intent,
    negation_among_words, tool_call_for, EchoProvider,
};
use byte::models::openai::{
    build_provider_stream, chat_message, combine_tool_call_chunks, finish_call,
    merge_tool_call_chunks, sanitize, sanitize_error, start_error, ChatChoice, ChatChunk,
    ChatMessage, MergedCall, OpenAiCompatibleProvider, ToolCallChunk,
};
use byte::models::provider::{ProviderError, ProviderEvent};
use byte::models::provider_factory::{create_provider, Provider, ProviderFactoryError};
use byte::protocol::{MessageRole, RunMessage, ToolCall, ToolDefinition};

fn echo(chunk_size: usize) -> EchoProvider {
    EchoProvider {
        chunk_size,
        delay_ms: 0,
    }
}

fn deltas(events: &[ProviderEvent]) -> Vec<String> {
    events
        .iter()
        .filter_map(|event| match event {
            ProviderEvent::TextDelta { delta, .. } => Some(delta.clone()),
            _ => None,
        })
        .collect()
}

fn read_file_tool() -> Vec<ToolDefinition> {
    vec![ToolDefinition {
        name: "read_file".into(),
        description: "Read a file".into(),
        parameters: r#"{"type":"object"}"#.into(),
    }]
}

#[test]
fn echo_provider_streams_developer_message_back() {
    let messages = vec![RunMessage::text(MessageRole::Developer, "hello")];
    let events = echo(3).send_message(&messages, &vec![]).expect("stream starts");

    assert_eq!(events.len(), 6);
    assert!(matches!(&events[0], ProviderEvent::MessageStarted { .. }));
    assert_eq!(deltas(&events), vec!["Ech", "o: ", "hel", "lo"]);
    assert!(matches!(
        &events[5],
        ProviderEvent::MessageCompleted {
            tool_calls: None,
            ..
        }
    ));
}

#[test]
fn echo_provider_handles_empty_messages() {
    let events = echo(5).send_message(&vec![], &vec![]).expect("stream starts");

    assert_eq!(events.len(), 4);
    assert_eq!(deltas(&events), vec!["Echo:", " "]);
}

#[test]
fn echo_provider_returns_mock_read_file_tool_call() {
    let messages = vec![RunMessage::text(MessageRole::Developer, "读一下 main.rs")];
    let events = EchoProvider::default()
        .send_message(&messages, &read_file_tool())
        .expect("stream starts");

    assert_eq!(events.len(), 2);
    assert!(matches!(&events[0], ProviderEvent::MessageStarted { .. }));
    assert!(matches!(
        &events[1],
        ProviderEvent::MessageCompleted { tool_calls: Some(calls), .. }
            if calls.len() == 1 && calls[0].name == "read_file"
    ));
}

#[test]
fn echo_provider_does_not_loop_tool_calls() {
    let messages = vec![
        RunMessage::text(MessageRole::Developer, "读一下 main.rs"),
        RunMessage::tool_result("echo-call-1", "file contents"),
    ];
    let events = EchoProvider::default()
        .send_message(&messages, &read_file_tool())
        .expect("stream starts");

    assert!(matches!(
        events.last().unwrap(),
        ProviderEvent::MessageCompleted {
            tool_calls: None,
            ..
        }
    ));
}

#[test]
fn the_events_of_a_reply_share_one_generated_id() {
    let messages = vec![RunMessage::text(MessageRole::Developer, "x")];
    let events = echo(4).send_message(&messages, &vec![]).unwrap();
    let ids: Vec<&String> = events
        .iter()
        .map(|event| match event {
            ProviderEvent::MessageStarted { message_id } => message_id,
            ProviderEvent::TextDelta { message_id, .. } => message_id,
            ProviderEvent::MessageCompleted { message_id, .. } => message_id,
        })
        .collect();
    assert!(ids.iter().all(|id| *id == ids[0] && id.len() == 36));
    assert_eq!(deltas(&events).concat(), "Echo: x");
}

#[test]
fn chunks_that_hold_nothing_give_no_text() {
    let messages = vec![RunMessage::text(MessageRole::Developer, "x")];
    assert!(echo(0).send_message(&messages, &vec![]).is_none());
    assert!(echo(0).send_message(&messages, &read_file_tool()).is_some());
}

#[test]
fn mock_calls_carry_json_arguments() {
    let tool = |name: &str| ToolDefinition {
        name: name.into(),
        description: "d".into(),
        parameters: "{}".into(),
    };
    let tools = vec![tool("read_file"), tool("write_file"), tool("apply_patch")];
    let ask = |text: &str, negated: bool| {
        tool_call_for(
            &vec![RunMessage::text(MessageRole::Developer, text)],
            &tools,
            negated,
        )
        .unwrap()
    };
    let write = ask("write it", false);
    assert_eq!(write.name, "write_file");
    let arguments: serde_json::Value = serde_json::from_str(&write.arguments).unwrap();
    assert_eq!(arguments["path"], "hello.txt");
    assert_eq!(arguments["content"], "Hello, world!");
    assert_eq!(arguments.to_string(), write.arguments);

    let patch = ask("apply the patch", false);
    assert_eq!(patch.name, "apply_patch");
    let arguments: serde_json::Value = serde_json::from_str(&patch.arguments).unwrap();
    assert_eq!(arguments["path"], "src/lib.rs");
    assert_eq!(arguments["patch"][0]["search"], "fn old_one() {}");
    assert_eq!(arguments["patch"][1]["replace"], "fn new_two() {}");
    assert_eq!(arguments.to_string(), patch.arguments);

    assert_eq!(ask("write it", true).name, "read_file");
    assert_eq!(ask("anything", false).arguments, r#"{"path":"main.rs"}"#);
}

#[test]
fn a_provider_waits_before_text_and_calls() {
    let provider = EchoProvider {
        chunk_size: 5,
        delay_ms: 7,
    };
    let started = ProviderEvent::MessageStarted {
        message_id: "m".into(),
    };
    let text = ProviderEvent::TextDelta {
        message_id: "m".into(),
        delta: "d".into(),
    };
    let done = ProviderEvent::MessageCompleted {
        message_id: "m".into(),
        tool_calls: None,
    };
    let calls = ProviderEvent::MessageCompleted {
        message_id: "m".into(),
        tool_calls: Some(vec![]),
    };
    assert_eq!(provider.delay_before(&started), 0);
    assert_eq!(provider.delay_before(&text), 7);
    assert_eq!(provider.delay_before(&done), 0);
    assert_eq!(provider.delay_before(&calls), 7);
}

#[test]
fn detects_write_file_intent() {
    assert!(is_write_file_intent("创建一个文件"));
    assert!(is_write_file_intent("write hello.txt"));
}

#[test]
fn rejects_negated_write_file_intent() {
    assert!(!is_write_file_intent("不要创建文件"));
    assert!(!is_write_file_intent("don't write the file"));
    assert!(!is_write_file_intent("do not write the file"));
}

#[test]
fn accepts_write_file_intent_with_false_positive_negation_words() {
    assert!(!has_english_negation("notify me and write a file"));
    assert!(is_write_file_intent("notify me and write a file"));
    assert!(is_write_file_intent("note this and write it down"));
    assert!(is_write_file_intent("now write the file"));
    assert!(is_write_file_intent("创建一个不小的文件"));
}

#[test]
fn detects_apply_patch_intent() {
    assert!(is_apply_patch_intent("替换这段代码"));
    assert!(is_apply_patch_intent("apply the patch"));
}

#[test]
fn rejects_negated_apply_patch_intent() {
    assert!(!is_apply_patch_intent("不要替换"));
    assert!(!is_apply_patch_intent("do not patch"));
}

#[test]
fn accepts_apply_patch_intent_with_false_positive_negation_words() {
    assert!(is_apply_patch_intent("notify me and apply the patch"));
    assert!(is_apply_patch_intent("note this and patch it"));
    assert!(is_apply_patch_intent("apply the patch now"));
    assert!(is_apply_patch_intent("替换不小的这段代码"));
}

#[test]
fn words_are_made_of_alphabetic_characters() {
    assert_eq!(
        alphabetic_characters("é1'文"),
        vec![true, false, false, true]
    );
    assert!(negation_among_words("a not", &vec![true, false, true, true, true]));
    assert!(!negation_among_words("a not", &vec![true, true, true, true, true]));
    assert!(has_english_negation("Never."));
    assert!(!has_english_negation(""));
}

fn choice(content: Option<&str>, tool_calls: Option<Vec<ToolCallChunk>>) -> ChatChoice {
    ChatChoice {
        content: content.map(Into::into),
        tool_calls,
    }
}

fn text_chunk(content: &str) -> ChatChunk {
    ChatChunk {
        choices: vec![choice(Some(content), None)],
    }
}

fn piece(
    index: u32,
    id: Option<&str>,
    name: Option<&str>,
    arguments: Option<&str>,
) -> ToolCallChunk {
    ToolCallChunk {
        index,
        id: id.map(Into::into),
        name: name.map(Into::into),
        arguments: arguments.map(Into::into),
    }
}

#[test]
fn sanitize_error_strips_api_key_mentions() {
    assert_eq!(
        sanitize_error("Invalid API key provided"),
        "provider authentication failed"
    );
}

#[test]
fn other_errors_are_told() {
    assert_eq!(sanitize_error("Timeout"), "Timeout");
    assert_eq!(
        sanitize_error("AUTHORIZATION failed"),
        "provider authentication failed"
    );
    assert_eq!(sanitize("X", "authorization"), "provider authentication failed");
    assert_eq!(
        start_error("Timeout"),
        ProviderError::Request("failed to start chat stream: Timeout".into())
    );
    assert_eq!(
        ProviderError::Configuration("c".into()).message(),
        "provider is not configured: c"
    );
    assert_eq!(
        ProviderError::InvalidResponse("c".into()).message(),
        "provider response is invalid: c"
    );
}

#[test]
fn provider_stream_yields_message_completed_on_success() {
    let events = build_provider_stream(
        vec![Ok(text_chunk("Hello,")), Ok(text_chunk(" world!"))],
        "msg-1",
    );
    assert_eq!(events.len(), 4);
    assert!(matches!(
        events[0],
        Ok(ProviderEvent::MessageStarted { .. })
    ));
    assert!(matches!(
        &events[1],
        Ok(ProviderEvent::TextDelta { delta, .. }) if delta == "Hello,"
    ));
    assert!(matches!(
        &events[2],
        Ok(ProviderEvent::TextDelta { delta, .. }) if delta == " world!"
    ));
    assert!(matches!(
        &events[3],
        Ok(ProviderEvent::MessageCompleted {
            tool_calls: None,
            ..
        })
    ));
}

#[test]
fn provider_stream_propagates_underlying_error() {
    let events = build_provider_stream(
        vec![
            Ok(text_chunk("before")),
            Err("mock stream error".to_owned()),
            Ok(text_chunk("after")),
        ],
        "msg-2",
    );

    assert_eq!(events.len(), 3);
    assert!(matches!(
        events[0],
        Ok(ProviderEvent::MessageStarted { .. })
    ));
    assert!(matches!(
        &events[1],
        Ok(ProviderEvent::TextDelta { delta, .. }) if delta == "before"
    ));
    assert!(matches!(
        &events[2],
        Err(ProviderError::Request(msg)) if msg.contains("mock stream error")
    ));
}

#[test]
fn tool_calls_are_put_together_from_pieces() {
    let chunks = vec![
        piece(1, Some("b"), Some("second"), Some("oops")),
        piece(0, Some("a"), Some("first"), Some("{ \"p\":")),
        piece(0, None, None, Some(" 1 }")),
        piece(2, Some("c"), None, Some("{}")),
        piece(3, None, Some("nameless"), None),
    ];
    let merged = merge_tool_call_chunks(chunks.clone());
    assert_eq!(merged.len(), 4);
    assert_eq!(
        merged[0],
        MergedCall {
            index: 0,
            id: Some("a".into()),
            name: Some("first".into()),
            arguments: "{ \"p\": 1 }".into(),
        }
    );
    let calls = combine_tool_call_chunks(chunks);
    assert_eq!(
        calls,
        vec![
            ToolCall {
                id: "a".into(),
                name: "first".into(),
                arguments: "{\"p\":1}".into(),
            },
            ToolCall {
                id: "b".into(),
                name: "second".into(),
                arguments: "{}".into(),
            },
            ToolCall {
                id: "nameless".into(),
                name: "nameless".into(),
                arguments: "{}".into(),
            },
        ]
    );
}

#[test]
fn a_stream_hands_on_its_tool_calls() {
    let events = build_provider_stream(
        vec![
            Ok(ChatChunk {
                choices: vec![
                    choice(Some("a"), Some(vec![piece(0, Some("c"), Some("t"), None)])),
                    choice(None, None),
                    choice(Some("b"), None),
                ],
            }),
            Ok(ChatChunk {
                choices: vec![choice(None, Some(vec![piece(0, None, None, Some("{}"))]))],
            }),
        ],
        "m",
    );
    assert_eq!(events.len(), 3);
    assert!(matches!(
        &events[1],
        Ok(ProviderEvent::TextDelta { delta, .. }) if delta == "ab"
    ));
    assert!(matches!(
        &events[2],
        Ok(ProviderEvent::MessageCompleted { tool_calls: Some(calls), .. })
            if calls.len() == 1 && calls[0].id == "c" && calls[0].arguments == "{}"
    ));
}

#[test]
fn a_call_is_finished_with_its_arguments() {
    let call = || MergedCall {
        index: 0,
        id: None,
        name: Some("t".into()),
        arguments: String::new(),
    };
    assert_eq!(finish_call(call(), None).unwrap().arguments, "{}");
    assert_eq!(
        finish_call(call(), Some("[1]".into())).unwrap().arguments,
        "[1]"
    );
}

#[test]
fn requests_keep_messages_and_tools() {
    let provider = OpenAiCompatibleProvider::new(dummy_config("openai"));
    let request = provider.request(
        vec![
            RunMessage::text(MessageRole::System, "s"),
            RunMessage::text(MessageRole::Developer, "d"),
            RunMessage::assistant("a", None),
            RunMessage::tool_result("c1", "out"),
        ],
        read_file_tool(),
    );
    assert_eq!(request.model, "gpt-test");
    assert!(request.stream);
    assert_eq!(request.tools, read_file_tool());
    assert_eq!(
        request.messages,
        vec![
            ChatMessage::System {
                content: "s".into()
            },
            ChatMessage::User {
                content: "d".into()
            },
            ChatMessage::Assistant {
                content: "a".into(),
                tool_calls: None
            },
            ChatMessage::Tool {
                content: "out".into(),
                tool_call_id: "c1".into()
            },
        ]
    );
    assert_eq!(
        chat_message(RunMessage::text(MessageRole::Tool, "t")),
        ChatMessage::Tool {
            content: "t".into(),
            tool_call_id: "".into()
        }
    );
    let (stream, started) = provider.open_stream();
    assert_eq!(stream.message_id.len(), 36);
    assert!(matches!(
        started,
        ProviderEvent::MessageStarted { message_id } if message_id == stream.message_id
    ));
}

#[test]
fn env_override_takes_precedence() {
    let path = "/override/config.toml";
    let resolved = resolve_config_path_with_env(
        Some(path.into()),
        Some("/xdg/config".into()),
        Some("/home/user".into()),
    );
    assert_eq!(resolved, path);
}

#[test]
fn xdg_config_home_is_used_when_env_set() {
    let resolved =
        resolve_config_path_with_env(None, Some("/xdg/config".into()), Some("/home/user".into()));
    assert_eq!(resolved, "/xdg/config/byte/config.toml");
}

#[test]
fn falls_back_to_home_dot_config() {
    let resolved = resolve_config_path_with_env(None, None, Some("/home/user".into()));
    assert_eq!(resolved, "/home/user/.config/byte/config.toml");
}

#[test]
fn without_a_home_the_path_is_relative() {
    assert_eq!(
        resolve_config_path_with_env(None, None, None),
        "./.config/byte/config.toml"
    );
}

fn text_of(table: &toml::Table, key: &str) -> Option<String> {
    table
        .get(key)
        .and_then(|value| value.as_str())
        .map(|value| value.to_owned())
}

fn raw(contents: &str) -> RawConfig {
    let table: toml::Table = contents.parse().unwrap();
    RawConfig {
        provider: text_of(&table, "provider"),
        base_url: text_of(&table, "base_url"),
        api_key: text_of(&table, "api_key"),
        model: text_of(&table, "model"),
        echo_chunk_size: None,
        echo_delay_ms: None,
        context_budget: None,
        openai: table
            .get("openai")
            .and_then(|value| value.as_table())
            .map(|section| OpenAiSection {
                base_url: text_of(section, "base_url"),
                api_key: text_of(section, "api_key"),
                model: text_of(section, "model"),
            }),
    }
}

#[test]
fn missing_config_returns_not_found() {
    let err = load_config_at_path("/nonexistent/byte/config.toml", ConfigFile::Missing)
        .expect_err("missing config should fail");
    assert_eq!(
        err,
        ConfigError::NotFound("/nonexistent/byte/config.toml".into())
    );
}

#[test]
fn a_config_that_cannot_be_read_is_told() {
    assert_eq!(
        load_config_at_path("/c", ConfigFile::Unreadable("denied".into()))
            .unwrap_err()
            .message(),
        "failed to read provider config at /c: denied"
    );
    assert_eq!(
        load_config_at_path("/c", ConfigFile::Invalid("bad".into()))
            .unwrap_err()
            .message(),
        "provider config is invalid TOML: bad"
    );
    assert!(load_config_at_path(
        "/c",
        ConfigFile::Parsed(raw("base_url = 'b'\napi_key = 'k'\nmodel = 'm'"))
    )
    .is_ok());
}

#[test]
fn flat_config_loads() {
    let config = parse_config(raw(
        "provider = 'openai'\nbase_url = 'https://api.openai.com/v1/'\napi_key = 'sk-test'\nmodel = 'gpt-4o'",
    ))
    .expect("valid config loads");
    assert_eq!(config.provider, "openai");
    assert_eq!(config.base_url, "https://api.openai.com/v1/");
    assert_eq!(config.api_key, "sk-test");
    assert_eq!(config.model, "gpt-4o");
}

#[test]
fn section_config_loads() {
    let config = parse_config(raw(
        "[openai]\nbase_url = 'https://api.openai.com/v1/'\napi_key = 'sk-test'\nmodel = 'gpt-4o'",
    ))
    .expect("valid section config loads");
    assert_eq!(config.provider, "openai");
    assert_eq!(config.base_url, "https://api.openai.com/v1/");
    assert_eq!(config.api_key, "sk-test");
    assert_eq!(config.model, "gpt-4o");
}

#[test]
fn flat_fields_override_section_fields() {
    let config = parse_config(raw(
        "base_url = 'https://flat.example.com/v1/'\napi_key = 'sk-flat'\nmodel = 'gpt-flat'\n\n[openai]\nbase_url = 'https://section.example.com/v1/'\napi_key = 'sk-section'\nmodel = 'gpt-section'",
    ))
    .expect("valid config loads");
    assert_eq!(config.base_url, "https://flat.example.com/v1/");
    assert_eq!(config.api_key, "sk-flat");
    assert_eq!(config.model, "gpt-flat");
}

#[test]
fn openai_compatible_alias_loads() {
    let config = parse_config(raw(
        "provider = 'openai-compatible'\nbase_url = 'https://api.example.com/v1/'\napi_key = 'sk-test'\nmodel = 'gpt-test'",
    ))
    .expect("openai-compatible alias should load");
    assert_eq!(config.provider, "openai-compatible");
}

#[test]
fn unsupported_provider_fails() {
    let err = parse_config(raw(
        "provider = 'anthropic'\nbase_url = 'https://api.anthropic.com/'\napi_key = 'sk-test'\nmodel = 'm'",
    ))
    .expect_err("unsupported provider should fail");
    assert!(
        matches!(err, ConfigError::UnsupportedProvider { ref provider } if provider == "anthropic")
    );
}

#[test]
fn missing_required_field_fails() {
    let err = parse_config(raw(
        "[openai]\nbase_url = 'https://api.openai.com/v1/'\napi_key = 'sk-test'",
    ))
    .expect_err("missing model should fail");
    assert!(matches!(err, ConfigError::MissingField { ref field } if field == "model"));
    assert_eq!(
        err.message(),
        "missing required field 'model' in provider config"
    );
}

fn dummy_config(provider: &str) -> ModelProviderConfig {
    ModelProviderConfig {
        provider: provider.to_owned(),
        base_url: "https://example.com/v1/".to_owned(),
        api_key: "sk-test".to_owned(),
        model: "gpt-test".to_owned(),
        echo_chunk_size: None,
        echo_delay_ms: None,
        context_budget: None,
    }
}

#[test]
fn creates_openai_compatible_provider() {
    assert!(create_provider(dummy_config("openai")).is_ok());
}

#[test]
fn creates_openai_compatible_provider_with_alias() {
    assert!(create_provider(dummy_config("openai-compatible")).is_ok());
}

#[test]
fn creates_echo_provider_that_streams_message() {
    let provider = create_provider(dummy_config("echo")).expect("echo provider should create");
    let messages = vec![RunMessage::text(MessageRole::Developer, "hello")];
    match provider {
        Provider::Echo(provider) => {
            assert_eq!(provider.chunk_size, 5);
            assert_eq!(provider.delay_ms, 0);
            let events = provider
                .send_message(&messages, &vec![])
                .expect("echo provider should accept message");
            assert!(!events.is_empty());
        }
        Provider::OpenAiCompatible(_) => panic!("echo is configured"),
    }
}

#[test]
fn rejects_unknown_provider() {
    match create_provider(dummy_config("anthropic")) {
        Ok(_) => panic!("unknown provider should fail"),
        Err(ProviderFactoryError::UnsupportedProvider { provider }) => {
            assert_eq!(provider, "anthropic");
        }
    }
}

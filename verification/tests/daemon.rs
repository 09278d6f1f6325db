use byte::daemon::{
    daemon_state, handle_decoded, handle_frame, handle_request, parse_params,
    parse_rpc_websocket_arg, respond, runner_error_response, BuildError, Frame, FrameAction,
    LazyConfigProvider, Method,
};
use byte::models::config::ConfigError;
use byte::models::echo::EchoProvider;
use byte::models::provider::ProviderError;
use byte::models::provider_factory::{Provider, ProviderFactoryError};
use byte::protocol::rpc::{JsonRpcRequest, JsonRpcResponse};
use byte::protocol::{RpcId, RuntimeEventKind, PROTOCOL_VERSION};
use byte::runtime::session_runner::RunnerError;
use byte::runtime::session_view_repository::SessionViewError;
use byte::session_store::SessionError;
use byte::skills::SkillError;

fn args(list: &[&str]) -> Vec<String> {
    list.iter().map(|arg| arg.to_string()).collect()
}

fn request(method: &str) -> JsonRpcRequest {
    JsonRpcRequest::new(RpcId::Number(42), method, None)
}

fn error_of(response: JsonRpcResponse) -> (i64, String) {
    assert!(response.result.is_none());
    let error = response.error.unwrap();
    (error.code, error.message)
}

#[test]
fn parses_rpc_websocket_arg() {
    let address =
        parse_rpc_websocket_arg(&args(&["byte-daemon", "--rpc-websocket", "127.0.0.1:8787"]))
            .expect("arg parses");

    assert_eq!(address, "127.0.0.1:8787".parse().unwrap());
}

#[test]
fn rejects_non_local_websocket_arg() {
    let result =
        parse_rpc_websocket_arg(&args(&["byte-daemon", "--rpc-websocket", "192.168.1.1:8787"]));
    assert!(result.is_err());
}

#[test]
fn other_arguments_are_told_the_usage() {
    for list in [
        vec![],
        vec!["byte-daemon"],
        vec!["byte-daemon", "--rpc-websocket"],
        vec!["byte-daemon", "--port", "127.0.0.1:1"],
        vec!["byte-daemon", "--rpc-websocket", "127.0.0.1:1", "more"],
    ] {
        assert_eq!(
            parse_rpc_websocket_arg(&args(&list)).unwrap_err(),
            "usage: byte-daemon --rpc-websocket <addr>"
        );
    }
    assert_eq!(
        parse_rpc_websocket_arg(&args(&["d", "--rpc-websocket", "x"])).unwrap_err(),
        "invalid --rpc-websocket address 'x': invalid daemon address: x"
    );
}

#[test]
fn requests_are_routed_by_method() {
    for (name, method) in [
        ("get_state", Method::GetState),
        ("new_session", Method::NewSession),
        ("load_session", Method::LoadSession),
        ("list_sessions", Method::ListSessions),
        ("delete_session", Method::DeleteSession),
        ("send_message", Method::SendMessage),
        ("cancel_run", Method::CancelRun),
    ] {
        assert_eq!(handle_request(&request(name)), Ok(method));
    }
    let response = handle_request(&request("reboot")).unwrap_err();
    assert_eq!(response.id, RpcId::Number(42));
    assert_eq!(
        error_of(response),
        (-32601, "method not found: reboot".to_string())
    );
}

#[test]
fn parameters_of_another_shape_are_refused() {
    assert_eq!(parse_params(&request("load_session"), Some(5)), Ok(5));
    let response = parse_params::<u8>(&request("load_session"), None).unwrap_err();
    assert_eq!(
        error_of(response),
        (-32602, "invalid params for load_session".to_string())
    );
}

#[test]
fn failures_are_answered_with_their_cause() {
    let answer = |session: Option<&str>, error: RunnerError| {
        error_of(runner_error_response(
            &request("send_message"),
            session.map(|id| id.to_string()),
            error,
        ))
    };
    assert_eq!(
        answer(Some("s1"), RunnerError::Busy),
        (-32000, "session s1 is busy".to_string())
    );
    assert_eq!(
        answer(None, RunnerError::Busy),
        (-32000, "session unknown is busy".to_string())
    );
    assert_eq!(
        answer(
            None,
            RunnerError::SessionStore(SessionError::NotFound("s".into()))
        ),
        (
            -32603,
            "session store error: session not found: s".to_string()
        )
    );
    assert_eq!(
        answer(
            None,
            RunnerError::SessionView(SessionViewError::MissingHeader {
                session_id: "s".into()
            })
        ),
        (
            -32603,
            "session view error: session s has no header".to_string()
        )
    );
    assert_eq!(
        answer(
            None,
            RunnerError::SkillRegistry(SkillError::NotFound("k".into()))
        ),
        (-32603, "skill registry error: skill not found: k".to_string())
    );
    assert_eq!(
        answer(
            None,
            RunnerError::Provider(ProviderError::Request("r".into()))
        ),
        (-32603, "provider error: provider request failed: r".to_string())
    );
}

#[test]
fn results_are_answered_under_the_request_id() {
    let response = respond(&request("get_state"), None, Ok(Ok("{}".into())));
    assert!(response.is_response_to(&request("get_state")));
    assert_eq!(response.result.as_deref(), Some("{}"));
    assert!(response.error.is_none());
    assert_eq!(
        error_of(respond(&request("get_state"), None, Ok(Err("bad".into())))),
        (
            -32603,
            "failed to serialize JSON-RPC frame: bad".to_string()
        )
    );
    assert_eq!(
        error_of(respond(
            &request("send_message"),
            Some("s".into()),
            Err(RunnerError::Busy)
        )),
        (-32000, "session s is busy".to_string())
    );
    let state = daemon_state("1.2.3");
    assert_eq!(state.daemon_version, "1.2.3");
    assert_eq!(state.protocol_version, PROTOCOL_VERSION);
}

#[test]
fn frames_are_decoded_or_passed_over() {
    assert_eq!(
        handle_frame(Frame::Text("{}\r\n".into())),
        FrameAction::Decode("{}".into())
    );
    assert_eq!(
        handle_frame(Frame::Text(" \n".into())),
        FrameAction::Ignore
    );
    assert_eq!(handle_frame(Frame::Control), FrameAction::Ignore);
    assert_eq!(handle_frame(Frame::Unsupported), FrameAction::Warn);
    assert_eq!(handle_frame(Frame::Broken), FrameAction::Stop);
    assert_eq!(
        handle_decoded(Ok(request("get_state"))),
        Ok(request("get_state"))
    );
    let (response, event) = handle_decoded(Err("EOF".into())).unwrap_err();
    assert_eq!(response.id, RpcId::Number(0));
    assert_eq!(error_of(response), (-32700, "parse error: EOF".to_string()));
    assert_eq!(
        event,
        RuntimeEventKind::Error {
            message: "failed to parse JSON-RPC request: EOF".into(),
            run_id: None,
        }
    );
}

#[test]
fn a_lazy_provider_is_built_once_it_can_be() {
    let mut lazy = LazyConfigProvider::new();
    assert!(lazy.get().is_none());
    assert_eq!(
        lazy.initialize(Err(BuildError::Config(ConfigError::NotFound("/c".into())))),
        Err(ProviderError::Configuration(
            "provider config not found at /c".into()
        ))
    );
    assert!(lazy.get().is_none());
    assert_eq!(
        lazy.initialize(Ok(Provider::Echo(EchoProvider::default()))),
        Ok(())
    );
    assert!(lazy.get().is_some());
    assert_eq!(
        BuildError::Config(ConfigError::Parse("bad".into())).message(),
        "provider config is invalid TOML: bad: bad"
    );
    assert_eq!(
        BuildError::Factory(ProviderFactoryError::UnsupportedProvider {
            provider: "x".into()
        })
        .message(),
        "unsupported provider 'x'"
    );
}

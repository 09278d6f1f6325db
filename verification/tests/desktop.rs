use byte::desktop::{
    channel_closed, connection_broken, event_decoded, load_daemon_address,
    resolve_daemon_config_path, response_result, ClientStep, DaemonClient, DaemonMessage,
    DaemonSupervisor, SavedAddress, NO_ADDRESS,
};
use byte::protocol::daemon_address::DaemonAddress;
use byte::protocol::rpc::{
    JsonRpcMessage, JsonRpcNotification, JsonRpcRequest, JsonRpcResponse,
};
use byte::protocol::{DaemonState, RpcId, RuntimeEventKind};

fn address() -> DaemonAddress {
    DaemonAddress::default_address()
}

fn error_text(kind: &RuntimeEventKind) -> String {
    match kind {
        RuntimeEventKind::Error { message, run_id } => {
            assert_eq!(run_id, &None);
            message.clone()
        }
        _ => panic!("an error is reported"),
    }
}

#[test]
fn a_supervisor_connects_once_it_has_an_address() {
    let mut supervisor = DaemonSupervisor::new(None);
    assert!(
        matches!(supervisor.ensure_client(), ClientStep::Refuse(error) if error == NO_ADDRESS)
    );
    assert_eq!(supervisor.set_address(address(), Ok(())), Ok(()));
    assert!(
        matches!(supervisor.ensure_client(), ClientStep::Connect(found) if found == address())
    );
    assert_eq!(
        supervisor.connect_finished(Err("refused".into())),
        Err("refused".into())
    );
    assert_eq!(supervisor.last_error.as_deref(), Some("refused"));
    assert_eq!(supervisor.connect_finished(Ok(())), Ok(()));
    assert!(matches!(supervisor.ensure_client(), ClientStep::Use));
    assert_eq!(supervisor.last_error, None);
}

#[test]
fn an_error_of_the_daemon_ends_the_connection() {
    let mut supervisor = DaemonSupervisor::new(Some(address()));
    supervisor.connect_finished(Ok(())).unwrap();
    let view = supervisor.get_state(true, Ok(DaemonState::ready("1")));
    assert!(view.connected);
    let view = supervisor.get_state(true, Err("timeout".into()));
    assert!(!view.connected);
    assert_eq!(view.error.as_deref(), Some("timeout"));
    assert!(!supervisor.connected);
    assert_eq!(
        supervisor.set_address(address(), Err("denied".into())),
        Err("保存 daemon 地址失败: denied".to_string())
    );
}

#[test]
fn responses_reach_the_request_that_waits() {
    let mut client = DaemonClient::new();
    let first = client.request("get_state", None);
    let second = client.request("list_sessions", None);
    assert_eq!(first.id, RpcId::Number(1));
    assert_eq!(second.id, RpcId::Number(2));

    let response = JsonRpcResponse::success(RpcId::Number(2), Ok("{}".into())).unwrap();
    assert!(matches!(
        client.handle_daemon_message(Ok(JsonRpcMessage::Response(response.clone()))),
        DaemonMessage::Deliver(delivered) if delivered == response
    ));
    assert!(matches!(
        client.handle_daemon_message(Ok(JsonRpcMessage::Response(response))),
        DaemonMessage::Ignore
    ));
    assert_eq!(
        client.timed_out(1),
        "daemon 未在超时时间内响应请求 Number(1)"
    );
    let late = JsonRpcResponse::success(RpcId::Number(1), Ok("{}".into())).unwrap();
    assert!(matches!(
        client.handle_daemon_message(Ok(JsonRpcMessage::Response(late))),
        DaemonMessage::Ignore
    ));
    let third = client.request("get_state", None);
    assert_eq!(third.id, RpcId::Number(3));
    assert_eq!(client.write_failed(3), "daemon WebSocket 写入端已关闭");
    assert!(!client.remove(&RpcId::Number(3)));
    assert!(!client.remove(&RpcId::String("3".into())));
    assert_eq!(
        channel_closed(7),
        "daemon 响应通道已关闭，请求 id: Number(7)"
    );
}

#[test]
fn notifications_of_events_are_decoded() {
    let mut client = DaemonClient::new();
    let event = JsonRpcNotification::runtime_event(Ok("{\"sequence\":1}".into())).unwrap();
    assert!(matches!(
        client.handle_daemon_message(Ok(JsonRpcMessage::Notification(event))),
        DaemonMessage::DecodeEvent(params) if params == "{\"sequence\":1}"
    ));
    let other = JsonRpcNotification::new("ping", Some("{}".into()));
    assert!(matches!(
        client.handle_daemon_message(Ok(JsonRpcMessage::Notification(other))),
        DaemonMessage::Ignore
    ));
    let request = JsonRpcRequest::new(RpcId::Number(1), "get_state", None);
    assert!(matches!(
        client.handle_daemon_message(Ok(JsonRpcMessage::Request(request))),
        DaemonMessage::Ignore
    ));
    match client.handle_daemon_message(Err("EOF".into())) {
        DaemonMessage::Publish(event) => {
            assert_eq!(event.sequence, 0);
            assert_eq!(error_text(&event.kind), "无法解析 daemon RPC 帧: EOF");
        }
        _ => panic!("the error is published"),
    }
    assert_eq!(
        error_text(&event_decoded(Err("bad".into())).kind),
        "无法解析 daemon runtime event: bad"
    );
    assert_eq!(
        error_text(&connection_broken("reset").kind),
        "daemon WebSocket error: reset"
    );
}

#[test]
fn results_and_errors_of_responses() {
    let id = || RpcId::Number(1);
    assert_eq!(
        response_result(
            "get_state",
            JsonRpcResponse::success(id(), Ok("{}".into())).unwrap()
        ),
        Ok("{}".to_string())
    );
    assert_eq!(
        response_result("get_state", JsonRpcResponse::failure(id(), -32000, "busy")),
        Err("daemon 返回错误 -32000: busy".to_string())
    );
    let mut empty = JsonRpcResponse::success(id(), Ok("{}".into())).unwrap();
    empty.result = None;
    assert_eq!(
        response_result("load_session", empty),
        Err("daemon load_session 响应未包含 result".to_string())
    );
}

#[test]
fn the_address_is_saved_in_the_configuration_directory() {
    assert_eq!(
        resolve_daemon_config_path(Some("/xdg".into()), None),
        "/xdg/byte/daemon.toml"
    );
    assert_eq!(
        resolve_daemon_config_path(None, Some("/home/u".into())),
        "/home/u/.config/byte/daemon.toml"
    );
    assert_eq!(load_daemon_address("/p", SavedAddress::Missing), Ok(None));
    assert_eq!(
        load_daemon_address("/p", SavedAddress::Address(address())),
        Ok(Some(address()))
    );
    assert_eq!(
        load_daemon_address("/p", SavedAddress::Unreadable("io".into())),
        Err("读取 daemon 配置失败 /p: io".to_string())
    );
    assert_eq!(
        load_daemon_address("/p", SavedAddress::Invalid("toml".into())),
        Err("解析 daemon 配置失败 /p: toml".to_string())
    );
}

#[test]
fn a_request_that_is_over_leaves_the_others_waiting() {
    let mut client = DaemonClient::new();
    for _ in 0..4 {
        client.request("get_state", None);
    }
    let response = JsonRpcResponse::success(RpcId::Number(2), Ok("{}".into())).unwrap();
    client.handle_daemon_message(Ok(JsonRpcMessage::Response(response)));
    client.timed_out(1);
    client.write_failed(4);
    assert!(!client.remove(&RpcId::Number(1)));
    assert!(!client.remove(&RpcId::Number(2)));
    assert!(client.remove(&RpcId::Number(3)));
    assert!(!client.remove(&RpcId::Number(4)));
}

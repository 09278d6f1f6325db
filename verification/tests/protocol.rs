use byte::protocol::daemon_address::{DaemonAddress, DaemonAddressError};
use byte::protocol::socket_address::{SocketAddress, SocketAddressV4};
use byte::protocol::framing::{decode_json_line, decode_json_lines, encode_json_line};
use byte::protocol::rpc::{
    JsonRpcNotification, JsonRpcRequest, JsonRpcResponse, ProtocolError,
};
use byte::protocol::session::BlockDelta;
use byte::protocol::{
    DaemonConnectionView, DaemonState, MessageRole, RpcId, RuntimeEventKind,
    RUNTIME_EVENT_METHOD,
};
use byte::session_store::SessionError;
use std::str::FromStr;

#[test]
fn encodes_one_json_value_per_lf_delimited_line() {
    let message = r#"{"jsonrpc":"2.0","id":7,"method":"get_state"}"#;

    let line = encode_json_line(Ok(message.to_string())).expect("request encodes");

    assert!(line.ends_with('\n'));
    assert_eq!(line.matches('\n').count(), 1);
    assert_eq!(
        line.trim_end(),
        r#"{"jsonrpc":"2.0","id":7,"method":"get_state"}"#
    );
}

#[test]
fn decodes_multiple_lf_delimited_json_rpc_frames() {
    let input = "{\"jsonrpc\":\"2.0\",\"id\":1,\"method\":\"get_state\"}\n{\"jsonrpc\":\"2.0\",\"id\":\"two\",\"method\":\"get_state\"}\n";

    let messages = decode_json_lines(input);

    assert_eq!(messages.len(), 2);
    let first: serde_json::Value = serde_json::from_str(&messages[0]).unwrap();
    let second: serde_json::Value = serde_json::from_str(&messages[1]).unwrap();
    assert_eq!(first["id"], 1);
    assert_eq!(second["id"], "two");
}

#[test]
fn blank_lines_hold_no_message() {
    assert_eq!(
        decode_json_lines("\n  \r\n{\"a\":1}\r\n\t\n{}"),
        vec!["{\"a\":1}", "{}"]
    );
    assert_eq!(decode_json_line("{}\r\n\n"), "{}");
    assert_eq!(
        encode_json_line(Err("loop".into())),
        Err(ProtocolError::Serialize("loop".into()))
    );
}

#[test]
fn messages_come_back_from_their_lines() {
    let messages = vec!["{\"a\":1}".to_string(), "[\"\\n\"]".to_string(), "1".to_string()];
    let mut input = String::new();
    for message in &messages {
        input.push_str(&encode_json_line(Ok(message.clone())).unwrap());
    }
    assert_eq!(decode_json_lines(&input), messages);
}

#[test]
fn decodes_response_and_notification_from_multiplexed_stream() {
    let response = "{\"jsonrpc\":\"2.0\",\"id\":1,\"result\":{}}";
    let notification = "{\"jsonrpc\":\"2.0\",\"method\":\"runtime_event\"}";
    let input = format!(
        "{}{}",
        encode_json_line(Ok(response.into())).expect("response line encodes"),
        encode_json_line(Ok(notification.into())).expect("notification line encodes")
    );
    let messages = decode_json_lines(&input);
    assert_eq!(messages, vec![response, notification]);
}

#[test]
fn error_event_can_carry_run_id() {
    let kind = RuntimeEventKind::error(Some("run-test-1".into()), "Provider config not found");
    assert!(matches!(
        kind,
        RuntimeEventKind::Error {
            run_id: Some(id),
            message,
        } if id == "run-test-1" && message == "Provider config not found"
    ));
}

#[test]
fn preserves_request_response_correlation_ids() {
    let request = JsonRpcRequest::new(RpcId::from("state-1"), "get_state", None);
    let state = DaemonState::ready("test-daemon");
    assert_eq!(state.daemon_version, "test-daemon");
    let response = JsonRpcResponse::success(request.id.clone(), Ok("{}".into()))
        .expect("response encodes");

    assert!(response.is_response_to(&request));
    assert!(response.error.is_none());
    assert!(response.result.is_some());
}

#[test]
fn responses_to_other_requests_are_told_apart() {
    let request = JsonRpcRequest::new(RpcId::from(1), "get_state", None);
    assert_eq!(request.jsonrpc, "2.0");
    let other = JsonRpcResponse::failure(RpcId::from("1"), -32603, "oops");
    assert!(!other.is_response_to(&request));
    assert_eq!(other.error.unwrap().code, -32603);
    assert_eq!(
        JsonRpcResponse::success(RpcId::from(1), Err("bad".into()))
            .unwrap_err()
            .message(),
        "failed to serialize JSON-RPC frame: bad"
    );
}

#[test]
fn runtime_events_are_notifications() {
    let notification = JsonRpcNotification::runtime_event(Ok("{\"sequence\":1}".into())).unwrap();
    assert_eq!(notification.method, RUNTIME_EVENT_METHOD);
    assert_eq!(notification.params.as_deref(), Some("{\"sequence\":1}"));
    assert!(JsonRpcNotification::runtime_event(Err("bad".into())).is_err());
}

#[test]
fn conversions_keep_their_value() {
    assert_eq!(RpcId::from(7), RpcId::Number(7));
    assert_eq!(RpcId::from("x"), RpcId::String("x".into()));
    assert_eq!(
        BlockDelta::from("d"),
        BlockDelta::TextDelta { delta: "d".into() }
    );
    assert_eq!(
        SessionError::from(ProtocolError::Serialize("s".into())),
        SessionError::Serialize("s".into())
    );
    assert_eq!(MessageRole::Tool.as_text(), "tool");
}

#[test]
fn connection_views() {
    let view = DaemonConnectionView::connected(DaemonState::ready("1"));
    assert!(view.connected && view.error.is_none() && view.state.is_some());
    let view = DaemonConnectionView::disconnected("down".into());
    assert!(!view.connected && view.state.is_none());
    assert_eq!(view.error.as_deref(), Some("down"));
}

#[test]
fn accepts_localhost_and_loopback() {
    assert!("127.0.0.1:8787".parse::<DaemonAddress>().is_ok());
    assert!("localhost:8787".parse::<DaemonAddress>().is_ok());
    assert_eq!(
        "localhost:8787".parse::<DaemonAddress>().unwrap().to_text(),
        "127.0.0.1:8787"
    );
}

#[test]
fn rejects_non_loopback_addresses() {
    assert!("0.0.0.0:8787".parse::<DaemonAddress>().is_err());
    assert!("192.168.1.1:8787".parse::<DaemonAddress>().is_err());
    assert!("example.com:8787".parse::<DaemonAddress>().is_err());
}

#[test]
fn rejects_invalid_socket_addresses() {
    assert!("not-an-address".parse::<DaemonAddress>().is_err());
    assert!("127.0.0.1".parse::<DaemonAddress>().is_err());
}

#[test]
fn produces_ws_url() {
    let addr = DaemonAddress::from_str("127.0.0.1:8787").unwrap();
    assert_eq!(addr.websocket_url(), "ws://127.0.0.1:8787/");
}

#[test]
fn roundtrips_through_string() {
    let addr: DaemonAddress = "127.0.0.1:8787".parse().unwrap();
    let s: String = addr.into();
    assert_eq!(s, "127.0.0.1:8787");
    assert_eq!(DaemonAddress::from_str(&s).unwrap(), addr);
}

#[test]
fn address_errors_say_what_is_wrong() {
    assert_eq!(
        DaemonAddress::parse("192.168.1.1:80").unwrap_err(),
        DaemonAddressError::NotLocalHost("192.168.1.1:80".into())
    );
    assert_eq!(
        DaemonAddress::parse("localhost").unwrap_err(),
        DaemonAddressError::InvalidAddress("localhost".into())
    );
    for invalid in [
        "127.0.0.01:80",
        "127.0.0.256:80",
        "127.0.0.1:65536",
        "127.0.0.1:",
        "127.0.0:80",
        "127.0.0.1:8:0",
        " 127.0.0.1:80",
        "localhostx:80",
    ] {
        assert_eq!(
            DaemonAddress::parse(invalid).unwrap_err().message(),
            format!("invalid daemon address: {}", invalid)
        );
    }
    assert_eq!(
        DaemonAddress::parse("127.0.0.1:00080").unwrap().to_text(),
        "127.0.0.1:80"
    );
    assert_eq!(
        DaemonAddress::parse("127.0.0.2:80").unwrap_err().message(),
        "daemon address must be 127.0.0.1 or localhost, got: 127.0.0.2:80"
    );
}

#[test]
fn the_default_address() {
    let address = DaemonAddress::default_address();
    assert_eq!(address.to_text(), "127.0.0.1:8787");
    assert_eq!(
        address.socket_addr(),
        SocketAddress::V4(SocketAddressV4 {
            a: 127,
            b: 0,
            c: 0,
            d: 1,
            port: 8787
        })
    );
    assert!(
        DaemonAddress::from_socket_addr(SocketAddress::V4(SocketAddressV4 {
            a: 10,
            b: 0,
            c: 0,
            d: 1,
            port: 1
        }))
        .is_err()
    );
}

#[test]
fn ipv6_addresses_are_not_the_local_host() {
    let cases = [
        ("[2001:db8::1]:80", "[2001:db8::1]:80"),
        ("[::1]:8787", "[::1]:8787"),
        ("[::]:1", "[::]:1"),
        ("[0:0:0:0:0:0:0:0]:1", "[::]:1"),
        ("[2001:0DB8:0:0:1:0:0:1]:00080", "[2001:db8::1:0:0:1]:80"),
        ("[1:2:3:4:5:6:7:8]:65535", "[1:2:3:4:5:6:7:8]:65535"),
        ("[1:0:3:4:5:6:7:8]:1", "[1:0:3:4:5:6:7:8]:1"),
        ("[1:2:3:4:5:6:7::]:1", "[1:2:3:4:5:6:7:0]:1"),
        ("[1:0:0:4:0:0:0:8]:1", "[1:0:0:4::8]:1"),
        ("[::ffff:192.168.0.1]:1", "[::ffff:192.168.0.1]:1"),
        ("[::ffff:c0a8:1]:1", "[::ffff:192.168.0.1]:1"),
        ("[64:ff9b::192.0.2.33]:1", "[64:ff9b::c000:221]:1"),
        ("[fe80::1%3]:1", "[fe80::1%3]:1"),
        ("[fe80::1%0]:1", "[fe80::1]:1"),
    ];
    for (text, told) in cases {
        assert_eq!(
            DaemonAddress::parse(text),
            Err(DaemonAddressError::NotLocalHost(told.into())),
            "{text}"
        );
    }
}

#[test]
fn broken_ipv6_addresses_are_invalid() {
    for text in [
        "[]:1",
        "[:]:1",
        "[:::]:1",
        "[1::2::3]:1",
        "[1:2:3:4:5:6:7]:1",
        "[1:2:3:4:5:6:7:8:9]:1",
        "[1:2:3:4:5:6:7:8::]:1",
        "[1:2:3:4::5:6:7:8]:1",
        "[12345::]:1",
        "[g::]:1",
        "[1.2.3.4::]:1",
        "[::1.2.3.4:5]:1",
        "[::1.2.3]:1",
        "[1:2:3:4:5:6:7:1.2.3.4]:1",
        "[::1%]:1",
        "[::1%x]:1",
        "[::1%4294967296]:1",
        "[::1]",
        "[::1]:",
        "[::1]:65536",
        "[::1]80",
        "[::1:80",
        "::1:80",
    ] {
        assert_eq!(
            DaemonAddress::parse(text),
            Err(DaemonAddressError::InvalidAddress(text.into())),
            "{text}"
        );
    }
}

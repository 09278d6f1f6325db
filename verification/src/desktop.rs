//! The desktop shell: its connection to the daemon.

use vstd::prelude::*;

use crate::models::config;
use crate::paths;
use crate::protocol::daemon_address::DaemonAddress;
use crate::protocol::rpc;
use crate::protocol::rpc::{
    JsonRpcMessage, JsonRpcRequest, JsonRpcResponse,
};
use crate::protocol::{
    DaemonConnectionView, DaemonState, RpcId, RpcIdModel, RuntimeEvent, RuntimeEventKind,
    RuntimeEventKindModel, RuntimeEventModel, RUNTIME_EVENT_METHOD,
};
use crate::text;

verus! {

/// What is said when no daemon address is configured.
pub const NO_ADDRESS: &'static str =
    "未配置 daemon 地址。请在设置中输入本地 daemon WebSocket 地址，例如 127.0.0.1:8787。";

/// What a supervisor does to get a client.
#[derive(Debug)]
pub enum ClientStep {
    /// Use the client that is there.
    Use,
    /// Connect to this address.
    Connect(DaemonAddress),
    /// Nothing can be done.
    Refuse(String),
}

/// Lifecycle manager for the daemon WebSocket connection.
#[derive(Debug)]
pub struct DaemonSupervisor {
    /// Whether there is a client.
    pub connected: bool,
    /// Most recent error encountered when connecting to the daemon.
    pub last_error: Option<String>,
    /// Persisted daemon address, if any.
    pub address: Option<DaemonAddress>,
}

/// The view of a connected daemon.
pub open spec fn connected_view(view: DaemonConnectionView, state: DaemonState) -> bool {
    view.connected && view.state.deep_view() == Some(state.deep_view()) && view.error is None
}

/// The view of a daemon that is not connected.
pub open spec fn disconnected_view(view: DaemonConnectionView, error: Seq<char>) -> bool {
    !view.connected && view.state is None && view.error.deep_view() == Some(error)
}

impl DaemonSupervisor {
    /// Creates a new supervisor with no connection and the saved address, if one was loaded.
    pub fn new(address: Option<DaemonAddress>) -> (r: Self)
        ensures
            !r.connected,
            r.last_error is None,
            r.address == address,
    {
        DaemonSupervisor { connected: false, last_error: None, address }
    }

    /// Tells how to get a client.
    pub fn ensure_client(&self) -> (r: ClientStep)
        ensures
            match r {
                ClientStep::Use => self.connected,
                ClientStep::Connect(address) => !self.connected && self.address == Some(address),
                ClientStep::Refuse(error) => !self.connected && self.address is None && error@
                    == NO_ADDRESS@,
            },
    {
        if self.connected {
            return ClientStep::Use;
        }
        match self.address {
            Some(address) => ClientStep::Connect(address),
            None => ClientStep::Refuse(NO_ADDRESS.to_owned()),
        }
    }

    /// Keeps the outcome of connecting: a failure is remembered and told.
    pub fn connect_finished(&mut self, outcome: Result<(), String>) -> (r: Result<(), String>)
        ensures
            final(self).address == old(self).address,
            match (outcome, r) {
                (Ok(_), Ok(_)) => final(self).connected && final(self).last_error is None,
                (Err(error), Err(told)) => told == error && final(self).connected
                    == old(self).connected && final(self).last_error.deep_view() == Some(error@),
                _ => false,
            },
    {
        match outcome {
            Ok(_) => {
                self.connected = true;
                self.last_error = None;
                Ok(())
            },
            Err(error) => {
                self.last_error = Some(error.clone());
                Err(error)
            },
        }
    }

    /// Returns the connection view, given the state that the daemon reported or the error that
    /// stands in its place; `asked` tells whether the daemon was asked at all. An error of the
    /// daemon ends the connection.
    pub fn get_state(&mut self, asked: bool, state: Result<DaemonState, String>) -> (r:
        DaemonConnectionView)
        ensures
            final(self).address == old(self).address,
            match state {
                Ok(state) => connected_view(r, state) && final(self).connected
                    == old(self).connected && final(self).last_error is None,
                Err(error) => disconnected_view(r, error@) && if asked {
                    !final(self).connected && final(self).last_error.deep_view() == Some(error@)
                } else {
                    final(self).connected == old(self).connected && final(self).last_error
                        == old(self).last_error
                },
            },
    {
        match state {
            Ok(state) => {
                self.last_error = None;
                DaemonConnectionView::connected(state)
            },
            Err(error) => {
                if asked {
                    self.connected = false;
                    self.last_error = Some(error.clone());
                }
                DaemonConnectionView::disconnected(error)
            },
        }
    }

    /// Sets the daemon address, given the outcome of saving it. A saved address ends the
    /// connection to the old one.
    pub fn set_address(&mut self, address: DaemonAddress, saved: Result<(), String>) -> (r: Result<
        (),
        String,
    >)
        ensures
            final(self).address == Some(address),
            final(self).last_error == old(self).last_error,
            match (saved, r) {
                (Ok(_), Ok(_)) => !final(self).connected,
                (Err(error), Err(told)) => final(self).connected == old(self).connected && told@
                    == "保存 daemon 地址失败: "@ + error@,
                _ => false,
            },
    {
        self.address = Some(address);
        match saved {
            Ok(_) => {
                self.connected = false;
                Ok(())
            },
            Err(error) => Err(text::concat("保存 daemon 地址失败: ", &error)),
        }
    }
}

/// The requests of a connection to the daemon.
#[derive(Debug)]
pub struct DaemonClient {
    pending: Vec<u64>,
    next_request_id: u64,
}

/// What to do with a frame from the daemon.
#[derive(Debug)]
pub enum DaemonMessage {
    /// Hand the response to the request that waits for it.
    Deliver(JsonRpcResponse),
    /// Decode these parameters as a runtime event.
    DecodeEvent(String),
    /// Nothing.
    Ignore,
    /// Publish this event.
    Publish(RuntimeEvent),
}

/// An event that reports an error of the connection.
pub open spec fn error_event(message: Seq<char>) -> RuntimeEventModel {
    RuntimeEventModel {
        sequence: 0,
        kind: RuntimeEventKindModel::Error { message, run_id: None },
    }
}

/// Returns an event that reports an error of the connection.
fn report(message: String) -> (r: RuntimeEvent)
    ensures
        r.deep_view() == error_event(message@),
{
    RuntimeEvent { sequence: 0, kind: RuntimeEventKind::Error { message, run_id: None } }
}

/// The request waits for a response.
pub open spec fn is_pending(pending: Seq<u64>, id: RpcIdModel) -> bool {
    id matches RpcIdModel::Number(n) && pending.contains(n)
}

/// The request does not wait any more, and every other one waits as it did.
pub open spec fn only_removed(before: Seq<u64>, after: Seq<u64>, id: RpcIdModel) -> bool {
    &&& !is_pending(after, id)
    &&& forall|other: u64|
        RpcIdModel::Number(other) != id ==> (after.contains(other) <==> #[trigger] before.contains(
            other,
        ))
}

impl DaemonClient {
    /// The requests that wait for a response.
    pub closed spec fn pending(&self) -> Seq<u64> {
        self.pending@
    }

    /// The identifier of the next request.
    pub closed spec fn next(&self) -> u64 {
        self.next_request_id
    }

    /// Only requests that were made wait for a response, each once.
    #[verifier::type_invariant]
    spec fn waits_in_order(&self) -> bool {
        &&& self.pending@.no_duplicates()
        &&& forall|i: int| 0 <= i < self.pending@.len() ==> self.pending@[i] < self.next_request_id
    }

    /// A connection without requests.
    pub fn new() -> (r: Self)
        ensures
            r.pending() == Seq::<u64>::empty(),
            r.next() == 1,
    {
        DaemonClient { pending: Vec::new(), next_request_id: 1 }
    }

    /// Makes a request under the next identifier; it waits for a response.
    pub fn request(&mut self, method: &str, params: Option<String>) -> (r: JsonRpcRequest)
        requires
            old(self).next() < u64::MAX,
        ensures
            r.deep_view() == rpc::request_frame(
                RpcIdModel::Number(old(self).next()),
                method@,
                params.deep_view(),
            ),
            final(self).next() == old(self).next() + 1,
            final(self).pending() == old(self).pending().push(old(self).next()),
            !old(self).pending().contains(old(self).next()),
    {
        proof {
            use_type_invariant(&*self);
        }
        let id: u64 = self.next_request_id;
        let mut pending: Vec<u64> = Vec::new();
        std::mem::swap(&mut pending, &mut self.pending);
        pending.push(id);
        self.next_request_id = id + 1;
        self.pending = pending;
        JsonRpcRequest::new(RpcId::Number(id), method, params)
    }

    /// Takes a request off those that wait, and tells whether it was among them.
    pub fn remove(&mut self, id: &RpcId) -> (r: bool)
        ensures
            r == is_pending(old(self).pending(), id.deep_view()),
            final(self).next() == old(self).next(),
            only_removed(old(self).pending(), final(self).pending(), id.deep_view()),
    {
        proof {
            use_type_invariant(&*self);
        }
        let wanted: u64 = match id {
            RpcId::Number(n) => *n,
            RpcId::String(_) => {
                return false;
            },
        };
        let mut pending: Vec<u64> = Vec::new();
        std::mem::swap(&mut pending, &mut self.pending);
        let ghost before = pending@;
        let total: usize = pending.len();
        let mut at: usize = 0;
        while at < total && pending[at] != wanted
            invariant
                at <= total,
                total == pending@.len(),
                pending@ == before,
                forall|k: int| 0 <= k < at ==> before[k] != wanted,
            decreases total - at,
        {
            at = at + 1;
        }
        let found = at < total;
        if found {
            assert(before.contains(before[at as int]));
            let _ = pending.remove(at);
            let ghost after = pending@;
            assert forall|k: int| 0 <= k < after.len() implies #[trigger] after[k] != wanted
                && before.contains(after[k]) by {
                if k < at {
                    assert(after[k] == before[k]);
                } else {
                    assert(after[k] == before[k + 1]);
                }
            }
            assert forall|other: u64|
                other != wanted implies (after.contains(other) <==> #[trigger] before.contains(
                other,
            )) by {
                if before.contains(other) {
                    let k = choose|k: int| 0 <= k < before.len() && before[k] == other;
                    if k < at {
                        assert(after[k] == other);
                    } else {
                        assert(after[k - 1] == other);
                    }
                }
            }
            assert forall|k: int, l: int| 0 <= k < l < after.len() implies after[k] != after[l] by {
                let x = if k < at {
                    k
                } else {
                    k + 1
                };
                let y = if l < at {
                    l
                } else {
                    l + 1
                };
                assert(after[k] == before[x]);
                assert(after[l] == before[y]);
            }
        }
        self.pending = pending;
        found
    }

    /// The connection to the daemon is closed for writing: the request waits no longer.
    pub fn write_failed(&mut self, id: u64) -> (r: String)
        ensures
            r@ == "daemon WebSocket 写入端已关闭"@,
            only_removed(old(self).pending(), final(self).pending(), RpcIdModel::Number(id)),
            final(self).next() == old(self).next(),
    {
        let request_id = RpcId::Number(id);
        let _ = self.remove(&request_id);
        "daemon WebSocket 写入端已关闭".to_owned()
    }

    /// The daemon did not respond in time: the request waits no longer.
    pub fn timed_out(&mut self, id: u64) -> (r: String)
        ensures
            r@ == "daemon 未在超时时间内响应请求 "@ + id_text(id),
            only_removed(old(self).pending(), final(self).pending(), RpcIdModel::Number(id)),
            final(self).next() == old(self).next(),
    {
        let request_id = RpcId::Number(id);
        let _ = self.remove(&request_id);
        text::concat("daemon 未在超时时间内响应请求 ", &describe_id(id))
    }

    /// Routes a frame from the daemon to the request that waits for it or to the frontend.
    pub fn handle_daemon_message(&mut self, decoded: Result<JsonRpcMessage, String>) -> (r:
        DaemonMessage)
        ensures
            final(self).next() == old(self).next(),
            match decoded {
                Ok(JsonRpcMessage::Response(response)) => {
                    &&& only_removed(
                        old(self).pending(),
                        final(self).pending(),
                        response.deep_view().id,
                    )
                    &&& if is_pending(old(self).pending(), response.deep_view().id) {
                        r == DaemonMessage::Deliver(response)
                    } else {
                        r is Ignore
                    }
                },
                Ok(JsonRpcMessage::Notification(notification)) => {
                    &&& final(self).pending() == old(self).pending()
                    &&& if notification.method@ == RUNTIME_EVENT_METHOD@
                        && notification.params is Some {
                        r is DecodeEvent && r->DecodeEvent_0@ == notification.params->0@
                    } else {
                        r is Ignore
                    }
                },
                Ok(JsonRpcMessage::Request(_)) => r is Ignore && final(self).pending()
                    == old(self).pending(),
                Err(error) => r is Publish && r->Publish_0.deep_view() == error_event(
                    "无法解析 daemon RPC 帧: "@ + error@,
                ) && final(self).pending() == old(self).pending(),
            },
    {
        match decoded {
            Ok(JsonRpcMessage::Response(response)) => {
                if self.remove(&response.id) {
                    DaemonMessage::Deliver(response)
                } else {
                    DaemonMessage::Ignore
                }
            },
            Ok(JsonRpcMessage::Notification(notification)) => {
                if text::same(&notification.method, RUNTIME_EVENT_METHOD) {
                    match notification.params {
                        Some(params) => DaemonMessage::DecodeEvent(params),
                        None => DaemonMessage::Ignore,
                    }
                } else {
                    DaemonMessage::Ignore
                }
            },
            Ok(JsonRpcMessage::Request(_)) => DaemonMessage::Ignore,
            Err(error) => DaemonMessage::Publish(
                report(text::concat("无法解析 daemon RPC 帧: ", &error)),
            ),
        }
    }
}

/// Returns the event of a notification, or one that reports that it could not be decoded.
pub fn event_decoded(decoded: Result<RuntimeEvent, String>) -> (r: RuntimeEvent)
    ensures
        match decoded {
            Ok(event) => r == event,
            Err(error) => r.deep_view() == error_event(
                "无法解析 daemon runtime event: "@ + error@,
            ),
        },
{
    match decoded {
        Ok(event) => event,
        Err(error) => report(text::concat("无法解析 daemon runtime event: ", &error)),
    }
}

/// Returns the event of a broken connection.
pub fn connection_broken(error: &str) -> (r: RuntimeEvent)
    ensures
        r.deep_view() == error_event("daemon WebSocket error: "@ + error@),
{
    report(text::concat("daemon WebSocket error: ", error))
}

/// How the identifier of a request is shown.
pub open spec fn id_text(id: u64) -> Seq<char> {
    "Number("@ + text::decimal(id as nat) + ")"@
}

/// Shows the identifier of a request.
fn describe_id(id: u64) -> (r: String)
    ensures
        r@ == id_text(id),
{
    text::concat3("Number(", &text::format_u64(id), ")")
}

/// Returns what is said of a request whose response will not come.
pub fn channel_closed(id: u64) -> (r: String)
    ensures
        r@ == "daemon 响应通道已关闭，请求 id: "@ + id_text(id),
{
    text::concat("daemon 响应通道已关闭，请求 id: ", &describe_id(id))
}

/// Returns the result of a response to a request for `method`: an error of the daemon and a
/// response without a result are told as text.
pub fn response_result(method: &str, response: JsonRpcResponse) -> (r: Result<String, String>)
    ensures
        match (response.deep_view().error, response.deep_view().result, r) {
            (Some(error), _, Err(told)) => told@ == "daemon 返回错误 "@ + text::signed_decimal(
                error.code as int,
            ) + ": "@ + error.message,
            (None, Some(result), Ok(told)) => told@ == result,
            (None, None, Err(told)) => told@ == "daemon "@ + method@ + " 响应未包含 result"@,
            _ => false,
        },
{
    if let Some(error) = response.error {
        let mut told = text::concat3("daemon 返回错误 ", &text::format_i64(error.code), ": ");
        told.push_str(&error.message);
        return Err(told);
    }
    match response.result {
        Some(result) => Ok(result),
        None => Err(text::concat3("daemon ", method, " 响应未包含 result")),
    }
}

/// The path of the saved daemon address.
pub open spec fn daemon_config_path(
    xdg_config_home: Option<Seq<char>>,
    home: Option<Seq<char>>,
) -> Seq<char> {
    paths::joined(
        paths::joined(config::config_dir(xdg_config_home, home), "byte"@),
        "daemon.toml"@,
    )
}

/// Resolves the path of the saved daemon address.
pub fn resolve_daemon_config_path(xdg_config_home: Option<String>, home: Option<String>) -> (r:
    String)
    ensures
        r@ == daemon_config_path(xdg_config_home.deep_view(), home.deep_view()),
{
    let dir = config::user_config_dir(xdg_config_home, home);
    paths::join(&paths::join(&dir, "byte"), "daemon.toml")
}

/// What was found where the daemon address is saved.
#[derive(Debug)]
pub enum SavedAddress {
    /// There is no file.
    Missing,
    /// The file could not be read.
    Unreadable(String),
    /// The file holds no address.
    Invalid(String),
    /// The address.
    Address(DaemonAddress),
}

/// Returns the saved daemon address, given what was found at its path.
pub fn load_daemon_address(path: &str, saved: SavedAddress) -> (r: Result<
    Option<DaemonAddress>,
    String,
>)
    ensures
        match (saved, r) {
            (SavedAddress::Missing, Ok(None)) => true,
            (SavedAddress::Address(address), Ok(Some(told))) => told == address,
            (SavedAddress::Unreadable(error), Err(told)) => told@ == "读取 daemon 配置失败 "@
                + path@ + ": "@ + error@,
            (SavedAddress::Invalid(error), Err(told)) => told@ == "解析 daemon 配置失败 "@ + path@
                + ": "@ + error@,
            _ => false,
        },
{
    match saved {
        SavedAddress::Missing => Ok(None),
        SavedAddress::Address(address) => Ok(Some(address)),
        SavedAddress::Unreadable(error) => {
            let mut told = text::concat3("读取 daemon 配置失败 ", path, ": ");
            told.push_str(&error);
            Err(told)
        },
        SavedAddress::Invalid(error) => {
            let mut told = text::concat3("解析 daemon 配置失败 ", path, ": ");
            told.push_str(&error);
            Err(told)
        },
    }
}

} // verus!

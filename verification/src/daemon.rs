//! The daemon: its command line, its JSON-RPC requests and its connections.

use vstd::prelude::*;

use crate::models::config::ConfigError;
use crate::models::provider::ProviderError;
use crate::models::provider_factory::{Provider, ProviderFactoryError};
use crate::protocol::daemon_address;
use crate::protocol::daemon_address::DaemonAddress;
use crate::protocol::framing;
use crate::protocol::rpc;
use crate::protocol::rpc::{
    JsonRpcRequest, JsonRpcRequestModel, JsonRpcResponse, JsonRpcResponseModel, ProtocolError,
};
use crate::protocol::socket_address::SocketAddress;
use crate::protocol::{
    DaemonState, RpcId, RpcIdModel, RuntimeEventKind, RuntimeEventKindModel,
};
use crate::runtime::session_runner::RunnerError;
use crate::text;

verus! {

/// The argument that the address follows.
pub const ADDRESS_ARGUMENT: &'static str = "--rpc-websocket";

/// How the daemon is started.
pub const USAGE: &'static str = "usage: byte-daemon --rpc-websocket <addr>";

/// Error code of text that is no request.
pub const PARSE_ERROR: i64 = -32700;

/// Error code of an unknown method.
pub const METHOD_NOT_FOUND: i64 = -32601;

/// Error code of parameters that are not those of the method.
pub const INVALID_PARAMS: i64 = -32602;

/// Error code of a request that failed.
pub const INTERNAL_ERROR: i64 = -32603;

/// Error code of a session with an active run.
pub const SESSION_BUSY: i64 = -32000;

/// The address that command line arguments give, or what is said of them. The first argument
/// is the program.
pub open spec fn address_argument(args: Seq<Seq<char>>) -> Result<
    SocketAddress,
    Seq<char>,
> {
    if args.len() == 3 && args[1] == ADDRESS_ARGUMENT@ {
        match daemon_address::address_of(args[2]) {
            Ok(address) => Ok(address),
            Err(error) => Err(
                "invalid --rpc-websocket address '"@ + args[2] + "': "@ + error.message(),
            ),
        }
    } else {
        Err(USAGE@)
    }
}

/// Parses the `--rpc-websocket <addr>` argument from the command line.
pub fn parse_rpc_websocket_arg(args: &Vec<String>) -> (r: Result<DaemonAddress, String>)
    ensures
        match r {
            Ok(address) => address_argument(args.deep_view()) == Ok::<
                SocketAddress,
                Seq<char>,
            >(address.address()),
            Err(error) => address_argument(args.deep_view()) == Err::<
                SocketAddress,
                Seq<char>,
            >(error@),
        },
{
    if args.len() == 3 {
        assert(args.deep_view()[1] == args@[1]@);
        assert(args.deep_view()[2] == args@[2]@);
        if text::same(&args[1], ADDRESS_ARGUMENT) {
            return match DaemonAddress::parse(&args[2]) {
                Ok(address) => Ok(address),
                Err(error) => {
                    let mut told = text::concat3(
                        "invalid --rpc-websocket address '",
                        &args[2],
                        "': ",
                    );
                    told.push_str(&error.message());
                    Err(told)
                },
            };
        }
    }
    Err(USAGE.to_owned())
}

/// The requests that the daemon serves.
#[derive(Debug, Clone, Copy, PartialEq, Eq, Structural)]
pub enum Method {
    GetState,
    NewSession,
    LoadSession,
    ListSessions,
    DeleteSession,
    SendMessage,
    CancelRun,
}

/// The request that a method name stands for.
pub open spec fn method_of(name: Seq<char>) -> Option<Method> {
    if name == "get_state"@ {
        Some(Method::GetState)
    } else if name == "new_session"@ {
        Some(Method::NewSession)
    } else if name == "load_session"@ {
        Some(Method::LoadSession)
    } else if name == "list_sessions"@ {
        Some(Method::ListSessions)
    } else if name == "delete_session"@ {
        Some(Method::DeleteSession)
    } else if name == "send_message"@ {
        Some(Method::SendMessage)
    } else if name == "cancel_run"@ {
        Some(Method::CancelRun)
    } else {
        None
    }
}

/// The response to a request for an unknown method.
pub open spec fn method_not_found(request: JsonRpcRequestModel) -> JsonRpcResponseModel {
    rpc::failure_frame(request.id, METHOD_NOT_FOUND, "method not found: "@ + request.method)
}

/// Tells which request it is, or answers one that is not known.
pub fn handle_request(request: &JsonRpcRequest) -> (r: Result<Method, JsonRpcResponse>)
    ensures
        match r {
            Ok(method) => method_of(request.method@) == Some(method),
            Err(response) => method_of(request.method@) is None && response.deep_view()
                == method_not_found(request.deep_view()),
        },
{
    let name = request.method.as_str();
    if text::same(name, "get_state") {
        Ok(Method::GetState)
    } else if text::same(name, "new_session") {
        Ok(Method::NewSession)
    } else if text::same(name, "load_session") {
        Ok(Method::LoadSession)
    } else if text::same(name, "list_sessions") {
        Ok(Method::ListSessions)
    } else if text::same(name, "delete_session") {
        Ok(Method::DeleteSession)
    } else if text::same(name, "send_message") {
        Ok(Method::SendMessage)
    } else if text::same(name, "cancel_run") {
        Ok(Method::CancelRun)
    } else {
        Err(
            JsonRpcResponse::failure(
                request.id.clone(),
                METHOD_NOT_FOUND,
                &text::concat("method not found: ", name),
            ),
        )
    }
}

/// The response to a request whose parameters are not those of its method.
pub open spec fn invalid_params(request: JsonRpcRequestModel) -> JsonRpcResponseModel {
    rpc::failure_frame(request.id, INVALID_PARAMS, "invalid params for "@ + request.method)
}

/// Hands the parameters of a request on, or answers one without the parameters of its method.
pub fn parse_params<T>(request: &JsonRpcRequest, params: Option<T>) -> (r: Result<
    T,
    JsonRpcResponse,
>)
    ensures
        match (params, r) {
            (Some(params), Ok(told)) => told == params,
            (None, Err(response)) => response.deep_view() == invalid_params(request.deep_view()),
            _ => false,
        },
{
    match params {
        Some(params) => Ok(params),
        None => Err(
            JsonRpcResponse::failure(
                request.id.clone(),
                INVALID_PARAMS,
                &text::concat("invalid params for ", &request.method),
            ),
        ),
    }
}

/// What is said of a request that failed.
pub open spec fn error_text(session_id: Option<Seq<char>>, error: RunnerError) -> Seq<char> {
    match error {
        RunnerError::Busy => "session "@ + (match session_id {
            Some(id) => id,
            None => "unknown"@,
        }) + " is busy"@,
        RunnerError::SessionStore(error) => "session store error: "@ + error.spec_message(),
        RunnerError::SessionView(error) => "session view error: "@ + error.spec_message(),
        RunnerError::SkillRegistry(error) => "skill registry error: "@ + error.spec_message(),
        RunnerError::Provider(error) => "provider error: "@ + error.spec_message(),
    }
}

/// The response to a request that failed.
pub open spec fn error_response(
    request: JsonRpcRequestModel,
    session_id: Option<Seq<char>>,
    error: RunnerError,
) -> JsonRpcResponseModel {
    rpc::failure_frame(
        request.id,
        if error is Busy {
            SESSION_BUSY
        } else {
            INTERNAL_ERROR
        },
        error_text(session_id, error),
    )
}

/// Converts a [`RunnerError`] into a JSON-RPC error response.
pub fn runner_error_response(
    request: &JsonRpcRequest,
    session_id: Option<String>,
    error: RunnerError,
) -> (r: JsonRpcResponse)
    ensures
        r.deep_view() == error_response(request.deep_view(), session_id.deep_view(), error),
{
    let id = request.id.clone();
    match error {
        RunnerError::Busy => {
            let session = match session_id {
                Some(id) => id,
                None => "unknown".to_owned(),
            };
            JsonRpcResponse::failure(
                id,
                SESSION_BUSY,
                &text::concat3("session ", &session, " is busy"),
            )
        },
        RunnerError::SessionStore(error) => JsonRpcResponse::failure(
            id,
            INTERNAL_ERROR,
            &text::concat("session store error: ", &error.message()),
        ),
        RunnerError::SessionView(error) => JsonRpcResponse::failure(
            id,
            INTERNAL_ERROR,
            &text::concat("session view error: ", &error.message()),
        ),
        RunnerError::SkillRegistry(error) => JsonRpcResponse::failure(
            id,
            INTERNAL_ERROR,
            &text::concat("skill registry error: ", &error.message()),
        ),
        RunnerError::Provider(error) => JsonRpcResponse::failure(
            id,
            INTERNAL_ERROR,
            &text::concat("provider error: ", &error.message()),
        ),
    }
}

/// The response to a request, given its outcome: the JSON text of its result, or the reason
/// why it has none, or the error it failed with.
pub open spec fn answer(
    request: JsonRpcRequestModel,
    session_id: Option<Seq<char>>,
    outcome: Result<Result<String, String>, RunnerError>,
) -> JsonRpcResponseModel {
    match outcome {
        Ok(Ok(result)) => rpc::success_frame(request.id, result@),
        Ok(Err(reason)) => rpc::failure_frame(
            request.id,
            INTERNAL_ERROR,
            "failed to serialize JSON-RPC frame: "@ + reason@,
        ),
        Err(error) => error_response(request, session_id, error),
    }
}

/// Answers a request, given its outcome.
pub fn respond(
    request: &JsonRpcRequest,
    session_id: Option<String>,
    outcome: Result<Result<String, String>, RunnerError>,
) -> (r: JsonRpcResponse)
    ensures
        r.deep_view() == answer(request.deep_view(), session_id.deep_view(), outcome),
{
    match outcome {
        Ok(result) => match JsonRpcResponse::success(request.id.clone(), result) {
            Ok(response) => response,
            Err(error) => JsonRpcResponse::failure(request.id.clone(), INTERNAL_ERROR, &error.message()),
        },
        Err(error) => runner_error_response(request, session_id, error),
    }
}

/// Returns the public state of the daemon.
pub fn daemon_state(version: &str) -> (r: DaemonState)
    ensures
        r.deep_view() == crate::protocol::ready_state(version@),
{
    DaemonState::ready(version)
}

/// A message of a client connection.
#[derive(Debug)]
pub enum Frame {
    /// A text message.
    Text(String),
    /// A close, ping or pong message.
    Control,
    /// A message of another kind.
    Unsupported,
    /// The connection broke.
    Broken,
}

/// What to do with a message of a client connection.
#[derive(Debug, PartialEq, Eq)]
pub enum FrameAction {
    /// Decode this JSON text as a request.
    Decode(String),
    /// Pass the message over.
    Ignore,
    /// Pass the message over, with a warning.
    Warn,
    /// End the connection.
    Stop,
}

/// Tells what to do with a message of a client connection. Blank text is passed over.
pub fn handle_frame(frame: Frame) -> (r: FrameAction)
    ensures
        match frame {
            Frame::Text(line) => if framing::is_filled(line@) {
                r is Decode && r->Decode_0@ == text::trimmed_line_end(line@)
            } else {
                r is Ignore
            },
            Frame::Control => r is Ignore,
            Frame::Unsupported => r is Warn,
            Frame::Broken => r is Stop,
        },
{
    match frame {
        Frame::Text(line) => if framing::has_content(&line) {
            FrameAction::Decode(framing::decode_json_line(&line))
        } else {
            FrameAction::Ignore
        },
        Frame::Control => FrameAction::Ignore,
        Frame::Unsupported => FrameAction::Warn,
        Frame::Broken => FrameAction::Stop,
    }
}

/// The response to text that is no request.
pub open spec fn parse_error(error: Seq<char>) -> JsonRpcResponseModel {
    rpc::failure_frame(RpcIdModel::Number(0), PARSE_ERROR, "parse error: "@ + error)
}

/// The event of text that is no request.
pub open spec fn parse_error_event(error: Seq<char>) -> RuntimeEventKindModel {
    RuntimeEventKindModel::Error {
        message: "failed to parse JSON-RPC request: "@ + error,
        run_id: None,
    }
}

/// Hands a decoded request on, or answers text that is no request and publishes the error.
pub fn handle_decoded(decoded: Result<JsonRpcRequest, String>) -> (r: Result<
    JsonRpcRequest,
    (JsonRpcResponse, RuntimeEventKind),
>)
    ensures
        match (decoded, r) {
            (Ok(request), Ok(told)) => told == request,
            (Err(error), Err((response, event))) => response.deep_view() == parse_error(error@)
                && event.deep_view() == parse_error_event(error@),
            _ => false,
        },
{
    match decoded {
        Ok(request) => Ok(request),
        Err(error) => Err(
            (
                JsonRpcResponse::failure(
                    RpcId::Number(0),
                    PARSE_ERROR,
                    &text::concat("parse error: ", &error),
                ),
                RuntimeEventKind::Error {
                    message: text::concat("failed to parse JSON-RPC request: ", &error),
                    run_id: None,
                },
            ),
        ),
    }
}

/// What is said of a provider that could not be built, with the causes of the error.
pub open spec fn build_error(error: BuildError) -> Seq<char> {
    match error {
        BuildError::Config(error) => match error {
            ConfigError::Read { source, .. } => error.spec_message() + ": "@ + source@,
            ConfigError::Parse(source) => error.spec_message() + ": "@ + source@,
            _ => error.spec_message(),
        },
        BuildError::Factory(error) => error.spec_message(),
    }
}

/// Why a provider could not be built.
#[derive(Debug, PartialEq, Eq)]
pub enum BuildError {
    Config(ConfigError),
    Factory(ProviderFactoryError),
}

impl BuildError {
    /// Returns the text of the error with its causes.
    pub fn message(&self) -> (r: String)
        ensures
            r@ == build_error(*self),
    {
        match self {
            BuildError::Config(error) => {
                let told = error.message();
                match error {
                    ConfigError::Read { source, .. } => text::concat3(&told, ": ", source),
                    ConfigError::Parse(source) => text::concat3(&told, ": ", source),
                    _ => told,
                }
            },
            BuildError::Factory(error) => error.message(),
        }
    }
}

/// A provider that is built on the first message. While it cannot be built, every message
/// fails, and the next one tries again.
#[derive(Debug)]
pub struct LazyConfigProvider {
    inner: Option<Provider>,
}

impl LazyConfigProvider {
    /// The provider, once it was built.
    pub closed spec fn provider(&self) -> Option<Provider> {
        self.inner
    }

    /// Create a new, uninitialized lazy provider.
    pub fn new() -> (r: Self)
        ensures
            r.provider() is None,
    {
        LazyConfigProvider { inner: None }
    }

    /// Returns the provider, if it was built.
    pub fn get(&self) -> (r: Option<&Provider>)
        ensures
            match r {
                Some(provider) => self.provider() == Some(*provider),
                None => self.provider() is None,
            },
    {
        self.inner.as_ref()
    }

    /// Keeps the provider that was built, or tells why it could not be.
    pub fn initialize(&mut self, built: Result<Provider, BuildError>) -> (r: Result<
        (),
        ProviderError,
    >)
        ensures
            match (built, r) {
                (Ok(provider), Ok(_)) => final(self).provider() == Some(provider),
                (Err(error), Err(ProviderError::Configuration(told))) => told@ == build_error(error)
                    && final(self).provider() == old(self).provider(),
                _ => false,
            },
    {
        match built {
            Ok(provider) => {
                self.inner = Some(provider);
                Ok(())
            },
            Err(error) => Err(ProviderError::Configuration(error.message())),
        }
    }
}

/// Every request is answered under its own identifier, whatever came of it; a request that
/// failed is answered an error and no result, one that succeeded a result and no error.
pub proof fn law_every_request_is_answered(
    request: JsonRpcRequestModel,
    session_id: Option<Seq<char>>,
    outcome: Result<Result<String, String>, RunnerError>,
)
    ensures
        answer(request, session_id, outcome).id == request.id,
        method_not_found(request).id == request.id,
        invalid_params(request).id == request.id,
        answer(request, session_id, outcome).error is None <==> outcome matches Ok(Ok(_)),
        answer(request, session_id, outcome).result is Some <==> outcome matches Ok(Ok(_)),
{
}

/// A busy session is told apart from every other failure by its code.
pub proof fn law_busy_has_its_own_code(
    request: JsonRpcRequestModel,
    session_id: Option<Seq<char>>,
    error: RunnerError,
)
    ensures
        error_response(request, session_id, error).error matches Some(told) && (told.code == SESSION_BUSY
            <==> error is Busy),
{
}

} // verus!

//! JSON-RPC frames.

use vstd::prelude::*;

use crate::protocol::{RpcId, RpcIdModel, JSON_RPC_VERSION, RUNTIME_EVENT_METHOD};
use crate::text;

verus! {

/// A request.
#[derive(Debug, PartialEq, Eq)]
pub struct JsonRpcRequest {
    /// Version tag.
    pub jsonrpc: String,
    pub id: RpcId,
    pub method: String,
    /// Parameters, as JSON text.
    pub params: Option<String>,
}

/// What a [`JsonRpcRequest`] holds.
pub struct JsonRpcRequestModel {
    pub jsonrpc: Seq<char>,
    pub id: RpcIdModel,
    pub method: Seq<char>,
    pub params: Option<Seq<char>>,
}

impl DeepView for JsonRpcRequest {
    type V = JsonRpcRequestModel;

    open spec fn deep_view(&self) -> JsonRpcRequestModel {
        JsonRpcRequestModel {
            jsonrpc: self.jsonrpc@,
            id: self.id.deep_view(),
            method: self.method@,
            params: self.params.deep_view(),
        }
    }
}

impl Clone for JsonRpcRequest {
    fn clone(&self) -> (r: Self)
        ensures
            r.deep_view() == self.deep_view(),
    {
        let r = JsonRpcRequest {
            jsonrpc: self.jsonrpc.clone(),
            id: self.id.clone(),
            method: self.method.clone(),
            params: self.params.clone(),
        };
        r
    }
}

/// An error object.
#[derive(Debug, PartialEq, Eq)]
pub struct JsonRpcError {
    pub code: i64,
    pub message: String,
    /// More about the error, as JSON text.
    pub data: Option<String>,
}

/// What a [`JsonRpcError`] holds.
pub struct JsonRpcErrorModel {
    pub code: i64,
    pub message: Seq<char>,
    pub data: Option<Seq<char>>,
}

impl DeepView for JsonRpcError {
    type V = JsonRpcErrorModel;

    open spec fn deep_view(&self) -> JsonRpcErrorModel {
        JsonRpcErrorModel {
            code: self.code,
            message: self.message@,
            data: self.data.deep_view(),
        }
    }
}

impl Clone for JsonRpcError {
    fn clone(&self) -> (r: Self)
        ensures
            r.deep_view() == self.deep_view(),
    {
        let r = JsonRpcError {
            code: self.code,
            message: self.message.clone(),
            data: self.data.clone(),
        };
        r
    }
}

/// A response.
#[derive(Debug, PartialEq, Eq)]
pub struct JsonRpcResponse {
    /// Version tag.
    pub jsonrpc: String,
    pub id: RpcId,
    /// Result, as JSON text.
    pub result: Option<String>,
    pub error: Option<JsonRpcError>,
}

/// What a [`JsonRpcResponse`] holds.
pub struct JsonRpcResponseModel {
    pub jsonrpc: Seq<char>,
    pub id: RpcIdModel,
    pub result: Option<Seq<char>>,
    pub error: Option<JsonRpcErrorModel>,
}

impl DeepView for JsonRpcResponse {
    type V = JsonRpcResponseModel;

    open spec fn deep_view(&self) -> JsonRpcResponseModel {
        JsonRpcResponseModel {
            jsonrpc: self.jsonrpc@,
            id: self.id.deep_view(),
            result: self.result.deep_view(),
            error: self.error.deep_view(),
        }
    }
}

impl Clone for JsonRpcResponse {
    fn clone(&self) -> (r: Self)
        ensures
            r.deep_view() == self.deep_view(),
    {
        let r = JsonRpcResponse {
            jsonrpc: self.jsonrpc.clone(),
            id: self.id.clone(),
            result: self.result.clone(),
            error: self.error.clone(),
        };
        r
    }
}

/// A message that no response is expected to.
#[derive(Debug, PartialEq, Eq)]
pub struct JsonRpcNotification {
    /// Version tag.
    pub jsonrpc: String,
    pub method: String,
    /// Parameters, as JSON text.
    pub params: Option<String>,
}

/// What a [`JsonRpcNotification`] holds.
pub struct JsonRpcNotificationModel {
    pub jsonrpc: Seq<char>,
    pub method: Seq<char>,
    pub params: Option<Seq<char>>,
}

impl DeepView for JsonRpcNotification {
    type V = JsonRpcNotificationModel;

    open spec fn deep_view(&self) -> JsonRpcNotificationModel {
        JsonRpcNotificationModel {
            jsonrpc: self.jsonrpc@,
            method: self.method@,
            params: self.params.deep_view(),
        }
    }
}

impl Clone for JsonRpcNotification {
    fn clone(&self) -> (r: Self)
        ensures
            r.deep_view() == self.deep_view(),
    {
        let r = JsonRpcNotification {
            jsonrpc: self.jsonrpc.clone(),
            method: self.method.clone(),
            params: self.params.clone(),
        };
        r
    }
}

/// Any JSON-RPC frame.
#[derive(Debug, PartialEq, Eq)]
pub enum JsonRpcMessage {
    Request(JsonRpcRequest),
    Response(JsonRpcResponse),
    Notification(JsonRpcNotification),
}

/// What a [`JsonRpcMessage`] holds.
pub enum JsonRpcMessageModel {
    Request(JsonRpcRequestModel),
    Response(JsonRpcResponseModel),
    Notification(JsonRpcNotificationModel),
}

impl DeepView for JsonRpcMessage {
    type V = JsonRpcMessageModel;

    open spec fn deep_view(&self) -> JsonRpcMessageModel {
        match self {
            JsonRpcMessage::Request(a0) => JsonRpcMessageModel::Request(a0.deep_view()),
            JsonRpcMessage::Response(a0) => JsonRpcMessageModel::Response(a0.deep_view()),
            JsonRpcMessage::Notification(a0) => JsonRpcMessageModel::Notification(a0.deep_view()),
        }
    }
}

impl Clone for JsonRpcMessage {
    fn clone(&self) -> (r: Self)
        ensures
            r.deep_view() == self.deep_view(),
    {
        match self {
            JsonRpcMessage::Request(a0) => JsonRpcMessage::Request(a0.clone()),
            JsonRpcMessage::Response(a0) => JsonRpcMessage::Response(a0.clone()),
            JsonRpcMessage::Notification(a0) => JsonRpcMessage::Notification(a0.clone()),
        }
    }
}

/// Errors of the protocol layer.
#[derive(Debug, PartialEq, Eq)]
pub enum ProtocolError {
    /// A frame could not be serialized.
    Serialize(String),
}

impl ProtocolError {
    /// The text of the error.
    pub open spec fn spec_message(&self) -> Seq<char> {
        match self {
            ProtocolError::Serialize(error) => "failed to serialize JSON-RPC frame: "@ + error@,
        }
    }

    /// Returns the text of the error.
    pub fn message(&self) -> (r: String)
        ensures
            r@ == self.spec_message(),
    {
        match self {
            ProtocolError::Serialize(error) => text::concat(
                "failed to serialize JSON-RPC frame: ",
                error,
            ),
        }
    }
}

/// Whether the two identifiers are the same.
pub fn same_id(a: &RpcId, b: &RpcId) -> (r: bool)
    ensures
        r == (a.deep_view() == b.deep_view()),
{
    match (a, b) {
        (RpcId::Number(x), RpcId::Number(y)) => *x == *y,
        (RpcId::String(x), RpcId::String(y)) => text::same(x, y),
        _ => false,
    }
}

/// A request for `method`.
pub open spec fn request_frame(
    id: RpcIdModel,
    method: Seq<char>,
    params: Option<Seq<char>>,
) -> JsonRpcRequestModel {
    JsonRpcRequestModel { jsonrpc: JSON_RPC_VERSION@, id, method, params }
}

/// A response that carries `result`.
pub open spec fn success_frame(id: RpcIdModel, result: Seq<char>) -> JsonRpcResponseModel {
    JsonRpcResponseModel { jsonrpc: JSON_RPC_VERSION@, id, result: Some(result), error: None }
}

/// A response that carries an error.
pub open spec fn failure_frame(
    id: RpcIdModel,
    code: i64,
    message: Seq<char>,
) -> JsonRpcResponseModel {
    JsonRpcResponseModel {
        jsonrpc: JSON_RPC_VERSION@,
        id,
        result: None,
        error: Some(JsonRpcErrorModel { code, message, data: None }),
    }
}

impl JsonRpcRequest {
    /// Create a request.
    pub fn new(id: RpcId, method: &str, params: Option<String>) -> (r: Self)
        ensures
            r.deep_view() == request_frame(id.deep_view(), method@, params.deep_view()),
    {
        JsonRpcRequest {
            jsonrpc: JSON_RPC_VERSION.to_owned(),
            id,
            method: method.to_owned(),
            params,
        }
    }
}

impl JsonRpcResponse {
    /// Create a response that carries a result, given as JSON text or as the reason why it
    /// could not be encoded.
    pub fn success(id: RpcId, result: Result<String, String>) -> (r: Result<Self, ProtocolError>)
        ensures
            match (result, r) {
                (Ok(result), Ok(response)) => response.deep_view() == success_frame(
                    id.deep_view(),
                    result@,
                ),
                (Err(reason), Err(ProtocolError::Serialize(error))) => error@ == reason@,
                _ => false,
            },
    {
        match result {
            Ok(result) => Ok(
                JsonRpcResponse {
                    jsonrpc: JSON_RPC_VERSION.to_owned(),
                    id,
                    result: Some(result),
                    error: None,
                },
            ),
            Err(error) => Err(ProtocolError::Serialize(error)),
        }
    }

    /// Create a response that carries an error.
    pub fn failure(id: RpcId, code: i64, message: &str) -> (r: Self)
        ensures
            r.deep_view() == failure_frame(id.deep_view(), code, message@),
    {
        JsonRpcResponse {
            jsonrpc: JSON_RPC_VERSION.to_owned(),
            id,
            result: None,
            error: Some(JsonRpcError { code, message: message.to_owned(), data: None }),
        }
    }

    /// Whether this is the response to `request`.
    pub fn is_response_to(&self, request: &JsonRpcRequest) -> (r: bool)
        ensures
            r == (self.deep_view().id == request.deep_view().id),
    {
        same_id(&self.id, &request.id)
    }
}

/// A notification of `method`.
pub open spec fn notification_frame(
    method: Seq<char>,
    params: Option<Seq<char>>,
) -> JsonRpcNotificationModel {
    JsonRpcNotificationModel { jsonrpc: JSON_RPC_VERSION@, method, params }
}

impl JsonRpcNotification {
    /// Create a notification.
    pub fn new(method: &str, params: Option<String>) -> (r: Self)
        ensures
            r.deep_view() == notification_frame(method@, params.deep_view()),
    {
        JsonRpcNotification {
            jsonrpc: JSON_RPC_VERSION.to_owned(),
            method: method.to_owned(),
            params,
        }
    }

    /// Create the notification of a runtime event, given as JSON text or as the reason why
    /// it could not be encoded.
    pub fn runtime_event(event: Result<String, String>) -> (r: Result<Self, ProtocolError>)
        ensures
            match (event, r) {
                (Ok(event), Ok(notification)) => notification.deep_view() == notification_frame(
                    RUNTIME_EVENT_METHOD@,
                    Some(event@),
                ),
                (Err(reason), Err(ProtocolError::Serialize(error))) => error@ == reason@,
                _ => false,
            },
    {
        match event {
            Ok(event) => Ok(JsonRpcNotification::new(RUNTIME_EVENT_METHOD, Some(event))),
            Err(error) => Err(ProtocolError::Serialize(error)),
        }
    }
}

/// Whatever a request is answered, the response belongs to it.
pub proof fn law_responses_keep_the_request_id(
    request: JsonRpcRequestModel,
    result: Seq<char>,
    code: i64,
    message: Seq<char>,
)
    ensures
        success_frame(request.id, result).id == request.id,
        failure_frame(request.id, code, message).id == request.id,
        success_frame(request.id, result).error is None,
        failure_frame(request.id, code, message).result is None,
{
}

} // verus!

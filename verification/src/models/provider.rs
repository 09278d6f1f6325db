//! Provider events and errors.

use vstd::prelude::*;

use crate::protocol::{ToolCall, ToolCallModel};
use crate::text;

verus! {

/// An event emitted by a model provider during a streaming generation.
#[derive(Debug, PartialEq, Eq)]
pub enum ProviderEvent {
    /// A new assistant message has begun.
    MessageStarted {
        message_id: String,
    },
    /// Additional text content for the active assistant message.
    TextDelta {
        message_id: String,
        delta: String,
    },
    /// The active assistant message is complete, with the tool calls that the model
    /// requested.
    MessageCompleted {
        message_id: String,
        tool_calls: Option<Vec<ToolCall>>,
    },
}

/// What a [`ProviderEvent`] holds.
pub enum ProviderEventModel {
    MessageStarted { message_id: Seq<char> },
    TextDelta { message_id: Seq<char>, delta: Seq<char> },
    MessageCompleted { message_id: Seq<char>, tool_calls: Option<Seq<ToolCallModel>> },
}

impl DeepView for ProviderEvent {
    type V = ProviderEventModel;

    open spec fn deep_view(&self) -> ProviderEventModel {
        match self {
            ProviderEvent::MessageStarted { message_id } => ProviderEventModel::MessageStarted {
                message_id: message_id@,
            },
            ProviderEvent::TextDelta { message_id, delta } => ProviderEventModel::TextDelta {
                message_id: message_id@,
                delta: delta@,
            },
            ProviderEvent::MessageCompleted { message_id, tool_calls } =>
                ProviderEventModel::MessageCompleted {
                    message_id: message_id@,
                    tool_calls: tool_calls.deep_view(),
                },
        }
    }
}

impl Clone for ProviderEvent {
    fn clone(&self) -> (r: Self)
        ensures
            r.deep_view() == self.deep_view(),
    {
        match self {
            ProviderEvent::MessageStarted { message_id } => ProviderEvent::MessageStarted {
                message_id: message_id.clone(),
            },
            ProviderEvent::TextDelta { message_id, delta } => ProviderEvent::TextDelta {
                message_id: message_id.clone(),
                delta: delta.clone(),
            },
            ProviderEvent::MessageCompleted { message_id, tool_calls } => ProviderEvent::MessageCompleted {
                message_id: message_id.clone(),
                tool_calls: tool_calls.clone(),
            },
        }
    }
}

/// Errors that can occur when invoking a model provider.
#[derive(Debug, PartialEq, Eq)]
pub enum ProviderError {
    /// The provider is not configured.
    Configuration(String),
    /// A request failed.
    Request(String),
    /// A response is invalid.
    InvalidResponse(String),
}

impl ProviderError {
    /// The text of the error.
    pub open spec fn spec_message(&self) -> Seq<char> {
        match self {
            ProviderError::Configuration(reason) => "provider is not configured: "@ + reason@,
            ProviderError::Request(reason) => "provider request failed: "@ + reason@,
            ProviderError::InvalidResponse(reason) => "provider response is invalid: "@ + reason@,
        }
    }

    /// Returns the text of the error.
    pub fn message(&self) -> (r: String)
        ensures
            r@ == self.spec_message(),
    {
        match self {
            ProviderError::Configuration(reason) => text::concat(
                "provider is not configured: ",
                reason,
            ),
            ProviderError::Request(reason) => text::concat("provider request failed: ", reason),
            ProviderError::InvalidResponse(reason) => text::concat(
                "provider response is invalid: ",
                reason,
            ),
        }
    }
}

} // verus!

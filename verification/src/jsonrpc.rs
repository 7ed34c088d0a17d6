//! JSON-RPC envelopes: the four wire kinds that every WebSocket message
//! in this system uses.

use vstd::prelude::*;

verus! {

/// The error payload of an error envelope.
#[derive(Clone, Debug, PartialEq, Eq)]
pub struct JsonRpcError {
    pub code: i32,
    pub description: String,
}

/// A request envelope: a client- or balancer-chosen id and a payload.
#[derive(Clone, Debug, PartialEq, Eq)]
pub struct RequestEnvelope<T> {
    pub id: String,
    pub request: T,
}

/// A response envelope: the id of the request it answers and a payload.
#[derive(Clone, Debug, PartialEq, Eq)]
pub struct ResponseEnvelope<T> {
    pub request_id: String,
    pub response: T,
}

/// An error envelope; `request_id` is absent for errors that no request
/// can be blamed for.
#[derive(Clone, Debug, PartialEq, Eq)]
pub struct ErrorEnvelope {
    pub request_id: Option<String>,
    pub error: JsonRpcError,
}


/// The mathematical content of a [`JsonRpcError`].
pub struct JsonRpcErrorView {
    pub code: int,
    pub description: Seq<char>,
}

impl View for JsonRpcError {
    type V = JsonRpcErrorView;

    open spec fn view(&self) -> JsonRpcErrorView {
        JsonRpcErrorView { code: self.code as int, description: self.description@ }
    }
}

/// The mathematical content of an [`ErrorEnvelope`].
pub struct ErrorEnvelopeView {
    pub request_id: Option<Seq<char>>,
    pub error: JsonRpcErrorView,
}

impl View for ErrorEnvelope {
    type V = ErrorEnvelopeView;

    open spec fn view(&self) -> ErrorEnvelopeView {
        ErrorEnvelopeView {
            request_id: match self.request_id {
                Some(id) => Some(id@),
                None => None,
            },
            error: self.error@,
        }
    }
}

} // verus!

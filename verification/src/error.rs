//! The error kinds that the balancer and its client surface.

use vstd::prelude::*;

verus! {

/// An error surfaced to a caller of the client or balancer API.
///
/// Transport-level failures arrive from outside code already rendered as
/// text; the domain-level kinds carry plain values.
#[derive(Clone, Debug, PartialEq, Eq)]
pub enum Error {
    /// An HTTP request failed.
    Http(String),
    /// A WebSocket operation failed.
    WebSocket(String),
    /// JSON could not be encoded or decoded.
    Json(String),
    /// A URL could not be parsed.
    Url(String),
    /// The client-side socket pool could not place a connection.
    PoolExhausted,
    /// The upstream socket closed before a terminal response for this request.
    ConnectionDropped { request_id: String },
    /// The server answered with an error envelope.
    Server { code: i32, message: String },
    /// Some other failure, described in text.
    Other(String),
}

impl Error {
    /// A short human-readable rendering of the error.
    pub fn describe(&self) -> (r: String)
        ensures
            self matches Error::Other(m) ==> r@ == m@,
            self is PoolExhausted ==> r@ == "pool exhausted: no available connections"@,
    {
        match self {
            Error::Http(m) => m.clone(),
            Error::WebSocket(m) => m.clone(),
            Error::Json(m) => m.clone(),
            Error::Url(m) => m.clone(),
            Error::PoolExhausted => "pool exhausted: no available connections".to_owned(),
            Error::ConnectionDropped { request_id } => request_id.clone(),
            Error::Server { code: _, message } => message.clone(),
            Error::Other(m) => m.clone(),
        }
    }
}

} // verus!

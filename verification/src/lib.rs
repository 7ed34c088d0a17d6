//! Verified core of a load-balancing front end for LLM inference agents.
//!
//! The crate models the dispatch and streaming substrate: the JSON wire
//! codec, the per-request response registries, admission control with
//! bounded buffering, agent slot accounting, and the client-side socket
//! pool, together with the URL and parameter handling around them.

use vstd::prelude::*;

mod text;
pub mod agent_codec;
pub mod agent_rpc;
pub mod agents;
pub mod buffer;
pub mod codec;
pub mod embedding;
pub mod error;
pub mod inference_client;
pub mod inference_server;
pub mod json;
pub mod jsonrpc;
pub mod message_codec;
pub mod net;
pub mod pool;
pub mod relay;
pub mod request_codec;
pub mod schema;
pub mod sender_collection;
pub mod state;
pub mod stream_lines;
pub mod url_util;

verus! {

} // verus!

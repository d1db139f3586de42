//! Client-side core of a document-oriented "transactor" service: RPC
//! envelopes, the method registry, the WebSocket session state machine,
//! subscriptions and live queries, and the path/classification logic of the
//! plain-HTTP transport.

use vstd::prelude::*;

pub mod account;
pub mod cards;
pub mod comm;
pub mod document;
pub mod eventmsg;
pub mod http;
pub mod json;
pub mod methods;
pub mod pulse;
pub mod rpc;
pub mod session;
pub mod subscription;
pub mod transactor;
pub mod types;

verus! {

/// The library's error taxonomy: transport failures, structured service
/// errors, decode failures, and the session-level failure modes.
#[derive(Debug)]
pub enum Error {
    /// The server returned a structured error status.
    ServiceError(crate::rpc::Status),
    /// A payload did not parse as JSON or did not match the expected shape.
    Decode,
    /// A non-2xx HTTP response, with its status and body text.
    HttpError(u16, String),
    /// The connection closed while a call's reply was still pending.
    ConnectionClosed,
    /// The broadcast channel dropped items because this consumer was too slow.
    SubscriptionLagged,
    /// `connect` timed out waiting for the HELLO response.
    HandshakeTimeout,
    /// The handshake channel was dropped without a response.
    HandshakeChannelClosed,
    /// Any other failure, with a static description.
    Other(&'static str),
}

} // verus!

//! The failures that the client reports.

use vstd::prelude::*;

verus! {

/// A logical failure that the server reported in a response's status header.
#[derive(Debug, Clone, PartialEq, Eq)]
pub struct ServerError {
    pub code: u32,
    pub msg: String,
}

/// What the transport reported of a call that did not complete: its status
/// code and message.
#[derive(Debug, Clone, PartialEq, Eq)]
pub struct RpcStatus {
    pub code: i32,
    pub message: String,
}

/// Every way in which a request can fail.
#[derive(Debug, Clone, PartialEq, Eq)]
pub enum Error {
    /// The address is malformed, or dialing it failed. Never retried.
    Connect { addr: String, source: String },
    /// A call failed in the transport after the connection stood.
    Rpc(RpcStatus),
    /// The server answered with a status header that is not OK.
    Server(ServerError),
    /// The route lookup named no endpoint for these tables.
    NoRoute { tables: Vec<String> },
    /// One request names tables that live on different endpoints.
    RouteConflict { first: String, second: String },
    /// Anything else, by its message.
    Unknown(String),
}

/// What the client's operations return.
pub type Result<T> = std::result::Result<T, Error>;

} // verus!

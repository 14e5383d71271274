//! What a call carries besides its message, and what comes back.

pub mod authorization;
pub mod rpc_client_impl;

use std::time::Duration;
use vstd::prelude::*;

verus! {

/// Per-call parameters that the caller supplies.
#[derive(Debug, Clone, PartialEq, Eq)]
pub struct RpcContext {
    /// The database (tenant) that the call addresses.
    pub database: Option<String>,
    /// A timeout for this call alone, in place of the configured default.
    pub timeout: Option<Duration>,
}

impl Default for RpcContext {
    fn default() -> (r: Self)
        ensures
            r.database.is_none(),
            r.timeout.is_none(),
    {
        RpcContext { database: None, timeout: None }
    }
}

impl RpcContext {
    /// The same context, addressing `database`.
    pub fn database(self, database: String) -> (r: Self)
        ensures
            r.database == Some(database),
            r.timeout == self.timeout,
    {
        RpcContext { database: Some(database), timeout: self.timeout }
    }

    /// The same context, with `timeout` in place of the configured default.
    pub fn timeout(self, timeout: Duration) -> (r: Self)
        ensures
            r.database == self.database,
            r.timeout == Some(timeout),
    {
        RpcContext { database: self.database, timeout: Some(timeout) }
    }
}

/// The status envelope that every response carries.
#[derive(Debug, Clone, PartialEq, Eq)]
pub struct ResponseHeader {
    pub code: u32,
    pub error: String,
}

/// A response as the transport delivers it: the payload and, where the
/// server sent one, the status header.
#[derive(Debug, Clone, PartialEq, Eq)]
pub struct Reply<T> {
    pub header: Option<ResponseHeader>,
    pub payload: T,
}

/// A message ready to be sent: with the timeout that holds for it and the
/// value of its `authorization` metadata entry, if it has one.
#[derive(Debug, Clone, PartialEq, Eq)]
pub struct OutboundRequest<T> {
    pub message: T,
    pub timeout: Duration,
    pub authorization: Option<String>,
}

} // verus!

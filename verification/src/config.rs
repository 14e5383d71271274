//! Static connection policy and credentials, fixed when a client is built.

use std::time::Duration;
use vstd::prelude::*;

verus! {

/// `Duration::clone` of std: a `Duration` is `Copy`, and its clone is the
/// value itself.
pub assume_specification[ <Duration as Clone>::clone ](d: &Duration) -> (r: Duration)
    ensures
        r == *d,
;

/// Timeouts and keep-alive policy of every connection that a client opens.
#[derive(Debug, Clone, Copy, PartialEq, Eq)]
pub struct RpcConfig {
    /// Timeout of a write call whose context names none.
    pub default_write_timeout: Duration,
    /// Timeout of a query call whose context names none.
    pub default_sql_query_timeout: Duration,
    /// Timeout of the dial.
    pub connect_timeout: Duration,
    /// Interval between keep-alive pings.
    pub keep_alive_interval: Duration,
    /// How long a ping may stay unanswered.
    pub keep_alive_timeout: Duration,
    /// Whether pings go out on a connection with no call in flight.
    pub keep_alive_while_idle: bool,
}

/// A credential pair, sent with every call as one metadata entry.
#[derive(Debug, Clone, PartialEq, Eq)]
pub struct Authorization {
    pub username: String,
    pub password: String,
}

} // verus!

//! Routing-and-connection layer of a client for a distributed tabular
//! database: which endpoint a request goes to, the cache of table routes,
//! one client per endpoint, and one taxonomy for every failure.

pub mod config;
pub mod db_client;
pub mod errors;
pub mod pool;
pub mod router;
pub mod rpc_client;
pub mod string_map;
pub mod util;

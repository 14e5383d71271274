//! The client of one endpoint: how its calls are built and how their
//! outcomes are judged; and the factory that decides how an endpoint is
//! dialed.

use std::time::Duration;
use tonic::transport::Endpoint;
use vstd::prelude::*;
use vstd::string::StringExecFns;
use crate::config::{Authorization, RpcConfig};
use crate::errors::{Error, Result, RpcStatus, ServerError};
use crate::rpc_client::authorization::{
    authorization_value, base64_standard, basic_text, credential_bytes, credential_fits,
};
use crate::rpc_client::{OutboundRequest, Reply, ResponseHeader, RpcContext};
use crate::util::{is_ok, spec_is_ok, OK_CODE};

verus! {

/// What one endpoint's client holds besides the connection itself.
#[derive(Debug, Clone, PartialEq, Eq)]
pub struct RpcClientImpl {
    pub default_read_timeout: Duration,
    pub default_write_timeout: Duration,
    /// The `authorization` value that every call carries, encoded once.
    pub metadata: Option<String>,
}

/// The timeout that holds for a call: the context's own, else the default.
pub open spec fn effective_timeout(ctx: RpcContext, default_timeout: Duration) -> Duration {
    match ctx.timeout {
        Some(t) => t,
        None => default_timeout,
    }
}

/// What a status header means: nothing for an OK code, else a server error
/// with the header's code and message.
pub open spec fn status_outcome(header: ResponseHeader) -> Result<()> {
    if spec_is_ok(header.code) {
        Ok(())
    } else {
        Err(Error::Server(ServerError { code: header.code, msg: header.error }))
    }
}

/// What a finished call means to its caller. A transport failure is an
/// `Rpc` error with the transport's status. A reply whose header is not OK
/// is a `Server` error with the header's code and message. Any other reply
/// gives its payload.
pub open spec fn call_outcome<T>(outcome: std::result::Result<Reply<T>, RpcStatus>) -> Result<T> {
    match outcome {
        Err(status) => Err(Error::Rpc(status)),
        Ok(reply) => match reply.header {
            Some(header) => match status_outcome(header) {
                Ok(_) => Ok(reply.payload),
                Err(e) => Err(e),
            },
            None => Ok(reply.payload),
        },
    }
}

/// A reply whose header has the OK code, or that has no header, gives its
/// payload as it is and no error. A reply whose header has any other code
/// gives the server error with that code and that message.
pub proof fn lemma_reply_outcome<T>(payload: T, code: u32, message: String)
    ensures
        call_outcome(Ok(Reply { header: None, payload })) == Ok::<T, Error>(payload),
        code == OK_CODE ==> call_outcome(
            Ok(Reply { header: Some(ResponseHeader { code, error: message }), payload }),
        ) == Ok::<T, Error>(payload),
        code != OK_CODE ==> call_outcome(
            Ok(Reply { header: Some(ResponseHeader { code, error: message }), payload }),
        ) == Err::<T, Error>(Error::Server(ServerError { code, msg: message })),
{
}

impl RpcClientImpl {
    /// A client with these default timeouts and this authorization value.
    pub fn new(
        default_read_timeout: Duration,
        default_write_timeout: Duration,
        metadata: Option<String>,
    ) -> (r: Self)
        ensures
            r.default_read_timeout == default_read_timeout,
            r.default_write_timeout == default_write_timeout,
            r.metadata == metadata,
    {
        RpcClientImpl { default_read_timeout, default_write_timeout, metadata }
    }

    /// Judges a status header.
    pub fn check_status(header: ResponseHeader) -> (r: Result<()>)
        ensures
            r == status_outcome(header),
    {
        if !is_ok(header.code) {
            return Err(Error::Server(ServerError { code: header.code, msg: header.error }));
        }
        Ok(())
    }

    /// Wraps `req` for sending, with the timeout of `ctx` or else
    /// `default_timeout`, and with the client's authorization value.
    pub fn make_request<T>(&self, ctx: &RpcContext, req: T, default_timeout: Duration) -> (r:
        OutboundRequest<T>)
        ensures
            r.message == req,
            r.timeout == effective_timeout(*ctx, default_timeout),
            r.authorization == self.metadata,
    {
        let timeout = match ctx.timeout {
            Some(t) => t,
            None => default_timeout,
        };
        let authorization = match &self.metadata {
            Some(md) => Some(md.clone()),
            None => None,
        };
        OutboundRequest { message: req, timeout, authorization }
    }

    /// A query: the read default stands in for a missing timeout.
    pub fn make_query_request<T>(&self, ctx: &RpcContext, req: T) -> (r: OutboundRequest<T>)
        ensures
            r.message == req,
            r.timeout == effective_timeout(*ctx, self.default_read_timeout),
            r.authorization == self.metadata,
    {
        self.make_request(ctx, req, self.default_read_timeout)
    }

    /// A write: the write default stands in for a missing timeout.
    pub fn make_write_request<T>(&self, ctx: &RpcContext, req: T) -> (r: OutboundRequest<T>)
        ensures
            r.message == req,
            r.timeout == effective_timeout(*ctx, self.default_write_timeout),
            r.authorization == self.metadata,
    {
        self.make_request(ctx, req, self.default_write_timeout)
    }

    /// A route lookup: it goes out under the write default.
    pub fn make_route_request<T>(&self, ctx: &RpcContext, req: T) -> (r: OutboundRequest<T>)
        ensures
            r.message == req,
            r.timeout == effective_timeout(*ctx, self.default_write_timeout),
            r.authorization == self.metadata,
    {
        self.make_request(ctx, req, self.default_write_timeout)
    }

    /// Judges what the transport handed back for a call, of any of the three
    /// operations, and strips the header from a reply that passes.
    pub fn finish_call<T>(outcome: std::result::Result<Reply<T>, RpcStatus>) -> (r: Result<T>)
        ensures
            r == call_outcome(outcome),
    {
        match outcome {
            Err(status) => Err(Error::Rpc(status)),
            Ok(reply) => {
                let Reply { header, payload } = reply;
                match header {
                    Some(header) => match Self::check_status(header) {
                        Ok(_) => Ok(payload),
                        Err(e) => Err(e),
                    },
                    None => Ok(payload),
                }
            },
        }
    }
}

/// What the transport objects to in an address with its scheme: nothing
/// where it is a well-formed URI, else the objection in words, with its
/// underlying cause.
pub uninterp spec fn endpoint_uri_error(uri: Seq<char>) -> Option<Seq<char>>;

/// `Endpoint::from_shared` of tonic, which parses the text as a URI and
/// dials nothing. The result is the parse error in words, if there is one:
/// the error's own text, then a colon and the text of the cause that it
/// carries. Which texts are well-formed is left to tonic.
#[verifier::external_body]
fn check_endpoint_uri(uri: &str) -> (r: Option<String>)
    ensures
        r matches Some(cause) ==> endpoint_uri_error(uri@) == Some(cause@),
        r is None ==> endpoint_uri_error(uri@) is None,
{
    match Endpoint::from_shared(uri.to_string()) {
        Ok(_) => None,
        Err(e) => match std::error::Error::source(&e) {
            Some(cause) => Some(format!("{e}: {cause}")),
            None => Some(e.to_string()),
        },
    }
}

/// How a connection to one endpoint is to be set up before it is dialed.
#[derive(Debug, Clone, PartialEq, Eq)]
pub struct EndpointSettings {
    /// The address with its scheme.
    pub uri: String,
    pub connect_timeout: Duration,
    /// Whether keep-alive pings go out while no call is in flight.
    pub keep_alive_while_idle: bool,
    /// Set only with `keep_alive_while_idle`.
    pub keep_alive_timeout: Option<Duration>,
    /// Set only with `keep_alive_while_idle`.
    pub http2_keep_alive_interval: Option<Duration>,
}

/// The settings that `config` asks for on a connection to `uri`: with idle
/// keep-alive, the connect timeout, the keep-alive timeout and the ping
/// interval; without it, the connect timeout alone.
pub open spec fn settings_follow(
    settings: EndpointSettings,
    config: RpcConfig,
    uri: Seq<char>,
) -> bool {
    &&& settings.uri@ == uri
    &&& settings.connect_timeout == config.connect_timeout
    &&& settings.keep_alive_while_idle == config.keep_alive_while_idle
    &&& settings.keep_alive_timeout == if config.keep_alive_while_idle {
        Some(config.keep_alive_timeout)
    } else {
        None
    }
    &&& settings.http2_keep_alive_interval == if config.keep_alive_while_idle {
        Some(config.keep_alive_interval)
    } else {
        None
    }
}

/// `address` behind the scheme that the transport asks for.
pub open spec fn with_scheme(address: Seq<char>) -> Seq<char> {
    "http://"@ + address
}

/// Whether `client` has the default timeouts of `config` and sends `text`
/// as its authorization value.
pub open spec fn client_follows(client: RpcClientImpl, config: RpcConfig, text: Seq<char>) -> bool {
    &&& client.default_read_timeout == config.default_sql_query_timeout
    &&& client.default_write_timeout == config.default_write_timeout
    &&& client.metadata matches Some(v) && v@ == text
}

/// Whether `e` is the connect error for `addr` with the cause `source`.
pub open spec fn is_connect_error(e: Error, addr: Seq<char>, source: Seq<char>) -> bool {
    e matches Error::Connect { addr: a, source: s } && a@ == addr && s@ == source
}

/// Makes the clients of a database client: one policy and one credential
/// for every endpoint.
#[derive(Debug, Clone, PartialEq, Eq)]
pub struct RpcClientImplFactory {
    pub rpc_config: RpcConfig,
    pub authorization: Option<Authorization>,
}

impl RpcClientImplFactory {
    /// A factory that gives every client this policy and this credential.
    pub fn new(rpc_config: RpcConfig, authorization: Option<Authorization>) -> (r: Self)
        ensures
            r.rpc_config == rpc_config,
            r.authorization == authorization,
    {
        RpcClientImplFactory { rpc_config, authorization }
    }

    /// Puts the transport's scheme before a `host:port` address.
    pub fn make_endpoint_with_scheme(endpoint: &str) -> (r: String)
        ensures
            r@ == with_scheme(endpoint@),
    {
        String::from_str("http://").concat(endpoint)
    }

    /// Decides the settings for `endpoint` once its address has been
    /// checked: `uri` is the address with its scheme, `uri_error` what the
    /// transport objects to in it.
    pub fn configure_endpoint(&self, endpoint: &str, uri: String, uri_error: Option<String>) -> (r:
        Result<EndpointSettings>)
        ensures
            match uri_error {
                Some(cause) => r matches Err(e) && is_connect_error(e, endpoint@, cause@),
                None => r matches Ok(s) && settings_follow(s, self.rpc_config, uri@),
            },
    {
        match uri_error {
            Some(cause) => Err(Error::Connect { addr: String::from_str(endpoint), source: cause }),
            None => {
                if self.rpc_config.keep_alive_while_idle {
                    Ok(
                        EndpointSettings {
                            uri,
                            connect_timeout: self.rpc_config.connect_timeout,
                            keep_alive_while_idle: true,
                            keep_alive_timeout: Some(self.rpc_config.keep_alive_timeout),
                            http2_keep_alive_interval: Some(self.rpc_config.keep_alive_interval),
                        },
                    )
                } else {
                    Ok(
                        EndpointSettings {
                            uri,
                            connect_timeout: self.rpc_config.connect_timeout,
                            keep_alive_while_idle: false,
                            keep_alive_timeout: None,
                            http2_keep_alive_interval: None,
                        },
                    )
                }
            },
        }
    }

    /// The first half of building a client: checks the address and decides
    /// how to dial it. A malformed address is a connect error that names
    /// it, and nothing is dialed.
    pub fn endpoint_settings(&self, endpoint: &str) -> (r: Result<EndpointSettings>)
        ensures
            match endpoint_uri_error(with_scheme(endpoint@)) {
                Some(cause) => r matches Err(e) && is_connect_error(e, endpoint@, cause),
                None => r matches Ok(s) && settings_follow(
                    s,
                    self.rpc_config,
                    with_scheme(endpoint@),
                ),
            },
    {
        let uri = Self::make_endpoint_with_scheme(endpoint);
        let uri_error = check_endpoint_uri(uri.as_str());
        self.configure_endpoint(endpoint, uri, uri_error)
    }

    /// The `authorization` value of every call, encoded once: none without
    /// a credential, else `Basic` and the base64 of `username:password`.
    pub fn authorization_metadata(&self) -> (r: Result<Option<String>>)
        requires
            self.authorization matches Some(auth) ==> credential_fits(auth),
        ensures
            match self.authorization {
                None => r == Ok::<Option<String>, Error>(None),
                Some(auth) => r matches Ok(Some(v)) && v@ == basic_text(
                    base64_standard(credential_bytes(auth)),
                ),
            },
    {
        match &self.authorization {
            None => Ok(None),
            Some(auth) => match authorization_value(auth) {
                Ok(v) => Ok(Some(v)),
                Err(e) => Err(e),
            },
        }
    }

    /// The second half of building a client, once the dial is over: `dial`
    /// is its outcome, with the cause in words where it failed. A failed
    /// dial is a connect error that names the address; else the client gets
    /// the configured default timeouts and the authorization value.
    pub fn build_client(&self, endpoint: String, dial: std::result::Result<(), String>) -> (r:
        Result<RpcClientImpl>)
        requires
            self.authorization matches Some(auth) ==> credential_fits(auth),
        ensures
            match dial {
                Err(cause) => r == Err::<RpcClientImpl, Error>(
                    Error::Connect { addr: endpoint, source: cause },
                ),
                Ok(_) => match self.authorization {
                    None => r == Ok::<RpcClientImpl, Error>(
                        RpcClientImpl {
                            default_read_timeout: self.rpc_config.default_sql_query_timeout,
                            default_write_timeout: self.rpc_config.default_write_timeout,
                            metadata: None,
                        },
                    ),
                    Some(auth) => r matches Ok(c) && client_follows(
                        c,
                        self.rpc_config,
                        basic_text(base64_standard(credential_bytes(auth))),
                    ),
                },
            },
    {
        match dial {
            Err(cause) => Err(Error::Connect { addr: endpoint, source: cause }),
            Ok(_) => match self.authorization_metadata() {
                Err(e) => Err(e),
                Ok(metadata) => Ok(
                    RpcClientImpl::new(
                        self.rpc_config.default_sql_query_timeout,
                        self.rpc_config.default_write_timeout,
                        metadata,
                    ),
                ),
            },
        }
    }
}

} // verus!

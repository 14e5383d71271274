use std::time::Duration;

use base64::{prelude::BASE64_STANDARD, Engine};
use horaedb_client::config::{Authorization, RpcConfig};
use horaedb_client::errors::{Error, RpcStatus, ServerError};
use horaedb_client::rpc_client::authorization::{
    authorization_payload, authorization_value, basic_authorization_value,
    decode_basic_authorization, fits_encoding, split_credential_bytes,
};
use horaedb_client::rpc_client::rpc_client_impl::{RpcClientImpl, RpcClientImplFactory};
use horaedb_client::rpc_client::{Reply, ResponseHeader, RpcContext};
use horaedb_client::util::{is_ok, is_stale_route};

fn config(keep_alive_while_idle: bool) -> RpcConfig {
    RpcConfig {
        default_write_timeout: Duration::from_secs(5),
        default_sql_query_timeout: Duration::from_secs(60),
        connect_timeout: Duration::from_secs(3),
        keep_alive_interval: Duration::from_secs(600),
        keep_alive_timeout: Duration::from_secs(7),
        keep_alive_while_idle,
    }
}

fn credentials(username: &str, password: &str) -> Authorization {
    Authorization { username: username.to_string(), password: password.to_string() }
}

fn client(metadata: Option<String>) -> RpcClientImpl {
    RpcClientImpl::new(Duration::from_secs(60), Duration::from_secs(5), metadata)
}

#[test]
fn status_codes() {
    assert!(is_ok(200));
    assert!(!is_ok(0));
    assert!(!is_ok(302));
    assert!(is_stale_route(302));
    assert!(!is_stale_route(200));
    assert!(!is_stale_route(500));
}

#[test]
fn check_status_accepts_ok() {
    let header = ResponseHeader { code: 200, error: String::new() };
    assert_eq!(RpcClientImpl::check_status(header), Ok(()));
}

#[test]
fn check_status_reports_code_and_message() {
    let header = ResponseHeader { code: 500, error: "bad sql".to_string() };
    assert_eq!(
        RpcClientImpl::check_status(header),
        Err(Error::Server(ServerError { code: 500, msg: "bad sql".to_string() }))
    );
}

#[test]
fn context_builders() {
    let ctx = RpcContext::default();
    assert_eq!(ctx.database, None);
    assert_eq!(ctx.timeout, None);
    let ctx = ctx.database("public".to_string()).timeout(Duration::from_millis(250));
    assert_eq!(ctx.database, Some("public".to_string()));
    assert_eq!(ctx.timeout, Some(Duration::from_millis(250)));
}

#[test]
fn request_uses_default_timeouts() {
    let c = client(None);
    let ctx = RpcContext::default();
    let q = c.make_query_request(&ctx, "q");
    assert_eq!(q.message, "q");
    assert_eq!(q.timeout, Duration::from_secs(60));
    assert_eq!(q.authorization, None);
    let w = c.make_write_request(&ctx, 7u32);
    assert_eq!(w.message, 7u32);
    assert_eq!(w.timeout, Duration::from_secs(5));
    let r = c.make_route_request(&ctx, vec!["t1".to_string()]);
    assert_eq!(r.message, vec!["t1".to_string()]);
    assert_eq!(r.timeout, Duration::from_secs(5));
    let m = c.make_request(&ctx, (), Duration::from_secs(9));
    assert_eq!(m.timeout, Duration::from_secs(9));
}

#[test]
fn request_prefers_context_timeout() {
    let c = client(None);
    let ctx = RpcContext::default().timeout(Duration::from_millis(20));
    assert_eq!(c.make_query_request(&ctx, ()).timeout, Duration::from_millis(20));
    assert_eq!(c.make_write_request(&ctx, ()).timeout, Duration::from_millis(20));
    assert_eq!(c.make_route_request(&ctx, ()).timeout, Duration::from_millis(20));
}

#[test]
fn request_carries_authorization() {
    let c = client(Some("Basic dXNlcjpwYXNz".to_string()));
    let ctx = RpcContext::default();
    let q = c.make_query_request(&ctx, ());
    assert_eq!(q.authorization, Some("Basic dXNlcjpwYXNz".to_string()));
    let w = c.make_write_request(&ctx, ());
    assert_eq!(w.authorization, Some("Basic dXNlcjpwYXNz".to_string()));
}

#[test]
fn finish_call_transport_failure() {
    let status = RpcStatus { code: 4, message: "deadline exceeded".to_string() };
    let r: Result<u8, Error> = RpcClientImpl::finish_call(Err(status.clone()));
    assert_eq!(r, Err(Error::Rpc(status)));
}

#[test]
fn finish_call_ok_header_returns_payload() {
    let reply = Reply {
        header: Some(ResponseHeader { code: 200, error: String::new() }),
        payload: vec![1u8, 2, 3],
    };
    assert_eq!(RpcClientImpl::finish_call(Ok(reply)), Ok(vec![1u8, 2, 3]));
}

#[test]
fn finish_call_without_header_returns_payload() {
    let reply = Reply { header: None, payload: "rows".to_string() };
    assert_eq!(RpcClientImpl::finish_call(Ok(reply)), Ok("rows".to_string()));
}

#[test]
fn finish_call_server_failure() {
    let reply = Reply {
        header: Some(ResponseHeader { code: 302, error: "table moved".to_string() }),
        payload: 0u8,
    };
    assert_eq!(
        RpcClientImpl::finish_call(Ok(reply)),
        Err(Error::Server(ServerError { code: 302, msg: "table moved".to_string() }))
    );
}

#[test]
fn endpoint_gets_scheme() {
    assert_eq!(
        RpcClientImplFactory::make_endpoint_with_scheme("127.0.0.1:8831"),
        "http://127.0.0.1:8831"
    );
    assert_eq!(RpcClientImplFactory::make_endpoint_with_scheme(""), "http://");
}

#[test]
fn settings_with_idle_keep_alive() {
    let factory = RpcClientImplFactory::new(config(true), None);
    let s = factory.endpoint_settings("127.0.0.1:8831").unwrap();
    assert_eq!(s.uri, "http://127.0.0.1:8831");
    assert_eq!(s.connect_timeout, Duration::from_secs(3));
    assert!(s.keep_alive_while_idle);
    assert_eq!(s.keep_alive_timeout, Some(Duration::from_secs(7)));
    assert_eq!(s.http2_keep_alive_interval, Some(Duration::from_secs(600)));
}

#[test]
fn settings_without_idle_keep_alive() {
    let factory = RpcClientImplFactory::new(config(false), None);
    let s = factory.endpoint_settings("db.example.com:8831").unwrap();
    assert_eq!(s.uri, "http://db.example.com:8831");
    assert_eq!(s.connect_timeout, Duration::from_secs(3));
    assert!(!s.keep_alive_while_idle);
    assert_eq!(s.keep_alive_timeout, None);
    assert_eq!(s.http2_keep_alive_interval, None);
}

#[test]
fn malformed_address_is_connect_error() {
    let factory = RpcClientImplFactory::new(config(true), None);
    match factory.endpoint_settings("not a valid address") {
        Err(Error::Connect { addr, source }) => {
            assert_eq!(addr, "not a valid address");
            assert_eq!(source, "invalid URI: invalid uri character");
        }
        other => panic!("unexpected: {:?}", other),
    }
}

#[test]
fn configure_endpoint_follows_the_check() {
    let factory = RpcClientImplFactory::new(config(false), None);
    let refused = factory.configure_endpoint("a:1", "http://a:1".to_string(), Some("why".to_string()));
    assert_eq!(
        refused,
        Err(Error::Connect { addr: "a:1".to_string(), source: "why".to_string() })
    );
    let taken = factory.configure_endpoint("a:1", "http://a:1".to_string(), None).unwrap();
    assert_eq!(taken.uri, "http://a:1");
}

#[test]
fn payload_is_name_colon_password() {
    assert_eq!(authorization_payload(&credentials("user", "pass")), b"user:pass".to_vec());
    assert_eq!(authorization_payload(&credentials("", "")), b":".to_vec());
}

#[test]
fn metadata_is_basic_base64() {
    let factory = RpcClientImplFactory::new(config(true), Some(credentials("user", "pass")));
    assert_eq!(factory.authorization_metadata(), Ok(Some("Basic dXNlcjpwYXNz".to_string())));
    let none = RpcClientImplFactory::new(config(true), None);
    assert_eq!(none.authorization_metadata(), Ok(None));
}

#[test]
fn metadata_round_trips() {
    let pairs = [("root", "secret"), ("a", ""), ("tenant_7", "p:w:d"), ("né", "pässwörd")];
    for (username, password) in pairs {
        let factory = RpcClientImplFactory::new(config(false), Some(credentials(username, password)));
        let value = factory.authorization_metadata().unwrap().unwrap();
        let encoded = value.strip_prefix("Basic ").unwrap();
        let decoded = String::from_utf8(BASE64_STANDARD.decode(encoded).unwrap()).unwrap();
        let (u, p) = decoded.split_once(':').unwrap();
        assert_eq!(u, username);
        assert_eq!(p, password);
    }
}

#[test]
fn authorization_value_is_checked() {
    assert_eq!(basic_authorization_value("YWJj"), Ok("Basic YWJj".to_string()));
    assert_eq!(
        basic_authorization_value("a\nb"),
        Err(Error::Unknown("invalid grpc metadata".to_string()))
    );
}

#[test]
fn build_client_after_failed_dial() {
    let factory = RpcClientImplFactory::new(config(true), Some(credentials("user", "pass")));
    let r = factory.build_client("10.0.0.1:8831".to_string(), Err("transport error".to_string()));
    assert_eq!(
        r,
        Err(Error::Connect {
            addr: "10.0.0.1:8831".to_string(),
            source: "transport error".to_string()
        })
    );
}

#[test]
fn build_client_after_dial() {
    let factory = RpcClientImplFactory::new(config(true), Some(credentials("user", "pass")));
    let c = factory.build_client("10.0.0.1:8831".to_string(), Ok(())).unwrap();
    assert_eq!(c.default_read_timeout, Duration::from_secs(60));
    assert_eq!(c.default_write_timeout, Duration::from_secs(5));
    assert_eq!(c.metadata, Some("Basic dXNlcjpwYXNz".to_string()));
    let plain = RpcClientImplFactory::new(config(true), None);
    let c = plain.build_client("10.0.0.1:8831".to_string(), Ok(())).unwrap();
    assert_eq!(c.metadata, None);
}

#[test]
fn credential_bytes_split_at_the_first_colon() {
    assert_eq!(
        split_credential_bytes(&b"user:p:w".to_vec()),
        Some((b"user".to_vec(), b"p:w".to_vec()))
    );
    assert_eq!(split_credential_bytes(&b":".to_vec()), Some((vec![], vec![])));
    assert_eq!(split_credential_bytes(&b"nocolon".to_vec()), None);
    assert_eq!(split_credential_bytes(&vec![]), None);
}

#[test]
fn authorization_value_decodes_to_the_credential() {
    assert_eq!(
        decode_basic_authorization("Basic dXNlcjpwYXNz"),
        Some((b"user".to_vec(), b"pass".to_vec()))
    );
    assert_eq!(decode_basic_authorization("Basic"), None);
    assert_eq!(decode_basic_authorization("basic dXNlcjpwYXNz"), None);
    assert_eq!(decode_basic_authorization("Bearer dXNlcjpwYXNz"), None);
    assert_eq!(decode_basic_authorization("Basic !!!!"), None);
    assert_eq!(decode_basic_authorization("Basic dXNlcg=="), None);
}

#[test]
fn encoded_credential_decodes_back() {
    let pairs = [("root", "secret"), ("", ""), ("tenant_7", "p:w:d"), ("né", "pässwörd")];
    for (username, password) in pairs {
        let factory = RpcClientImplFactory::new(config(true), Some(credentials(username, password)));
        let value = factory.authorization_metadata().unwrap().unwrap();
        assert_eq!(
            decode_basic_authorization(&value),
            Some((username.as_bytes().to_vec(), password.as_bytes().to_vec()))
        );
    }
}

#[test]
fn credential_value_of_a_pair() {
    let auth = credentials("Aladdin", "open sesame");
    assert!(fits_encoding(&auth));
    assert_eq!(authorization_value(&auth), Ok("Basic QWxhZGRpbjpvcGVuIHNlc2FtZQ==".to_string()));
    let empty = credentials("", "");
    assert!(fits_encoding(&empty));
    assert_eq!(authorization_value(&empty), Ok("Basic Og==".to_string()));
}

#[test]
fn connect_error_carries_the_cause() {
    let factory = RpcClientImplFactory::new(config(false), None);
    for addr in ["a b:1", "host:1/\u{7f}", "[::1"] {
        match factory.endpoint_settings(addr) {
            Err(Error::Connect { addr: named, source }) => {
                assert_eq!(named, addr);
                assert!(source.starts_with("invalid URI: "));
                assert!(source.len() > "invalid URI: ".len());
            }
            other => panic!("unexpected: {:?}", other),
        }
    }
}

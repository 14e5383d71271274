use horaedb_client::db_client::{
    group_by_endpoint, merge_counts, positions_in_group, DbClient, Dispatch, EndpointGroup, Mode,
    Verdict,
};
use horaedb_client::errors::{Error, RpcStatus, ServerError};
use horaedb_client::pool::{Claim, ClientPool};
use horaedb_client::router::{
    endpoint_address, route_entry, ResolveStep, RouteEntry, Router,
};
use horaedb_client::string_map::StringMap;

fn s(text: &str) -> String {
    text.to_string()
}

fn route(table: &str, endpoint: &str) -> RouteEntry {
    RouteEntry { table: s(table), endpoint: s(endpoint) }
}

fn stale() -> Error {
    Error::Server(ServerError { code: 302, msg: s("table not found on this node") })
}

#[test]
fn string_map_insert_get_remove() {
    let mut m: StringMap<u32> = StringMap::new();
    assert!(!m.contains_key(&s("a")));
    assert_eq!(m.get(&s("a")), None);
    m.insert(s("a"), 1);
    m.insert(s("b"), 2);
    assert_eq!(m.get(&s("a")), Some(&1));
    assert_eq!(m.get(&s("b")), Some(&2));
    m.insert(s("a"), 3);
    assert_eq!(m.get(&s("a")), Some(&3));
    assert!(m.remove(&s("a")));
    assert!(!m.remove(&s("a")));
    assert_eq!(m.get(&s("a")), None);
    assert_eq!(m.get(&s("b")), Some(&2));
}

#[test]
fn pool_reuses_the_first_client() {
    let mut pool: ClientPool<u64> = ClientPool::new();
    assert_eq!(pool.get(&s("a:1")), None);
    assert_eq!(pool.claim(&s("a:1")), Claim::Dial);
    assert!(pool.complete(s("a:1"), 11));
    assert_eq!(pool.claim(&s("a:1")), Claim::Ready);
    assert_eq!(pool.get(&s("a:1")), Some(&11));
    assert!(!pool.complete(s("a:1"), 22));
    assert_eq!(pool.get(&s("a:1")), Some(&11));
    assert_eq!(pool.claim(&s("b:1")), Claim::Dial);
    assert!(pool.complete(s("b:1"), 33));
    assert_eq!(pool.get(&s("b:1")), Some(&33));
    assert_eq!(pool.get(&s("a:1")), Some(&11));
}

#[test]
fn pool_lets_one_request_dial() {
    let mut pool: ClientPool<u64> = ClientPool::new();
    assert_eq!(pool.claim(&s("a:1")), Claim::Dial);
    assert_eq!(pool.claim(&s("a:1")), Claim::Wait);
    assert_eq!(pool.claim(&s("a:1")), Claim::Wait);
    assert_eq!(pool.get(&s("a:1")), None);
    assert_eq!(pool.claim(&s("b:1")), Claim::Dial);
    assert!(pool.complete(s("a:1"), 7));
    assert_eq!(pool.claim(&s("a:1")), Claim::Ready);
    assert_eq!(pool.get(&s("a:1")), Some(&7));
    assert_eq!(pool.claim(&s("b:1")), Claim::Wait);
}

#[test]
fn pool_dials_again_after_a_failed_dial() {
    let mut pool: ClientPool<u64> = ClientPool::new();
    assert_eq!(pool.claim(&s("a:1")), Claim::Dial);
    pool.abandon(&s("a:1"));
    assert_eq!(pool.claim(&s("a:1")), Claim::Dial);
    assert!(pool.complete(s("a:1"), 5));
    pool.abandon(&s("a:1"));
    assert_eq!(pool.claim(&s("a:1")), Claim::Ready);
    assert_eq!(pool.get(&s("a:1")), Some(&5));
    pool.abandon(&s("never:1"));
    assert_eq!(pool.claim(&s("never:1")), Claim::Dial);
}

#[test]
fn endpoint_address_is_host_colon_port() {
    assert_eq!(endpoint_address("127.0.0.1", 8831), "127.0.0.1:8831");
    assert_eq!(endpoint_address("db.example.com", 0), "db.example.com:0");
    assert_eq!(endpoint_address("h", 7), "h:7");
    assert_eq!(endpoint_address("h", 10), "h:10");
    assert_eq!(endpoint_address("", 4294967295), ":4294967295");
}

#[test]
fn route_without_endpoint_is_no_route() {
    assert_eq!(route_entry(s("t1"), None), None);
    assert_eq!(
        route_entry(s("t1"), Some((s("10.0.0.2"), 8831))),
        Some(route("t1", "10.0.0.2:8831"))
    );
}

#[test]
fn counts_are_summed_and_held_at_the_top() {
    assert_eq!(merge_counts((0, 0), (3, 1)), (3, 1));
    assert_eq!(merge_counts((10, 2), (5, 0)), (15, 2));
    assert_eq!(merge_counts((u32::MAX - 1, 0), (1, u32::MAX)), (u32::MAX, u32::MAX));
    assert_eq!(merge_counts((u32::MAX, 7), (9, u32::MAX)), (u32::MAX, u32::MAX));
}

#[test]
fn group_picks_its_tables() {
    let tables = vec![s("t1"), s("t2"), s("t3"), s("t1"), s("t4")];
    let a = EndpointGroup { endpoint: s("a:1"), tables: vec![s("t1"), s("t3")] };
    let b = EndpointGroup { endpoint: s("b:1"), tables: vec![s("t2")] };
    let none = EndpointGroup { endpoint: s("c:1"), tables: vec![] };
    assert_eq!(positions_in_group(&tables, &a), vec![0, 2, 3]);
    assert_eq!(positions_in_group(&tables, &b), vec![1]);
    assert_eq!(positions_in_group(&tables, &none), Vec::<usize>::new());
    assert_eq!(positions_in_group(&vec![], &a), Vec::<usize>::new());
}

#[test]
fn router_cache_hit_needs_no_lookup() {
    let mut router = Router::new();
    router.insert(s("t1"), s("a:1"));
    router.insert(s("t2"), s("b:1"));
    assert_eq!(
        router.begin_resolve(&vec![s("t2"), s("t1")]),
        ResolveStep::Resolved(vec![route("t2", "b:1"), route("t1", "a:1")])
    );
    assert_eq!(router.begin_resolve(&vec![]), ResolveStep::Resolved(vec![]));
}

#[test]
fn router_miss_asks_for_the_missing_tables() {
    let mut router = Router::new();
    router.insert(s("t1"), s("a:1"));
    let tables = vec![s("t0"), s("t1"), s("t2")];
    assert_eq!(router.missing(&tables), vec![s("t0"), s("t2")]);
    assert_eq!(router.lookup_all(&tables), Err(vec![s("t0"), s("t2")]));
    assert_eq!(router.begin_resolve(&tables), ResolveStep::Lookup(vec![s("t0"), s("t2")]));
    let found = vec![route("t0", "c:1"), route("t2", "a:1")];
    assert_eq!(
        router.finish_resolve(&tables, &found),
        Ok(vec![route("t0", "c:1"), route("t1", "a:1"), route("t2", "a:1")])
    );
    assert_eq!(router.cached(&s("t0")), Some(s("c:1")));
    assert_eq!(router.cached(&s("t2")), Some(s("a:1")));
}

#[test]
fn router_reports_tables_without_route() {
    let mut router = Router::new();
    let tables = vec![s("t1"), s("t2"), s("t3")];
    let found = vec![route("t2", "a:1")];
    assert_eq!(
        router.finish_resolve(&tables, &found),
        Err(Error::NoRoute { tables: vec![s("t1"), s("t3")] })
    );
    assert_eq!(router.cached(&s("t2")), Some(s("a:1")));
    assert_eq!(router.cached(&s("t1")), None);
}

#[test]
fn router_merge_replaces_and_evict_forgets() {
    let mut router = Router::new();
    router.merge(&vec![route("t1", "a:1"), route("t1", "b:1")]);
    assert_eq!(router.cached(&s("t1")), Some(s("b:1")));
    router.evict(&s("t1"));
    assert_eq!(router.cached(&s("t1")), None);
    router.merge(&vec![route("t1", "a:1"), route("t2", "a:1"), route("t3", "a:1")]);
    router.evict_all(&vec![s("t1"), s("t3"), s("t9")]);
    assert_eq!(router.cached(&s("t1")), None);
    assert_eq!(router.cached(&s("t2")), Some(s("a:1")));
    assert_eq!(router.cached(&s("t3")), None);
}

#[test]
fn direct_mode_first_request_routes_then_sends() {
    let mut client = DbClient::new(s("boot:8831"), Mode::Direct);
    let tables = vec![s("t1")];
    assert_eq!(
        client.start(&tables, false),
        Dispatch::Route { endpoint: s("boot:8831"), tables: vec![s("t1")] }
    );
    let step = client.routed(&tables, &vec![route("t1", "endpointA")], false);
    assert_eq!(step, Dispatch::Send { endpoint: s("endpointA") });
    let verdict = client.settle(&tables, false, Ok(5u8), false);
    assert_eq!(verdict, Verdict::Done(Ok(5u8)));
    assert_eq!(client.router.cached(&s("t1")), Some(s("endpointA")));
}

#[test]
fn direct_mode_second_request_hits_the_cache() {
    let mut client = DbClient::new(s("boot:8831"), Mode::Direct);
    let tables = vec![s("t1")];
    client.routed(&tables, &vec![route("t1", "endpointA")], false);
    assert_eq!(client.start(&tables, false), Dispatch::Send { endpoint: s("endpointA") });
}

#[test]
fn stale_route_is_retried_once() {
    let mut client = DbClient::new(s("boot:8831"), Mode::Direct);
    let tables = vec![s("t1")];
    client.routed(&tables, &vec![route("t1", "endpointA")], false);
    assert_eq!(client.start(&tables, false), Dispatch::Send { endpoint: s("endpointA") });

    let first: Verdict<u8> = client.settle(&tables, false, Err(stale()), false);
    assert_eq!(
        first,
        Verdict::Retry(Dispatch::Route { endpoint: s("boot:8831"), tables: vec![s("t1")] })
    );
    assert_eq!(client.router.cached(&s("t1")), None);

    let step = client.routed(&tables, &vec![route("t1", "endpointB")], false);
    assert_eq!(step, Dispatch::Send { endpoint: s("endpointB") });

    let second: Verdict<u8> = client.settle(&tables, false, Err(stale()), true);
    assert_eq!(second, Verdict::Done(Err(stale())));
    assert_eq!(client.router.cached(&s("t1")), None);
    assert_eq!(
        client.start(&tables, false),
        Dispatch::Route { endpoint: s("boot:8831"), tables: vec![s("t1")] }
    );
}

#[test]
fn evicts_only_stale_routes_in_direct_mode() {
    let direct = DbClient::new(s("boot:8831"), Mode::Direct);
    let proxy = DbClient::new(s("boot:8831"), Mode::Proxy);
    let fine: Result<u8, Error> = Ok(1);
    let moved: Result<u8, Error> = Err(stale());
    let bad: Result<u8, Error> = Err(Error::Server(ServerError { code: 500, msg: s("bad") }));
    assert!(direct.evicts(&moved));
    assert!(!direct.evicts(&fine));
    assert!(!direct.evicts(&bad));
    assert!(!proxy.evicts(&moved));
}

#[test]
fn other_failures_are_not_retried() {
    let mut client = DbClient::new(s("boot:8831"), Mode::Direct);
    let tables = vec![s("t1")];
    client.routed(&tables, &vec![route("t1", "endpointA")], false);
    let bad_sql = Error::Server(ServerError { code: 400, msg: s("bad sql") });
    let v: Verdict<u8> = client.settle(&tables, false, Err(bad_sql.clone()), false);
    assert_eq!(v, Verdict::Done(Err(bad_sql)));
    let reset = Error::Rpc(RpcStatus { code: 14, message: s("unavailable") });
    let v: Verdict<u8> = client.settle(&tables, false, Err(reset.clone()), false);
    assert_eq!(v, Verdict::Done(Err(reset)));
    assert_eq!(client.router.cached(&s("t1")), Some(s("endpointA")));
}

#[test]
fn proxy_mode_never_routes() {
    let mut client = DbClient::new(s("boot:8831"), Mode::Proxy);
    let tables = vec![s("t1"), s("t2")];
    assert_eq!(client.start(&tables, false), Dispatch::Send { endpoint: s("boot:8831") });
    let v: Verdict<u8> = client.settle(&tables, false, Err(stale()), false);
    assert_eq!(v, Verdict::Done(Err(stale())));
    assert_eq!(client.start(&tables, false), Dispatch::Send { endpoint: s("boot:8831") });
    assert_eq!(client.router.cached(&s("t1")), None);
}

#[test]
fn tables_on_two_endpoints_conflict() {
    let mut client = DbClient::new(s("boot:8831"), Mode::Direct);
    let tables = vec![s("t1"), s("t2"), s("t3")];
    let step = client.routed(
        &tables,
        &vec![route("t1", "a:1"), route("t2", "a:1"), route("t3", "b:1")],
        false,
    );
    assert_eq!(
        step,
        Dispatch::Fail(Error::RouteConflict { first: s("a:1"), second: s("b:1") })
    );
    assert_eq!(client.start(&vec![s("t1"), s("t2")], false), Dispatch::Send { endpoint: s("a:1") });
}

#[test]
fn request_without_tables_goes_to_the_given_endpoint() {
    let client = DbClient::new(s("boot:8831"), Mode::Direct);
    assert_eq!(client.start(&vec![], false), Dispatch::Send { endpoint: s("boot:8831") });
    assert_eq!(client.target(&vec![], false), Dispatch::Send { endpoint: s("boot:8831") });
}

#[test]
fn lookup_that_finds_nothing_fails() {
    let mut client = DbClient::new(s("boot:8831"), Mode::Direct);
    let tables = vec![s("t1")];
    assert_eq!(
        client.routed(&tables, &vec![], false),
        Dispatch::Fail(Error::NoRoute { tables: vec![s("t1")] })
    );
}

fn group(endpoint: &str, tables: &[&str]) -> EndpointGroup {
    EndpointGroup { endpoint: s(endpoint), tables: tables.iter().map(|t| s(t)).collect() }
}

#[test]
fn routes_are_grouped_by_endpoint() {
    let entries = vec![
        route("t1", "a:1"),
        route("t2", "b:1"),
        route("t3", "a:1"),
        route("t4", "c:1"),
        route("t5", "b:1"),
    ];
    assert_eq!(
        group_by_endpoint(&entries),
        vec![group("a:1", &["t1", "t3"]), group("b:1", &["t2", "t5"]), group("c:1", &["t4"])]
    );
    assert_eq!(group_by_endpoint(&vec![]), vec![]);
}

#[test]
fn splittable_request_goes_to_each_endpoint() {
    let mut client = DbClient::new(s("boot:8831"), Mode::Direct);
    let tables = vec![s("t1"), s("t2"), s("t3")];
    assert_eq!(
        client.start(&tables, true),
        Dispatch::Route { endpoint: s("boot:8831"), tables: vec![s("t1"), s("t2"), s("t3")] }
    );
    let step = client.routed(
        &tables,
        &vec![route("t1", "a:1"), route("t2", "b:1"), route("t3", "a:1")],
        true,
    );
    assert_eq!(
        step,
        Dispatch::SendEach(vec![group("a:1", &["t1", "t3"]), group("b:1", &["t2"])])
    );
    assert_eq!(client.start(&tables, true), step);
    assert_eq!(
        client.start(&vec![s("t1"), s("t3")], true),
        Dispatch::Send { endpoint: s("a:1") }
    );
}

#[test]
fn stale_route_evicts_every_table_of_the_request() {
    let mut client = DbClient::new(s("boot:8831"), Mode::Direct);
    let tables = vec![s("t1"), s("t2")];
    client.routed(&tables, &vec![route("t1", "a:1"), route("t2", "a:1"), route("t3", "a:1")], true);
    let v: Verdict<u8> = client.settle(&tables, true, Err(stale()), false);
    assert_eq!(
        v,
        Verdict::Retry(Dispatch::Route { endpoint: s("boot:8831"), tables: vec![s("t1"), s("t2")] })
    );
    assert_eq!(client.router.cached(&s("t3")), Some(s("a:1")));
}

//! The facade's decisions: where a request goes, when the routes are asked
//! for, and when a failed call is tried again.

use vstd::prelude::*;
use crate::errors::{Error, Result};
use crate::router::{absent_tables, merged_routes, names, ResolveStep, RouteEntry, Router};
use crate::util::{is_stale_route, spec_is_stale_route, INVALID_ROUTE_CODE};

verus! {

/// How a client reaches the tables' owners. Fixed when the client is made.
#[derive(Debug, Clone, Copy, PartialEq, Eq)]
pub enum Mode {
    /// The client finds the owner of each table and calls it.
    Direct,
    /// The client calls one endpoint, which forwards.
    Proxy,
}

/// The tables of a request that live on one endpoint.
#[derive(Debug, Clone, PartialEq, Eq)]
pub struct EndpointGroup {
    pub endpoint: String,
    pub tables: Vec<String>,
}

/// What is to be done next for a request.
#[derive(Debug, Clone, PartialEq, Eq)]
pub enum Dispatch {
    /// Ask `endpoint` for the routes of `tables`.
    Route { endpoint: String, tables: Vec<String> },
    /// Send the request to `endpoint`.
    Send { endpoint: String },
    /// Send to each endpoint the part of the request that is about its
    /// tables, and merge the answers.
    SendEach(Vec<EndpointGroup>),
    /// Give the request up with this error.
    Fail(Error),
}

/// What follows from the outcome of a call.
#[derive(Debug, PartialEq, Eq)]
pub enum Verdict<T> {
    /// The outcome goes to the caller as it is.
    Done(Result<T>),
    /// The routes used were stale and are forgotten: begin once more.
    Retry(Dispatch),
}

/// A route as a pair of texts: the table and its endpoint.
pub type RoutePair = (Seq<char>, Seq<char>);

/// The routes of a list of entries, as pairs.
pub open spec fn entry_pairs(entries: Seq<RouteEntry>) -> Seq<RoutePair> {
    Seq::new(entries.len(), |i: int| (entries[i].table@, entries[i].endpoint@))
}

/// The routes that `routes` names for `tables`, as pairs.
pub open spec fn pairs_of(tables: Seq<String>, routes: Map<Seq<char>, Seq<char>>) -> Seq<
    RoutePair,
> {
    Seq::new(tables.len(), |i: int| (tables[i]@, routes[tables[i]@]))
}

/// All routes lead to one and the same endpoint.
pub open spec fn agree(pairs: Seq<RoutePair>) -> bool {
    forall|i: int| 0 <= i < pairs.len() ==> (#[trigger] pairs[i]).1 == pairs[0].1
}

/// `i` is the first place whose endpoint differs from the first one.
pub open spec fn first_conflict(pairs: Seq<RoutePair>, i: int) -> bool {
    &&& 0 < i < pairs.len()
    &&& pairs[i].1 != pairs[0].1
    &&& forall|j: int| 0 <= j < i ==> (#[trigger] pairs[j]).1 == pairs[0].1
}

/// The endpoints of `pairs`, each once, in the order in which they first
/// occur.
pub open spec fn distinct_endpoints(pairs: Seq<RoutePair>) -> Seq<Seq<char>>
    decreases pairs.len(),
{
    if pairs.len() == 0 {
        Seq::empty()
    } else {
        let rest = distinct_endpoints(pairs.drop_last());
        if rest.contains(pairs.last().1) {
            rest
        } else {
            rest.push(pairs.last().1)
        }
    }
}

/// The tables of `pairs` that live on `endpoint`, in their order.
pub open spec fn tables_on(pairs: Seq<RoutePair>, endpoint: Seq<char>) -> Seq<Seq<char>>
    decreases pairs.len(),
{
    if pairs.len() == 0 {
        Seq::empty()
    } else {
        let rest = tables_on(pairs.drop_last(), endpoint);
        if pairs.last().1 == endpoint {
            rest.push(pairs.last().0)
        } else {
            rest
        }
    }
}

/// Whether `groups` parts `pairs` by endpoint: one group for each
/// endpoint, in the order in which the endpoints first occur, each with
/// the tables of that endpoint in their order.
pub open spec fn groups_of(groups: Seq<EndpointGroup>, pairs: Seq<RoutePair>) -> bool {
    &&& groups.len() == distinct_endpoints(pairs).len()
    &&& forall|g: int|
        0 <= g < groups.len() ==> {
            &&& (#[trigger] groups[g]).endpoint@ == distinct_endpoints(pairs)[g]
            &&& names(groups[g].tables@) == tables_on(pairs, distinct_endpoints(pairs)[g])
        }
}

/// Whether `d` is the dispatch for a request whose tables have the routes
/// `pairs`: to `bootstrap` where it names no table; to the one endpoint
/// where the routes agree; else, where the request can be split, to each
/// endpoint for its tables, and where it cannot, the conflict between the
/// first endpoint and the first that differs from it.
pub open spec fn target_of(
    d: Dispatch,
    bootstrap: Seq<char>,
    pairs: Seq<RoutePair>,
    splittable: bool,
) -> bool {
    if pairs.len() == 0 {
        d matches Dispatch::Send { endpoint } && endpoint@ == bootstrap
    } else if agree(pairs) {
        d matches Dispatch::Send { endpoint } && endpoint@ == pairs[0].1
    } else if splittable {
        d matches Dispatch::SendEach(groups) && groups_of(groups@, pairs)
    } else {
        d matches Dispatch::Fail(Error::RouteConflict { first, second }) && first@ == pairs[0].1
            && exists|i: int| first_conflict(pairs, i) && second@ == pairs[i].1
    }
}

/// Whether `d` is the first step for a request on `tables`. In proxy mode
/// the request goes to `bootstrap` and the routes play no part. In direct
/// mode it is a lookup, asked of `bootstrap`, for the tables that `routes`
/// lacks; where it lacks none, the request goes where the routes say.
pub open spec fn first_step(
    d: Dispatch,
    mode: Mode,
    bootstrap: Seq<char>,
    routes: Map<Seq<char>, Seq<char>>,
    tables: Seq<String>,
    splittable: bool,
) -> bool {
    match mode {
        Mode::Proxy => d matches Dispatch::Send { endpoint } && endpoint@ == bootstrap,
        Mode::Direct => if absent_tables(tables, routes).len() > 0 {
            d matches Dispatch::Route { endpoint, tables: asked } && endpoint@ == bootstrap
                && names(asked@) == absent_tables(tables, routes)
        } else {
            target_of(d, bootstrap, pairs_of(tables, routes), splittable)
        },
    }
}

/// Whether `d` is the step that follows a lookup for a request on `tables`,
/// `routes` being the cache with what was found: the error that names the
/// tables still without a route, or the place the request goes to.
pub open spec fn routed_step(
    d: Dispatch,
    bootstrap: Seq<char>,
    routes: Map<Seq<char>, Seq<char>>,
    tables: Seq<String>,
    splittable: bool,
) -> bool {
    if absent_tables(tables, routes).len() > 0 {
        d matches Dispatch::Fail(Error::NoRoute { tables: missing }) && names(missing@)
            == absent_tables(tables, routes)
    } else {
        target_of(d, bootstrap, pairs_of(tables, routes), splittable)
    }
}

/// Whether an outcome is the failure that a fresh lookup can mend: a
/// server error whose code reports a stale route.
pub open spec fn is_stale<T>(outcome: Result<T>) -> bool {
    outcome matches Err(Error::Server(e)) && spec_is_stale_route(e.code)
}

/// Whether this outcome makes the client forget the routes of the request:
/// in direct mode, every stale-route failure.
pub open spec fn evicting<T>(mode: Mode, outcome: Result<T>) -> bool {
    mode == Mode::Direct && is_stale(outcome)
}

/// Whether a call with this outcome is begun anew: only in direct mode,
/// only where it has not been begun anew before, and only after a
/// stale-route failure.
pub open spec fn retries<T>(mode: Mode, retried: bool, outcome: Result<T>) -> bool {
    !retried && evicting(mode, outcome)
}

/// Once an endpoint has reported a route of a request stale, no table of
/// that request is served from the cache: each is asked for anew.
pub proof fn lemma_stale_routes_are_not_reused(
    routes: Map<Seq<char>, Seq<char>>,
    tables: Seq<String>,
    i: int,
)
    requires
        0 <= i < tables.len(),
    ensures
        !routes.remove_keys(names(tables).to_set()).contains_key(tables[i]@),
        absent_tables(tables, routes.remove_keys(names(tables).to_set())).len() > 0,
{
    let after = routes.remove_keys(names(tables).to_set());
    assert(names(tables)[i] == tables[i]@);
    assert(names(tables).to_set().contains(tables[i]@));
    if absent_tables(tables, after).len() == 0 {
        crate::router::lemma_none_absent(tables, after);
    }
}

/// No request is begun anew twice, and none in proxy mode; a failure in
/// the transport, and a server error with any other code, is never a
/// reason to begin anew.
pub proof fn lemma_retry_is_bounded<T>(mode: Mode, retried: bool, outcome: Result<T>)
    ensures
        retried ==> !retries(mode, retried, outcome),
        mode == Mode::Proxy ==> !retries(mode, retried, outcome),
        outcome is Ok ==> !retries(mode, retried, outcome),
        outcome matches Err(Error::Rpc(_)) ==> !retries(mode, retried, outcome),
        outcome matches Err(Error::Server(e)) && e.code != INVALID_ROUTE_CODE ==> !retries(
            mode,
            retried,
            outcome,
        ),
{
}

/// In proxy mode the first step is the same whatever the cache holds and
/// whatever tables the request names.
pub proof fn lemma_proxy_ignores_routes(
    d: Dispatch,
    bootstrap: Seq<char>,
    routes: Map<Seq<char>, Seq<char>>,
    tables: Seq<String>,
    splittable: bool,
    other_routes: Map<Seq<char>, Seq<char>>,
    other_tables: Seq<String>,
    other_splittable: bool,
)
    ensures
        first_step(d, Mode::Proxy, bootstrap, routes, tables, splittable) == first_step(
            d,
            Mode::Proxy,
            bootstrap,
            other_routes,
            other_tables,
            other_splittable,
        ),
        first_step(d, Mode::Proxy, bootstrap, routes, tables, splittable) ==> !(d is Route),
{
}

/// In direct mode a request whose tables are all cached is never a reason
/// to ask for routes, and one with a table that is not cached always is.
pub proof fn lemma_lookup_only_on_miss(
    d: Dispatch,
    bootstrap: Seq<char>,
    routes: Map<Seq<char>, Seq<char>>,
    tables: Seq<String>,
    splittable: bool,
)
    requires
        first_step(d, Mode::Direct, bootstrap, routes, tables, splittable),
    ensures
        d is Route <==> absent_tables(tables, routes).len() > 0,
{
}

/// The decisions of one database client.
pub struct DbClient {
    pub mode: Mode,
    /// The endpoint that the client was given: asked for routes, and in
    /// proxy mode sent every request.
    pub endpoint: String,
    pub router: Router,
}

impl DbClient {
    /// The invariant: that of the route cache.
    pub open spec fn wf(&self) -> bool {
        self.router.wf()
    }

    /// A client of `endpoint` that has learned no route yet.
    pub fn new(endpoint: String, mode: Mode) -> (r: Self)
        ensures
            r.wf(),
            r.mode == mode,
            r.endpoint == endpoint,
            r.router.routes() == Map::<Seq<char>, Seq<char>>::empty(),
    {
        DbClient { mode, endpoint, router: Router::new() }
    }

    /// Where a request goes whose tables have the routes `entries`;
    /// `splittable` says whether it can be sent in parts.
    pub fn target(&self, entries: &Vec<RouteEntry>, splittable: bool) -> (d: Dispatch)
        ensures
            target_of(d, self.endpoint@, entry_pairs(entries@), splittable),
    {
        if entries.len() == 0 {
            return Dispatch::Send { endpoint: self.endpoint.clone() };
        }
        let ghost pairs = entry_pairs(entries@);
        let mut i: usize = 1;
        while i < entries.len()
            invariant
                1 <= i <= entries@.len(),
                pairs == entry_pairs(entries@),
                forall|j: int| 0 <= j < i ==> (#[trigger] pairs[j]).1 == pairs[0].1,
            decreases entries@.len() - i,
        {
            if entries[i].endpoint != entries[0].endpoint {
                assert(first_conflict(pairs, i as int));
                assert(!agree(pairs));
                if splittable {
                    return Dispatch::SendEach(group_by_endpoint(entries));
                }
                return Dispatch::Fail(
                    Error::RouteConflict {
                        first: entries[0].endpoint.clone(),
                        second: entries[i].endpoint.clone(),
                    },
                );
            }
            i += 1;
        }
        Dispatch::Send { endpoint: entries[0].endpoint.clone() }
    }

    /// The first step for a request on `tables`.
    pub fn start(&self, tables: &Vec<String>, splittable: bool) -> (d: Dispatch)
        requires
            self.wf(),
        ensures
            first_step(d, self.mode, self.endpoint@, self.router.routes(), tables@, splittable),
    {
        match self.mode {
            Mode::Proxy => Dispatch::Send { endpoint: self.endpoint.clone() },
            Mode::Direct => match self.router.begin_resolve(tables) {
                ResolveStep::Resolved(entries) => {
                    assert(entry_pairs(entries@) =~= pairs_of(tables@, self.router.routes()));
                    self.target(&entries, splittable)
                },
                ResolveStep::Lookup(missing) => Dispatch::Route {
                    endpoint: self.endpoint.clone(),
                    tables: missing,
                },
            },
        }
    }

    /// The step after a lookup has answered with `found`: the routes found
    /// go into the cache, and the request goes where the cache then says.
    pub fn routed(&mut self, tables: &Vec<String>, found: &Vec<RouteEntry>, splittable: bool) -> (d:
        Dispatch)
        requires
            old(self).wf(),
        ensures
            final(self).wf(),
            final(self).mode == old(self).mode,
            final(self).endpoint == old(self).endpoint,
            final(self).router.routes() == merged_routes(old(self).router.routes(), found@),
            routed_step(d, old(self).endpoint@, final(self).router.routes(), tables@, splittable),
    {
        match self.router.finish_resolve(tables, found) {
            Ok(entries) => {
                assert(entry_pairs(entries@) =~= pairs_of(tables@, self.router.routes()));
                self.target(&entries, splittable)
            },
            Err(e) => Dispatch::Fail(e),
        }
    }

    /// Whether this outcome shows routes of the request to be stale, so
    /// that they have to be forgotten: a stale-route failure in direct mode.
    pub fn evicts<T>(&self, outcome: &Result<T>) -> (r: bool)
        ensures
            r == evicting(self.mode, *outcome),
    {
        let stale = match outcome {
            Err(Error::Server(e)) => is_stale_route(e.code),
            _ => false,
        };
        match self.mode {
            Mode::Direct => stale,
            Mode::Proxy => false,
        }
    }

    /// Judges the outcome of a call for a request on `tables`; `retried`
    /// says whether the request has been begun anew before. In direct mode
    /// every stale-route failure makes the client forget the routes of
    /// `tables`, so that none of them is used again before it is asked for
    /// anew. After the first such failure the request is begun once more;
    /// the second goes to the caller, as every other outcome does, and
    /// those leave the cache as it is.
    pub fn settle<T>(
        &mut self,
        tables: &Vec<String>,
        splittable: bool,
        outcome: Result<T>,
        retried: bool,
    ) -> (v: Verdict<T>)
        requires
            old(self).wf(),
        ensures
            final(self).wf(),
            final(self).mode == old(self).mode,
            final(self).endpoint == old(self).endpoint,
            final(self).router.routes() == if evicting(old(self).mode, outcome) {
                old(self).router.routes().remove_keys(names(tables@).to_set())
            } else {
                old(self).router.routes()
            },
            if retries(old(self).mode, retried, outcome) {
                v matches Verdict::Retry(d) && first_step(
                    d,
                    Mode::Direct,
                    old(self).endpoint@,
                    final(self).router.routes(),
                    tables@,
                    splittable,
                )
            } else {
                v == Verdict::Done(outcome)
            },
    {
        if !self.evicts(&outcome) {
            return Verdict::Done(outcome);
        }
        self.router.evict_all(tables);
        if retried {
            Verdict::Done(outcome)
        } else {
            Verdict::Retry(self.start(tables, splittable))
        }
    }
}

/// The sum of two counts, held at the largest count where it would pass it.
pub open spec fn saturating_sum(a: u32, b: u32) -> u32 {
    if a + b > u32::MAX {
        u32::MAX
    } else {
        (a + b) as u32
    }
}

/// Adds the counts that one endpoint reported, of rows written and of rows
/// failed, to those of the endpoints before it.
pub fn merge_counts(acc: (u32, u32), part: (u32, u32)) -> (r: (u32, u32))
    ensures
        r.0 == saturating_sum(acc.0, part.0),
        r.1 == saturating_sum(acc.1, part.1),
{
    let written: u32 = if part.0 > u32::MAX - acc.0 {
        u32::MAX
    } else {
        acc.0 + part.0
    };
    let failed: u32 = if part.1 > u32::MAX - acc.1 {
        u32::MAX
    } else {
        acc.1 + part.1
    };
    (written, failed)
}

/// The places in `tables` of those tables that are among `held`, in
/// rising order.
pub open spec fn held_positions(tables: Seq<String>, held: Seq<Seq<char>>) -> Seq<usize>
    decreases tables.len(),
{
    if tables.len() == 0 {
        Seq::empty()
    } else {
        let rest = held_positions(tables.drop_last(), held);
        if held.contains(tables.last()@) {
            rest.push((tables.len() - 1) as usize)
        } else {
            rest
        }
    }
}

/// Picks the part of a request that goes to one endpoint: the places, in
/// the request's list of tables, of the tables that `group` holds.
pub fn positions_in_group(tables: &Vec<String>, group: &EndpointGroup) -> (r: Vec<usize>)
    ensures
        r@ == held_positions(tables@, names(group.tables@)),
        forall|j: int| 0 <= j < r@.len() ==> r@[j] < tables@.len(),
{
    let ghost held = names(group.tables@);
    let mut out: Vec<usize> = Vec::new();
    let mut i: usize = 0;
    assert(out@ =~= held_positions(tables@.subrange(0, 0), held));
    while i < tables.len()
        invariant
            i <= tables@.len(),
            held == names(group.tables@),
            out@ == held_positions(tables@.subrange(0, i as int), held),
            forall|j: int| 0 <= j < out@.len() ==> out@[j] < i,
        decreases tables@.len() - i,
    {
        let ghost prefix = tables@.subrange(0, i + 1);
        assert(prefix.drop_last() == tables@.subrange(0, i as int));
        assert(prefix.last() == tables@[i as int]);
        if holds_name(&group.tables, &tables[i]) {
            out.push(i);
        }
        i += 1;
    }
    assert(tables@.subrange(0, i as int) == tables@);
    out
}

fn holds_name(list: &Vec<String>, name: &String) -> (r: bool)
    ensures
        r == names(list@).contains(name@),
{
    let mut i: usize = 0;
    while i < list.len()
        invariant
            i <= list@.len(),
            forall|j: int| 0 <= j < i ==> names(list@)[j] != name@,
        decreases list@.len() - i,
    {
        if list[i] == *name {
            assert(names(list@)[i as int] == name@);
            return true;
        }
        i += 1;
    }
    false
}

fn endpoints_once(entries: &Vec<RouteEntry>) -> (r: Vec<String>)
    ensures
        names(r@) == distinct_endpoints(entry_pairs(entries@)),
{
    let ghost pairs = entry_pairs(entries@);
    let mut out: Vec<String> = Vec::new();
    let mut i: usize = 0;
    assert(names(out@) =~= distinct_endpoints(pairs.subrange(0, 0)));
    while i < entries.len()
        invariant
            i <= entries@.len(),
            pairs == entry_pairs(entries@),
            names(out@) == distinct_endpoints(pairs.subrange(0, i as int)),
        decreases entries@.len() - i,
    {
        let ghost prefix = pairs.subrange(0, i + 1);
        assert(prefix.drop_last() == pairs.subrange(0, i as int));
        assert(prefix.last() == pairs[i as int]);
        if !holds_name(&out, &entries[i].endpoint) {
            let ghost before = names(out@);
            out.push(entries[i].endpoint.clone());
            assert(names(out@) =~= before.push(pairs[i as int].1));
        }
        i += 1;
    }
    assert(pairs.subrange(0, i as int) == pairs);
    out
}

fn tables_at(entries: &Vec<RouteEntry>, endpoint: &String) -> (r: Vec<String>)
    ensures
        names(r@) == tables_on(entry_pairs(entries@), endpoint@),
{
    let ghost pairs = entry_pairs(entries@);
    let mut out: Vec<String> = Vec::new();
    let mut i: usize = 0;
    assert(names(out@) =~= tables_on(pairs.subrange(0, 0), endpoint@));
    while i < entries.len()
        invariant
            i <= entries@.len(),
            pairs == entry_pairs(entries@),
            names(out@) == tables_on(pairs.subrange(0, i as int), endpoint@),
        decreases entries@.len() - i,
    {
        let ghost prefix = pairs.subrange(0, i + 1);
        assert(prefix.drop_last() == pairs.subrange(0, i as int));
        assert(prefix.last() == pairs[i as int]);
        if entries[i].endpoint == *endpoint {
            let ghost before = names(out@);
            out.push(entries[i].table.clone());
            assert(names(out@) =~= before.push(pairs[i as int].0));
        }
        i += 1;
    }
    assert(pairs.subrange(0, i as int) == pairs);
    out
}

/// Parts the routes of a request by endpoint.
pub fn group_by_endpoint(entries: &Vec<RouteEntry>) -> (r: Vec<EndpointGroup>)
    ensures
        groups_of(r@, entry_pairs(entries@)),
{
    let endpoints = endpoints_once(entries);
    let mut groups: Vec<EndpointGroup> = Vec::new();
    let mut g: usize = 0;
    while g < endpoints.len()
        invariant
            g <= endpoints@.len(),
            groups@.len() == g,
            names(endpoints@) == distinct_endpoints(entry_pairs(entries@)),
            forall|k: int|
                0 <= k < g ==> {
                    &&& (#[trigger] groups@[k]).endpoint@ == names(endpoints@)[k]
                    &&& names(groups@[k].tables@) == tables_on(
                        entry_pairs(entries@),
                        names(endpoints@)[k],
                    )
                },
        decreases endpoints@.len() - g,
    {
        let tables = tables_at(entries, &endpoints[g]);
        groups.push(EndpointGroup { endpoint: endpoints[g].clone(), tables });
        g += 1;
    }
    groups
}

} // verus!

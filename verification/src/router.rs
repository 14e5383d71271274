//! The cache of table routes: which endpoint owns which table, as far as
//! the client has learned it.

use vstd::prelude::*;
use vstd::string::{StrSliceExecFns, StringExecFns};
use crate::errors::{Error, Result};
use crate::string_map::StringMap;

verus! {

/// One fact of ownership: `table` lives on `endpoint`.
#[derive(Debug, Clone, PartialEq, Eq)]
pub struct RouteEntry {
    pub table: String,
    pub endpoint: String,
}

/// The decimal digit that stands for `d`.
pub open spec fn digit_char(d: nat) -> char {
    "0123456789"@[d as int]
}

/// The decimal numeral of `n`, without leading zeros.
pub open spec fn decimal_text(n: nat) -> Seq<char>
    decreases n,
{
    if n < 10 {
        seq![digit_char(n)]
    } else {
        decimal_text(n / 10) + seq![digit_char(n % 10)]
    }
}

/// The address of an endpoint: its host, a colon, its port in decimal.
pub open spec fn address_text(ip: Seq<char>, port: u32) -> Seq<char> {
    ip + seq![':'] + decimal_text(port as nat)
}

fn digit_text(d: u32) -> (r: &'static str)
    requires
        d < 10,
    ensures
        r@ == seq![digit_char(d as nat)],
{
    let digits = "0123456789";
    proof {
        reveal_strlit("0123456789");
        assert(vstd::utf8::is_ascii_chars(digits@));
    }
    let from: usize = d as usize;
    let r = digits.substring_ascii(from, from + 1);
    assert(r@ =~= seq![digit_char(d as nat)]);
    r
}

fn decimal(n: u32) -> (r: String)
    ensures
        r@ == decimal_text(n as nat),
    decreases n,
{
    if n < 10 {
        String::from_str(digit_text(n))
    } else {
        decimal(n / 10).concat(digit_text(n % 10))
    }
}

/// Writes the address of the endpoint at `ip` and `port`.
pub fn endpoint_address(ip: &str, port: u32) -> (r: String)
    ensures
        r@ == address_text(ip@, port),
{
    proof {
        reveal_strlit(":");
    }
    let colon = ":";
    assert(colon@ =~= seq![':']);
    let number = decimal(port);
    String::from_str(ip).concat(colon).concat(number.as_str())
}

/// Makes the cache's entry from a route as a lookup reports it. A route
/// that names no endpoint is no route: its table stays without one.
pub fn route_entry(table: String, endpoint: Option<(String, u32)>) -> (r: Option<RouteEntry>)
    ensures
        match endpoint {
            None => r is None,
            Some(at) => r matches Some(e) && e.table == table && e.endpoint@ == address_text(
                at.0@,
                at.1,
            ),
        },
{
    match endpoint {
        None => None,
        Some(at) => {
            let address = endpoint_address(at.0.as_str(), at.1);
            Some(RouteEntry { table, endpoint: address })
        },
    }
}

/// What resolving a set of tables calls for.
#[derive(Debug, Clone, PartialEq, Eq)]
pub enum ResolveStep {
    /// Every table is cached: here are their routes, and nothing is sent.
    Resolved(Vec<RouteEntry>),
    /// These tables are not cached: one route lookup has to ask for them.
    Lookup(Vec<String>),
}

/// The texts of a list of strings.
pub open spec fn names(v: Seq<String>) -> Seq<Seq<char>> {
    Seq::new(v.len(), |i: int| v[i]@)
}

/// Those of `tables` that `routes` does not hold, in their order.
pub open spec fn absent_tables(tables: Seq<String>, routes: Map<Seq<char>, Seq<char>>) -> Seq<
    Seq<char>,
>
    decreases tables.len(),
{
    if tables.len() == 0 {
        Seq::empty()
    } else {
        let rest = absent_tables(tables.drop_last(), routes);
        if routes.contains_key(tables.last()@) {
            rest
        } else {
            rest.push(tables.last()@)
        }
    }
}

/// `routes` with the entries of `found` put in, each in place of what its
/// table mapped to before, a later one over an earlier one.
pub open spec fn merged_routes(routes: Map<Seq<char>, Seq<char>>, found: Seq<RouteEntry>) -> Map<
    Seq<char>,
    Seq<char>,
>
    decreases found.len(),
{
    if found.len() == 0 {
        routes
    } else {
        merged_routes(routes, found.drop_last()).insert(found.last().table@, found.last().endpoint@)
    }
}

/// Whether `entries` names, table by table, the endpoint that `routes`
/// gives for it.
pub open spec fn routes_of(entries: Seq<RouteEntry>, tables: Seq<String>, routes: Map<
    Seq<char>,
    Seq<char>,
>) -> bool {
    &&& entries.len() == tables.len()
    &&& forall|i: int|
        0 <= i < tables.len() ==> {
            &&& routes.contains_key(tables[i]@)
            &&& (#[trigger] entries[i]).table@ == tables[i]@
            &&& entries[i].endpoint@ == routes[tables[i]@]
        }
}

/// Whether `r` is what a lookup of `tables` in `routes` gives: their
/// routes where all are held, else the tables that are not.
pub open spec fn lookup_outcome(
    r: std::result::Result<Vec<RouteEntry>, Vec<String>>,
    tables: Seq<String>,
    routes: Map<Seq<char>, Seq<char>>,
) -> bool {
    if absent_tables(tables, routes).len() == 0 {
        r matches Ok(entries) && routes_of(entries@, tables, routes)
    } else {
        r matches Err(missing) && names(missing@) == absent_tables(tables, routes)
    }
}

/// Where no table is absent, every table is held.
pub proof fn lemma_none_absent(tables: Seq<String>, routes: Map<Seq<char>, Seq<char>>)
    requires
        absent_tables(tables, routes).len() == 0,
    ensures
        forall|i: int| 0 <= i < tables.len() ==> routes.contains_key(#[trigger] tables[i]@),
    decreases tables.len(),
{
    if tables.len() > 0 {
        lemma_none_absent(tables.drop_last(), routes);
        assert forall|i: int| 0 <= i < tables.len() implies routes.contains_key(
            #[trigger] tables[i]@,
        ) by {
            if i < tables.len() - 1 {
                assert(tables[i] == tables.drop_last()[i]);
            }
        }
    }
}

/// Where every table is held, none is absent.
pub proof fn lemma_all_held(tables: Seq<String>, routes: Map<Seq<char>, Seq<char>>)
    requires
        forall|i: int| 0 <= i < tables.len() ==> routes.contains_key(#[trigger] tables[i]@),
    ensures
        absent_tables(tables, routes).len() == 0,
    decreases tables.len(),
{
    if tables.len() > 0 {
        assert forall|i: int| 0 <= i < tables.drop_last().len() implies routes.contains_key(
            #[trigger] tables.drop_last()[i]@,
        ) by {
            assert(tables[i] == tables.drop_last()[i]);
        }
        lemma_all_held(tables.drop_last(), routes);
    }
}

/// After a merge every table that was found has a route.
pub proof fn lemma_merged_holds(routes: Map<Seq<char>, Seq<char>>, found: Seq<RouteEntry>, i: int)
    requires
        0 <= i < found.len(),
    ensures
        merged_routes(routes, found).contains_key(found[i].table@),
    decreases found.len(),
{
    if i < found.len() - 1 {
        lemma_merged_holds(routes, found.drop_last(), i);
    }
}

/// A merge takes no route away.
pub proof fn lemma_merged_keeps(
    routes: Map<Seq<char>, Seq<char>>,
    found: Seq<RouteEntry>,
    table: Seq<char>,
)
    requires
        routes.contains_key(table),
    ensures
        merged_routes(routes, found).contains_key(table),
    decreases found.len(),
{
    if found.len() > 0 {
        lemma_merged_keeps(routes, found.drop_last(), table);
    }
}

/// Whether `found` has a route for the table `table`.
pub open spec fn finds(found: Seq<RouteEntry>, table: Seq<char>) -> bool {
    exists|i: int| 0 <= i < found.len() && (#[trigger] found[i]).table@ == table
}

/// Where a lookup finds a route for every table that the cache lacks, no
/// table is without a route afterwards: the same tables then resolve from
/// the cache, and nothing more is asked for.
pub proof fn lemma_lookup_completes(
    routes: Map<Seq<char>, Seq<char>>,
    tables: Seq<String>,
    found: Seq<RouteEntry>,
)
    requires
        forall|i: int|
            0 <= i < tables.len() && !routes.contains_key(#[trigger] tables[i]@) ==> finds(
                found,
                tables[i]@,
            ),
    ensures
        absent_tables(tables, merged_routes(routes, found)).len() == 0,
{
    let after = merged_routes(routes, found);
    assert forall|i: int| 0 <= i < tables.len() implies after.contains_key(
        #[trigger] tables[i]@,
    ) by {
        if routes.contains_key(tables[i]@) {
            lemma_merged_keeps(routes, found, tables[i]@);
        } else {
            let k = choose|k: int|
                0 <= k < found.len() && (#[trigger] found[k]).table@ == tables[i]@;
            lemma_merged_holds(routes, found, k);
        }
    }
    lemma_all_held(tables, after);
}

/// Resolving one table: where the cache holds it, nothing is asked for;
/// where it does not, exactly that table is asked for, and once the lookup
/// has found its route the cache holds it, with the endpoint found.
pub proof fn lemma_resolve_one(routes: Map<Seq<char>, Seq<char>>, table: String, endpoint: String)
    ensures
        routes.contains_key(table@) ==> absent_tables(seq![table], routes).len() == 0,
        !routes.contains_key(table@) ==> absent_tables(seq![table], routes) == seq![table@],
        merged_routes(routes, seq![RouteEntry { table, endpoint }]) == routes.insert(
            table@,
            endpoint@,
        ),
        absent_tables(seq![table], routes.insert(table@, endpoint@)).len() == 0,
{
    let tables = seq![table];
    assert(tables.drop_last() =~= Seq::<String>::empty());
    assert(absent_tables(tables.drop_last(), routes) =~= Seq::<Seq<char>>::empty());
    assert(absent_tables(tables.drop_last(), routes.insert(table@, endpoint@)) =~= Seq::<
        Seq<char>,
    >::empty());
    if !routes.contains_key(table@) {
        assert(absent_tables(tables, routes) =~= seq![table@]);
    }
    let found = seq![RouteEntry { table, endpoint }];
    assert(found.drop_last() =~= Seq::<RouteEntry>::empty());
    assert(merged_routes(routes, found.drop_last()) == routes);
}

/// The route cache of one database client.
pub struct Router {
    cache: StringMap<String>,
}

impl Router {
    /// The invariant of the cache.
    pub closed spec fn wf(&self) -> bool {
        self.cache.wf()
    }

    /// The cached routes: from a table's name to its endpoint's address.
    pub closed spec fn routes(&self) -> Map<Seq<char>, Seq<char>> {
        Map::new(|t: Seq<char>| self.cache@.contains_key(t), |t: Seq<char>| self.cache@[t]@)
    }

    /// A router that has learned nothing yet.
    pub fn new() -> (r: Self)
        ensures
            r.wf(),
            r.routes() == Map::<Seq<char>, Seq<char>>::empty(),
    {
        let r = Router { cache: StringMap::new() };
        assert(r.routes() =~= Map::<Seq<char>, Seq<char>>::empty());
        r
    }

    /// The endpoint that the cache names for `table`.
    pub fn cached(&self, table: &String) -> (r: Option<String>)
        requires
            self.wf(),
        ensures
            match r {
                Some(e) => self.routes().contains_key(table@) && e@ == self.routes()[table@],
                None => !self.routes().contains_key(table@),
            },
    {
        match self.cache.get(table) {
            Some(e) => Some(e.clone()),
            None => None,
        }
    }

    /// Puts one route into the cache, in place of what the table mapped to.
    pub fn insert(&mut self, table: String, endpoint: String)
        requires
            old(self).wf(),
        ensures
            final(self).wf(),
            final(self).routes() == old(self).routes().insert(table@, endpoint@),
    {
        self.cache.insert(table, endpoint);
        assert(self.routes() =~= old(self).routes().insert(table@, endpoint@));
    }

    /// Forgets the route of `table`, so that the next resolve asks anew.
    pub fn evict(&mut self, table: &String)
        requires
            old(self).wf(),
        ensures
            final(self).wf(),
            final(self).routes() == old(self).routes().remove(table@),
    {
        self.cache.remove(table);
        assert(self.routes() =~= old(self).routes().remove(table@));
    }

    /// Forgets the routes of all of `tables`.
    pub fn evict_all(&mut self, tables: &Vec<String>)
        requires
            old(self).wf(),
        ensures
            final(self).wf(),
            final(self).routes() == old(self).routes().remove_keys(names(tables@).to_set()),
    {
        let mut i: usize = 0;
        assert(self.routes() =~= old(self).routes().remove_keys(
            names(tables@.subrange(0, 0)).to_set(),
        ));
        while i < tables.len()
            invariant
                i <= tables@.len(),
                self.wf(),
                self.routes() == old(self).routes().remove_keys(
                    names(tables@.subrange(0, i as int)).to_set(),
                ),
            decreases tables@.len() - i,
        {
            let ghost before = names(tables@.subrange(0, i as int));
            self.evict(&tables[i]);
            proof {
                let after = names(tables@.subrange(0, i + 1));
                assert(after =~= before.push(tables@[i as int]@));
                assert forall|t: Seq<char>|
                    after.to_set().contains(t) <==> (before.to_set().contains(t) || t
                        == tables@[i as int]@) by {
                    if before.to_set().contains(t) {
                        let j = choose|j: int| 0 <= j < before.len() && before[j] == t;
                        assert(after[j] == t);
                    }
                    if t == tables@[i as int]@ {
                        assert(after[i as int] == t);
                    }
                }
                assert(self.routes() =~= old(self).routes().remove_keys(after.to_set()));
            }
            i += 1;
        }
        assert(tables@.subrange(0, i as int) == tables@);
    }

    /// Those of `tables` that the cache does not hold, in their order.
    pub fn missing(&self, tables: &Vec<String>) -> (r: Vec<String>)
        requires
            self.wf(),
        ensures
            names(r@) == absent_tables(tables@, self.routes()),
    {
        let mut out: Vec<String> = Vec::new();
        let mut i: usize = 0;
        assert(names(out@) =~= absent_tables(tables@.subrange(0, 0), self.routes()));
        while i < tables.len()
            invariant
                i <= tables@.len(),
                self.wf(),
                names(out@) == absent_tables(tables@.subrange(0, i as int), self.routes()),
            decreases tables@.len() - i,
        {
            let ghost prefix = tables@.subrange(0, i + 1);
            assert(prefix.drop_last() == tables@.subrange(0, i as int));
            assert(prefix.last() == tables@[i as int]);
            if !self.cache.contains_key(&tables[i]) {
                let ghost before = names(out@);
                out.push(tables[i].clone());
                assert(names(out@) =~= before.push(tables@[i as int]@));
            }
            i += 1;
        }
        assert(tables@.subrange(0, i as int) == tables@);
        out
    }

    /// Looks all of `tables` up: their routes where every one is cached,
    /// else the tables that are not.
    pub fn lookup_all(&self, tables: &Vec<String>) -> (r: std::result::Result<
        Vec<RouteEntry>,
        Vec<String>,
    >)
        requires
            self.wf(),
        ensures
            lookup_outcome(r, tables@, self.routes()),
    {
        let missing = self.missing(tables);
        if missing.len() > 0 {
            return Err(missing);
        }
        proof {
            assert(names(missing@).len() == 0);
            lemma_none_absent(tables@, self.routes());
        }
        let mut out: Vec<RouteEntry> = Vec::new();
        let mut i: usize = 0;
        while i < tables.len()
            invariant
                i <= tables@.len(),
                self.wf(),
                forall|j: int| 0 <= j < tables@.len() ==> self.routes().contains_key(
                    #[trigger] tables@[j]@,
                ),
                routes_of(out@, tables@.subrange(0, i as int), self.routes()),
            decreases tables@.len() - i,
        {
            assert(self.routes().contains_key(tables@[i as int]@));
            match self.cached(&tables[i]) {
                Some(endpoint) => {
                    out.push(RouteEntry { table: tables[i].clone(), endpoint });
                },
                None => {},
            }
            i += 1;
        }
        assert(tables@.subrange(0, i as int) == tables@);
        Ok(out)
    }

    /// The first step of resolving `tables`. Where every one is cached the
    /// step is their routes, and no lookup is made; else it is the one
    /// lookup to make, for the tables that are not cached.
    pub fn begin_resolve(&self, tables: &Vec<String>) -> (r: ResolveStep)
        requires
            self.wf(),
        ensures
            if absent_tables(tables@, self.routes()).len() == 0 {
                r matches ResolveStep::Resolved(entries) && routes_of(
                    entries@,
                    tables@,
                    self.routes(),
                )
            } else {
                r matches ResolveStep::Lookup(missing) && names(missing@) == absent_tables(
                    tables@,
                    self.routes(),
                )
            },
    {
        match self.lookup_all(tables) {
            Ok(entries) => ResolveStep::Resolved(entries),
            Err(missing) => ResolveStep::Lookup(missing),
        }
    }

    /// Puts the routes that a lookup found into the cache.
    pub fn merge(&mut self, found: &Vec<RouteEntry>)
        requires
            old(self).wf(),
        ensures
            final(self).wf(),
            final(self).routes() == merged_routes(old(self).routes(), found@),
    {
        let mut i: usize = 0;
        while i < found.len()
            invariant
                i <= found@.len(),
                self.wf(),
                self.routes() == merged_routes(old(self).routes(), found@.subrange(0, i as int)),
            decreases found@.len() - i,
        {
            let ghost prefix = found@.subrange(0, i + 1);
            assert(prefix.drop_last() == found@.subrange(0, i as int));
            assert(prefix.last() == found@[i as int]);
            self.insert(found[i].table.clone(), found[i].endpoint.clone());
            i += 1;
        }
        assert(found@.subrange(0, i as int) == found@);
    }

    /// The second step of resolving `tables`, with what the lookup found.
    /// The routes found go into the cache, whatever else holds. Where every
    /// table then has a route, the result is their routes; else it is the
    /// error that names the tables without one.
    pub fn finish_resolve(&mut self, tables: &Vec<String>, found: &Vec<RouteEntry>) -> (r: Result<
        Vec<RouteEntry>,
    >)
        requires
            old(self).wf(),
        ensures
            final(self).wf(),
            final(self).routes() == merged_routes(old(self).routes(), found@),
            if absent_tables(tables@, final(self).routes()).len() == 0 {
                r matches Ok(entries) && routes_of(entries@, tables@, final(self).routes())
            } else {
                r matches Err(Error::NoRoute { tables: missing }) && names(missing@)
                    == absent_tables(tables@, final(self).routes())
            },
    {
        self.merge(found);
        match self.lookup_all(tables) {
            Ok(entries) => Ok(entries),
            Err(missing) => Err(Error::NoRoute { tables: missing }),
        }
    }
}

} // verus!

//! The clients that a database client has built: one for each endpoint
//! address, dialed by the first request that needs it and used again from
//! then on.

use vstd::prelude::*;
use crate::string_map::StringMap;

verus! {

/// What the pool holds for an endpoint that has been asked for.
pub enum Slot<C> {
    /// A request is dialing the endpoint.
    Dialing,
    /// The endpoint's client.
    Ready(C),
}

/// What a request that needs an endpoint's client has to do.
#[derive(Debug, Clone, Copy, PartialEq, Eq)]
pub enum Claim {
    /// The client is there: use it.
    Ready,
    /// Nobody has asked for this endpoint: dial it, and report the outcome.
    Dial,
    /// Another request is dialing: wait, and ask again.
    Wait,
}

/// What a request for `endpoint` is told.
pub open spec fn claim_of<C>(slots: Map<Seq<char>, Slot<C>>, endpoint: Seq<char>) -> Claim {
    if !slots.contains_key(endpoint) {
        Claim::Dial
    } else {
        match slots[endpoint] {
            Slot::Dialing => Claim::Wait,
            Slot::Ready(_) => Claim::Ready,
        }
    }
}

/// The pool after a request for `endpoint`: an endpoint that nobody had
/// asked for is now being dialed, and nothing else changes.
pub open spec fn after_claim<C>(slots: Map<Seq<char>, Slot<C>>, endpoint: Seq<char>) -> Map<
    Seq<char>,
    Slot<C>,
> {
    if slots.contains_key(endpoint) {
        slots
    } else {
        slots.insert(endpoint, Slot::Dialing)
    }
}

/// Whether `endpoint` has a client.
pub open spec fn is_ready<C>(slots: Map<Seq<char>, Slot<C>>, endpoint: Seq<char>) -> bool {
    slots.contains_key(endpoint) && slots[endpoint] is Ready
}

/// The pool after a dial of `endpoint` has given `client`: where the
/// endpoint has a client it stays, else the new one becomes it.
pub open spec fn after_complete<C>(
    slots: Map<Seq<char>, Slot<C>>,
    endpoint: Seq<char>,
    client: C,
) -> Map<Seq<char>, Slot<C>> {
    if is_ready(slots, endpoint) {
        slots
    } else {
        slots.insert(endpoint, Slot::Ready(client))
    }
}

/// The pool after a dial of `endpoint` has failed: the endpoint is as if
/// nobody had asked for it, unless it has a client.
pub open spec fn after_abandon<C>(slots: Map<Seq<char>, Slot<C>>, endpoint: Seq<char>) -> Map<
    Seq<char>,
    Slot<C>,
> {
    if is_ready(slots, endpoint) {
        slots
    } else {
        slots.remove(endpoint)
    }
}

/// The clients of one database client, by endpoint address.
pub struct ClientPool<C> {
    clients: StringMap<Slot<C>>,
}

impl<C> View for ClientPool<C> {
    type V = Map<Seq<char>, Slot<C>>;

    closed spec fn view(&self) -> Map<Seq<char>, Slot<C>> {
        self.clients@
    }
}

impl<C> ClientPool<C> {
    /// The invariant: no address stands twice.
    pub closed spec fn wf(&self) -> bool {
        self.clients.wf()
    }

    /// A pool without clients.
    pub fn new() -> (r: Self)
        ensures
            r.wf(),
            r@ == Map::<Seq<char>, Slot<C>>::empty(),
    {
        ClientPool { clients: StringMap::new() }
    }

    /// The client of `endpoint`, if one has been built.
    pub fn get(&self, endpoint: &String) -> (r: Option<&C>)
        requires
            self.wf(),
        ensures
            match r {
                Some(c) => is_ready(self@, endpoint@) && self@[endpoint@] == Slot::Ready(*c),
                None => !is_ready(self@, endpoint@),
            },
    {
        match self.clients.get(endpoint) {
            Some(Slot::Ready(c)) => Some(c),
            _ => None,
        }
    }

    /// Asks for the client of `endpoint` on behalf of a request. The first
    /// request for an endpoint is told to dial it; until that dial is over,
    /// every other request for the endpoint is told to wait.
    pub fn claim(&mut self, endpoint: &String) -> (r: Claim)
        requires
            old(self).wf(),
        ensures
            final(self).wf(),
            r == claim_of(old(self)@, endpoint@),
            final(self)@ == after_claim(old(self)@, endpoint@),
    {
        let claim = match self.clients.get(endpoint) {
            None => Claim::Dial,
            Some(Slot::Dialing) => Claim::Wait,
            Some(Slot::Ready(_)) => Claim::Ready,
        };
        match claim {
            Claim::Dial => {
                self.clients.insert(endpoint.clone(), Slot::Dialing);
            },
            _ => {},
        }
        claim
    }

    /// Reports that a dial of `endpoint` has given `client`, and says
    /// whether the pool took it. It does unless the endpoint has a client:
    /// of two clients for one address the first stays.
    pub fn complete(&mut self, endpoint: String, client: C) -> (taken: bool)
        requires
            old(self).wf(),
        ensures
            final(self).wf(),
            final(self)@ == after_complete(old(self)@, endpoint@, client),
            taken == !is_ready(old(self)@, endpoint@),
    {
        let ready = self.get(&endpoint).is_some();
        if ready {
            false
        } else {
            self.clients.insert(endpoint, Slot::Ready(client));
            true
        }
    }

    /// Reports that a dial of `endpoint` has failed: the next request for
    /// the endpoint is told to dial again.
    pub fn abandon(&mut self, endpoint: &String)
        requires
            old(self).wf(),
        ensures
            final(self).wf(),
            final(self)@ == after_abandon(old(self)@, endpoint@),
    {
        let ready = self.get(endpoint).is_some();
        if !ready {
            self.clients.remove(endpoint);
        }
    }
}

/// While an endpoint is being dialed, no other request is told to dial it:
/// the request after the one that was told to dial is told to wait, and
/// changes nothing.
pub proof fn lemma_one_dial_at_a_time<C>(slots: Map<Seq<char>, Slot<C>>, endpoint: Seq<char>)
    requires
        claim_of(slots, endpoint) == Claim::Dial,
    ensures
        claim_of(after_claim(slots, endpoint), endpoint) == Claim::Wait,
        after_claim(after_claim(slots, endpoint), endpoint) == after_claim(slots, endpoint),
{
}

/// An endpoint whose dial has given a client has that client from then
/// on: a request for it is told that the client is there and changes
/// nothing, and a client that a later dial gives is not taken.
pub proof fn lemma_second_request_reuses<C>(
    slots: Map<Seq<char>, Slot<C>>,
    endpoint: Seq<char>,
    first: C,
    second: C,
)
    ensures
        claim_of(after_complete(slots, endpoint, first), endpoint) == Claim::Ready,
        after_claim(after_complete(slots, endpoint, first), endpoint) == after_complete(
            slots,
            endpoint,
            first,
        ),
        after_complete(after_complete(slots, endpoint, first), endpoint, second) == after_complete(
            slots,
            endpoint,
            first,
        ),
        !is_ready(slots, endpoint) ==> after_complete(slots, endpoint, first)[endpoint]
            == Slot::Ready(first),
        is_ready(slots, endpoint) ==> after_complete(slots, endpoint, first)[endpoint]
            == slots[endpoint],
{
}

/// After a failed dial the endpoint can be dialed again.
pub proof fn lemma_failed_dial_frees<C>(slots: Map<Seq<char>, Slot<C>>, endpoint: Seq<char>)
    requires
        claim_of(slots, endpoint) == Claim::Wait,
    ensures
        claim_of(after_abandon(slots, endpoint), endpoint) == Claim::Dial,
{
}

} // verus!

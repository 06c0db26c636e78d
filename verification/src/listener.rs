//! The listener's side: which peers it serves, over which legs.

use crate::addr::{ObservedAddress, SocketAddr};
use crate::names::{among, contains_name, lemma_among, lemma_push, lemma_without, not_among, with, without, NameSet};
use crate::proxy::{other_party_spec, PeerConnection, ProxyError};
use crate::text::{same, views};
use vstd::prelude::*;

verus! {

/// How many peers are served at once.
pub const MAX_CONCURRENT_PEERS: usize = 8;

/// How long to wait for a listener to be withdrawn, in seconds.
pub const WITHDRAW_TIMEOUT: u64 = 3;

/// What to do about a peer that asks to connect.
#[derive(Clone, Copy, Debug, PartialEq, Eq, Structural)]
pub enum AcceptPolicy {
    /// Serve it.
    Auto,
    /// Serve it, and say so.
    AutoNotify,
    /// Say that it waits.
    Manual,
}

impl AcceptPolicy {
    /// Whether a peer is served without being asked about.
    pub fn binds_automatically(self) -> (r: bool)
        ensures
            r == (self != AcceptPolicy::Manual),
    {
        match self {
            AcceptPolicy::Auto => true,
            AcceptPolicy::AutoNotify => true,
            AcceptPolicy::Manual => false,
        }
    }
}

/// What happened to a peer.
#[derive(Debug)]
pub enum SignalingEvent {
    /// It is served.
    Bound { connection_id: String, peer_endpoint: String },
    /// It is no longer served.
    Unbound { connection_id: String },
    /// There is no room for it.
    AtCapacity { connection_id: String, peer_endpoint: String },
    /// It waits to be accepted.
    Waiting { connection_id: String, peer_endpoint: String },
    /// Its leg could not be opened.
    BindFailed { connection_id: String, error: String },
    /// Its record could not be renewed.
    RenewFailed { connection_id: String, error: String },
    /// There are more peers than the proxy listed.
    Truncated,
}

/// A [`SignalingEvent`] as a mathematical value.
pub enum EventView {
    Bound { connection_id: Seq<char>, peer_endpoint: Seq<char> },
    Unbound { connection_id: Seq<char> },
    AtCapacity { connection_id: Seq<char>, peer_endpoint: Seq<char> },
    Waiting { connection_id: Seq<char>, peer_endpoint: Seq<char> },
    BindFailed { connection_id: Seq<char>, error: Seq<char> },
    RenewFailed { connection_id: Seq<char>, error: Seq<char> },
    Truncated,
}

impl View for SignalingEvent {
    type V = EventView;

    open spec fn view(&self) -> EventView {
        match self {
            SignalingEvent::Bound { connection_id, peer_endpoint } => EventView::Bound {
                connection_id: connection_id@,
                peer_endpoint: peer_endpoint@,
            },
            SignalingEvent::Unbound { connection_id } => EventView::Unbound { connection_id: connection_id@ },
            SignalingEvent::AtCapacity { connection_id, peer_endpoint } => EventView::AtCapacity {
                connection_id: connection_id@,
                peer_endpoint: peer_endpoint@,
            },
            SignalingEvent::Waiting { connection_id, peer_endpoint } => EventView::Waiting {
                connection_id: connection_id@,
                peer_endpoint: peer_endpoint@,
            },
            SignalingEvent::BindFailed { connection_id, error } => EventView::BindFailed {
                connection_id: connection_id@,
                error: error@,
            },
            SignalingEvent::RenewFailed { connection_id, error } => EventView::RenewFailed {
                connection_id: connection_id@,
                error: error@,
            },
            SignalingEvent::Truncated => EventView::Truncated,
        }
    }
}

/// The events of `v`.
pub open spec fn event_views(v: Seq<SignalingEvent>) -> Seq<EventView> {
    v.map_values(|e: SignalingEvent| e@)
}

/// Which peers are served, and which are not to be served again.
pub struct SignalingState {
    /// Peers that are served.
    pub bound: NameSet,
    /// Peers whose leg ended here while the proxy still lists them.
    pub spent: NameSet,
}

impl Default for SignalingState {
    fn default() -> (state: Self)
        ensures
            state.bound@.len() == 0,
            state.spent@.len() == 0,
    {
        SignalingState { bound: NameSet::new(), spent: NameSet::new() }
    }
}

impl SignalingState {
    /// The peers that are served.
    pub fn bound(&self) -> (ids: Vec<String>)
        ensures
            views(ids@) == self.bound@,
    {
        self.bound.to_vec()
    }
}

/// The connections that the proxy lists.
#[derive(Debug)]
pub struct Listing {
    /// The connections.
    pub connections: Vec<PeerConnection>,
    /// Whether there are more of them.
    pub truncated: bool,
}

/// The ids of connections.
pub open spec fn connection_ids(connections: Seq<PeerConnection>) -> Seq<Seq<char>> {
    connections.map_values(|c: PeerConnection| c.connection_id@)
}

fn ids_of(connections: &Vec<PeerConnection>) -> (ids: Vec<String>)
    ensures
        views(ids@) == connection_ids(connections@),
{
    let mut ids: Vec<String> = Vec::new();
    let mut i: usize = 0;
    while i < connections.len()
        invariant
            i <= connections@.len(),
            views(ids@) == connection_ids(connections@).take(i as int),
        decreases connections@.len() - i,
    {
        let ghost before = ids@;
        ids.push(connections[i].connection_id.clone());
        proof {
            assert(views(ids@) =~= views(before).push(connections@[i as int].connection_id@));
            assert(connection_ids(connections@).take(i + 1) =~= connection_ids(connections@).take(i as int).push(
                connections@[i as int].connection_id@,
            ));
        }
        i = i + 1;
    }
    proof {
        assert(connection_ids(connections@).take(i as int) =~= connection_ids(connections@));
    }
    ids
}

/// Forget what the proxy stopped listing; returns the peers that were served
/// among them.
pub fn forget_gone(state: &mut SignalingState, connections: &Vec<PeerConnection>) -> (dropped: Vec<String>)
    ensures
        views(dropped@) == not_among(old(state).bound@, connection_ids(connections@)),
        final(state).bound@ == among(old(state).bound@, connection_ids(connections@)),
        final(state).spent@ == among(old(state).spent@, connection_ids(connections@)),
{
    let live = ids_of(connections);
    let dropped = state.bound.retain(&live);
    state.spent.retain(&live);
    dropped
}

/// What has arrived on a leg, and how much of it was noted.
#[derive(Clone, Copy, Debug, PartialEq, Eq, Structural)]
pub struct BindGuard {
    /// How many datagrams have arrived.
    pub inbound: u64,
    /// How many had arrived when last asked.
    pub seen: u64,
}

impl BindGuard {
    /// Whether anything arrived since last asked.
    pub fn carried_traffic(&mut self) -> (moved: bool)
        ensures
            moved == (old(self).inbound != old(self).seen),
            *final(self) == (BindGuard { inbound: old(self).inbound, seen: old(self).inbound }),
    {
        let moved = self.inbound != self.seen;
        self.seen = self.inbound;
        moved
    }
}

/// The leg of one connection.
#[derive(Debug)]
pub struct Leg {
    /// The connection.
    pub connection_id: String,
    /// What has arrived on it.
    pub guard: BindGuard,
}

/// The ids of legs.
pub open spec fn leg_ids(legs: Seq<Leg>) -> Seq<Seq<char>> {
    legs.map_values(|leg: Leg| leg.connection_id@)
}

fn has_leg(legs: &Vec<Leg>, id: &str) -> (r: bool)
    ensures
        r == leg_ids(legs@).contains(id@),
{
    let mut i: usize = 0;
    while i < legs.len()
        invariant
            i <= legs@.len(),
            forall|j: int| 0 <= j < i ==> leg_ids(legs@)[j] != id@,
        decreases legs@.len() - i,
    {
        if same(legs[i].connection_id.as_str(), id) {
            proof {
                assert(leg_ids(legs@)[i as int] == id@);
            }
            return true;
        }
        i = i + 1;
    }
    false
}

/// The legs whose connection is not one of `ids`.
pub open spec fn legs_without(legs: Seq<Leg>, ids: Seq<Seq<char>>) -> Seq<Leg>
    decreases legs.len(),
{
    if legs.len() == 0 {
        seq![]
    } else if ids.contains(legs.last().connection_id@) {
        legs_without(legs.drop_last(), ids)
    } else {
        legs_without(legs.drop_last(), ids).push(legs.last())
    }
}

fn drop_legs(legs: &mut Vec<Leg>, ids: &Vec<String>)
    ensures
        final(legs)@ == legs_without(old(legs)@, views(ids@)),
{
    let mut kept: Vec<Leg> = Vec::new();
    let mut i: usize = 0;
    while i < legs.len()
        invariant
            i <= legs@.len(),
            legs@ == old(legs)@,
            kept@ == legs_without(legs@.take(i as int), views(ids@)),
        decreases legs@.len() - i,
    {
        proof {
            assert(legs@.take(i + 1).drop_last() =~= legs@.take(i as int));
        }
        if !contains_name(ids, legs[i].connection_id.as_str()) {
            let leg = Leg { connection_id: legs[i].connection_id.clone(), guard: legs[i].guard };
            proof {
                assert(leg == legs@[i as int]);
            }
            kept.push(leg);
        }
        i = i + 1;
    }
    proof {
        assert(legs@.take(i as int) =~= legs@);
    }
    *legs = kept;
}

/// One pass over the listing, as a mathematical value.
pub struct PassModel {
    /// Peers that are served.
    pub bound: Seq<Seq<char>>,
    /// Peers not to be served again.
    pub spent: Seq<Seq<char>>,
    /// What has happened so far.
    pub events: Seq<EventView>,
}

/// What becomes of one listed connection.
#[derive(Clone, Copy, Debug, PartialEq, Eq, Structural)]
pub enum Decision {
    /// Nothing: it is served, or was.
    Skip,
    /// It waits.
    Waiting,
    /// There is no room.
    AtCapacity,
    /// It is to be served.
    Bind,
}

/// What becomes of a connection with this id.
pub open spec fn decision(bound: Seq<Seq<char>>, spent: Seq<Seq<char>>, id: Seq<char>, policy: AcceptPolicy) -> Decision {
    if bound.contains(id) || spent.contains(id) {
        Decision::Skip
    } else if policy == AcceptPolicy::Manual {
        Decision::Waiting
    } else if bound.len() >= MAX_CONCURRENT_PEERS {
        Decision::AtCapacity
    } else {
        Decision::Bind
    }
}

/// The name that is shown for the peer of a connection.
pub open spec fn peer_name(connection: PeerConnection, own: Seq<char>) -> Seq<char> {
    match other_party_spec(connection.initiator_endpoint, connection.target_endpoint, own) {
        Some(endpoint) => endpoint,
        None => "unknown"@,
    }
}

/// The pass after one connection; `failure` says why its leg could not be
/// opened, where it was to be and could not.
pub open spec fn visit(
    m: PassModel,
    connection: PeerConnection,
    own: Seq<char>,
    policy: AcceptPolicy,
    failure: Option<Seq<char>>,
) -> PassModel {
    let id = connection.connection_id@;
    let peer_endpoint = peer_name(connection, own);
    match decision(m.bound, m.spent, id, policy) {
        Decision::Skip => m,
        Decision::Waiting => PassModel {
            events: m.events.push(EventView::Waiting { connection_id: id, peer_endpoint }),
            ..m
        },
        Decision::AtCapacity => PassModel {
            events: m.events.push(EventView::AtCapacity { connection_id: id, peer_endpoint }),
            ..m
        },
        Decision::Bind => match failure {
            None => PassModel {
                bound: m.bound.push(id),
                events: m.events.push(EventView::Bound { connection_id: id, peer_endpoint }),
                ..m
            },
            Some(error) => PassModel {
                events: m.events.push(EventView::BindFailed { connection_id: id, error }),
                ..m
            },
        },
    }
}

/// The pass after all of `connections`, given how opening each leg went.
pub open spec fn visit_all(
    m: PassModel,
    connections: Seq<PeerConnection>,
    own: Seq<char>,
    policy: AcceptPolicy,
    failures: Seq<Option<Seq<char>>>,
) -> PassModel
    decreases connections.len(),
{
    if connections.len() == 0 {
        m
    } else {
        visit(
            visit_all(m, connections.drop_last(), own, policy, failures),
            connections.last(),
            own,
            policy,
            failures[connections.len() - 1],
        )
    }
}

/// How far a pass gets from `from` without opening a leg: the pass there, and
/// the first connection that needs one.
pub open spec fn advance(
    m: PassModel,
    legs: Seq<Seq<char>>,
    connections: Seq<PeerConnection>,
    from: int,
    own: Seq<char>,
    policy: AcceptPolicy,
) -> (PassModel, int)
    decreases connections.len() - from,
{
    if from >= connections.len() {
        (m, from)
    } else {
        let id = connections[from].connection_id@;
        if decision(m.bound, m.spent, id, policy) == Decision::Bind && !legs.contains(id) {
            (m, from)
        } else {
            advance(visit(m, connections[from], own, policy, None), legs, connections, from + 1, own, policy)
        }
    }
}

/// The pass after the legs in `ended` were found to have ended.
pub open spec fn after_ended(m: PassModel, ended: Seq<Seq<char>>) -> PassModel
    decreases ended.len(),
{
    if ended.len() == 0 {
        m
    } else {
        let before = after_ended(m, ended.drop_last());
        let id = ended.last();
        PassModel {
            bound: without(before.bound, id),
            spent: with(before.spent, id),
            events: before.events.push(EventView::Unbound { connection_id: id }),
        }
    }
}

/// The events that say that `ids` are no longer served.
pub open spec fn unbound(ids: Seq<Seq<char>>) -> Seq<EventView> {
    ids.map_values(|id: Seq<char>| EventView::Unbound { connection_id: id })
}

/// The pass after everything that is not in `live` was forgotten.
pub open spec fn after_gone(m: PassModel, live: Seq<Seq<char>>) -> PassModel {
    PassModel {
        bound: among(m.bound, live),
        spent: among(m.spent, live),
        events: m.events + unbound(not_among(m.bound, live)),
    }
}

/// The pass before its first connection is looked at.
pub open spec fn begun(
    bound: Seq<Seq<char>>,
    spent: Seq<Seq<char>>,
    truncated: bool,
    ended: Seq<Seq<char>>,
    live: Seq<Seq<char>>,
) -> PassModel {
    let events = if truncated {
        seq![EventView::Truncated]
    } else {
        seq![]
    };
    after_gone(after_ended(PassModel { bound, spent, events }, ended), live)
}

/// A pass over the listing that is under way.
#[derive(Debug)]
pub struct SignalingPass {
    /// The connection to look at next.
    pub next: usize,
    /// What has happened so far.
    pub events: Vec<SignalingEvent>,
}

/// The pass that `state` and `pass` stand for.
pub open spec fn model(state: SignalingState, pass: SignalingPass) -> PassModel {
    PassModel { bound: state.bound@, spent: state.spent@, events: event_views(pass.events@) }
}

fn note(events: &mut Vec<SignalingEvent>, event: SignalingEvent)
    ensures
        event_views(final(events)@) == event_views(old(events)@).push(event@),
{
    let ghost before = events@;
    events.push(event);
    proof {
        assert(event_views(events@) =~= event_views(before).push(event@));
    }
}

fn shown_name(connection: &PeerConnection, own: &str) -> (name: String)
    ensures
        name@ == peer_name(*connection, own@),
{
    match connection.other_party(own) {
        Some(endpoint) => endpoint.to_owned(),
        None => "unknown".to_owned(),
    }
}

/// A listener, and the legs it holds.
pub struct ListenerSession {
    /// The listener's id.
    pub listener_id: String,
    /// This Endpoint's id.
    pub endpoint_id: String,
    /// The legs that are open.
    pub binds: Vec<Leg>,
}

impl ListenerSession {
    /// A listener without legs.
    pub fn new(listener_id: String, endpoint_id: String) -> (session: Self)
        ensures
            session.listener_id == listener_id,
            session.endpoint_id == endpoint_id,
            session.binds@.len() == 0,
    {
        ListenerSession { listener_id, endpoint_id, binds: Vec::new() }
    }

    /// Whether a leg is open for this connection.
    pub fn is_bound(&self, connection_id: &str) -> (r: bool)
        ensures
            r == leg_ids(self.binds@).contains(connection_id@),
    {
        has_leg(&self.binds, connection_id)
    }

    /// Note that a leg was opened for this connection; one that is open already
    /// is left as it is.
    pub fn bind(&mut self, connection_id: &str)
        ensures
            final(self).listener_id == old(self).listener_id,
            final(self).endpoint_id == old(self).endpoint_id,
            leg_ids(final(self).binds@) == with(leg_ids(old(self).binds@), connection_id@),
            leg_ids(old(self).binds@).contains(connection_id@) ==> final(self).binds@ == old(self).binds@,
            !leg_ids(old(self).binds@).contains(connection_id@) ==> final(self).binds@.len() == old(self).binds@.len() + 1
                && final(self).binds@.drop_last() == old(self).binds@ && final(self).binds@.last().guard == (BindGuard {
                inbound: 0,
                seen: 0,
            }),
    {
        if !has_leg(&self.binds, connection_id) {
            let ghost before = self.binds@;
            self.binds.push(
                Leg { connection_id: connection_id.to_owned(), guard: BindGuard { inbound: 0, seen: 0 } },
            );
            proof {
                assert(self.binds@.drop_last() =~= before);
                assert(leg_ids(self.binds@) =~= leg_ids(before).push(connection_id@));
            }
        }
    }

    /// Take the proxy's answer to a question for the listing: where there is
    /// one a pass begins, and where there is none nothing changes.
    pub fn listed(&mut self, state: &mut SignalingState, answer: Result<Listing, ProxyError>, ended: &Vec<String>) -> (r:
        Result<(Listing, SignalingPass, Vec<String>), ProxyError>)
        ensures
            match answer {
                Err(error) => r == Err::<(Listing, SignalingPass, Vec<String>), ProxyError>(error) && *final(state) == *old(
                    state,
                ) && *final(self) == *old(self),
                Ok(listing) => r matches Ok((given, pass, gone)) && given == listing && model(*final(state), pass) == begun(
                    old(state).bound@,
                    old(state).spent@,
                    listing.truncated,
                    views(ended@),
                    connection_ids(listing.connections@),
                ) && pass.next == 0 && ({
                    let m = after_ended(
                        PassModel { bound: old(state).bound@, spent: old(state).spent@, events: seq![] },
                        views(ended@),
                    );
                    &&& views(gone@) == not_among(m.bound, connection_ids(listing.connections@))
                    &&& final(self).binds@ == legs_without(legs_without(old(self).binds@, views(ended@)), views(gone@))
                }) && final(self).listener_id == old(self).listener_id && final(self).endpoint_id == old(self).endpoint_id,
            },
    {
        match answer {
            Ok(listing) => {
                let (pass, gone) = self.begin_poll(state, &listing, ended);
                Ok((listing, pass, gone))
            },
            Err(error) => Err(error),
        }
    }

    /// Begin a pass over the listing: first the legs that ended, whose peers
    /// are not served again while the proxy lists them, then the peers that it
    /// stopped listing. Returns the pass, and the peers whose legs are to be
    /// taken down.
    pub fn begin_poll(&mut self, state: &mut SignalingState, listing: &Listing, ended: &Vec<String>) -> (r: (
        SignalingPass,
        Vec<String>,
    ))
        ensures
            model(*final(state), r.0) == begun(
                old(state).bound@,
                old(state).spent@,
                listing.truncated,
                views(ended@),
                connection_ids(listing.connections@),
            ),
            r.0.next == 0,
            ({
                let m = after_ended(
                    PassModel { bound: old(state).bound@, spent: old(state).spent@, events: seq![] },
                    views(ended@),
                );
                &&& views(r.1@) == not_among(m.bound, connection_ids(listing.connections@))
                &&& final(self).binds@ == legs_without(
                    legs_without(old(self).binds@, views(ended@)),
                    views(r.1@),
                )
            }),
            final(self).listener_id == old(self).listener_id,
            final(self).endpoint_id == old(self).endpoint_id,
    {
        let mut events: Vec<SignalingEvent> = Vec::new();
        proof {
            assert(event_views(events@) =~= Seq::<EventView>::empty());
        }
        if listing.truncated {
            note(&mut events, SignalingEvent::Truncated);
            proof {
                assert(event_views(events@) =~= seq![EventView::Truncated]);
            }
        }
        let ghost start = PassModel { bound: state.bound@, spent: state.spent@, events: event_views(events@) };
        let mut i: usize = 0;
        proof {
            assert(views(ended@).take(0) =~= Seq::<Seq<char>>::empty());
        }
        while i < ended.len()
            invariant
                i <= ended@.len(),
                (PassModel { bound: state.bound@, spent: state.spent@, events: event_views(events@) }) == after_ended(
                    start,
                    views(ended@).take(i as int),
                ),
            decreases ended@.len() - i,
        {
            proof {
                assert(views(ended@).take(i + 1).drop_last() =~= views(ended@).take(i as int));
            }
            state.bound.remove(ended[i].as_str());
            state.spent.insert(ended[i].clone());
            note(&mut events, SignalingEvent::Unbound { connection_id: ended[i].clone() });
            i = i + 1;
        }
        proof {
            assert(views(ended@).take(i as int) =~= views(ended@));
        }
        drop_legs(&mut self.binds, ended);
        let ghost middle = after_ended(start, views(ended@));
        let gone = forget_gone(state, &listing.connections);
        let ghost live = connection_ids(listing.connections@);
        proof {
            assert(event_views(events@) + unbound(views(gone@).take(0)) =~= event_views(events@));
        }
        let ghost told = event_views(events@);
        let mut k: usize = 0;
        while k < gone.len()
            invariant
                k <= gone@.len(),
                event_views(events@) == told + unbound(views(gone@).take(k as int)),
            decreases gone@.len() - k,
        {
            note(&mut events, SignalingEvent::Unbound { connection_id: gone[k].clone() });
            proof {
                assert(unbound(views(gone@).take(k + 1)) =~= unbound(views(gone@).take(k as int)).push(
                    EventView::Unbound { connection_id: gone@[k as int]@ },
                ));
                assert(told + unbound(views(gone@).take(k + 1)) =~= (told + unbound(views(gone@).take(k as int))).push(
                    EventView::Unbound { connection_id: gone@[k as int]@ },
                ));
            }
            k = k + 1;
        }
        proof {
            assert(views(gone@).take(k as int) =~= views(gone@));
            lemma_ended_ignores_events(start, PassModel { events: seq![], ..start }, views(ended@));
        }
        drop_legs(&mut self.binds, &gone);
        (SignalingPass { next: 0, events }, gone)
    }

    /// Go on with a pass up to the next connection that needs a leg, and say
    /// which it is; none where the pass is done.
    pub fn poll_signaling(
        &self,
        state: &mut SignalingState,
        listing: &Listing,
        policy: AcceptPolicy,
        pass: &mut SignalingPass,
    ) -> (r: Option<usize>)
        requires
            old(pass).next <= listing.connections@.len(),
        ensures
            (model(*final(state), *final(pass)), final(pass).next as int) == advance(
                model(*old(state), *old(pass)),
                leg_ids(self.binds@),
                listing.connections@,
                old(pass).next as int,
                self.endpoint_id@,
                policy,
            ),
            final(pass).next <= listing.connections@.len(),
            r == (if final(pass).next < listing.connections@.len() {
                Some(final(pass).next)
            } else {
                None
            }),
    {
        let ghost goal = advance(
            model(*state, *pass),
            leg_ids(self.binds@),
            listing.connections@,
            pass.next as int,
            self.endpoint_id@,
            policy,
        );
        while pass.next < listing.connections.len()
            invariant
                pass.next <= listing.connections@.len(),
                goal == advance(
                    model(*old(state), *old(pass)),
                    leg_ids(self.binds@),
                    listing.connections@,
                    old(pass).next as int,
                    self.endpoint_id@,
                    policy,
                ),
                goal == advance(
                    model(*state, *pass),
                    leg_ids(self.binds@),
                    listing.connections@,
                    pass.next as int,
                    self.endpoint_id@,
                    policy,
                ),
            decreases listing.connections@.len() - pass.next,
        {
            let connection = &listing.connections[pass.next];
            let ghost m = model(*state, *pass);
            let choice = decide(state, connection.connection_id.as_str(), policy);
            if choice == Decision::Bind && !has_leg(&self.binds, connection.connection_id.as_str()) {
                return Some(pass.next);
            }
            let name = shown_name(connection, self.endpoint_id.as_str());
            match choice {
                Decision::Skip => {},
                Decision::Waiting => note(
                    &mut pass.events,
                    SignalingEvent::Waiting { connection_id: connection.connection_id.clone(), peer_endpoint: name },
                ),
                Decision::AtCapacity => note(
                    &mut pass.events,
                    SignalingEvent::AtCapacity {
                        connection_id: connection.connection_id.clone(),
                        peer_endpoint: name,
                    },
                ),
                Decision::Bind => {
                    state.bound.insert(connection.connection_id.clone());
                    note(
                        &mut pass.events,
                        SignalingEvent::Bound { connection_id: connection.connection_id.clone(), peer_endpoint: name },
                    );
                },
            }
            proof {
                assert(model(*state, *pass) == visit(m, *connection, self.endpoint_id@, policy, None));
            }
            pass.next = pass.next + 1;
        }
        None
    }

    /// Take note of how opening the leg of the connection at hand went.
    pub fn settle(
        &mut self,
        state: &mut SignalingState,
        listing: &Listing,
        policy: AcceptPolicy,
        pass: &mut SignalingPass,
        outcome: Result<(), String>,
    )
        requires
            old(pass).next < listing.connections@.len(),
            decision(
                old(state).bound@,
                old(state).spent@,
                listing.connections@[old(pass).next as int].connection_id@,
                policy,
            ) == Decision::Bind,
        ensures
            model(*final(state), *final(pass)) == visit(
                model(*old(state), *old(pass)),
                listing.connections@[old(pass).next as int],
                old(self).endpoint_id@,
                policy,
                match outcome {
                    Ok(_) => None,
                    Err(error) => Some(error@),
                },
            ),
            final(pass).next == old(pass).next + 1,
            final(self).listener_id == old(self).listener_id,
            final(self).endpoint_id == old(self).endpoint_id,
            leg_ids(final(self).binds@) == (if outcome is Ok {
                with(leg_ids(old(self).binds@), listing.connections@[old(pass).next as int].connection_id@)
            } else {
                leg_ids(old(self).binds@)
            }),
            outcome is Err || leg_ids(old(self).binds@).contains(
                listing.connections@[old(pass).next as int].connection_id@,
            ) ==> final(self).binds@ == old(self).binds@,
            outcome is Ok && !leg_ids(old(self).binds@).contains(
                listing.connections@[old(pass).next as int].connection_id@,
            ) ==> final(self).binds@.drop_last() == old(self).binds@ && final(self).binds@.last().guard == (BindGuard {
                inbound: 0,
                seen: 0,
            }),
    {
        let total = listing.connections.len();
        let connection = &listing.connections[pass.next];
        match outcome {
            Ok(()) => {
                let name = shown_name(connection, self.endpoint_id.as_str());
                self.bind(connection.connection_id.as_str());
                state.bound.insert(connection.connection_id.clone());
                note(
                    &mut pass.events,
                    SignalingEvent::Bound { connection_id: connection.connection_id.clone(), peer_endpoint: name },
                );
            },
            Err(error) => note(
                &mut pass.events,
                SignalingEvent::BindFailed { connection_id: connection.connection_id.clone(), error },
            ),
        }
        assert(pass.next < total);
        pass.next = pass.next + 1;
    }

    /// The served peers whose legs carried traffic since this was last asked;
    /// their records are to be renewed.
    pub fn renew_connections(&mut self, state: &SignalingState) -> (renewing: Vec<String>)
        ensures
            views(renewing@) == renewing_spec(old(self).binds@, state.bound@),
            final(self).binds@ == noted_spec(old(self).binds@, state.bound@),
            final(self).listener_id == old(self).listener_id,
            final(self).endpoint_id == old(self).endpoint_id,
            forall|id: Seq<char>| #[trigger]
                views(renewing@).contains(id) <==> state.bound@.contains(id) && exists|i: int|
                    0 <= i < old(self).binds@.len() && (#[trigger] old(self).binds@[i]).connection_id@ == id
                        && old(self).binds@[i].guard.inbound != old(self).binds@[i].guard.seen,
    {
        let mut renewing: Vec<String> = Vec::new();
        let mut kept: Vec<Leg> = Vec::new();
        proof {
            assert(views(renewing@) =~= Seq::<Seq<char>>::empty());
            assert(self.binds@.take(0) =~= Seq::<Leg>::empty());
            assert(kept@ =~= noted_spec(self.binds@.take(0), state.bound@));
        }
        let mut i: usize = 0;
        while i < self.binds.len()
            invariant
                i <= self.binds@.len(),
                self.binds@ == old(self).binds@,
                self.listener_id == old(self).listener_id,
                self.endpoint_id == old(self).endpoint_id,
                views(renewing@) == renewing_spec(self.binds@.take(i as int), state.bound@),
                kept@ == noted_spec(self.binds@.take(i as int), state.bound@),
            decreases self.binds@.len() - i,
        {
            let ghost before = renewing@;
            proof {
                assert(self.binds@.take(i + 1).drop_last() =~= self.binds@.take(i as int));
                assert(noted_spec(self.binds@.take(i + 1), state.bound@) =~= noted_spec(
                    self.binds@.take(i as int),
                    state.bound@,
                ).push(noted(self.binds@[i as int], state.bound@)));
            }
            let mut guard = self.binds[i].guard;
            if state.bound.contains(self.binds[i].connection_id.as_str()) {
                if guard.carried_traffic() {
                    renewing.push(self.binds[i].connection_id.clone());
                    proof {
                        assert(views(renewing@) =~= views(before).push(self.binds@[i as int].connection_id@));
                    }
                }
            }
            let leg = Leg { connection_id: self.binds[i].connection_id.clone(), guard };
            proof {
                assert(leg == noted(self.binds@[i as int], state.bound@));
            }
            kept.push(leg);
            i = i + 1;
        }
        proof {
            assert(self.binds@.take(i as int) =~= self.binds@);
            assert forall|id: Seq<char>| #[trigger] views(renewing@).contains(id) <==> state.bound@.contains(id) && exists|
                i: int,
            |
                0 <= i < old(self).binds@.len() && (#[trigger] old(self).binds@[i]).connection_id@ == id
                    && old(self).binds@[i].guard.inbound != old(self).binds@[i].guard.seen by {
                law_renewed_exactly_where_traffic_came(old(self).binds@, state.bound@, id);
            }
        }
        self.binds = kept;
        renewing
    }
}

fn decide(state: &SignalingState, id: &str, policy: AcceptPolicy) -> (d: Decision)
    ensures
        d == decision(state.bound@, state.spent@, id@, policy),
{
    if state.bound.contains(id) || state.spent.contains(id) {
        Decision::Skip
    } else if !policy.binds_automatically() {
        Decision::Waiting
    } else if state.bound.len() >= MAX_CONCURRENT_PEERS {
        Decision::AtCapacity
    } else {
        Decision::Bind
    }
}

/// The served peers whose legs carried traffic.
pub open spec fn renewing_spec(legs: Seq<Leg>, bound: Seq<Seq<char>>) -> Seq<Seq<char>>
    decreases legs.len(),
{
    if legs.len() == 0 {
        seq![]
    } else {
        let leg = legs.last();
        let before = renewing_spec(legs.drop_last(), bound);
        if bound.contains(leg.connection_id@) && leg.guard.inbound != leg.guard.seen {
            before.push(leg.connection_id@)
        } else {
            before
        }
    }
}

/// A leg after its traffic was noted, if its peer is served.
pub open spec fn noted(leg: Leg, bound: Seq<Seq<char>>) -> Leg {
    if bound.contains(leg.connection_id@) {
        Leg { guard: BindGuard { seen: leg.guard.inbound, ..leg.guard }, ..leg }
    } else {
        leg
    }
}

/// The legs after the traffic of the served peers was noted.
pub open spec fn noted_spec(legs: Seq<Leg>, bound: Seq<Seq<char>>) -> Seq<Leg> {
    legs.map_values(|leg: Leg| noted(leg, bound))
}

proof fn lemma_ended_ignores_events(one: PassModel, other: PassModel, ended: Seq<Seq<char>>)
    requires
        one.bound == other.bound,
        one.spent == other.spent,
    ensures
        after_ended(one, ended).bound == after_ended(other, ended).bound,
        after_ended(one, ended).spent == after_ended(other, ended).spent,
    decreases ended.len(),
{
    if ended.len() > 0 {
        lemma_ended_ignores_events(one, other, ended.drop_last());
    }
}

/// What holds between passes: nothing is named twice, and no peer is both
/// served and not to be served again.
pub open spec fn apart(bound: Seq<Seq<char>>, spent: Seq<Seq<char>>) -> bool {
    &&& bound.no_duplicates()
    &&& spent.no_duplicates()
    &&& forall|id: Seq<char>| !(#[trigger] bound.contains(id) && spent.contains(id))
}

/// Every pass begins with served and spent peers apart, and with nothing that
/// the proxy does not list.
pub proof fn law_pass_begins_apart(
    bound: Seq<Seq<char>>,
    spent: Seq<Seq<char>>,
    truncated: bool,
    ended: Seq<Seq<char>>,
    live: Seq<Seq<char>>,
)
    requires
        apart(bound, spent),
    ensures
        apart(
            begun(bound, spent, truncated, ended, live).bound,
            begun(bound, spent, truncated, ended, live).spent,
        ),
        forall|id: Seq<char>| #[trigger]
            begun(bound, spent, truncated, ended, live).bound.contains(id) ==> bound.contains(id) && live.contains(id)
                && !ended.contains(id),
        forall|id: Seq<char>| #[trigger]
            begun(bound, spent, truncated, ended, live).spent.contains(id) ==> live.contains(id),
        forall|id: Seq<char>|
            (#[trigger] ended.contains(id) || spent.contains(id)) && live.contains(id) ==> begun(
                bound,
                spent,
                truncated,
                ended,
                live,
            ).spent.contains(id),
        begun(bound, spent, truncated, ended, live).bound.len() <= bound.len(),
{
    let events = if truncated {
        seq![EventView::Truncated]
    } else {
        seq![]
    };
    let m = PassModel { bound, spent, events };
    lemma_after_ended(m, ended);
    let n = after_ended(m, ended);
    lemma_among(n.bound, live);
    lemma_among(n.spent, live);
}

proof fn lemma_after_ended(m: PassModel, ended: Seq<Seq<char>>)
    requires
        apart(m.bound, m.spent),
    ensures
        apart(after_ended(m, ended).bound, after_ended(m, ended).spent),
        forall|id: Seq<char>| #[trigger]
            after_ended(m, ended).bound.contains(id) <==> m.bound.contains(id) && !ended.contains(id),
        forall|id: Seq<char>| #[trigger]
            after_ended(m, ended).spent.contains(id) <==> m.spent.contains(id) || ended.contains(id),
        after_ended(m, ended).bound.len() <= m.bound.len(),
    decreases ended.len(),
{
    if ended.len() > 0 {
        let rest = ended.drop_last();
        let id = ended.last();
        lemma_after_ended(m, rest);
        let n = after_ended(m, rest);
        lemma_without(n.bound, id);
        lemma_push(n.spent, id);
        assert(ended =~= rest.push(id));
        lemma_push(rest, id);
        assert forall|x: Seq<char>| #[trigger] after_ended(m, ended).bound.contains(x) <==> m.bound.contains(x)
            && !ended.contains(x) by {
            assert(without(n.bound, id).contains(x) <==> n.bound.contains(x) && x != id);
            assert(rest.push(id).contains(x) <==> rest.contains(x) || x == id);
        }
        assert forall|x: Seq<char>| #[trigger] after_ended(m, ended).spent.contains(x) <==> m.spent.contains(x)
            || ended.contains(x) by {
            assert(n.spent.push(id).contains(x) <==> n.spent.contains(x) || x == id);
            assert(rest.push(id).contains(x) <==> rest.contains(x) || x == id);
        }
    } else {
        assert forall|x: Seq<char>| #[trigger] after_ended(m, ended).bound.contains(x) <==> m.bound.contains(x)
            && !ended.contains(x) by {}
    }
}

/// A pass serves no more peers than there is room for, displaces nobody,
/// leaves the spent peers alone and serves none of them.
pub proof fn law_pass_displaces_nobody(
    m: PassModel,
    connections: Seq<PeerConnection>,
    own: Seq<char>,
    policy: AcceptPolicy,
    failures: Seq<Option<Seq<char>>>,
)
    requires
        apart(m.bound, m.spent),
        m.bound.len() <= MAX_CONCURRENT_PEERS,
    ensures
        ({
            let after = visit_all(m, connections, own, policy, failures);
            &&& apart(after.bound, after.spent)
            &&& after.bound.len() <= MAX_CONCURRENT_PEERS
            &&& m.bound.is_prefix_of(after.bound)
            &&& after.spent == m.spent
            &&& m.events.is_prefix_of(after.events)
        }),
    decreases connections.len(),
{
    if connections.len() > 0 {
        law_pass_displaces_nobody(m, connections.drop_last(), own, policy, failures);
        let before = visit_all(m, connections.drop_last(), own, policy, failures);
        let id = connections.last().connection_id@;
        lemma_push(before.bound, id);
    }
}

/// A peer whose leg ended is not served again for as long as the proxy lists
/// it, whatever the policy and however opening the other legs goes.
pub proof fn law_dead_leg_is_not_bound_again(
    bound: Seq<Seq<char>>,
    spent: Seq<Seq<char>>,
    truncated: bool,
    ended: Seq<Seq<char>>,
    connections: Seq<PeerConnection>,
    own: Seq<char>,
    policy: AcceptPolicy,
    failures: Seq<Option<Seq<char>>>,
    id: Seq<char>,
)
    requires
        apart(bound, spent),
        bound.len() <= MAX_CONCURRENT_PEERS,
        ended.contains(id) || spent.contains(id),
        connection_ids(connections).contains(id),
    ensures
        ({
            let m = begun(bound, spent, truncated, ended, connection_ids(connections));
            !visit_all(m, connections, own, policy, failures).bound.contains(id)
        }),
{
    let live = connection_ids(connections);
    let m = begun(bound, spent, truncated, ended, live);
    law_pass_begins_apart(bound, spent, truncated, ended, live);
    law_pass_displaces_nobody(m, connections, own, policy, failures);
    assert(ended.contains(id) || spent.contains(id));
    assert(m.spent.contains(id));
}

/// Without being asked, nobody is served: under the manual policy a pass
/// leaves the served peers as they are.
pub proof fn law_manual_serves_nobody(
    m: PassModel,
    connections: Seq<PeerConnection>,
    own: Seq<char>,
    failures: Seq<Option<Seq<char>>>,
)
    ensures
        visit_all(m, connections, own, AcceptPolicy::Manual, failures).bound == m.bound,
        visit_all(m, connections, own, AcceptPolicy::Manual, failures).spent == m.spent,
    decreases connections.len(),
{
    if connections.len() > 0 {
        law_manual_serves_nobody(m, connections.drop_last(), own, failures);
    }
}

/// Every listed peer that is neither served nor spent is told of, and a peer
/// for whom there was room and whose leg opened is served.
pub proof fn law_every_newcomer_is_told_of(
    m: PassModel,
    connection: PeerConnection,
    own: Seq<char>,
    policy: AcceptPolicy,
    failure: Option<Seq<char>>,
)
    requires
        !m.bound.contains(connection.connection_id@),
        !m.spent.contains(connection.connection_id@),
    ensures
        visit(m, connection, own, policy, failure).events.len() == m.events.len() + 1,
        policy != AcceptPolicy::Manual && m.bound.len() < MAX_CONCURRENT_PEERS && failure is None ==> visit(
            m,
            connection,
            own,
            policy,
            failure,
        ).bound.contains(connection.connection_id@),
{
    lemma_push(m.bound, connection.connection_id@);
}

/// Going on without opening a leg is looking at the connections in between.
pub proof fn law_advance_looks_at_each(
    m: PassModel,
    legs: Seq<Seq<char>>,
    connections: Seq<PeerConnection>,
    from: int,
    own: Seq<char>,
    policy: AcceptPolicy,
)
    requires
        0 <= from <= connections.len(),
    ensures
        ({
            let (after, to) = advance(m, legs, connections, from, own, policy);
            &&& from <= to <= connections.len()
            &&& after == visit_all(
                m,
                connections.subrange(from, to),
                own,
                policy,
                Seq::new((to - from) as nat, |i: int| None::<Seq<char>>),
            )
        }),
    decreases connections.len() - from,
{
    let (after, to) = advance(m, legs, connections, from, own, policy);
    if from < connections.len() {
        let id = connections[from].connection_id@;
        if decision(m.bound, m.spent, id, policy) == Decision::Bind && !legs.contains(id) {
        } else {
            let next = visit(m, connections[from], own, policy, None);
            law_advance_looks_at_each(next, legs, connections, from + 1, own, policy);
            let all = connections.subrange(from, to);
            let none = Seq::new((to - from) as nat, |i: int| None::<Seq<char>>);
            let fewer = Seq::new((to - from - 1) as nat, |i: int| None::<Seq<char>>);
            assert(none =~= seq![None] + fewer);
            assert(all =~= seq![connections[from]] + connections.subrange(from + 1, to));
            lemma_visit_first(m, connections[from], connections.subrange(from + 1, to), own, policy, None, fewer);
        }
    }
}

proof fn lemma_visit_first(
    m: PassModel,
    first: PeerConnection,
    rest: Seq<PeerConnection>,
    own: Seq<char>,
    policy: AcceptPolicy,
    failure: Option<Seq<char>>,
    failures: Seq<Option<Seq<char>>>,
)
    requires
        failures.len() == rest.len(),
    ensures
        visit_all(m, seq![first] + rest, own, policy, seq![failure] + failures) == visit_all(
            visit(m, first, own, policy, failure),
            rest,
            own,
            policy,
            failures,
        ),
    decreases rest.len(),
{
    let all = seq![first] + rest;
    if rest.len() == 0 {
        assert(all.drop_last() =~= Seq::<PeerConnection>::empty());
        assert(all.last() == first);
        assert(visit_all(m, all.drop_last(), own, policy, seq![failure] + failures) == m);
    } else {
        lemma_visit_first(m, first, rest.drop_last(), own, policy, failure, failures.drop_last());
        assert(all.drop_last() =~= seq![first] + rest.drop_last());
        lemma_visit_uses_prefix(m, all.drop_last(), own, policy, seq![failure] + failures, seq![failure] + failures.drop_last());
        lemma_visit_uses_prefix(
            visit(m, first, own, policy, failure),
            rest.drop_last(),
            own,
            policy,
            failures,
            failures.drop_last(),
        );
    }
}

proof fn lemma_visit_uses_prefix(
    m: PassModel,
    connections: Seq<PeerConnection>,
    own: Seq<char>,
    policy: AcceptPolicy,
    one: Seq<Option<Seq<char>>>,
    other: Seq<Option<Seq<char>>>,
)
    requires
        forall|i: int| 0 <= i < connections.len() ==> one[i] == other[i],
    ensures
        visit_all(m, connections, own, policy, one) == visit_all(m, connections, own, policy, other),
    decreases connections.len(),
{
    if connections.len() > 0 {
        lemma_visit_uses_prefix(m, connections.drop_last(), own, policy, one, other);
    }
}

proof fn lemma_visit_concat(
    m: PassModel,
    first: Seq<PeerConnection>,
    rest: Seq<PeerConnection>,
    own: Seq<char>,
    policy: AcceptPolicy,
    one: Seq<Option<Seq<char>>>,
    other: Seq<Option<Seq<char>>>,
)
    requires
        one.len() == first.len(),
        other.len() == rest.len(),
    ensures
        visit_all(m, first + rest, own, policy, one + other) == visit_all(
            visit_all(m, first, own, policy, one),
            rest,
            own,
            policy,
            other,
        ),
    decreases rest.len(),
{
    if rest.len() == 0 {
        assert(first + rest =~= first);
        lemma_visit_uses_prefix(m, first, own, policy, one + other, one);
    } else {
        let fewer = rest.drop_last();
        lemma_visit_concat(m, first, fewer, own, policy, one, other.drop_last());
        assert((first + rest).drop_last() =~= first + fewer);
        lemma_visit_uses_prefix(m, first + fewer, own, policy, one + other, one + other.drop_last());
        lemma_visit_uses_prefix(visit_all(m, first, own, policy, one), fewer, own, policy, other, other.drop_last());
    }
}

/// The pass from `from` to its end: going on as far as no leg is needed,
/// opening the one that is, and so on. `failures` says of each connection why
/// its leg could not be opened, if it could not.
pub open spec fn driven(
    m: PassModel,
    legs: Seq<Seq<char>>,
    connections: Seq<PeerConnection>,
    from: int,
    own: Seq<char>,
    policy: AcceptPolicy,
    failures: Seq<Option<Seq<char>>>,
) -> PassModel
    decreases connections.len() - from,
{
    let (n, to) = advance(m, legs, connections, from, own, policy);
    if to < from || to >= connections.len() {
        n
    } else {
        let held = if failures[to] is None {
            with(legs, connections[to].connection_id@)
        } else {
            legs
        };
        driven(visit(n, connections[to], own, policy, failures[to]), held, connections, to + 1, own, policy, failures)
    }
}

/// The connections from `from` on were looked at one after another.
pub open spec fn visited(
    m: PassModel,
    connections: Seq<PeerConnection>,
    own: Seq<char>,
    policy: AcceptPolicy,
    failures: Seq<Option<Seq<char>>>,
    after: PassModel,
) -> bool {
    failures.len() == connections.len() && after == visit_all(m, connections, own, policy, failures)
}

/// A pass that is driven to its end has looked at every connection once, in order.
pub proof fn law_driven_pass_looks_at_each(
    m: PassModel,
    legs: Seq<Seq<char>>,
    connections: Seq<PeerConnection>,
    from: int,
    own: Seq<char>,
    policy: AcceptPolicy,
    failures: Seq<Option<Seq<char>>>,
)
    requires
        0 <= from <= connections.len(),
    ensures
        exists|each: Seq<Option<Seq<char>>>| #[trigger]
            visited(
                m,
                connections.subrange(from, connections.len() as int),
                own,
                policy,
                each,
                driven(m, legs, connections, from, own, policy, failures),
            ),
    decreases connections.len() - from,
{
    let total = connections.len() as int;
    let after = driven(m, legs, connections, from, own, policy, failures);
    let (n, to) = advance(m, legs, connections, from, own, policy);
    law_advance_looks_at_each(m, legs, connections, from, own, policy);
    let none = Seq::new((to - from) as nat, |i: int| None::<Seq<char>>);
    let between = connections.subrange(from, to);
    if to >= total {
        assert(visited(m, between, own, policy, none, after));
    } else {
        let held = if failures[to] is None {
            with(legs, connections[to].connection_id@)
        } else {
            legs
        };
        let next = visit(n, connections[to], own, policy, failures[to]);
        law_driven_pass_looks_at_each(next, held, connections, to + 1, own, policy, failures);
        let later = connections.subrange(to + 1, total);
        let each = choose|each: Seq<Option<Seq<char>>>| #[trigger] visited(next, later, own, policy, each, after);
        lemma_visit_first(n, connections[to], later, own, policy, failures[to], each);
        let rest = seq![connections[to]] + later;
        let rest_each = seq![failures[to]] + each;
        lemma_visit_concat(m, between, rest, own, policy, none, rest_each);
        assert(connections.subrange(from, total) =~= between + rest);
        assert(visited(m, connections.subrange(from, total), own, policy, none + rest_each, after));
    }
}

/// Beyond the events of `m` nobody is said to be unserved, and only peers among
/// `ids` that are not spent are said to be served.
spec fn serves_only(m: PassModel, after: PassModel, ids: Seq<Seq<char>>) -> bool {
    forall|i: int|
        m.events.len() <= i < after.events.len() ==> {
            &&& !((#[trigger] after.events[i]) is Unbound)
            &&& after.events[i] matches EventView::Bound { connection_id, .. } ==> ids.contains(connection_id)
                && !m.spent.contains(connection_id)
        }
}

proof fn lemma_visits_serve_only(
    m: PassModel,
    connections: Seq<PeerConnection>,
    own: Seq<char>,
    policy: AcceptPolicy,
    failures: Seq<Option<Seq<char>>>,
)
    ensures
        serves_only(m, visit_all(m, connections, own, policy, failures), connection_ids(connections)),
        visit_all(m, connections, own, policy, failures).spent == m.spent,
        forall|id: Seq<char>| #[trigger]
            visit_all(m, connections, own, policy, failures).bound.contains(id) ==> m.bound.contains(id)
                || connection_ids(connections).contains(id),
    decreases connections.len(),
{
    if connections.len() > 0 {
        let rest = connections.drop_last();
        let ids = connection_ids(connections);
        let before = visit_all(m, rest, own, policy, failures);
        let after = visit_all(m, connections, own, policy, failures);
        let id = connections.last().connection_id@;
        lemma_visits_serve_only(m, rest, own, policy, failures);
        assert(ids =~= connection_ids(rest).push(id));
        lemma_push(connection_ids(rest), id);
        lemma_push(before.bound, id);
        assert(ids.contains(id));
        assert forall|i: int| m.events.len() <= i < after.events.len() implies {
            &&& !((#[trigger] after.events[i]) is Unbound)
            &&& after.events[i] matches EventView::Bound { connection_id, .. } ==> ids.contains(connection_id)
                && !m.spent.contains(connection_id)
        } by {
            if i < before.events.len() {
                assert(after.events[i] == before.events[i]);
                if let EventView::Bound { connection_id, .. } = before.events[i] {
                    assert(connection_ids(rest).contains(connection_id));
                }
            }
        }
        assert forall|x: Seq<char>| #[trigger] after.bound.contains(x) implies m.bound.contains(x) || ids.contains(x) by {
            if before.bound.contains(x) && !m.bound.contains(x) {
                assert(connection_ids(rest).contains(x));
            }
        }
    }
}

proof fn lemma_ended_events(m: PassModel, ended: Seq<Seq<char>>)
    ensures
        after_ended(m, ended).events == m.events + unbound(ended),
    decreases ended.len(),
{
    if ended.len() > 0 {
        lemma_ended_events(m, ended.drop_last());
        assert(m.events + unbound(ended) =~= (m.events + unbound(ended.drop_last())).push(
            EventView::Unbound { connection_id: ended.last() },
        ));
    } else {
        assert(m.events + unbound(ended) =~= m.events);
    }
}

/// Two events that say that a peer is no longer served are about two peers.
pub open spec fn unbound_once(events: Seq<EventView>) -> bool {
    forall|i: int, j: int|
        0 <= i < j < events.len() && (#[trigger] events[i]) is Unbound && (#[trigger] events[j]) is Unbound
            ==> events[i]->Unbound_connection_id != events[j]->Unbound_connection_id
}

/// Nobody of this id is said to be served.
pub open spec fn never_bound(events: Seq<EventView>, id: Seq<char>) -> bool {
    forall|i: int|
        0 <= i < events.len() ==> ((#[trigger] events[i]) matches EventView::Bound { connection_id, .. } ==> connection_id
            != id)
}

/// What holds after a whole pass, however opening the legs goes: served and
/// spent peers are apart, all of them are listed, and no more are served than
/// there is room for. Nobody whose leg ended, or who was spent before or is
/// afterwards, is said to be served, and nobody is said twice to be served no
/// more.
pub proof fn law_whole_pass(
    bound: Seq<Seq<char>>,
    spent: Seq<Seq<char>>,
    truncated: bool,
    ended: Seq<Seq<char>>,
    legs: Seq<Seq<char>>,
    connections: Seq<PeerConnection>,
    own: Seq<char>,
    policy: AcceptPolicy,
    failures: Seq<Option<Seq<char>>>,
)
    requires
        apart(bound, spent),
        bound.len() <= MAX_CONCURRENT_PEERS,
        ended.no_duplicates(),
    ensures
        ({
            let live = connection_ids(connections);
            let m = begun(bound, spent, truncated, ended, live);
            let after = driven(m, legs, connections, 0, own, policy, failures);
            &&& apart(after.bound, after.spent)
            &&& after.bound.len() <= MAX_CONCURRENT_PEERS
            &&& forall|id: Seq<char>| #[trigger] after.bound.contains(id) ==> live.contains(id)
            &&& forall|id: Seq<char>| #[trigger] after.spent.contains(id) ==> live.contains(id)
            &&& forall|id: Seq<char>|
                spent.contains(id) || ended.contains(id) || after.spent.contains(id) ==> #[trigger] never_bound(
                    after.events,
                    id,
                )
            &&& unbound_once(after.events)
        }),
{
    let live = connection_ids(connections);
    let m = begun(bound, spent, truncated, ended, live);
    let after = driven(m, legs, connections, 0, own, policy, failures);
    law_pass_begins_apart(bound, spent, truncated, ended, live);
    law_driven_pass_looks_at_each(m, legs, connections, 0, own, policy, failures);
    assert(connections.subrange(0, connections.len() as int) =~= connections);
    let each = choose|each: Seq<Option<Seq<char>>>| #[trigger] visited(m, connections, own, policy, each, after);
    law_pass_displaces_nobody(m, connections, own, policy, each);
    lemma_visits_serve_only(m, connections, own, policy, each);
    let told = if truncated {
        seq![EventView::Truncated]
    } else {
        seq![]
    };
    let first = PassModel { bound, spent, events: told };
    lemma_ended_events(first, ended);
    lemma_after_ended(first, ended);
    let n = after_ended(first, ended);
    lemma_among(n.bound, live);
    let gone = not_among(n.bound, live);
    assert(m.events == told + unbound(ended) + unbound(gone));
    let a = told.len() as int;
    let b = a + ended.len();
    assert forall|i: int, j: int|
        0 <= i < j < after.events.len() && (#[trigger] after.events[i]) is Unbound && (#[trigger] after.events[j]) is Unbound
        implies after.events[i]->Unbound_connection_id != after.events[j]->Unbound_connection_id by {
        assert(j < m.events.len());
        assert(after.events[i] == m.events[i] && after.events[j] == m.events[j]);
        assert(i >= a);
        let x = if i < b {
            ended[i - a]
        } else {
            gone[i - b]
        };
        let y = if j < b {
            ended[j - a]
        } else {
            gone[j - b]
        };
        assert(m.events[i] == EventView::Unbound { connection_id: x });
        assert(m.events[j] == EventView::Unbound { connection_id: y });
        if i < b && j >= b {
            assert(ended.contains(x));
            assert(gone.contains(y));
            assert(n.bound.contains(y));
        }
    }
    assert forall|id: Seq<char>|
        spent.contains(id) || ended.contains(id) || after.spent.contains(id) implies #[trigger] never_bound(
        after.events,
        id,
    ) by {
        assert forall|i: int| 0 <= i < after.events.len() implies ((#[trigger] after.events[i]) matches EventView::Bound {
            connection_id,
            ..
        } ==> connection_id != id) by {
            if i < m.events.len() {
                assert(after.events[i] == m.events[i]);
            } else if let EventView::Bound { connection_id, .. } = after.events[i] {
                assert(live.contains(connection_id));
                if connection_id == id {
                    assert(live.contains(id));
                    if ended.contains(id) {
                        assert(m.spent.contains(id));
                    } else if spent.contains(id) {
                        assert(m.spent.contains(id));
                    } else {
                        assert(after.spent.contains(id));
                        assert(m.spent.contains(id));
                    }
                }
            }
        }
    }
}

/// Where each forwarding address of this machine leads: which leg carries it.
pub struct LegDirectory<L> {
    entries: Vec<(SocketAddr, L)>,
}

impl<L> LegDirectory<L> {
    /// The directory as a map.
    pub closed spec fn view(self) -> Map<SocketAddr, L> {
        Map::new(
            |addr: SocketAddr| exists|i: int| 0 <= i < self.entries@.len() && self.entries@[i].0 == addr,
            |addr: SocketAddr|
                self.entries@[choose|i: int| 0 <= i < self.entries@.len() && self.entries@[i].0 == addr].1,
        )
    }

    /// No address leads two ways.
    pub closed spec fn wf(self) -> bool {
        forall|i: int, j: int|
            0 <= i < j < self.entries@.len() ==> (#[trigger] self.entries@[i]).0 != (#[trigger] self.entries@[j]).0
    }

    /// No addresses.
    pub fn new() -> (d: Self)
        ensures
            d.wf(),
            d.view() == Map::<SocketAddr, L>::empty(),
    {
        let d = LegDirectory { entries: Vec::new() };
        proof {
            assert(d.view() =~= Map::<SocketAddr, L>::empty());
        }
        d
    }

    fn find(&self, addr: SocketAddr) -> (r: Option<usize>)
        requires
            self.wf(),
        ensures
            match r {
                Some(i) => i < self.entries@.len() && self.entries@[i as int].0 == addr && self.view().contains_key(addr)
                    && self.view()[addr] == self.entries@[i as int].1,
                None => !self.view().contains_key(addr) && forall|i: int|
                    0 <= i < self.entries@.len() ==> (#[trigger] self.entries@[i]).0 != addr,
            },
    {
        let mut i: usize = 0;
        while i < self.entries.len()
            invariant
                self.wf(),
                i <= self.entries@.len(),
                forall|j: int| 0 <= j < i ==> (#[trigger] self.entries@[j]).0 != addr,
            decreases self.entries@.len() - i,
        {
            if self.entries[i].0 == addr {
                proof {
                    assert(self.entries@[i as int].0 == addr);
                    let k = choose|k: int| 0 <= k < self.entries@.len() && self.entries@[k].0 == addr;
                    assert(k == i);
                }
                return Some(i);
            }
            i = i + 1;
        }
        None
    }

    /// The leg that carries what comes from `peer`.
    pub fn leg_for(&self, peer: SocketAddr) -> (r: Option<&L>)
        requires
            self.wf(),
        ensures
            match r {
                Some(leg) => self.view().contains_key(peer) && *leg == self.view()[peer],
                None => !self.view().contains_key(peer),
            },
    {
        match self.find(peer) {
            Some(i) => Some(&self.entries[i].1),
            None => None,
        }
    }

    /// Note that `forwarding` leads to `leg`.
    pub fn attach(&mut self, forwarding: SocketAddr, leg: L)
        requires
            old(self).wf(),
        ensures
            final(self).wf(),
            final(self).view() == old(self).view().insert(forwarding, leg),
    {
        match self.find(forwarding) {
            Some(i) => {
                self.entries.set(i, (forwarding, leg));
                proof {
                    lemma_entries_view(*self);
                    lemma_entries_view(*old(self));
                    assert(self.view() =~= old(self).view().insert(forwarding, leg)) by {
                        assert forall|a: SocketAddr| #[trigger] self.view().contains_key(a) <==> old(
                            self,
                        ).view().insert(forwarding, leg).contains_key(a) by {
                            if self.view().contains_key(a) {
                                let k = choose|k: int| 0 <= k < self.entries@.len() && self.entries@[k].0 == a;
                                assert(old(self).entries@[k].0 == a);
                            }
                            if old(self).view().contains_key(a) {
                                let k = choose|k: int| 0 <= k < old(self).entries@.len() && old(self).entries@[k].0 == a;
                                assert(self.entries@[k].0 == a);
                            }
                            assert(self.entries@[i as int].0 == forwarding);
                        }
                        assert forall|a: SocketAddr| #[trigger] self.view().contains_key(a) implies self.view()[a] == old(
                            self,
                        ).view().insert(forwarding, leg)[a] by {
                            let k = choose|k: int| 0 <= k < self.entries@.len() && self.entries@[k].0 == a;
                            assert(old(self).entries@[k].0 == a);
                        }
                    }
                }
            },
            None => {
                self.entries.push((forwarding, leg));
                proof {
                    let n = old(self).entries@.len() as int;
                    assert(self.entries@[n] == (forwarding, leg));
                    assert(forall|k: int| 0 <= k < n ==> self.entries@[k] == old(self).entries@[k]);
                    lemma_entries_view(*self);
                    lemma_entries_view(*old(self));
                    assert(self.view() =~= old(self).view().insert(forwarding, leg)) by {
                        assert forall|a: SocketAddr| #[trigger] self.view().contains_key(a) <==> old(
                            self,
                        ).view().insert(forwarding, leg).contains_key(a) by {
                            if self.view().contains_key(a) {
                                let k = choose|k: int| 0 <= k < self.entries@.len() && self.entries@[k].0 == a;
                                if k < n {
                                    assert(old(self).entries@[k].0 == a);
                                }
                            }
                            if old(self).view().contains_key(a) {
                                let k = choose|k: int| 0 <= k < old(self).entries@.len() && old(self).entries@[k].0 == a;
                                assert(self.entries@[k].0 == a);
                            }
                        }
                        assert forall|a: SocketAddr| #[trigger] self.view().contains_key(a) implies self.view()[a] == old(
                            self,
                        ).view().insert(forwarding, leg)[a] by {
                            let k = choose|k: int| 0 <= k < self.entries@.len() && self.entries@[k].0 == a;
                            if k < n {
                                assert(old(self).entries@[k].0 == a);
                            }
                        }
                    }
                }
            },
        }
    }

    fn detach_one(&mut self, forwarding: SocketAddr)
        requires
            old(self).wf(),
        ensures
            final(self).wf(),
            final(self).view() == old(self).view().remove(forwarding),
    {
        match self.find(forwarding) {
            Some(i) => {
                self.entries.remove(i);
                proof {
                    let before = old(self).entries@;
                    let after = self.entries@;
                    assert(forall|k: int| 0 <= k < i ==> after[k] == before[k]);
                    assert(forall|k: int| i <= k < after.len() ==> after[k] == before[k + 1]);
                    lemma_entries_view(*self);
                    lemma_entries_view(*old(self));
                    assert(self.view() =~= old(self).view().remove(forwarding)) by {
                        assert forall|a: SocketAddr| #[trigger] self.view().contains_key(a) <==> old(
                            self,
                        ).view().remove(forwarding).contains_key(a) by {
                            if self.view().contains_key(a) {
                                let k = choose|k: int| 0 <= k < after.len() && after[k].0 == a;
                                let j = if k < i {
                                    k
                                } else {
                                    k + 1
                                };
                                assert(before[j].0 == a);
                                assert(before[i as int].0 == forwarding);
                            }
                            if old(self).view().contains_key(a) && a != forwarding {
                                let j = choose|j: int| 0 <= j < before.len() && before[j].0 == a;
                                let k = if j < i {
                                    j
                                } else {
                                    j - 1
                                };
                                assert(after[k].0 == a);
                            }
                        }
                        assert forall|a: SocketAddr| #[trigger] self.view().contains_key(a) implies self.view()[a] == old(
                            self,
                        ).view().remove(forwarding)[a] by {
                            let k = choose|k: int| 0 <= k < after.len() && after[k].0 == a;
                            let j = if k < i {
                                k
                            } else {
                                k + 1
                            };
                            assert(before[j].0 == a);
                        }
                    }
                }
            },
            None => {
                proof {
                    assert(self.view() =~= old(self).view().remove(forwarding));
                }
            },
        }
    }

    /// Forget where each of `forwarding` leads.
    pub fn detach(&mut self, forwarding: &Vec<SocketAddr>)
        requires
            old(self).wf(),
        ensures
            final(self).wf(),
            final(self).view() == old(self).view().remove_keys(forwarding@.to_set()),
    {
        let mut i: usize = 0;
        proof {
            assert(forwarding@.take(0).to_set() =~= Set::<SocketAddr>::empty());
            assert(self.view().remove_keys(Set::<SocketAddr>::empty()) =~= self.view());
        }
        while i < forwarding.len()
            invariant
                i <= forwarding@.len(),
                self.wf(),
                self.view() == old(self).view().remove_keys(forwarding@.take(i as int).to_set()),
            decreases forwarding@.len() - i,
        {
            self.detach_one(forwarding[i]);
            proof {
                let one = forwarding@.take(i as int);
                let two = forwarding@.take(i + 1);
                assert(two =~= one.push(forwarding@[i as int]));
                assert(two.to_set() =~= one.to_set().insert(forwarding@[i as int])) by {
                    assert forall|a: SocketAddr| two.to_set().contains(a) <==> one.to_set().insert(
                        forwarding@[i as int],
                    ).contains(a) by {
                        if one.contains(a) {
                            let k = choose|k: int| 0 <= k < one.len() && one[k] == a;
                            assert(two[k] == a);
                        }
                        assert(two[i as int] == forwarding@[i as int]);
                    }
                }
                assert(self.view() =~= old(self).view().remove_keys(two.to_set()));
            }
            i = i + 1;
        }
        proof {
            assert(forwarding@.take(i as int) =~= forwarding@);
        }
    }

    /// How many addresses lead somewhere.
    pub fn claimed(&self) -> (n: usize)
        requires
            self.wf(),
        ensures
            n == self.view().dom().len(),
            self.view().dom().finite(),
    {
        proof {
            lemma_entries_view(*self);
            lemma_entries_count(self.entries@, self.view().dom());
        }
        self.entries.len()
    }
}

proof fn lemma_entries_view<L>(d: LegDirectory<L>)
    requires
        d.wf(),
    ensures
        forall|i: int|
            0 <= i < d.entries@.len() ==> d.view().contains_key((#[trigger] d.entries@[i]).0) && d.view()[d.entries@[i].0]
                == d.entries@[i].1,
        forall|a: SocketAddr| #[trigger]
            d.view().contains_key(a) ==> exists|i: int| 0 <= i < d.entries@.len() && d.entries@[i].0 == a,
{
    assert forall|i: int| 0 <= i < d.entries@.len() implies d.view().contains_key((#[trigger] d.entries@[i]).0)
        && d.view()[d.entries@[i].0] == d.entries@[i].1 by {
        let a = d.entries@[i].0;
        let k = choose|k: int| 0 <= k < d.entries@.len() && d.entries@[k].0 == a;
        assert(k == i);
    }
}

proof fn lemma_entries_count<L>(entries: Seq<(SocketAddr, L)>, dom: Set<SocketAddr>)
    requires
        forall|i: int, j: int| 0 <= i < j < entries.len() ==> (#[trigger] entries[i]).0 != (#[trigger] entries[j]).0,
        forall|a: SocketAddr| #[trigger] dom.contains(a) <==> exists|i: int| 0 <= i < entries.len() && entries[i].0 == a,
    ensures
        dom.finite(),
        dom.len() == entries.len(),
    decreases entries.len(),
{
    if entries.len() == 0 {
        assert(dom =~= Set::<SocketAddr>::empty());
    } else {
        let rest = entries.drop_last();
        let last = entries.last().0;
        let fewer = dom.remove(last);
        assert(entries[entries.len() - 1].0 == last);
        assert(dom.contains(last));
        assert forall|a: SocketAddr| #[trigger] fewer.contains(a) <==> exists|i: int|
            0 <= i < rest.len() && rest[i].0 == a by {
            if fewer.contains(a) {
                let i = choose|i: int| 0 <= i < entries.len() && entries[i].0 == a;
                assert(rest[i].0 == a);
            }
            if exists|i: int| 0 <= i < rest.len() && rest[i].0 == a {
                let i = choose|i: int| 0 <= i < rest.len() && rest[i].0 == a;
                assert(entries[i].0 == a);
                assert(entries[i].0 != entries[entries.len() - 1].0);
            }
        }
        lemma_entries_count(rest, fewer);
        assert(dom =~= fewer.insert(last));
    }
}

/// Pass on what a leg reports; returns whether the leg may report more.
///
/// A leg that reports nothing yet leaves the address in force as it is.
pub fn republish_observed(leg: Option<ObservedAddress>, out: &mut Option<ObservedAddress>, changed_ok: bool) -> (more: bool)
    ensures
        more == changed_ok,
        *final(out) == (if changed_ok && leg is Some {
            leg
        } else {
            *old(out)
        }),
{
    if !changed_ok {
        return false;
    }
    if leg.is_some() {
        *out = leg;
    }
    true
}

/// What a bind session reports.
#[derive(Debug)]
pub enum BindEvent {
    /// A peer is reaching the leg, and is forwarded from this address.
    NewRemoteHost(SocketAddr),
    /// Something that changes nothing here.
    Other,
    /// The leg's address was reported, or (`ok` false) never will be again.
    LegChanged { leg: Option<ObservedAddress>, ok: bool },
}

/// The state of one bind session.
pub struct BindDriver {
    /// The addresses that its peers are forwarded from.
    pub forwarding: Vec<SocketAddr>,
    /// Whether the leg may report its address again.
    pub leg_open: bool,
}

impl BindDriver {
    /// A session that has reported nothing.
    pub fn new() -> (d: Self)
        ensures
            d.forwarding@.len() == 0,
            d.leg_open,
    {
        BindDriver { forwarding: Vec::new(), leg_open: true }
    }

    /// Take note of a report; `leg` is the session's own leg.
    pub fn event<L>(
        &mut self,
        event: BindEvent,
        leg: L,
        legs: &mut LegDirectory<L>,
        out: &mut Option<ObservedAddress>,
    )
        requires
            old(legs).wf(),
        ensures
            final(legs).wf(),
            match event {
                BindEvent::NewRemoteHost(socket) => {
                    &&& final(legs).view() == old(legs).view().insert(socket, leg)
                    &&& final(self).forwarding@ == old(self).forwarding@.push(socket)
                    &&& final(self).leg_open == old(self).leg_open
                    &&& *final(out) == *old(out)
                },
                BindEvent::Other => {
                    &&& final(legs).view() == old(legs).view()
                    &&& final(self).forwarding@ == old(self).forwarding@
                    &&& final(self).leg_open == old(self).leg_open
                    &&& *final(out) == *old(out)
                },
                BindEvent::LegChanged { leg: report, ok } => {
                    &&& final(legs).view() == old(legs).view()
                    &&& final(self).forwarding@ == old(self).forwarding@
                    &&& final(self).leg_open == ok
                    &&& *final(out) == (if ok && report is Some {
                        report
                    } else {
                        *old(out)
                    })
                },
            },
    {
        match event {
            BindEvent::NewRemoteHost(socket) => {
                legs.attach(socket, leg);
                self.forwarding.push(socket);
            },
            BindEvent::Other => {},
            BindEvent::LegChanged { leg: report, ok } => {
                self.leg_open = republish_observed(report, out, ok);
            },
        }
    }

    /// The session is over: its addresses lead nowhere.
    pub fn finish<L>(&self, legs: &mut LegDirectory<L>)
        requires
            old(legs).wf(),
        ensures
            final(legs).wf(),
            final(legs).view() == old(legs).view().remove_keys(self.forwarding@.to_set()),
    {
        legs.detach(&self.forwarding);
    }
}

/// A record is to be renewed exactly where its peer is served and a leg of it
/// has carried something since last asked, however much was noted before.
pub proof fn law_renewed_exactly_where_traffic_came(legs: Seq<Leg>, bound: Seq<Seq<char>>, id: Seq<char>)
    ensures
        renewing_spec(legs, bound).contains(id) <==> bound.contains(id) && exists|i: int|
            0 <= i < legs.len() && (#[trigger] legs[i]).connection_id@ == id && legs[i].guard.inbound != legs[i].guard.seen,
    decreases legs.len(),
{
    if legs.len() > 0 {
        let rest = legs.drop_last();
        let leg = legs.last();
        let n = legs.len() - 1;
        law_renewed_exactly_where_traffic_came(rest, bound, id);
        lemma_push(renewing_spec(rest, bound), leg.connection_id@);
        if renewing_spec(legs, bound).contains(id) {
            if renewing_spec(rest, bound).contains(id) {
                let i = choose|i: int|
                    0 <= i < rest.len() && (#[trigger] rest[i]).connection_id@ == id && rest[i].guard.inbound
                        != rest[i].guard.seen;
                assert(legs[i] == rest[i]);
            } else {
                assert(legs[n].connection_id@ == id && legs[n].guard.inbound != legs[n].guard.seen);
            }
        }
        if bound.contains(id) && exists|i: int|
            0 <= i < legs.len() && (#[trigger] legs[i]).connection_id@ == id && legs[i].guard.inbound != legs[i].guard.seen {
            let i = choose|i: int|
                0 <= i < legs.len() && (#[trigger] legs[i]).connection_id@ == id && legs[i].guard.inbound
                    != legs[i].guard.seen;
            if i < n {
                assert(rest[i] == legs[i]);
            }
        }
    }
}

/// Asked twice, with `later` the legs as the first question left them but for
/// what has arrived since: a served peer is renewed the second time exactly
/// where more has arrived on a leg of it in between. So a peer that sends on
/// and on is renewed every time, and one that fell silent is not.
pub proof fn law_silence_is_not_renewed_and_traffic_is(
    legs: Seq<Leg>,
    later: Seq<Leg>,
    bound: Seq<Seq<char>>,
    id: Seq<char>,
)
    requires
        bound.contains(id),
        later.len() == legs.len(),
        forall|i: int|
            0 <= i < legs.len() ==> (#[trigger] later[i]).connection_id == legs[i].connection_id && later[i].guard.seen
                == noted_spec(legs, bound)[i].guard.seen,
    ensures
        renewing_spec(later, bound).contains(id) <==> exists|i: int|
            0 <= i < legs.len() && (#[trigger] later[i]).connection_id@ == id && later[i].guard.inbound
                != legs[i].guard.inbound,
        forall|i: int|
            0 <= i < legs.len() ==> {
                &&& (#[trigger] noted_spec(legs, bound)[i]).connection_id == legs[i].connection_id
                &&& noted_spec(legs, bound)[i].guard.inbound == legs[i].guard.inbound
                &&& !bound.contains(legs[i].connection_id@) ==> noted_spec(legs, bound)[i] == legs[i]
            },
        noted_spec(legs, bound).len() == legs.len(),
{
    law_renewed_exactly_where_traffic_came(later, bound, id);
    if renewing_spec(later, bound).contains(id) {
        let i = choose|i: int|
            0 <= i < later.len() && (#[trigger] later[i]).connection_id@ == id && later[i].guard.inbound
                != later[i].guard.seen;
        assert(later[i].guard.inbound != legs[i].guard.inbound);
    }
    if exists|i: int|
        0 <= i < legs.len() && (#[trigger] later[i]).connection_id@ == id && later[i].guard.inbound
            != legs[i].guard.inbound {
        let i = choose|i: int|
            0 <= i < legs.len() && (#[trigger] later[i]).connection_id@ == id && later[i].guard.inbound
                != legs[i].guard.inbound;
        assert(later[i].guard.inbound != later[i].guard.seen);
    }
}

/// The peers to renew come in the order of their legs, each leg by itself.
pub proof fn law_renewals_go_leg_by_leg(legs: Seq<Leg>, leg: Leg, bound: Seq<Seq<char>>)
    ensures
        renewing_spec(legs.push(leg), bound) == renewing_spec(legs, bound) + renewing_spec(seq![leg], bound),
        renewing_spec(seq![leg], bound).len() <= 1,
        renewing_spec(Seq::<Leg>::empty(), bound).len() == 0,
{
    reveal_with_fuel(renewing_spec, 2);
    assert(legs.push(leg).drop_last() =~= legs);
    assert(seq![leg].drop_last() =~= Seq::<Leg>::empty());
    assert(renewing_spec(legs.push(leg), bound) =~= renewing_spec(legs, bound) + renewing_spec(seq![leg], bound));
}

/// Taking legs down by their connections takes those and no others, and
/// leaves the rest as they are and in order.
pub proof fn law_legs_are_taken_down_by_connection(legs: Seq<Leg>, leg: Leg, ids: Seq<Seq<char>>)
    ensures
        ids.contains(leg.connection_id@) ==> legs_without(legs.push(leg), ids) == legs_without(legs, ids),
        !ids.contains(leg.connection_id@) ==> legs_without(legs.push(leg), ids) == legs_without(legs, ids).push(leg),
        legs_without(Seq::<Leg>::empty(), ids).len() == 0,
        forall|i: int|
            0 <= i < legs_without(legs, ids).len() ==> legs.contains(#[trigger] legs_without(legs, ids)[i]) && !ids.contains(
                legs_without(legs, ids)[i].connection_id@,
            ),
        forall|i: int|
            0 <= i < legs.len() && !ids.contains((#[trigger] legs[i]).connection_id@) ==> legs_without(legs, ids).contains(
                legs[i],
            ),
    decreases legs.len(),
{
    assert(legs.push(leg).drop_last() =~= legs);
    if legs.len() > 0 {
        let rest = legs.drop_last();
        let last = legs.last();
        let all = legs_without(legs, ids);
        let most = legs_without(rest, ids);
        law_legs_are_taken_down_by_connection(rest, last, ids);
        assert(rest.push(last) =~= legs);
        assert forall|i: int| 0 <= i < all.len() implies legs.contains(#[trigger] all[i]) && !ids.contains(
            all[i].connection_id@,
        ) by {
            if i < most.len() {
                assert(all[i] == most[i]);
                assert(rest.contains(most[i]));
                let j = choose|j: int| 0 <= j < rest.len() && rest[j] == most[i];
                assert(legs[j] == all[i]);
            } else {
                assert(legs[legs.len() - 1] == all[i]);
            }
        }
        assert forall|i: int| 0 <= i < legs.len() && !ids.contains((#[trigger] legs[i]).connection_id@) implies all.contains(
            legs[i],
        ) by {
            if i < rest.len() {
                assert(rest[i] == legs[i]);
                assert(most.contains(rest[i]));
                let j = choose|j: int| 0 <= j < most.len() && most[j] == legs[i];
                assert(all[j] == legs[i]);
            } else {
                assert(all[all.len() - 1] == legs[i]);
            }
        }
    }
}

/// Looking at one listed connection: nobody but its peer can come to be
/// served, and it comes to be served exactly where it is new, the policy does
/// not ask first, fewer than eight are served and its leg opens. Whatever is
/// told is told of this connection, and of the party of it that is not
/// oneself.
pub proof fn law_look_at_one_connection(
    m: PassModel,
    connection: PeerConnection,
    own: Seq<char>,
    policy: AcceptPolicy,
    failure: Option<Seq<char>>,
)
    ensures
        ({
            let id = connection.connection_id@;
            let known = m.bound.contains(id) || m.spent.contains(id);
            let after = visit(m, connection, own, policy, failure);
            let told = after.events.last();
            let name = match (connection.initiator_endpoint, connection.target_endpoint) {
                (Some(a), _) if a@ != own => a@,
                (_, Some(b)) if b@ != own => b@,
                _ => "unknown"@,
            };
            &&& after.spent == m.spent
            &&& forall|x: Seq<char>| #[trigger]
                after.bound.contains(x) <==> m.bound.contains(x) || (x == id && !known && policy != AcceptPolicy::Manual
                    && m.bound.len() < 8 && failure is None)
            &&& m.bound.is_prefix_of(after.bound)
            &&& known ==> after.events == m.events
            &&& !known ==> {
                &&& after.events == m.events.push(told)
                &&& told is Waiting <==> policy == AcceptPolicy::Manual
                &&& told is AtCapacity <==> policy != AcceptPolicy::Manual && m.bound.len() >= 8
                &&& told is BindFailed <==> policy != AcceptPolicy::Manual && m.bound.len() < 8 && failure is Some
                &&& told is Bound <==> policy != AcceptPolicy::Manual && m.bound.len() < 8 && failure is None
                &&& match told {
                    EventView::Waiting { connection_id, peer_endpoint } => connection_id == id && peer_endpoint == name,
                    EventView::AtCapacity { connection_id, peer_endpoint } => connection_id == id && peer_endpoint == name,
                    EventView::Bound { connection_id, peer_endpoint } => connection_id == id && peer_endpoint == name,
                    EventView::BindFailed { connection_id, error } => connection_id == id && failure == Some(error),
                    _ => false,
                }
            }
        }),
{
    lemma_push(m.bound, connection.connection_id@);
}

/// How a pass begins: those stay served whose leg has not ended and whom the
/// proxy still lists; those are not to be served again that were not before or
/// whose leg ended, for as long as they are listed. Told is, in this order,
/// that the listing is cut short, each leg that ended, and each served peer
/// that is listed no more.
pub proof fn law_pass_begins_with_what_is_left(
    bound: Seq<Seq<char>>,
    spent: Seq<Seq<char>>,
    truncated: bool,
    ended: Seq<Seq<char>>,
    live: Seq<Seq<char>>,
)
    requires
        apart(bound, spent),
    ensures
        ({
            let m = begun(bound, spent, truncated, ended, live);
            let first: int = if truncated {
                1
            } else {
                0
            };
            &&& forall|id: Seq<char>| #[trigger]
                m.bound.contains(id) <==> bound.contains(id) && !ended.contains(id) && live.contains(id)
            &&& forall|id: Seq<char>| #[trigger]
                m.spent.contains(id) <==> (spent.contains(id) || ended.contains(id)) && live.contains(id)
            &&& m.events.len() >= first + ended.len()
            &&& truncated ==> m.events[0] == EventView::Truncated
            &&& forall|i: int|
                0 <= i < ended.len() ==> #[trigger] m.events[first + i] == (EventView::Unbound { connection_id: ended[i] })
            &&& forall|i: int|
                first + ended.len() <= i < m.events.len() ==> ((#[trigger] m.events[i]) matches EventView::Unbound {
                    connection_id,
                } && bound.contains(connection_id) && !live.contains(connection_id) && !ended.contains(connection_id))
            &&& forall|id: Seq<char>|
                #[trigger] bound.contains(id) && !live.contains(id) && !ended.contains(id) ==> m.events.contains(
                    EventView::Unbound { connection_id: id },
                )
        }),
{
    let told = if truncated {
        seq![EventView::Truncated]
    } else {
        seq![]
    };
    let start = PassModel { bound, spent, events: told };
    lemma_ended_events(start, ended);
    lemma_after_ended(start, ended);
    let n = after_ended(start, ended);
    lemma_among(n.bound, live);
    lemma_among(n.spent, live);
    let gone = not_among(n.bound, live);
    let m = begun(bound, spent, truncated, ended, live);
    assert(m.events == told + unbound(ended) + unbound(gone));
    let c = told.len() + ended.len();
    assert forall|i: int| 0 <= i < ended.len() implies #[trigger] m.events[told.len() + i] == (EventView::Unbound {
        connection_id: ended[i],
    }) by {
        assert(unbound(ended)[i] == (EventView::Unbound { connection_id: ended[i] }));
    }
    assert forall|i: int| c <= i < m.events.len() implies ((#[trigger] m.events[i]) matches EventView::Unbound {
        connection_id,
    } && bound.contains(connection_id) && !live.contains(connection_id) && !ended.contains(connection_id)) by {
        assert(m.events[i] == unbound(gone)[i - c]);
        assert(gone.contains(gone[i - c]));
    }
    assert forall|id: Seq<char>| #[trigger] bound.contains(id) && !live.contains(id) && !ended.contains(id) implies m.events.contains(
        EventView::Unbound { connection_id: id }) by {
        assert(n.bound.contains(id));
        assert(gone.contains(id));
        let k = choose|k: int| 0 <= k < gone.len() && gone[k] == id;
        assert(m.events[c + k] == (EventView::Unbound { connection_id: id }));
    }
}

/// Connections and legs go by their own ids, each in its place, and events say
/// what they are about.
pub proof fn law_ids_and_events_are_their_own(
    connections: Seq<PeerConnection>,
    legs: Seq<Leg>,
    events: Seq<SignalingEvent>,
    i: int,
)
    ensures
        connection_ids(connections).len() == connections.len(),
        0 <= i < connections.len() ==> connection_ids(connections)[i] == connections[i].connection_id@,
        leg_ids(legs).len() == legs.len(),
        0 <= i < legs.len() ==> leg_ids(legs)[i] == legs[i].connection_id@,
        event_views(events).len() == events.len(),
        0 <= i < events.len() ==> match (events[i], event_views(events)[i]) {
            (
                SignalingEvent::Bound { connection_id: a, peer_endpoint: b },
                EventView::Bound { connection_id, peer_endpoint },
            ) => a@ == connection_id && b@ == peer_endpoint,
            (SignalingEvent::Unbound { connection_id: a }, EventView::Unbound { connection_id }) => a@ == connection_id,
            (
                SignalingEvent::AtCapacity { connection_id: a, peer_endpoint: b },
                EventView::AtCapacity { connection_id, peer_endpoint },
            ) => a@ == connection_id && b@ == peer_endpoint,
            (
                SignalingEvent::Waiting { connection_id: a, peer_endpoint: b },
                EventView::Waiting { connection_id, peer_endpoint },
            ) => a@ == connection_id && b@ == peer_endpoint,
            (
                SignalingEvent::BindFailed { connection_id: a, error: b },
                EventView::BindFailed { connection_id, error },
            ) => a@ == connection_id && b@ == error,
            (
                SignalingEvent::RenewFailed { connection_id: a, error: b },
                EventView::RenewFailed { connection_id, error },
            ) => a@ == connection_id && b@ == error,
            (SignalingEvent::Truncated, EventView::Truncated) => true,
            _ => false,
        },
{
}

} // verus!

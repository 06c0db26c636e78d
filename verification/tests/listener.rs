use isekai_p2p::addr::{ObservedAddress, SocketAddr};
use isekai_p2p::listener::{
    forget_gone, republish_observed, AcceptPolicy, BindDriver, BindEvent, BindGuard, LegDirectory, Listing,
    ListenerSession, SignalingEvent, SignalingState, MAX_CONCURRENT_PEERS,
};
use isekai_p2p::proxy::{PeerConnection, ProxyError};

fn conn(id: &str) -> PeerConnection {
    PeerConnection {
        connection_id: id.to_owned(),
        initiator_endpoint: Some("ep:A".to_owned()),
        target_endpoint: Some("ep:B".to_owned()),
        peer_endpoint: None,
        relay: None,
        expires_at: Some("2026-08-02T09:05:00Z".to_owned()),
        updated_at: Some("2026-08-02T09:00:00Z".to_owned()),
        video_host: None,
        video_attestation: None,
    }
}

fn state(bound: &[&str], spent: &[&str]) -> SignalingState {
    let mut state = SignalingState::default();
    for id in bound {
        state.bound.insert((*id).to_owned());
    }
    for id in spent {
        state.spent.insert((*id).to_owned());
    }
    state
}

#[test]
fn the_peer_is_read_from_the_shape_the_listing_actually_sends() {
    let c = conn("conn_1");
    assert_eq!(c.peer_endpoint, None, "the listing does not carry this");
    assert_eq!(c.other_party("ep:B"), Some("ep:A"));
    assert_eq!(c.other_party("ep:A"), Some("ep:B"));
}

#[test]
fn what_the_proxy_stops_listing_is_forgotten_and_reported() {
    let mut state = state(&["conn_gone", "conn_here"], &["conn_dead"]);
    let dropped = forget_gone(&mut state, &vec![conn("conn_here")]);
    assert_eq!(dropped, vec!["conn_gone".to_owned()]);
    assert_eq!(state.bound.len(), 1);
    assert!(state.bound.contains("conn_here"));
    assert_eq!(state.spent.len(), 0, "spent is bounded by the listing too");
}

#[test]
fn forgetting_leaves_everyone_still_listed_alone() {
    let mut state = state(&["conn_a", "conn_b"], &[]);
    let dropped = forget_gone(&mut state, &vec![conn("conn_a"), conn("conn_b")]);
    assert!(dropped.is_empty());
    assert_eq!(state.bound.len(), 2);
    assert_eq!(state.bound(), vec!["conn_a", "conn_b"]);
}

#[test]
fn manual_is_the_only_policy_that_binds_nothing() {
    assert!(AcceptPolicy::Auto.binds_automatically());
    assert!(AcceptPolicy::AutoNotify.binds_automatically());
    assert!(!AcceptPolicy::Manual.binds_automatically());
}

fn addr(port: u16) -> SocketAddr {
    SocketAddr::v4(192, 168, 1, 59, port)
}

fn observed(port: u16) -> ObservedAddress {
    ObservedAddress { local: addr(port), observed: addr(port + 1) }
}

#[test]
fn a_receiver_taken_before_the_first_bind_sees_the_leg_report() {
    let mut session = None;
    assert!(republish_observed(Some(observed(1000)), &mut session, true));
    assert_eq!(session, Some(observed(1000)));
}

#[test]
fn the_watch_survives_a_rebind() {
    let mut session = None;
    republish_observed(Some(observed(1000)), &mut session, true);
    assert_eq!(session, Some(observed(1000)));
    assert!(!republish_observed(Some(observed(1000)), &mut session, false));
    assert_eq!(session, Some(observed(1000)));
    republish_observed(Some(observed(2000)), &mut session, true);
    assert_eq!(session, Some(observed(2000)));
}

#[test]
fn an_empty_leg_report_does_not_clear_the_session_address() {
    let mut session = None;
    republish_observed(Some(observed(1000)), &mut session, true);
    republish_observed(None, &mut session, true);
    assert_eq!(session, Some(observed(1000)));
}

#[test]
fn a_peer_whose_leg_died_is_not_bound_again() {
    let mut state = state(&[], &["conn_b"]);
    let listing = [conn("conn_b"), conn("conn_a")];
    let would_bind: Vec<&str> = listing
        .iter()
        .filter(|c| !state.bound.contains(&c.connection_id) && !state.spent.contains(&c.connection_id))
        .map(|c| c.connection_id.as_str())
        .collect();
    assert_eq!(would_bind, ["conn_a"], "B's leg already died here");
    forget_gone(&mut state, &vec![conn("conn_a")]);
    assert_eq!(state.spent.len(), 0);
}

fn forwarding(port: u16) -> SocketAddr {
    SocketAddr::v4(127, 0, 0, 1, port)
}

#[test]
fn a_connection_is_answered_with_its_own_leg() {
    let mut legs = LegDirectory::new();
    legs.attach(forwarding(40001), observed(1));
    legs.attach(forwarding(40002), observed(2));
    assert_eq!(legs.leg_for(forwarding(40001)).expect("the first leg").local, addr(1));
    assert_eq!(legs.leg_for(forwarding(40002)).expect("the second leg").local, addr(2));
    assert_eq!(legs.claimed(), 2);
}

#[test]
fn an_unknown_address_gets_no_leg() {
    let mut legs = LegDirectory::new();
    legs.attach(forwarding(40001), observed(1));
    assert!(legs.leg_for(forwarding(40009)).is_none());
}

#[test]
fn one_leg_can_answer_to_several_addresses() {
    let mut legs = LegDirectory::new();
    legs.attach(forwarding(40001), observed(7));
    legs.attach(forwarding(40002), observed(7));
    for port in [40001, 40002] {
        assert_eq!(legs.leg_for(forwarding(port)).expect("the leg").local, addr(7));
    }
}

#[test]
fn a_leg_that_ends_stops_answering() {
    let mut legs = LegDirectory::new();
    legs.attach(forwarding(40001), observed(1));
    legs.attach(forwarding(40002), observed(2));
    legs.detach(&vec![forwarding(40001)]);
    assert!(legs.leg_for(forwarding(40001)).is_none());
    assert!(legs.leg_for(forwarding(40002)).is_some(), "the other leg is untouched");
}

#[test]
fn an_address_that_is_attached_again_leads_to_the_new_leg() {
    let mut legs = LegDirectory::new();
    legs.attach(forwarding(1), observed(1));
    legs.attach(forwarding(1), observed(2));
    assert_eq!(legs.leg_for(forwarding(1)).unwrap().local, addr(2));
    assert_eq!(legs.claimed(), 1);
}

#[test]
fn a_bind_session_claims_its_addresses_while_it_lasts() {
    let mut legs = LegDirectory::new();
    let mut out = None;
    let mut driver = BindDriver::new();
    driver.event(BindEvent::NewRemoteHost(forwarding(1)), 'a', &mut legs, &mut out);
    driver.event(BindEvent::NewRemoteHost(forwarding(2)), 'a', &mut legs, &mut out);
    driver.event(BindEvent::Other, 'a', &mut legs, &mut out);
    driver.event(BindEvent::LegChanged { leg: Some(observed(5)), ok: true }, 'a', &mut legs, &mut out);
    assert_eq!(out, Some(observed(5)));
    driver.event(BindEvent::LegChanged { leg: None, ok: false }, 'a', &mut legs, &mut out);
    assert!(!driver.leg_open);
    assert_eq!(legs.leg_for(forwarding(2)), Some(&'a'));
    driver.finish(&mut legs);
    assert_eq!(legs.claimed(), 0);
}

fn leg(datagrams: u64) -> BindGuard {
    BindGuard { inbound: datagrams, seen: 0 }
}

#[test]
fn a_leg_that_has_received_nothing_is_not_claimed() {
    let mut quiet = leg(0);
    assert!(!quiet.carried_traffic());
    assert!(!quiet.carried_traffic(), "and it stays that way");
}

#[test]
fn a_leg_still_receiving_is_claimed_every_pass() {
    let mut busy = leg(1);
    assert!(busy.carried_traffic());
    busy.inbound += 1;
    assert!(busy.carried_traffic());
    busy.inbound += 1;
    assert!(busy.carried_traffic());
}

#[test]
fn a_leg_that_goes_quiet_stops_being_claimed() {
    let mut leg = leg(4_000);
    assert!(leg.carried_traffic(), "still arriving");
    assert!(!leg.carried_traffic(), "nothing since");
    assert!(!leg.carried_traffic());
    leg.inbound += 1;
    assert!(leg.carried_traffic(), "and it recovers if the peer returns");
}

fn shown(event: &SignalingEvent) -> String {
    match event {
        SignalingEvent::Bound { connection_id, peer_endpoint } => format!("bound {connection_id} {peer_endpoint}"),
        SignalingEvent::Unbound { connection_id } => format!("unbound {connection_id}"),
        SignalingEvent::AtCapacity { connection_id, peer_endpoint } => format!("full {connection_id} {peer_endpoint}"),
        SignalingEvent::Waiting { connection_id, peer_endpoint } => format!("waiting {connection_id} {peer_endpoint}"),
        SignalingEvent::BindFailed { connection_id, error } => format!("failed {connection_id} {error}"),
        SignalingEvent::RenewFailed { connection_id, error } => format!("unrenewed {connection_id} {error}"),
        SignalingEvent::Truncated => "truncated".to_owned(),
    }
}

fn pass(
    session: &mut ListenerSession,
    state: &mut SignalingState,
    ids: &[&str],
    ended: &[&str],
    policy: AcceptPolicy,
    opens: &dyn Fn(&str) -> Result<(), String>,
) -> (Vec<String>, Vec<String>) {
    let listing = Listing { connections: ids.iter().map(|id| conn(id)).collect(), truncated: false };
    let ended: Vec<String> = ended.iter().map(|id| (*id).to_owned()).collect();
    let (mut pass, _) = session.begin_poll(state, &listing, &ended);
    let mut opened = Vec::new();
    while let Some(i) = session.poll_signaling(state, &listing, policy, &mut pass) {
        let id = listing.connections[i].connection_id.clone();
        let outcome = opens(&id);
        opened.push(id);
        session.settle(state, &listing, policy, &mut pass, outcome);
    }
    (pass.events.iter().map(shown).collect(), opened)
}

fn listener() -> ListenerSession {
    ListenerSession::new("pl_1".to_owned(), "ep:B".to_owned())
}

#[test]
fn a_pass_serves_newcomers_and_drops_the_gone() {
    let mut session = listener();
    let mut state = SignalingState::default();
    let open = |_: &str| Ok(());
    let (events, opened) = pass(&mut session, &mut state, &["a", "b"], &[], AcceptPolicy::Auto, &open);
    assert_eq!(events, vec!["bound a ep:A", "bound b ep:A"]);
    assert_eq!(opened, vec!["a", "b"]);
    assert!(session.is_bound("a"));
    // a's leg ended, b is no longer listed, c is new and cannot be opened.
    let open = |_: &str| Err("no edge".to_owned());
    let (events, opened) = pass(&mut session, &mut state, &["a", "c"], &["a"], AcceptPolicy::Auto, &open);
    assert_eq!(events, vec!["unbound a", "unbound b", "failed c no edge"]);
    assert_eq!(opened, vec!["c"], "a is not bound again while it is listed");
    assert!(!session.is_bound("a") && !session.is_bound("b"));
    // c is tried again; a is left out until the proxy stops listing it.
    let open = |_: &str| Ok(());
    let (events, _) = pass(&mut session, &mut state, &["a", "c"], &[], AcceptPolicy::Auto, &open);
    assert_eq!(events, vec!["bound c ep:A"]);
    let (events, _) = pass(&mut session, &mut state, &["c"], &[], AcceptPolicy::Auto, &open);
    assert!(events.is_empty());
    let (events, _) = pass(&mut session, &mut state, &["c", "a"], &[], AcceptPolicy::Auto, &open);
    assert_eq!(events, vec!["bound a ep:A"]);
}

#[test]
fn nobody_is_displaced_when_it_is_full() {
    let mut session = listener();
    let mut state = SignalingState::default();
    let open = |_: &str| Ok(());
    let ids = ["a", "b", "c", "d", "e", "f", "g", "h", "i"];
    let (events, opened) = pass(&mut session, &mut state, &ids, &[], AcceptPolicy::AutoNotify, &open);
    assert_eq!(opened.len(), MAX_CONCURRENT_PEERS);
    assert_eq!(events[8], "full i ep:A");
    assert_eq!(state.bound(), &ids[..8]);
}

#[test]
fn under_the_manual_policy_peers_wait() {
    let mut session = listener();
    let mut state = SignalingState::default();
    let open = |_: &str| Ok(());
    let (events, opened) = pass(&mut session, &mut state, &["a"], &[], AcceptPolicy::Manual, &open);
    assert_eq!(events, vec!["waiting a ep:A"]);
    assert!(opened.is_empty());
    // A leg that was opened by hand counts as served.
    session.bind("a");
    let (events, opened) = pass(&mut session, &mut state, &["a"], &[], AcceptPolicy::Auto, &open);
    assert_eq!(events, vec!["bound a ep:A"]);
    assert!(opened.is_empty());
}

#[test]
fn a_listing_that_is_cut_short_is_said_first() {
    let mut session = listener();
    let mut state = state(&["x"], &[]);
    let listing = Listing { connections: vec![PeerConnection { initiator_endpoint: None, ..conn("y") }], truncated: true };
    let (mut pass, gone) = session.begin_poll(&mut state, &listing, &Vec::new());
    assert_eq!(gone, vec!["x"]);
    session.poll_signaling(&mut state, &listing, AcceptPolicy::Manual, &mut pass);
    let events: Vec<String> = pass.events.iter().map(shown).collect();
    assert_eq!(events, vec!["truncated", "unbound x", "waiting y unknown"]);
}

#[test]
fn only_legs_that_carried_traffic_are_renewed() {
    let mut session = listener();
    let mut state = SignalingState::default();
    let open = |_: &str| Ok(());
    pass(&mut session, &mut state, &["a", "b", "c"], &[], AcceptPolicy::Auto, &open);
    assert!(session.renew_connections(&state).is_empty());
    session.binds[0].guard.inbound = 3;
    session.binds[2].guard.inbound = 1;
    assert_eq!(session.renew_connections(&state), vec!["a", "c"]);
    assert!(session.renew_connections(&state).is_empty(), "nothing since");
}

#[test]
fn a_listing_that_fails_changes_nothing() {
    let mut session = ListenerSession::new("pl_1".to_owned(), "ep:B".to_owned());
    session.bind("conn_a");
    let mut held = state(&["conn_a"], &["conn_b"]);
    let ended = vec!["conn_a".to_owned()];
    let failed = session.listed(&mut held, Err(ProxyError::Transport("reset".to_owned())), &ended);
    assert!(matches!(failed, Err(ProxyError::Transport(why)) if why == "reset"));
    assert!(held.bound.contains("conn_a") && held.spent.contains("conn_b") && session.is_bound("conn_a"));
    let listing = Listing { connections: vec![conn("conn_a")], truncated: false };
    let Ok((_, pass, gone)) = session.listed(&mut held, Ok(listing), &ended) else {
        panic!("the listing came");
    };
    assert_eq!(pass.events.len(), 1);
    assert!(matches!(&pass.events[0], SignalingEvent::Unbound { connection_id } if connection_id == "conn_a"));
    assert!(gone.is_empty() && !session.is_bound("conn_a"));
    assert!(held.spent.contains("conn_a") && !held.spent.contains("conn_b") && held.bound.len() == 0);
}

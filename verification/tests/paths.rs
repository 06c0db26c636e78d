use isekai_p2p::addr::{ObservedAddress, SocketAddr};
use isekai_p2p::direct_path::{
    advertise, leg_of, prefer_path, preference_for, prepare, settle_path, Advertisement, DirectPaths, LegLookup, PathOperation,
    PathPair, PathPreference, Preparation, RelayLegs, RELAY_PATH_ID,
};
use isekai_p2p::listener::LegDirectory;

fn pair(port: u16) -> PathPair {
    PathPair { local: SocketAddr::v4(192, 168, 1, 59, port), remote: SocketAddr::v4(203, 0, 113, 5, port) }
}

fn relay() -> PathPair {
    PathPair { local: SocketAddr::v4(127, 0, 0, 1, 5000), remote: SocketAddr::v4(127, 0, 0, 1, 5001) }
}

fn direct(entries: &[(PathPair, u32)]) -> DirectPaths {
    let mut paths = DirectPaths::new();
    for (pair, id) in entries {
        paths.insert(*pair, *id);
    }
    paths
}

#[test]
fn a_peer_without_multipath_still_gets_the_old_switch() {
    assert_eq!(preference_for(pair(1000), relay(), &direct(&[])), PathPreference::Switch);
}

#[test]
fn moving_onto_the_direct_path_declares_the_relay_backup() {
    assert_eq!(
        preference_for(pair(1000), relay(), &direct(&[(pair(1000), 1)])),
        PathPreference::Declare { available: 1, backup: vec![RELAY_PATH_ID] },
    );
}

#[test]
fn going_back_to_the_relay_is_the_same_operation_reversed() {
    assert_eq!(
        preference_for(relay(), relay(), &direct(&[(pair(1000), 1)])),
        PathPreference::Declare { available: RELAY_PATH_ID, backup: vec![1] },
    );
}

#[test]
fn every_path_that_is_not_preferred_is_declared_backup() {
    assert_eq!(
        preference_for(pair(2000), relay(), &direct(&[(pair(1000), 1), (pair(2000), 2)])),
        PathPreference::Declare { available: 2, backup: vec![RELAY_PATH_ID, 1] },
    );
}

#[test]
fn a_path_with_no_id_falls_back_to_switching() {
    assert_eq!(
        preference_for(pair(9999), relay(), &direct(&[(pair(1000), 1)])),
        PathPreference::Switch,
    );
}

#[test]
fn paths_are_kept_in_order_whatever_the_order_they_came_in() {
    let v6 = PathPair {
        local: SocketAddr::V6 { ip: 1, port: 1, flowinfo: 0, scope_id: 0 },
        remote: SocketAddr::V6 { ip: 2, port: 1, flowinfo: 0, scope_id: 0 },
    };
    let paths = direct(&[(v6, 9), (pair(2000), 2), (pair(1000), 1), (pair(2000), 3)]);
    assert_eq!(
        preference_for(relay(), relay(), &paths),
        PathPreference::Declare { available: RELAY_PATH_ID, backup: vec![1, 3, 9] },
    );
    assert_eq!(paths.get(pair(2000)), Some(3));
    assert_eq!(paths.get(pair(3000)), None);
}

#[test]
fn demoting_comes_before_promoting() {
    assert_eq!(
        prefer_path(pair(2000), relay(), &direct(&[(pair(1000), 1), (pair(2000), 2)])),
        vec![
            PathOperation::SetStatus { path_id: 0, available: false },
            PathOperation::SetStatus { path_id: 1, available: false },
            PathOperation::SetStatus { path_id: 2, available: true },
        ]
    );
    assert_eq!(
        prefer_path(pair(1), relay(), &direct(&[])),
        vec![PathOperation::Activate { pair: pair(1) }]
    );
}

#[test]
fn a_move_that_fails_changes_nothing() {
    let operations = prefer_path(pair(2000), relay(), &direct(&[(pair(1000), 1), (pair(2000), 2)]));
    // The relay carried traffic, path 1 did not; both were demoted, and path 2 was not promoted.
    assert_eq!(
        settle_path(&operations, &vec![true, true, false], &vec![RELAY_PATH_ID]),
        (false, vec![PathOperation::SetStatus { path_id: RELAY_PATH_ID, available: true }]),
    );
    assert_eq!(
        settle_path(&operations, &vec![false, true, false], &vec![RELAY_PATH_ID, 1]),
        (false, vec![PathOperation::SetStatus { path_id: 1, available: true }]),
        "what could not be demoted needs no undoing",
    );
    assert_eq!(settle_path(&operations, &vec![false, true, true], &vec![RELAY_PATH_ID]), (true, vec![]));
    let switch = prefer_path(pair(1), relay(), &direct(&[]));
    assert_eq!(settle_path(&switch, &vec![false], &vec![RELAY_PATH_ID]), (false, vec![]));
}

#[test]
fn the_host_address_is_offered_beside_the_observed_one() {
    let local = SocketAddr::v4(10, 0, 0, 1, 7);
    let seen = SocketAddr::v4(203, 0, 113, 5, 8);
    let natted = ObservedAddress { local, observed: seen };
    let plain = ObservedAddress { local, observed: local };
    let steps = prepare(natted);
    assert_eq!(
        steps,
        vec![
            Preparation::ShareBinding,
            Preparation::UnconnectedSocket,
            Preparation::LocalLoopback,
            Preparation::Candidate { local, observed: seen },
            Preparation::HostCandidate { local },
        ]
    );
    assert_eq!(prepare(plain).len(), 4);
    let said: Vec<Option<String>> = steps.iter().map(|step| step.failure("e")).collect();
    assert_eq!(said[0].as_deref(), Some("could not share the UDP binding: e"));
    assert_eq!(said[1].as_deref(), Some("could not use an unconnected socket: e"));
    assert_eq!(said[2].as_deref(), Some("could not pin the local address: e"));
    assert_eq!(said[3].as_deref(), Some("could not offer a direct-path candidate: e"));
    assert_eq!(said[4], None);

    let told = advertise(natted);
    assert_eq!(
        told,
        vec![
            Advertisement::Bound { local },
            Advertisement::Observed { local, observed: seen },
            Advertisement::Host { local },
        ]
    );
    assert!(told[0].is_needed() && told[1].is_needed() && !told[2].is_needed());
    assert_eq!(advertise(plain).len(), 2);
}

#[test]
fn a_leg_is_looked_for_until_it_is_overdue() {
    let peer = SocketAddr::v4(127, 0, 0, 1, 40001);
    assert!(matches!(leg_of(&RelayLegs::Single('a'), peer, true), LegLookup::Found('a')));
    let mut directory = LegDirectory::new();
    assert!(matches!(
        leg_of(&RelayLegs::<char>::PerConnection(LegDirectory::new()), peer, false),
        LegLookup::Later
    ));
    assert!(matches!(
        leg_of(&RelayLegs::<char>::PerConnection(LegDirectory::new()), peer, true),
        LegLookup::NoLegs
    ));
    directory.attach(SocketAddr::v4(127, 0, 0, 1, 2), 'b');
    let mut legs = RelayLegs::PerConnection(directory);
    assert!(matches!(leg_of(&legs, peer, true), LegLookup::Unclaimed { claimed: 1 }));
    if let RelayLegs::PerConnection(directory) = &mut legs {
        directory.attach(peer, 'c');
    }
    assert!(matches!(leg_of(&legs, peer, true), LegLookup::Found('c')));
}

use isekai_p2p::clock::{parse_timestamp, Timestamp};
use isekai_p2p::config::{Narrowing, P2pConfig};
use isekai_p2p::duration::Duration;
use isekai_p2p::initiator::{
    connect_request, relay_request, renew_delay, renewal_verdict, Authorization, Closing, ConnectionLease, InitiatorSession,
    LeaseAction, Renewal, LEASE_RENEW_MAX, LEASE_RENEW_MIN,
};
use isekai_p2p::proxy::{PeerConnection, ProxyError, RelayInfo, RelayTicket};
use isekai_p2p::relay_lease::{
    lease_span, renew_delay as leg_renew_delay, verdict, LegAction, LegEnd, LegEvent, RelayLegLease, Verdict, RENEW_MAX,
    RENEW_MIN, RENEW_UNKNOWN, RETRY_IN,
};
use isekai_p2p::Credential;
use time::format_description::well_known::Rfc3339;
use time::OffsetDateTime;

const SERVER_NOW: i64 = 1_800_000_000;

fn stamp(unix_secs: i64) -> OffsetDateTime {
    OffsetDateTime::UNIX_EPOCH + time::Duration::seconds(unix_secs)
}

fn lease(secs: i64) -> (Option<String>, Option<String>) {
    let format = |t: OffsetDateTime| Some(t.format(&Rfc3339).unwrap());
    (format(stamp(SERVER_NOW + secs)), format(stamp(SERVER_NOW)))
}

fn local_clock(skew: i64) -> Timestamp {
    Timestamp { secs: SERVER_NOW + skew, nanos: 0 }
}

#[test]
fn an_instant_is_read_from_text() {
    assert_eq!(parse_timestamp("1970-01-01T00:00:01.5Z"), Some(Timestamp { secs: 1, nanos: 500_000_000 }));
    assert_eq!(parse_timestamp("1970-01-01T01:00:00+01:00"), Some(Timestamp { secs: 0, nanos: 0 }));
    assert_eq!(parse_timestamp("1969-12-31T23:59:59.75Z"), Some(Timestamp { secs: -1, nanos: 750_000_000 }));
    assert_eq!(parse_timestamp("soon"), None);
    let one = Timestamp { secs: -1, nanos: 750_000_000 };
    assert_eq!(one.unix_nanos(), -250_000_000);
    assert_eq!(Timestamp { secs: 0, nanos: 0 }.nanos_since(&one), 250_000_000);
}

#[test]
fn the_interval_is_measured_from_the_deadline() {
    let (expires_at, updated_at) = lease(150);
    assert_eq!(
        renew_delay(expires_at.as_deref(), updated_at.as_deref(), local_clock(0)),
        Duration::from_secs(50)
    );
    let (expires_at, updated_at) = lease(90);
    assert_eq!(
        renew_delay(expires_at.as_deref(), updated_at.as_deref(), local_clock(0)),
        Duration::from_secs(30)
    );
}

#[test]
fn a_third_is_rounded_to_the_nearest_nanosecond() {
    let (expires_at, updated_at) = lease(100);
    assert_eq!(
        renew_delay(expires_at.as_deref(), updated_at.as_deref(), local_clock(0)),
        Duration::from_nanos(33_333_333_333)
    );
    let (expires_at, updated_at) = lease(101);
    assert_eq!(
        renew_delay(expires_at.as_deref(), updated_at.as_deref(), local_clock(0)),
        Duration::from_nanos(33_666_666_667)
    );
}

#[test]
fn a_wrong_local_clock_does_not_change_the_interval() {
    let (expires_at, updated_at) = lease(150);
    for skew in [0, 3_600, -3_600] {
        assert_eq!(
            renew_delay(expires_at.as_deref(), updated_at.as_deref(), local_clock(skew)),
            Duration::from_secs(50),
            "a clock {skew}s off should not have mattered",
        );
    }
    assert_eq!(
        renew_delay(expires_at.as_deref(), None, local_clock(3_600)),
        Duration::from_secs(LEASE_RENEW_MIN)
    );
}

#[test]
fn an_unreadable_deadline_still_renews_in_time() {
    let now = Timestamp { secs: 0, nanos: 0 };
    assert_eq!(renew_delay(None, None, now), Duration::from_secs(LEASE_RENEW_MAX));
    assert_eq!(renew_delay(Some("soon"), None, now), Duration::from_secs(LEASE_RENEW_MAX));
    assert!(Duration::from_secs(LEASE_RENEW_MAX) < Duration::from_secs(300));
}

#[test]
fn an_unreadable_issue_time_falls_back_to_the_local_clock() {
    let (expires_at, _) = lease(150);
    assert_eq!(
        renew_delay(expires_at.as_deref(), Some("just now"), local_clock(0)),
        Duration::from_secs(50)
    );
}

#[test]
fn the_interval_stays_between_its_bounds() {
    for (secs, expected) in [(86_400, LEASE_RENEW_MAX), (1, LEASE_RENEW_MIN), (-60, LEASE_RENEW_MIN)] {
        let (expires_at, updated_at) = lease(secs);
        assert_eq!(
            renew_delay(expires_at.as_deref(), updated_at.as_deref(), local_clock(0)),
            Duration::from_secs(expected),
            "a lease of {secs}s",
        );
    }
}

fn problem(kind: &str) -> ProxyError {
    ProxyError::Problem { status: 404, kind: Some(kind.to_owned()) }
}

#[test]
fn a_permanent_answer_ends_the_renewal() {
    assert_eq!(renewal_verdict(&problem("connection-closed")), Renewal::Over);
    assert_eq!(renewal_verdict(&problem("connection-not-found")), Renewal::Over);
}

#[test]
fn the_older_answer_for_the_same_thing_still_ends_it() {
    assert_eq!(renewal_verdict(&problem("invalid-request")), Renewal::Over);
}

#[test]
fn a_revoked_endpoint_ends_the_session_as_well() {
    assert_eq!(renewal_verdict(&problem("endpoint-revoked")), Renewal::Refused);
}

#[test]
fn a_permission_the_token_lacks_is_not_the_endpoint_being_refused() {
    assert_eq!(renewal_verdict(&problem("insufficient-permission")), Renewal::Retry);
}

#[test]
fn a_transient_failure_does_not() {
    assert_eq!(renewal_verdict(&problem("internal")), Renewal::Retry);
    assert_eq!(
        renewal_verdict(&ProxyError::Transport("connection reset".to_owned())),
        Renewal::Retry,
    );
}

#[test]
fn an_expired_token_is_worth_another_attempt() {
    assert_eq!(renewal_verdict(&problem("token-expired")), Renewal::Retry);
}

fn connection(lease: (Option<String>, Option<String>), relay: Option<&str>) -> PeerConnection {
    PeerConnection {
        connection_id: "conn_1".to_owned(),
        initiator_endpoint: None,
        target_endpoint: None,
        peer_endpoint: None,
        relay: relay.map(|uri| RelayInfo { masque_uri: uri.to_owned() }),
        expires_at: lease.0,
        updated_at: lease.1,
        video_host: Some("camera.test".to_owned()),
        video_attestation: None,
    }
}

#[test]
fn the_record_is_renewed_until_it_is_over() {
    let mut lease_of_90 = ConnectionLease::start(&connection(lease(90), None), local_clock(0));
    assert_eq!(lease_of_90.delay, Duration::from_secs(30));
    let action = lease_of_90.step(&Ok(connection(lease(150), None)), local_clock(0));
    assert_eq!(action, LeaseAction::Wait { delay: Duration::from_secs(50) });
    let action = lease_of_90.step(&Err(problem("internal")), local_clock(0));
    assert_eq!(action, LeaseAction::Wait { delay: Duration::from_secs(50) });
    assert_eq!(lease_of_90.step(&Err(problem("connection-closed")), local_clock(0)), LeaseAction::Stop);
    assert_eq!(lease_of_90.step(&Err(problem("endpoint-revoked")), local_clock(0)), LeaseAction::EndSession);
}

#[test]
fn an_ended_session_is_not_reported_closed() {
    let mut session = InitiatorSession::new(connection(lease(90), None), local_clock(0));
    assert_eq!(session.connection_id(), "conn_1");
    assert_eq!(session.video_host(), Some("camera.test"));
    assert_eq!(session.close(), Closing::ReportFirst { timeout: Duration::from_secs(3) });
    session.renewed(&Err(problem("connection-closed")), local_clock(0));
    assert_eq!(session.close(), Closing::ReportFirst { timeout: Duration::from_secs(3) });
    session.renewed(&Err(problem("endpoint-revoked")), local_clock(0));
    assert_eq!(session.close(), Closing::LegOnly);
}

#[test]
fn a_connection_needs_a_relay() {
    let cfg = P2pConfig {
        identity_url: String::new(),
        identity_http3: false,
        proxy_url: "https://proxy".to_owned(),
        credential: Credential::auth0("t", None, false),
        protocol: "mjpeg".to_owned(),
        device_name: None,
        token_ttl: None,
        endpoint: "ep:a".to_owned(),
        narrowing: Narrowing { permissions: None, protocols: None, gateways: None },
    };
    let candidates = Vec::new();
    let request = connect_request(&cfg, Authorization::Capability("cap"), "pl_1", &candidates);
    assert_eq!((request.capability, request.listener_id, request.protocol), (Some("cap"), "pl_1", "mjpeg"));
    assert_eq!(connect_request(&cfg, Authorization::Grant, "pl_1", &candidates).capability, None);

    let bare = connection(lease(90), None);
    match relay_request(&cfg, "token", &bare) {
        Err(error) => assert_eq!(
            error.message(),
            "connect response has no relay info; the proxy did not allocate a relay edge"
        ),
        Ok(_) => panic!("there is no relay"),
    }
    let relayed = connection(lease(90), Some("https://relay/"));
    let Ok(request) = relay_request(&cfg, "token", &relayed) else {
        panic!("there is a relay");
    };
    assert_eq!(request.masque_uri, "https://relay/");
    assert_eq!(request.proxy_url, "https://proxy");
    assert_eq!(request.connection_id, "conn_1");
    assert_eq!(request.endpoint_token, "token");
}

fn ticket(ttl_secs: i64, lease_secs: i64, skew: i64) -> RelayTicket {
    let minted = OffsetDateTime::now_utc() + time::Duration::seconds(skew);
    let stamp = |secs: i64| (minted + time::Duration::seconds(secs)).format(&Rfc3339).unwrap();
    RelayTicket {
        ticket: "eyJ.JWT.sig".to_owned(),
        expires_at: stamp(ttl_secs),
        lease_expires_at: stamp(lease_secs),
    }
}

#[test]
fn renewal_lands_at_half_the_lease() {
    let span = lease_span(&ticket(45, 1_200, 0)).unwrap();
    assert_eq!(span, Duration::from_secs(1_155));
    assert_eq!(leg_renew_delay(Some(span)), Duration::from_millis(577_500));
    let halves = [100_000_000_000, 100_000_000_001, 100_000_000_002, 100_000_000_003];
    let waits: Vec<u128> = halves.iter().map(|n| leg_renew_delay(Some(Duration::from_nanos(*n))).nanos).collect();
    assert_eq!(waits, vec![50_000_000_000, 50_000_000_000, 50_000_000_001, 50_000_000_002]);
}

#[test]
fn a_clock_that_disagrees_does_not_change_the_lease() {
    let straight = lease_span(&ticket(45, 1_200, 0)).unwrap();
    for skew in [-3_600, -60, 60, 3_600, 86_400] {
        assert_eq!(lease_span(&ticket(45, 1_200, skew)).unwrap(), straight, "skew {skew}");
    }
}

#[test]
fn an_unreadable_or_backwards_lease_does_not_spin() {
    assert_eq!(leg_renew_delay(None), Duration::from_secs(RENEW_UNKNOWN));
    let mut bad = ticket(45, 1_200, 0);
    bad.expires_at = "not a timestamp".to_owned();
    assert_eq!(lease_span(&bad), None);
    assert_eq!(lease_span(&ticket(1_200, 45, 0)), None);
    assert_eq!(leg_renew_delay(Some(Duration::from_secs(10))), Duration::from_secs(RENEW_MIN));
    assert_eq!(leg_renew_delay(Some(Duration::from_secs(86_400))), Duration::from_secs(RENEW_MAX));
}

#[test]
fn a_retry_leaves_room_for_more_than_one() {
    let span = lease_span(&ticket(45, 1_200, 0)).unwrap();
    let remaining = span.nanos - leg_renew_delay(Some(span)).nanos;
    assert!(
        Duration::from_secs(RETRY_IN * 4).nanos < remaining,
        "a retry every {RETRY_IN}s must fit several times into {remaining}ns",
    );
}

fn leg_problem(status: u16, kind: Option<&str>) -> ProxyError {
    ProxyError::Problem { status, kind: kind.map(str::to_owned) }
}

#[test]
fn a_bare_404_is_an_old_proxy_and_a_typed_one_is_a_lost_leg() {
    assert_eq!(verdict(&leg_problem(404, None)), Verdict::NotLeased);
    assert_eq!(verdict(&leg_problem(404, Some("connection-not-found"))), Verdict::LegGone);
}

#[test]
fn only_a_refusal_ends_the_session() {
    assert_eq!(verdict(&leg_problem(404, Some("connection-not-found"))), Verdict::LegGone);
    for kind in ["grant-invalid", "endpoint-revoked", "connection-closed"] {
        assert_eq!(verdict(&leg_problem(403, Some(kind))), Verdict::Refused, "{kind}");
    }
}

#[test]
fn losing_the_authorization_ends_the_loop() {
    for kind in ["grant-invalid", "endpoint-revoked", "connection-closed"] {
        assert_eq!(verdict(&leg_problem(403, Some(kind))), Verdict::Refused, "{kind}");
    }
}

#[test]
fn everything_else_is_retried() {
    assert_eq!(verdict(&leg_problem(401, Some("token-expired"))), Verdict::Retry);
    assert_eq!(verdict(&leg_problem(403, Some("relay-ticket-invalid"))), Verdict::Retry);
    assert_eq!(verdict(&leg_problem(503, None)), Verdict::Retry);
    assert_eq!(verdict(&ProxyError::Transport("no route to host".to_owned())), Verdict::Retry);
}

const SECOND: u128 = 1_000_000_000;

#[test]
fn a_leg_is_renewed_with_a_ticket_of_its_own() {
    let (mut leg, delay) = RelayLegLease::start(Some(&ticket(45, 1_200, 0)), 0);
    assert_eq!(delay, Duration::from_millis(577_500));
    assert_eq!(leg.lapses_at, Some(1_155 * SECOND));
    match leg.step(LegEvent::Ticket(ticket(45, 245, 0)), 578 * SECOND) {
        LegAction::Spend { ticket } => assert_eq!(ticket, "eyJ.JWT.sig"),
        other => panic!("{other:?}"),
    }
    match leg.step(LegEvent::Renewed, 600 * SECOND) {
        LegAction::Wait { delay } => assert_eq!(delay, Duration::from_secs(100)),
        other => panic!("{other:?}"),
    }
    assert_eq!(leg.lapses_at, Some(800 * SECOND));
    // A ticket whose stamps cannot be read leaves the length of the lease as it was.
    leg.step(LegEvent::Ticket(ticket(1_200, 45, 0)), 700 * SECOND);
    match leg.step(LegEvent::Renewed, 700 * SECOND) {
        LegAction::Wait { delay } => assert_eq!(delay, Duration::from_secs(100)),
        other => panic!("{other:?}"),
    }
    assert_eq!(leg.lapses_at, Some(900 * SECOND));
}

#[test]
fn a_leg_stops_for_the_right_reason() {
    let fresh = || RelayLegLease::start(Some(&ticket(45, 245, 0)), 0).0;
    let end = |action: LegAction| match action {
        LegAction::Stop { why } => why,
        other => panic!("{other:?}"),
    };
    let refused = end(fresh().step(LegEvent::NoTicket(leg_problem(403, Some("grant-invalid"))), 0));
    assert_eq!(refused, LegEnd::Refused);
    assert!(refused.ends_leg() && refused.ends_session());
    let gone = end(fresh().step(LegEvent::NotRenewed(leg_problem(404, Some("connection-not-found"))), 0));
    assert_eq!(gone, LegEnd::Gone);
    assert!(gone.ends_leg() && !gone.ends_session());
    let unleased = end(fresh().step(LegEvent::NoTicket(leg_problem(404, None)), 0));
    assert_eq!(unleased, LegEnd::NotLeased);
    assert!(!unleased.ends_leg() && !unleased.ends_session());
    match fresh().step(LegEvent::NoTicket(leg_problem(503, None)), 200 * SECOND - 1) {
        LegAction::Wait { delay } => assert_eq!(delay, Duration::from_secs(30)),
        other => panic!("{other:?}"),
    }
    let lapsed = end(fresh().step(LegEvent::NoTicket(leg_problem(503, None)), 200 * SECOND));
    assert_eq!(lapsed, LegEnd::Lapsed);
    assert!(lapsed.ends_leg() && !lapsed.ends_session());
    // Without a known lease there is nothing to lapse.
    let mut unknown = RelayLegLease::start(None, 0).0;
    assert!(matches!(unknown.step(LegEvent::NoTicket(leg_problem(503, None)), u128::MAX), LegAction::Wait { .. }));
}

use isekai_p2p::addr::SocketAddr;
use isekai_p2p::duration::Duration;
use isekai_p2p::peer::{
    certificate_verdict, client_config, permanent_verdict, tls_alert, Attempt, AttestedPeer, CertificateAlert,
    CertificateVerdict, ClientOptions, ConnectionError, ConnectionStartError, Dial, DialAction, DialError, DialOptions,
    PacketCounts, Unpinnable,
};
use isekai_p2p::proxy::{Attestation, PeerConnection};

/// The transport's status for alert zero.
const CLOSE_NOTIFY: u32 = 200_000_256;

fn alert(alert: u8) -> ConnectionStartError {
    lost(CLOSE_NOTIFY.wrapping_add(alert as u32))
}

fn lost(status: u32) -> ConnectionStartError {
    ConnectionStartError::ConnectionLost(ConnectionError::ShutdownByTransport(status, 0))
}

#[test]
fn the_alert_is_read_back_out_of_the_status() {
    for (status, expected) in [
        (200_000_256, 0),
        (200_000_298, 42),
        (200_000_299, 43),
        (200_000_300, 44),
        (200_000_301, 45),
        (200_000_302, 46),
        (200_000_372, 116),
    ] {
        assert_eq!(
            tls_alert(status, CLOSE_NOTIFY),
            Some(expected),
            "{status} should read as alert {expected}",
        );
    }
    // The transport's own verdicts on a certificate, and a timeout.
    for status in [200_000_513, 200_000_514, 200_000_515, 110] {
        assert_eq!(tls_alert(status, CLOSE_NOTIFY), None, "{status} is not a TLS alert");
    }
}

#[test]
fn a_certificate_the_transport_rejects_is_not_retried() {
    for a in [42, 43, 44, 45, 46, 48, 116] {
        assert_eq!(
            permanent_verdict(&alert(a), CLOSE_NOTIFY),
            Some(CertificateAlert(a)),
            "alert {a} is the same answer on every attempt",
        );
    }
    assert_eq!(
        permanent_verdict(&ConnectionStartError::OtherError(CLOSE_NOTIFY + 48), CLOSE_NOTIFY),
        Some(CertificateAlert(48))
    );
}

#[test]
fn an_untrusted_root_is_refused_by_the_name_it_actually_arrives_under() {
    let verdict = permanent_verdict(&alert(48), CLOSE_NOTIFY).expect("unknown_ca is terminal");
    assert_eq!(
        verdict.message(),
        "unknown_ca (TLS alert 48)",
        "and it is reported by a name, since the transport has none to borrow",
    );
}

#[test]
fn an_unanswered_handshake_is_still_retried() {
    for e in [
        lost(110),
        lost(62),
        lost(111),
        lost(113),
        lost(92),
        lost(93),
        alert(0),
        alert(40),
        alert(51),
        alert(80),
        ConnectionStartError::ConnectionLost(ConnectionError::ShutdownByLocal),
        ConnectionStartError::ConnectionLost(ConnectionError::ShutdownByPeer(0)),
    ] {
        assert_eq!(permanent_verdict(&e, CLOSE_NOTIFY), None, "{e:?}");
    }
}

#[test]
fn alerts_have_names() {
    let names: Vec<String> = [42, 43, 44, 45, 46, 116, 7].iter().map(|a| CertificateAlert(*a).message()).collect();
    assert_eq!(
        names,
        vec![
            "bad_certificate (TLS alert 42)",
            "unsupported_certificate (TLS alert 43)",
            "certificate_revoked (TLS alert 44)",
            "certificate_expired (TLS alert 45)",
            "certificate_unknown (TLS alert 46)",
            "certificate_required (TLS alert 116)",
            "certificate refused (TLS alert 7)",
        ]
    );
}

fn connection(attested: bool, peer: Option<&str>, target: Option<&str>, host: Option<&str>) -> PeerConnection {
    PeerConnection {
        connection_id: "c".to_owned(),
        initiator_endpoint: None,
        target_endpoint: target.map(str::to_owned),
        peer_endpoint: peer.map(str::to_owned),
        relay: None,
        expires_at: None,
        updated_at: None,
        video_host: host.map(str::to_owned),
        video_attestation: if attested {
            Some(Attestation {
                jwk: "{}".to_owned(),
                expires_at: "2099-01-01T00:00:00Z".to_owned(),
                signature: "x".to_owned(),
            })
        } else {
            None
        },
    }
}

#[test]
fn not_pinning_says_which_of_the_three_it_is() {
    let plain = connection(false, Some("ep:b"), None, None);
    assert_eq!(
        AttestedPeer::from_connection(&plain).unwrap_err(),
        Unpinnable::NoStatement,
        "no statement is the ordinary case",
    );
    let attested = connection(true, Some("ep:b"), None, None);
    assert_eq!(
        AttestedPeer::from_connection(&attested).unwrap_err(),
        Unpinnable::NoHost,
        "a statement with nowhere to dial is not the camera's doing",
    );
}

#[test]
fn a_peer_is_pinned_by_the_endpoint_the_proxy_named() {
    let nameless = connection(true, None, None, Some("h"));
    assert_eq!(AttestedPeer::from_connection(&nameless).unwrap_err(), Unpinnable::NoPeerEndpoint);
    let target = AttestedPeer::from_connection(&connection(true, None, Some("ep:t"), Some("h"))).unwrap();
    assert_eq!(target.peer_endpoint, "ep:t");
    let pinned = AttestedPeer::from_connection(&connection(true, Some("ep:p"), Some("ep:t"), Some("h"))).unwrap();
    assert_eq!(pinned.peer_endpoint, "ep:p");
    assert_eq!(pinned.video_host, "h");
    assert_eq!(pinned.attestation.signature, "x");
    assert_eq!(pinned.accepts(Some(Ok(()))), Ok(()));
    assert_eq!(pinned.accepts(Some(Err("expired".to_owned()))), Err("expired".to_owned()));
    assert_eq!(pinned.accepts(None), Err("the peer's certificate could not be read".to_owned()));
    assert!(Unpinnable::NoStatement.message().starts_with("the peer published no statement"));
    assert!(Unpinnable::NoPeerEndpoint.message().ends_with("not pinning"));
    assert!(Unpinnable::NoHost.message().contains("no host to dial"));
}

#[test]
fn the_name_is_judged_before_the_pin() {
    let reason = |v: CertificateVerdict| match v {
        CertificateVerdict::Refused(reason) => reason,
        other => panic!("{other:?}"),
    };
    assert_eq!(reason(certificate_verdict(false, None, None)), "the peer presented no certificate");
    assert_eq!(
        reason(certificate_verdict(true, Some(Err("name".to_owned())), Some(Err("pin".to_owned())))),
        "name"
    );
    assert_eq!(reason(certificate_verdict(true, Some(Ok(())), Some(Err("pin".to_owned())))), "pin");
    assert!(matches!(certificate_verdict(true, Some(Ok(())), Some(Ok(()))), CertificateVerdict::Pinned));
    assert!(matches!(certificate_verdict(true, Some(Ok(())), None), CertificateVerdict::Named));
    assert!(matches!(certificate_verdict(true, None, None), CertificateVerdict::Named));
}

fn options(verify: bool, pinning: bool, migration: bool) -> ClientOptions<'static> {
    ClientOptions { alpn: "x", verify, enable_migration: migration, pinning, datagrams: true }
}

#[test]
fn the_settings_follow_the_options() {
    let s = client_config(&options(true, false, true), Some("ca.pem".to_owned()), false);
    assert_eq!(s.idle_timeout_ms, 30_000);
    assert_eq!(s.handshake_idle_timeout_ms, 60_000);
    assert_eq!(s.keep_alive_ms, 10_000);
    assert_eq!(s.maximum_mtu, 1248);
    assert_eq!(s.peer_unidi_streams, 100);
    assert_eq!(s.migration_keep_alive_ms, Some(10_000));
    assert_eq!(s.ca_file.as_deref(), Some("ca.pem"));
    assert!(s.datagrams && s.indicate_certificate && !s.no_certificate_validation);

    let s = client_config(&options(true, false, false), Some(String::new()), true);
    assert_eq!(s.ca_file, None);
    assert_eq!(s.migration_keep_alive_ms, None);
    assert!(s.no_certificate_validation && !s.indicate_certificate);

    let s = client_config(&options(false, true, false), None, false);
    assert!(s.no_certificate_validation && s.indicate_certificate, "a pin is checked all the same");
}

#[test]
fn a_dial_checks_what_it_was_asked_to() {
    let mut opts = DialOptions {
        alpn: "x",
        host: "h",
        port: 1,
        verify: true,
        pin: None,
        candidate: None,
        datagrams: false,
    };
    assert!(opts.checks_name(false) && opts.checks_certificate(false));
    assert!(!opts.checks_name(true) && !opts.checks_certificate(true));
    assert!(!opts.client_options().pinning && !opts.client_options().enable_migration);
    opts.pin = AttestedPeer::from_connection(&connection(true, Some("ep:p"), None, Some("h"))).ok();
    assert!(opts.checks_certificate(true));
    assert!(opts.client_options().pinning);
}

fn attempt(refused: Option<&str>, result: Result<(), ConnectionStartError>, counts: Option<(u64, u64)>) -> Attempt {
    Attempt {
        refused: refused.map(str::to_owned),
        result,
        counts: counts.map(|(sent, received)| PacketCounts { sent, received }),
    }
}

const SECOND: u64 = 1_000_000_000;

#[test]
fn a_dial_ends_or_is_tried_again() {
    let mut dial = Dial::new("camera.test", 4433, 5 * SECOND);
    assert_eq!(dial.remote(), SocketAddr::v4(127, 0, 0, 1, 4433), "the host is not resolved");
    dial.attempt();
    dial.attempt();
    let fails = |dial: &Dial, attempt: Attempt, now: u64| match dial.finished(&attempt, CLOSE_NOTIFY, now) {
        DialAction::Fail(error) => error.message(),
        other => panic!("{other:?}"),
    };
    assert!(matches!(dial.finished(&attempt(None, Ok(()), None), CLOSE_NOTIFY, 0), DialAction::Connected));
    assert_eq!(
        fails(&dial, attempt(Some("wrong key"), Ok(()), None), 0),
        "the peer's certificate was refused, so this is not the peer it claims to be: wrong key"
    );
    assert_eq!(
        fails(&dial, attempt(None, Err(alert(45)), None), 0),
        "the transport refused the handshake to camera.test:4433 with certificate_expired (TLS alert 45), \
         which is its answer on every attempt"
    );
    match dial.finished(&attempt(None, Err(lost(110)), None), CLOSE_NOTIFY, 905 * SECOND - 1) {
        DialAction::Retry { delay } => assert_eq!(delay, Duration::from_millis(500)),
        other => panic!("{other:?}"),
    }
    assert_eq!(
        fails(&dial, attempt(None, Err(lost(110)), None), 905 * SECOND),
        "QUIC handshake to camera.test:4433 did not complete within 900s (2 attempts, no packet counts available)"
    );
    dial.probed(PacketCounts { sent: 12, received: 0 });
    assert_eq!(
        fails(&dial, attempt(None, Err(lost(110)), None), 905 * SECOND),
        "QUIC handshake to camera.test:4433 did not complete within 900s (2 attempts, 12 packets sent, 0 received)"
    );
    assert_eq!(
        fails(&dial, attempt(None, Err(lost(110)), Some((13, 1))), 905 * SECOND),
        "QUIC handshake to camera.test:4433 did not complete within 900s (2 attempts, 13 packets sent, 1 received)"
    );
    dial.attempt();
    assert_eq!(dial.last, None);
    assert_eq!(DialError::ShutDown.message(), "shut down while dialing the peer");
}

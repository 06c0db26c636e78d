use isekai_p2p::addr::{IpAddr, SocketAddr};
use isekai_p2p::agent_cli::{
    connect_plan, parse_candidate, parse_candidates, relay_config, token_config, CandidateError, ConnectPlan,
};
use isekai_p2p::auth::Credential;
use isekai_p2p::portal_args::{
    config, enrollment_admin, enrollment_request, first_step, maps, plan, reach, revoke_reason, what_it_is, AdminCommand, Args,
    Binding, Findings, FirstStep, Mapping, Plan, Protocol, Reach, RevokeReason, RunError, SecretKind, TicketTransfer,
    WayIn,
};
use isekai_p2p::portal_ffi::{
    build_p2p_config, expected_peer, pair_with_code, tokens_for, PortalConfig, PortalError, PortalSession,
};
use isekai_p2p::portal_report::{
    issued_report, key_line, keys_report, enrollments_report, print_effects, print_endpoint, print_enrollment_binding,
    redeem, redeem_provisioning, redeem_ticket, revoked_endpoint_report, revoked_key_report, BindingView, EndpointPages,
    EndpointSummary, EnrollmentKeyRecord, EnrollmentRecord, Grant, IssuedEnrollmentKey, KeyEffects, KeySharing,
    RevokeEffects, RevokedEndpoint,
};
use isekai_p2p::portal_run::{PortalRun, RunAction, RunEvent, ServingEnd};
use isekai_p2p::proxy::CandidateType;

fn text(s: &str) -> Option<String> {
    Some(s.to_owned())
}

fn args_with(reason: Option<&str>) -> Args {
    let mut args = Args::default();
    args.revoke_endpoint = text("ep:abc");
    args.reason = reason.map(str::to_owned);
    args
}

#[test]
fn a_reason_is_required() {
    let err = revoke_reason(&args_with(None)).unwrap_err();
    assert!(err.message().contains("--reason"));
}

#[test]
fn identitys_own_reasons_are_refused_by_name() {
    for reason in ["enrollment_idle", "enrollment_released", "enrollment_key_revoked"] {
        let err = revoke_reason(&args_with(Some(reason))).unwrap_err();
        let message = err.message();
        assert!(message.contains("Identity writes for itself"), "{message}");
    }
}

#[test]
fn a_typo_names_what_is_accepted() {
    let err = revoke_reason(&args_with(Some("lost"))).unwrap_err();
    assert!(err.message().contains("device_lost"));
}

#[test]
fn the_four_the_caller_may_use_parse() {
    for (text, expected) in [
        ("device_lost", RevokeReason::DeviceLost),
        ("endpoint_deleted", RevokeReason::EndpointDeleted),
        ("admin_revoke", RevokeReason::AdminRevoke),
        ("security_incident", RevokeReason::SecurityIncident),
    ] {
        assert_eq!(revoke_reason(&args_with(Some(text))).unwrap(), expected);
    }
}

#[test]
fn the_first_step_of_a_run() {
    let mut args = Args::default();
    assert_eq!(first_step(&args).unwrap(), FirstStep::Key);
    args.note = text("n");
    assert_eq!(
        first_step(&args).unwrap_err().message(),
        "--reason and --note describe a --revoke-endpoint, and this run has none"
    );
    args.login = true;
    assert_eq!(first_step(&args).unwrap(), FirstStep::Login, "signing in comes first");
    let mut args = Args::default();
    args.endpoint_status = text("active");
    assert_eq!(
        first_step(&args).unwrap_err().message(),
        "--endpoint-status describes --endpoints, which this run is not asking for"
    );
    args.endpoints = true;
    assert_eq!(first_step(&args).unwrap(), FirstStep::Admin);
    args.endpoint_status = text("everything");
    assert_eq!(
        first_step(&args).unwrap_err().message(),
        "--endpoint-status takes `active`, `revoked` or `all`, not `everything`"
    );
}

fn findings() -> Findings {
    Findings {
        unattended: Ok(()),
        enrollment_key: Ok(()),
        provisioning: Ok(None),
        secret: None,
        transfer: None,
        configured: "tokyo.link.isekai.tools:8443".to_owned(),
    }
}

const LOOPBACK: IpAddr = IpAddr::V4(0x7f00_0001);

fn refused(args: &Args, findings: Findings) -> String {
    plan(args, findings, LOOPBACK).err().unwrap().message()
}

#[test]
fn ways_in_do_not_mix() {
    let mut args = Args::default();
    assert_eq!(refused(&args, findings()), "nothing to forward; pass at least one --map port:service");
    args.pair = text("ABCD-1234");
    args.redeem = text("iskt1_x");
    assert_eq!(refused(&args, findings()), "--pair and --redeem are two ways in; use one");
    args.redeem = None;
    let provisioned = Findings { provisioning: Ok(text("pk")), ..findings() };
    assert_eq!(
        refused(&args, provisioned),
        "a Provisioning Key and --pair/--redeem are different ways in; use one"
    );
    args.peer = text("ep:p");
    assert_eq!(
        refused(&args, findings()),
        "--peer is not needed here: being let in is what names the peer"
    );
    args.peer = None;
    let odd = Findings { unattended: Err("--register needs a sign-in".to_owned()), ..findings() };
    assert_eq!(refused(&args, odd), "--register needs a sign-in");
    let missing = || Findings { enrollment_key: Err("no key".to_owned()), ..findings() };
    assert!(plan(&args, missing(), LOOPBACK).is_ok(), "the key is only needed to enrol");
    args.enroll = true;
    assert_eq!(refused(&args, missing()), "no key");
    let unreadable = Findings { provisioning: Err("no such file".to_owned()), ..findings() };
    assert_eq!(refused(&args, unreadable), "no such file");
}

#[test]
fn a_secret_is_not_sent_as_a_code() {
    let mut args = Args::default();
    args.pair = text("tkt1_secret");
    let secret = |kind| Findings { secret: Some((kind, "tkt1_[redacted]".to_owned())), ..findings() };
    assert_eq!(
        refused(&args, secret(SecretKind::Ticket)),
        "that is a ticket, not a pairing code -- redeem it with --redeem.\nNothing was sent. (tkt1_[redacted])"
    );
    assert_eq!(
        refused(&args, secret(SecretKind::EnrollmentKey)),
        "that is an Enrollment Key, not a pairing code.\nNothing was sent. (tkt1_[redacted])"
    );
    assert_eq!(what_it_is(SecretKind::ProvisioningKey), "a Provisioning Key");
    assert_eq!(what_it_is(SecretKind::TicketTransfer), "a ticket");
    assert_eq!(what_it_is(SecretKind::Other), "a secret");
}

#[test]
fn a_ticket_does_not_choose_the_proxy() {
    let mut args = Args::default();
    args.redeem = text("iskt1_x");
    assert_eq!(
        refused(&args, findings()),
        "that is not a ticket -- expected the `iskt1_` string the operator sent, or a bare `tkt1_` secret"
    );
    let transfer = |proxy: &str| Findings {
        transfer: Some(TicketTransfer { ticket: "tkt1_x".to_owned(), proxy: proxy.to_owned() }),
        ..findings()
    };
    let message = refused(&args, transfer("evil.test:1"));
    assert!(message.starts_with("this ticket is for evil.test:1, but --proxy-url is tokyo.link.isekai.tools:8443.\n"));
    assert!(message.contains("--proxy-url https://evil.test:1 --redeem \u{2026}\n"), "{message}");
    for same in ["", "tokyo.link.isekai.tools:8443", "Tokyo.link.ISEKAI.tools:8443"] {
        let Ok(Plan { maps, way_in: WayIn::Ticket(ticket) }) = plan(&args, transfer(same), LOOPBACK) else {
            panic!("{same}");
        };
        assert!(maps.is_empty());
        assert_eq!(ticket.ticket, "tkt1_x");
    }
}

#[test]
fn maps_are_read() {
    let given = |list: &[&str]| list.iter().map(|m| (*m).to_owned()).collect::<Vec<String>>();
    let got = maps(&given(&["5432:db", "udp:5353:dns", "tcp:80:a:b"]), LOOPBACK).unwrap();
    let local = |port| SocketAddr::v4(127, 0, 0, 1, port);
    assert_eq!(
        got,
        vec![
            Mapping { protocol: Protocol::Tcp, local: local(5432), service: "db".to_owned() },
            Mapping { protocol: Protocol::Udp, local: local(5353), service: "dns".to_owned() },
            Mapping { protocol: Protocol::Tcp, local: local(80), service: "a:b".to_owned() },
        ]
    );
    let v6 = maps(&given(&["1:x"]), IpAddr::V6(1)).unwrap();
    assert_eq!(v6[0].local, SocketAddr::V6 { ip: 1, port: 1, flowinfo: 0, scope_id: 0 });
    for (map, said) in [
        ("db", "--map wants `port:service` or `udp:port:service`, got `db`"),
        ("udp:5353", "--map wants `port:service` or `udp:port:service`, got `udp:5353`"),
        ("http:db", "`http` is not a port, in --map `http:db`"),
        ("70000:db", "`70000` is not a port, in --map `70000:db`"),
    ] {
        let mut args = Args::default();
        args.map = given(&["1:ok", map, "nonsense"]);
        assert_eq!(refused(&args, findings()), said);
    }
}

#[test]
fn a_server_is_reached_by_a_grant_or_a_capability() {
    let mut args = Args::default();
    assert!(matches!(reach(&args, None), Ok(Reach::Grant { peer: None })));
    args.peer = text("ep:named");
    assert!(matches!(reach(&args, None), Ok(Reach::Grant { peer: Some("ep:named") })));
    assert!(matches!(reach(&args, Some("ep:owner")), Ok(Reach::Grant { peer: Some("ep:owner") })));
    args.capability = text("cap");
    assert!(matches!(reach(&args, None), Err(RunError::CapabilityWithoutListener)));
    args.listener = text("pl_1");
    assert!(matches!(
        reach(&args, None),
        Ok(Reach::Capability { capability: "cap", listener_id: "pl_1" })
    ));
    args.capability = None;
    let err = reach(&args, None).err().unwrap().message();
    assert!(err.starts_with("--listener is only for the --capability path."), "{err}");
    assert_eq!(
        RunError::CapabilityWithoutListener.message(),
        "--capability needs --listener, which names the one it is for"
    );
}

#[test]
fn an_enrollment_key_needs_a_binding() {
    let mut args = Args::default();
    args.issue_enrollment_key = true;
    let said = |args: &Args| enrollment_request(args).unwrap_err().message();
    assert!(said(&args).starts_with("--issue-enrollment-key needs a binding"));
    args.binding_subject = text("repo:x");
    assert!(said(&args).starts_with("--binding-subject needs --binding-oidc"));
    args.binding_none = true;
    assert_eq!(said(&args), "--binding-none and --binding-oidc are two answers; give one");
    args.binding_subject = None;
    let open = enrollment_request(&args).unwrap();
    assert!(matches!(open.binding, Binding::Unbound));
    assert_eq!(open.permissions, vec!["peer-connect:initiate"]);
    assert_eq!(open.protocols, vec!["isekai-portal-v1"]);
    args.binding_none = false;
    args.binding_oidc = text("https://issuer");
    assert!(said(&args).starts_with("--binding-oidc needs --binding-subject"));
    args.binding_subject = text("repo:x");
    args.permissions = vec!["p".to_owned()];
    args.enrollment_protocols = vec!["q".to_owned(), "r".to_owned()];
    args.enrollment_ttl = Some(60);
    let bound = enrollment_request(&args).unwrap();
    assert!(matches!(bound.binding, Binding::Oidc { issuer, subject } if issuer == "https://issuer" && subject == "repo:x"));
    assert_eq!(bound.permissions, vec!["p"]);
    assert_eq!(bound.protocols, vec!["q", "r"]);
    assert_eq!(bound.ttl, Some(60));
}

#[test]
fn commands_come_in_their_order() {
    let mut args = args_with(Some("device_lost"));
    args.note = text("left on a train");
    args.enrollment_keys = true;
    args.endpoints = true;
    args.endpoint_status = text("all");
    args.revoke_enrollment_key = text("ek_1");
    args.enrollment_key_enrollments = text("ek_2");
    args.issue_enrollment_key = true;
    assert!(enrollment_admin(&args).is_err(), "the binding is missing");
    args.binding_none = true;
    let commands = enrollment_admin(&args).unwrap();
    assert_eq!(commands.len(), 6);
    assert!(matches!(&commands[0], AdminCommand::RevokeEnrollmentKey(id) if id == "ek_1"));
    assert!(matches!(&commands[1], AdminCommand::IssueEnrollmentKey(_)));
    assert!(matches!(&commands[2], AdminCommand::RevokeEndpoint { endpoint_id, reason: RevokeReason::DeviceLost, note: Some(_) } if endpoint_id == "ep:abc"));
    assert!(matches!(&commands[3], AdminCommand::ListEndpoints { status: Some(s) } if s == "all"));
    assert!(matches!(&commands[4], AdminCommand::ListEnrollmentKeys));
    assert!(matches!(&commands[5], AdminCommand::ListEnrollments(id) if id == "ek_2"));
    args.reason = None;
    assert!(enrollment_admin(&args).is_err(), "the reason is missing");
}

fn grant(expires_at: Option<&str>) -> Grant {
    Grant { owner_endpoint: "ep:o".to_owned(), grant_id: "g_1".to_owned(), expires_at: expires_at.map(str::to_owned) }
}

#[test]
fn being_let_in_is_reported() {
    assert_eq!(redeem(&grant(None), true), "paired with : ep:o\ngrant       : g_1\n");
    assert_eq!(
        redeem(&grant(None), false),
        "paired with : ep:o\ngrant       : g_1\n\nConnect with --map alone; the listener is found for you.\n"
    );
    assert_eq!(
        redeem_ticket(&grant(Some("T")), false, false),
        "let in by   : ep:o\ngrant       : g_1\nexpires at  : T\n\nNothing is listening on that Endpoint yet. \
         That is not a failure:\nyou are authorised, and --map will find it once the server is up.\n"
    );
    assert!(redeem_ticket(&grant(None), true, false).ends_with("never -- unexpected for a ticket\n\nConnect with --map alone; the listener is found for you.\n"));
    assert!(redeem_ticket(&grant(None), false, true).ends_with("never -- unexpected for a ticket\n"));
    let (said, keep) = redeem_provisioning(&grant(Some("T")), true);
    assert!(keep);
    assert_eq!(said, "let in by   : ep:o\ngrant       : g_1\nexpires at  : T  (extended while this runs)\n");
    let (said, keep) = redeem_provisioning(&grant(None), false);
    assert!(!keep);
    assert!(said.contains("never -- unexpected for a provisioning key\n\nNothing is being forwarded"), "{said}");
}

#[test]
fn a_stopped_key_is_reported_with_its_endpoints() {
    let effects = KeyEffects {
        revoked_endpoints: vec!["ep:1".to_owned(), "ep:2".to_owned()],
        remaining_endpoints: vec!["ep:3".to_owned()],
    };
    assert_eq!(
        revoked_key_report("ek_1", &Some(effects)),
        "revoked     : ek_1\n  retired   : ep:1\n  retired   : ep:2\n  still up  : ep:3  (revoke it yourself if you meant to)\n\
         No new Endpoints can be registered with it, and no derived Endpoint\n\
         can renew its token. The record of who came in stays.\n"
    );
    assert!(revoked_key_report("ek_1", &None).starts_with("revoked     : ek_1\nNo new Endpoints"));
}

#[test]
fn an_issued_key_is_shown_first() {
    let issued = IssuedEnrollmentKey {
        key: "enr1_x".to_owned(),
        key_id: text("ek_1"),
        expires_at: text("T"),
        permissions: vec!["a".to_owned(), "b".to_owned()],
        protocols: Vec::new(),
        max_live_endpoints: Some(4),
        binding: Some(BindingView { kind: "none".to_owned(), issuer: None, subject: None, audience: None }),
        warnings: vec!["w".to_owned()],
    };
    assert_eq!(
        issued_report(&issued),
        "\nPut this in the job's secret store as ISEKAI_ENROLLMENT_KEY:\n\n  enr1_x\n\n\
         key id      : ek_1  (--revoke-enrollment-key takes this)\nexpires at  : T\npermissions : a, b\n\
         slots       : 4 Endpoints alive at once\n\
         bound to    : nothing -- the key alone can register Endpoints.\n              Never do this for a public repository's CI.\n\
         warning     : w\n\
         \nThe job also needs a Provisioning Key from the server side --\n\
         portal-server --provisioning-key. They are different objects issued\n\
         by different servers, and revoked at different ones.\n"
    );
}

#[test]
fn a_binding_is_shown() {
    let oidc = |audience: Option<&str>| {
        Some(BindingView {
            kind: "oidc".to_owned(),
            issuer: text("i"),
            subject: None,
            audience: audience.map(str::to_owned),
        })
    };
    assert_eq!(
        print_enrollment_binding(&oidc(Some("aud"))),
        "bound to    : i / ?\naudience    : aud  (the job mints for this)\n"
    );
    assert_eq!(
        print_enrollment_binding(&oidc(None)),
        "bound to    : i / ?\naudience    : not reported -- ask the Identity operator\n"
    );
    assert_eq!(
        print_enrollment_binding(&None),
        "bound to    : not reported -- check with --enrollment-keys\n"
    );
}

fn effects() -> RevokeEffects {
    RevokeEffects {
        revoked_tokens: Some(2),
        deleted_peer_listeners: Some(0),
        deleted_public_listeners: Some(1),
        deleted_grants: None,
        deleted_capabilities: None,
        closed_connections: Some(3),
        deleted_pairing_codes: None,
        revoked_policy_leases: Some(-1),
        newly_revoked: Some(false),
    }
}

#[test]
fn effects_are_counted() {
    assert_eq!(
        print_effects(&Some(effects())),
        "torn down   : 2 tokens, 1 public listeners, 3 connections\n\
         note        : it was already revoked; this call changed nothing at Identity\n"
    );
    let nothing = RevokeEffects {
        revoked_tokens: None,
        deleted_public_listeners: None,
        closed_connections: None,
        newly_revoked: Some(true),
        ..effects()
    };
    assert_eq!(print_effects(&Some(nothing)), "torn down   : nothing was there to remove\n");
    assert_eq!(print_effects(&None), "");
}

#[test]
fn a_retired_endpoint_is_reported_with_who_shares_its_key() {
    let revoked = |notification: Option<&str>| RevokedEndpoint {
        endpoint_id: "ep:a".to_owned(),
        revoked_at: text("T"),
        effects: None,
        proxy_notification: notification.map(str::to_owned),
        proxy_notification_detail: text("unreachable"),
    };
    let alone = Ok(KeySharing { duplicate_key: false, siblings: Vec::new() });
    assert_eq!(
        revoked_endpoint_report(&revoked(Some("delivered")), &alone),
        "revoked     : ep:a\nat          : T\nproxy       : told, and enforcing it\n              (unreachable)\n"
    );
    for (word, said) in [
        (Some("partial"), "TOLD BUT NOT ENFORCING"),
        (Some("failed"), "NOT TOLD --"),
        (Some("disabled"), "not told -- this deployment has no PROXY_INTERNAL_URL"),
        (Some("later"), "proxy       : later\n"),
        (None, "proxy       : not reported\n"),
    ] {
        let report = revoked_endpoint_report(&revoked(word), &alone);
        assert!(report.contains(said), "{report}");
    }
    let shared = Ok(KeySharing { duplicate_key: true, siblings: vec!["ep:b".to_owned()] });
    let report = revoked_endpoint_report(&revoked(None), &shared);
    assert!(report.ends_with("stopped a name and not a credential.\n  still live : ep:b\n"), "{report}");
    let elsewhere = Ok(KeySharing { duplicate_key: true, siblings: Vec::new() });
    let report = revoked_endpoint_report(&revoked(None), &elsewhere);
    assert!(report.ends_with("  (the other rows are not in this tenant, so they are not named)\n"), "{report}");
    let unknown = Err("timed out".to_owned());
    let report = revoked_endpoint_report(&revoked(None), &unknown);
    assert!(report.contains("could not check whether another Endpoint shares this key: timed out\n"), "{report}");
}

fn endpoint(id: &str) -> EndpointSummary {
    EndpointSummary {
        endpoint_id: id.to_owned(),
        device_name: None,
        status: None,
        ephemeral: false,
        enrollment_key_id: None,
        revoke_reason: None,
        duplicate_key: false,
    }
}

#[test]
fn endpoints_are_listed_page_by_page() {
    assert_eq!(print_endpoint(&endpoint("ep:a")), "endpoint    : ep:a  ?  (no name)\n");
    let noted = EndpointSummary {
        device_name: text("phone"),
        status: text("revoked"),
        ephemeral: true,
        enrollment_key_id: text("ek_1"),
        revoke_reason: text("device_lost"),
        duplicate_key: true,
        ..endpoint("ep:b")
    };
    assert_eq!(
        print_endpoint(&noted),
        "endpoint    : ep:b  revoked  phone  (SHARES ITS KEY, ephemeral, from ek_1, device_lost)\n"
    );
    let mut pages = EndpointPages::new();
    let (shown, more) = pages.page(&vec![endpoint("ep:a"), endpoint("ep:b")], Some(3), text("next"));
    assert_eq!(shown, "endpoint    : ep:a  ?  (no name)\nendpoint    : ep:b  ?  (no name)\n");
    assert!(more);
    let (_, more) = pages.page(&Vec::new(), Some(9), None);
    assert!(!more);
    assert_eq!(pages.footer(), "\n3 revoked endpoint(s) not shown -- --endpoint-status all\n");
    let mut endless = EndpointPages::new();
    while endless.page(&Vec::new(), None, text("again")).1 {}
    assert_eq!(endless.pages, 100);
    assert_eq!(
        endless.footer(),
        "No endpoints.\nStopped after 100 pages; there are more rows than this shows.\n"
    );
}

#[test]
fn keys_and_what_registered_with_them_are_listed() {
    let key = |live, max, binding: Option<&str>, label: Option<&str>| EnrollmentKeyRecord {
        key_id: "ek_1".to_owned(),
        label: label.map(str::to_owned),
        live_endpoints: live,
        max_live_endpoints: max,
        binding: binding.map(str::to_owned),
        status: text("active"),
    };
    assert_eq!(
        key_line(&key(Some(1), Some(4), Some("oidc"), Some("ci"))),
        "key         : ek_1  oidc, 1/4 slots, active, ci\n"
    );
    assert_eq!(key_line(&key(Some(1), None, Some(""), None)), "key         : ek_1  UNBOUND, 1 live, active\n");
    assert_eq!(
        keys_report(&vec![key(None, None, None, None), key(None, Some(1), Some("x"), None)]),
        "key         : ek_1  UNBOUND, slots unknown, active\nkey         : ek_1  x, slots unknown, active\n"
    );
    assert_eq!(keys_report(&Vec::new()), "No enrollment keys issued.\n");
    let row = |subject: Option<&str>, status: Option<&str>, reason: Option<&str>| EnrollmentRecord {
        endpoint_id: "ep:a".to_owned(),
        binding_subject: subject.map(str::to_owned),
        status: status.map(str::to_owned),
        revoke_reason: reason.map(str::to_owned),
    };
    assert_eq!(
        enrollments_report(
            "ek_1",
            &vec![
                row(Some("repo:x"), Some("revoked"), Some("enrollment_idle")),
                row(None, Some("active"), None),
                row(None, None, None),
            ]
        ),
        "registered  : ep:a  as repo:x  ended enrollment_idle\nregistered  : ep:a  active\nregistered  : ep:a\n"
    );
    assert_eq!(enrollments_report("ek_1", &Vec::new()), "Nothing has registered with ek_1.\n");
}

fn begun(args: &Args) -> (PortalRun, RunAction) {
    PortalRun::start(args).unwrap()
}

#[test]
fn a_run_closes_what_it_opened() {
    let mut args = Args::default();
    args.enroll = true;
    let (mut run, first) = begun(&args);
    assert!(matches!(first, RunAction::LoadKey));
    assert!(matches!(run.step(RunEvent::Done), RunAction::Plan));
    assert!(matches!(run.step(RunEvent::Planned { forwards: true }), RunAction::Configure));
    assert!(matches!(run.step(RunEvent::Done), RunAction::LetIn));
    assert!(matches!(run.step(RunEvent::Done), RunAction::Reach));
    assert!(matches!(run.step(RunEvent::Done), RunAction::Connect));
    assert!(matches!(run.step(RunEvent::Done), RunAction::Forward));
    // A port that is taken: the connection is closed, then the run fails.
    assert!(matches!(run.step(RunEvent::Failed("in use".to_owned())), RunAction::Close { hard_exit: false }));
    match run.step(RunEvent::Done) {
        RunAction::Leave { error: Some(error), release: true } => assert_eq!(error, "in use"),
        other => panic!("{other:?}"),
    }
}

#[test]
fn a_run_leaves_in_every_way() {
    let mut args = Args::default();
    let serving = |args: &Args| {
        let (mut run, _) = begun(args);
        run.step(RunEvent::Done);
        run.step(RunEvent::Planned { forwards: true });
        for _ in 0..4 {
            run.step(RunEvent::Done);
        }
        assert!(matches!(run.step(RunEvent::Done), RunAction::Serve));
        run
    };
    let mut run = serving(&args);
    assert!(matches!(run.step(RunEvent::Stopped(ServingEnd::SessionEnded)), RunAction::Close { hard_exit: false }));
    assert!(matches!(run.step(RunEvent::Done), RunAction::Leave { error: None, release: false }));
    let mut run = serving(&args);
    assert!(matches!(run.step(RunEvent::Stopped(ServingEnd::Interrupted)), RunAction::Close { hard_exit: true }));
    let mut run = serving(&args);
    assert!(matches!(run.step(RunEvent::Stopped(ServingEnd::ConnectionClosed)), RunAction::Close { hard_exit: false }));

    args.whoami = true;
    let (mut run, _) = begun(&args);
    assert!(matches!(run.step(RunEvent::Done), RunAction::PrintEndpointId));
    args.whoami = false;
    // Nothing to forward: the run stops once it is let in.
    let (mut run, _) = begun(&args);
    run.step(RunEvent::Done);
    run.step(RunEvent::Planned { forwards: false });
    run.step(RunEvent::Done);
    assert!(matches!(run.step(RunEvent::Done), RunAction::Leave { error: None, release: false }));
    // A slot is owed only once the session was configured.
    args.enroll = true;
    let (mut run, _) = begun(&args);
    run.step(RunEvent::Done);
    assert!(matches!(run.step(RunEvent::Failed("x".to_owned())), RunAction::Leave { error: Some(_), release: false }));
    args.login = true;
    let (mut run, first) = begun(&args);
    assert!(matches!(first, RunAction::SignIn));
    assert!(matches!(run.step(RunEvent::Done), RunAction::Leave { error: None, release: false }));
    args.login = false;
    args.endpoints = true;
    let (mut run, first) = begun(&args);
    assert!(matches!(first, RunAction::Administer));
    assert!(matches!(run.step(RunEvent::Failed("x".to_owned())), RunAction::Leave { error: Some(_), .. }));
    args.reason = text("device_lost");
    assert!(PortalRun::start(&args).is_err());
}

#[test]
fn a_candidate_is_read_from_an_argument() {
    let got = parse_candidate("srflx,203.0.113.5,4433").unwrap();
    assert_eq!(got.candidate_type, CandidateType::ServerReflexive);
    assert_eq!((got.address.as_str(), got.port), ("203.0.113.5", 4433));
    assert_eq!(parse_candidate("host,a,1").unwrap().candidate_type, CandidateType::Host);
    assert_eq!(parse_candidate("relay,a,1").unwrap().candidate_type, CandidateType::Relay);
    assert!(matches!(parse_candidate("host,a"), Err(CandidateError::Shape(spec)) if spec == "host,a"));
    assert!(matches!(parse_candidate("peer,a,1"), Err(CandidateError::UnknownType(t)) if t == "peer"));
    assert!(matches!(parse_candidate("host,a,1,2"), Err(CandidateError::Port(spec)) if spec == "host,a,1,2"));
    assert!(matches!(parse_candidate("host,a,65536"), Err(CandidateError::Port(_))));
    assert_eq!(parse_candidates(&vec!["host,a,1".to_owned(), "relay,b,2".to_owned()]).unwrap().len(), 2);
    let specs = vec!["host,a,1".to_owned(), "x".to_owned(), "peer,a,1".to_owned()];
    assert!(matches!(parse_candidates(&specs), Err(CandidateError::Shape(spec)) if spec == "x"), "the first one");
    let said = |spec: &str| parse_candidate(spec).err().map(|e| e.message());
    assert_eq!(said("host,\"a").unwrap(), "candidate must be `type,address,port`: \"host,\\\"a\"");
    assert_eq!(said("peer,a,1").unwrap(), "unknown candidate type \"peer\"");
    assert_eq!(said("host,a,x").unwrap(), "invalid port in \"host,a,x\"");
    assert!(matches!(connect_plan(false, Some("x")), ConnectPlan::Ask));
    assert!(matches!(connect_plan(true, None), ConnectPlan::Relay { local: "127.0.0.1:0" }));
    assert!(matches!(connect_plan(true, Some("[::1]:0")), ConnectPlan::Relay { local: "[::1]:0" }));
}

fn portal_config() -> PortalConfig {
    PortalConfig {
        identity_url: "i".to_owned(),
        proxy_url: "p".to_owned(),
        protocol: "isekai-portal-v1".to_owned(),
        auth0_token: "AT".to_owned(),
        service: "db".to_owned(),
        expected_endpoint: String::new(),
        register: true,
    }
}

#[test]
fn the_app_keeps_what_it_paired_with() {
    let config = portal_config();
    assert_eq!(expected_peer(&config), None);
    let cfg = build_p2p_config(&config, "ep:me".to_owned(), true, None);
    assert_eq!(cfg.device_name.as_deref(), Some("portal-client-android"));
    assert_eq!(cfg.endpoint_id(), "ep:me");
    assert!(matches!(&cfg.credential, Credential::Auth0 { token, source: None, register: true } if token == "AT"));
    assert!(tokens_for(&config, None, 5).is_none());
    let tokens = tokens_for(&config, text("RT"), 5).unwrap();
    assert_eq!((tokens.access_token.as_str(), tokens.expires_at_unix), ("AT", 5));
    let paired = pair_with_code(config, "ep:server".to_owned());
    assert_eq!(expected_peer(&paired), Some("ep:server"));
    assert!(!paired.register);
    assert_eq!(paired.service, "db");
    let mut session = PortalSession::new(4040);
    assert_eq!(session.local_port(), 4040);
    assert!(session.disconnect());
    assert!(!session.disconnect(), "it is closed once");
    let said: Vec<String> = [
        PortalError::InvalidKey("x".to_owned()),
        PortalError::Pair("x".to_owned()),
        PortalError::Connect("x".to_owned()),
        PortalError::Runtime("x".to_owned()),
    ]
    .iter()
    .map(|e| e.message())
    .collect();
    assert_eq!(said, vec!["invalid key: x", "pairing failed: x", "connect failed: x", "runtime error: x"]);
}

#[test]
fn the_arguments_become_a_configuration() {
    let mut args = Args::default();
    args.identity_http3 = true;
    args.device_name = text("desk");
    let cfg = config(&args, Credential::enrollment("enr1_k"), "ep:me".to_owned());
    assert_eq!(cfg.identity_url, args.identity_url);
    assert_eq!(cfg.proxy_url, args.proxy_url);
    assert_eq!(cfg.protocol, "isekai-portal-v1");
    assert!(cfg.identity_http3);
    assert_eq!(cfg.device_name.as_deref(), Some("desk"));
    assert_eq!((cfg.endpoint.as_str(), cfg.token_ttl), ("ep:me", None));
    assert!(matches!(&cfg.credential, Credential::Enrollment(e) if e.key == "enr1_k"));
    let cfg = token_config("https://i".to_owned(), false, "AT", true, None, Some(60), "ep:me".to_owned());
    assert!(matches!(&cfg.credential, Credential::Auth0 { token, register: true, .. } if token == "AT"));
    assert_eq!((cfg.identity_url.as_str(), cfg.proxy_url.as_str(), cfg.token_ttl), ("https://i", "", Some(60)));
    let cfg = relay_config("https://p".to_owned(), "mjpeg".to_owned(), "ep:me".to_owned());
    assert_eq!((cfg.identity_url.as_str(), cfg.proxy_url.as_str(), cfg.protocol.as_str()), ("", "https://p", "mjpeg"));
}

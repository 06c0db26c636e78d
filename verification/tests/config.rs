use isekai_p2p::auth::{AssertionSource, Auth0TokenSource, Credential, Enrollment, Registration, SourceError};
use isekai_p2p::config::{
    already_registered, is_permanent, issue_endpoint_token, issue_step, release_enrollment, released, renew_delay, retry_delay,
    Challenge, EndpointToken, Failure, IdentityError, IssueError, Narrowing, P2pConfig, Renewal, Reply, Report, Request,
    Stage, Step, TokenRenewal, Turns, RENEW_MIN, RENEW_UNKNOWN,
};
use isekai_p2p::duration::Duration;
use std::sync::{Arc, Mutex};

fn api(status: u16) -> Failure {
    Failure::Identity(IdentityError { status: Some(status), text: format!("status {status}") })
}

fn api_error(status: u16) -> Failure {
    api(status).context("could not renew the endpoint token")
}

#[test]
fn a_refusal_is_permanent_and_the_rest_are_not() {
    assert!(is_permanent(&api_error(403)));
    for retryable in [401, 429, 500, 503] {
        assert!(!is_permanent(&api_error(retryable)), "{retryable} may well succeed next time");
    }
}

#[test]
fn the_status_is_found_under_the_context() {
    let wrapped = api_error(403).context("issue the endpoint token");
    assert!(is_permanent(&wrapped));
    assert_eq!(
        wrapped.message(),
        "issue the endpoint token: could not renew the endpoint token: status 403"
    );
}

#[test]
fn a_transport_failure_is_not_permanent() {
    assert!(!is_permanent(&Failure::Other("connection reset".to_owned())));
}

#[test]
fn a_conflict_is_found_under_context_only() {
    assert!(already_registered(&api_error(409)));
    assert!(!already_registered(&api_error(403)));
    let caused = Failure::Caused("other".to_owned(), Box::new(api(409)));
    assert!(!already_registered(&caused));
    assert!(is_permanent(&Failure::Caused("other".to_owned(), Box::new(api(403)))));
}

#[test]
fn a_token_is_replaced_before_it_expires() {
    assert_eq!(renew_delay(Some(300)), Duration::from_secs(240));
    assert_eq!(renew_delay(Some(180)), Duration::from_secs(120));
}

#[test]
fn an_unknown_lifetime_renews_inside_the_shortest_ttl() {
    assert_eq!(renew_delay(None), Duration::from_secs(240));
    assert!(renew_delay(None) < Duration::from_secs(300));
}

#[test]
fn a_stated_lifetime_is_not_shortened_to_the_unknown_one() {
    assert_eq!(renew_delay(Some(900)), Duration::from_secs(840));
    assert_eq!(renew_delay(Some(86_400)), Duration::from_secs(86_340));
    assert!(renew_delay(Some(900)) > Duration::from_secs(RENEW_UNKNOWN));
}

#[test]
fn a_short_lifetime_still_has_a_floor() {
    assert_eq!(renew_delay(Some(0)), Duration::from_secs(RENEW_MIN));
    assert_eq!(renew_delay(Some(-1)), Duration::from_secs(RENEW_MIN));
    assert_eq!(renew_delay(Some(60)), Duration::from_secs(RENEW_MIN));
}

#[test]
fn retries_back_off() {
    let secs: Vec<u128> = [0, 1, 2, 3, 4, 5, 9, 10, u32::MAX].iter().map(|n| retry_delay(*n).as_secs()).collect();
    assert_eq!(secs, vec![30, 30, 60, 120, 240, 240, 240, 240, 240]);
}

#[test]
fn a_refusal_is_reported_once() {
    let mut renewal = TokenRenewal::new(Some(900));
    assert_eq!(renewal.delay, Duration::from_secs(840));
    assert_eq!(renewal.tried(&Renewal::Failed(api(403))), (Report::Refused, None));
    assert_eq!(renewal.delay, Duration::from_secs(300));
    assert_eq!(renewal.tried(&Renewal::Failed(api(403))), (Report::StillRefused, None));
    assert_eq!(renewal.tried(&Renewal::Failed(api(503))), (Report::Retrying { failures: 1 }, None));
    assert_eq!(renewal.delay, Duration::from_secs(30));
    assert_eq!(renewal.tried(&Renewal::Failed(api(503))), (Report::Retrying { failures: 2 }, None));
    assert_eq!(renewal.delay, Duration::from_secs(60));
    assert_eq!(renewal.tried(&Renewal::Failed(api(403))), (Report::StillRefused, None));
    let token = EndpointToken { expires_in: 300, ..endpoint_token("RENEWED") };
    assert_eq!(renewal.tried(&Renewal::Renewed { token }), (Report::Renewed, Some("RENEWED")));
    assert_eq!(renewal.delay, Duration::from_secs(240));
    assert_eq!(renewal.tried(&Renewal::Failed(api(403))), (Report::Refused, None));
}

struct Tokens;

impl Auth0TokenSource for Tokens {
    fn auth0_token(&self) -> Result<String, SourceError> {
        Ok("CURRENT".to_owned())
    }
}

struct Assertions;

impl AssertionSource for Assertions {
    fn assertion(&self, audience: &str) -> Result<String, SourceError> {
        Ok(format!("ASSERTION.FOR.{audience}"))
    }
}

fn config(credential: Credential, endpoint: &str) -> P2pConfig {
    P2pConfig {
        identity_url: "http://identity".to_owned(),
        identity_http3: false,
        proxy_url: String::new(),
        credential,
        protocol: "isekai-portal-v1".to_owned(),
        device_name: Some("gha-4821".to_owned()),
        token_ttl: Some(900),
        endpoint: endpoint.to_owned(),
        narrowing: Narrowing { permissions: None, protocols: None, gateways: Some(vec!["gw".to_owned()]) },
    }
}

fn name(request: &Request) -> &'static str {
    match request {
        Request::Auth0Token => "auth0",
        Request::Assertion { .. } => "assertion",
        Request::RegisterChallenge { .. } => "register/challenge",
        Request::Register { .. } => "register",
        Request::IssueToken { .. } => "token",
        Request::EnrollChallenge { .. } => "enroll/challenge",
        Request::Enroll { .. } => "enroll",
        Request::RefreshChallenge { .. } => "refresh/challenge",
        Request::RefreshToken { .. } => "refresh",
    }
}

fn endpoint_token(text: &str) -> EndpointToken {
    EndpointToken {
        endpoint_token: text.to_owned(),
        expires_in: 900,
        endpoint_id: "ep:abc".to_owned(),
        permissions: vec!["peer-connect:initiate".to_owned()],
        protocols: vec!["isekai-portal-v1".to_owned()],
    }
}

fn token(text: &str) -> Reply {
    Reply::Token(endpoint_token(text))
}

/// A server that accepts everything, but for what `refuse` answers.
fn serve(request: &Request, refuse: &dyn Fn(&str) -> Option<Failure>) -> Reply {
    if let Some(failure) = refuse(name(request)) {
        return Reply::Failed(failure);
    }
    match request {
        Request::Auth0Token => Reply::Text(Tokens.auth0_token().unwrap()),
        Request::Assertion { audience } => Reply::Text(Assertions.assertion(audience).unwrap()),
        Request::RegisterChallenge { .. } | Request::EnrollChallenge { .. } | Request::RefreshChallenge { .. } => {
            Reply::Challenge(Challenge { challenge_id: "chl_1".to_owned(), challenge: "C".to_owned() })
        }
        Request::Register { device_name, .. } => {
            assert_eq!(device_name.as_deref(), Some("gha-4821"));
            Reply::Registered
        }
        Request::IssueToken { narrowing, ttl, .. } => {
            assert_eq!(narrowing.gateways, Some(vec!["gw".to_owned()]));
            assert_eq!(*ttl, Some(900));
            token("TOKEN.JWT.VALUE")
        }
        Request::Enroll { key, ttl, .. } => {
            assert_eq!(key.as_str(), "enr1_SECRET");
            assert_eq!(*ttl, Some(900));
            token("TOKEN.FROM.ENROL")
        }
        Request::RefreshToken { key, gateways, .. } => {
            assert_eq!(key.as_str(), "enr1_SECRET");
            assert_eq!(**gateways, Some(vec!["gw".to_owned()]));
            token("TOKEN.FROM.REFRESH")
        }
    }
}

fn run(
    cfg: &P2pConfig,
    cell: &mut Registration,
    hits: &mut Vec<String>,
    refuse: &dyn Fn(&str) -> Option<Failure>,
) -> Result<EndpointToken, IssueError> {
    let mut step = issue_endpoint_token(cfg, cell);
    loop {
        match step {
            Step::Done(result) => return result,
            Step::Ask(stage, request) => {
                hits.push(name(&request).to_owned());
                let reply = serve(&request, refuse);
                step = issue_step(cfg, cell, stage, reply);
            }
        }
    }
}

fn accept(_: &str) -> Option<Failure> {
    None
}

fn enrolment() -> Credential {
    Credential::enrollment("enr1_SECRET")
}

#[test]
fn the_first_call_enrols_and_the_rest_renew() {
    let cfg = config(enrolment(), "ep:abc");
    let mut cell = Registration::new();
    let mut hits = Vec::new();
    let first = run(&cfg, &mut cell, &mut hits, &accept).expect("enrol");
    assert_eq!(first.endpoint_token, "TOKEN.FROM.ENROL");
    assert_eq!(hits, vec!["enroll/challenge", "enroll"]);
    let second = run(&cfg, &mut cell, &mut hits, &accept).expect("renew");
    assert_eq!(second.endpoint_token, "TOKEN.FROM.REFRESH");
    assert_eq!(hits, vec!["enroll/challenge", "enroll", "refresh/challenge", "refresh"]);
}

/// A source that counts, and answers differently each time.
#[derive(Default)]
struct CountingAssertions {
    audiences: Mutex<Vec<String>>,
}

impl AssertionSource for CountingAssertions {
    fn assertion(&self, audience: &str) -> Result<String, SourceError> {
        let mut audiences = self.audiences.lock().unwrap();
        audiences.push(audience.to_owned());
        Ok(format!("ASSERTION.{}", audiences.len()))
    }
}

#[test]
fn every_renewal_mints_a_fresh_assertion() {
    let assertions = Arc::new(CountingAssertions::default());
    let credential: Credential = Enrollment::new("enr1_SECRET").with_assertions(assertions.clone()).into();
    let cfg = config(credential, "ep:abc");
    let mut cell = Registration::new();
    let mut bodies: Vec<(&'static str, String, Option<String>)> = Vec::new();
    for expected in ["TOKEN.FROM.ENROL", "TOKEN.FROM.REFRESH", "TOKEN.FROM.REFRESH"] {
        let mut step = issue_endpoint_token(&cfg, &mut cell);
        let token = loop {
            match step {
                Step::Done(result) => break result.expect("a token"),
                Step::Ask(stage, request) => {
                    let reply = match &request {
                        Request::Assertion { audience } => Reply::Text(assertions.assertion(audience).unwrap()),
                        other => serve(other, &accept),
                    };
                    match &request {
                        Request::EnrollChallenge { key, auth0 } => {
                            assert_eq!(*auth0, None);
                            bodies.push((name(&request), key.to_string(), None));
                        }
                        Request::RefreshChallenge { key, auth0, endpoint_id } => {
                            assert_eq!(*auth0, None);
                            assert_eq!(endpoint_id.as_str(), "ep:abc");
                            bodies.push((name(&request), key.to_string(), None));
                        }
                        Request::Enroll { key, assertion, .. } => {
                            bodies.push((name(&request), key.to_string(), assertion.clone()));
                        }
                        Request::RefreshToken { key, assertion, .. } => {
                            bodies.push((name(&request), key.to_string(), assertion.clone()));
                        }
                        Request::Assertion { .. } => {}
                        other => panic!("{} was not to be asked", name(other)),
                    }
                    step = issue_step(&cfg, &mut cell, stage, reply);
                }
            }
        };
        assert_eq!(token.endpoint_token, expected);
    }

    let audiences = assertions.audiences.lock().unwrap().clone();
    assert_eq!(audiences.len(), 3, "one per call that spends the key, not one per session");
    assert!(
        audiences.iter().all(|a| a == "isekai-identity"),
        "the proxy's audience is a different token: {audiences:?}",
    );
    for (path, key, assertion) in &bodies {
        assert_eq!(key, "enr1_SECRET", "{path}");
        let wants_assertion = *path == "enroll" || *path == "refresh";
        assert_eq!(assertion.is_none(), !wants_assertion, "{path} carried the wrong thing");
    }
    let sent: Vec<(&str, Option<&str>)> = bodies.iter().map(|(path, _, a)| (*path, a.as_deref())).collect();
    assert_eq!(
        sent,
        vec![
            ("enroll/challenge", None),
            ("enroll", Some("ASSERTION.1")),
            ("refresh/challenge", None),
            ("refresh", Some("ASSERTION.2")),
            ("refresh/challenge", None),
            ("refresh", Some("ASSERTION.3")),
        ]
    );
}

#[test]
fn the_evidence_goes_out_with_the_key() {
    let credential: Credential = Enrollment::new("enr1_SECRET")
        .with_assertions(Arc::new(Assertions))
        .with_auth0(Arc::new(Tokens))
        .into();
    let cfg = config(credential, "ep:abc");
    let mut cell = Registration::new();
    let mut step = issue_endpoint_token(&cfg, &mut cell);
    let mut sent = Vec::new();
    while let Step::Ask(stage, request) = step {
        match &request {
            Request::Enroll { assertion, auth0, .. } => sent.push((assertion.clone(), auth0.clone())),
            Request::EnrollChallenge { auth0, .. } => sent.push((None, auth0.clone())),
            _ => {}
        }
        let reply = serve(&request, &accept);
        step = issue_step(&cfg, &mut cell, stage, reply);
    }
    assert_eq!(
        sent,
        vec![
            (None, Some("CURRENT".to_owned())),
            (Some("ASSERTION.FOR.isekai-identity".to_owned()), Some("CURRENT".to_owned())),
        ]
    );
}

#[test]
fn an_enrolment_the_server_already_did_falls_through_to_renewal() {
    let cfg = config(enrolment(), "ep:abc");
    let mut cell = Registration::new();
    let mut hits = Vec::new();
    let conflict = |path: &str| if path == "enroll" { Some(api(409)) } else { None };
    let first = run(&cfg, &mut cell, &mut hits, &conflict).expect("recovers via renewal");
    assert_eq!(first.endpoint_token, "TOKEN.FROM.REFRESH");
    let second = run(&cfg, &mut cell, &mut hits, &conflict).expect("renews");
    assert_eq!(second.endpoint_token, "TOKEN.FROM.REFRESH");
    assert_eq!(hits.iter().filter(|p| *p == "enroll").count(), 1, "one attempt, then renewals");
}

#[test]
fn a_credential_will_not_stand_in_for_a_second_keypair() {
    let mut cell = Registration::new();
    let mut hits = Vec::new();
    run(&config(enrolment(), "ep:one"), &mut cell, &mut hits, &accept).expect("enrol");
    let err = run(&config(enrolment(), "ep:two"), &mut cell, &mut hits, &accept)
        .expect_err("a keypair that never enrolled must not renew");
    let message = err.into_failure().message();
    assert_eq!(
        message,
        "this Enrollment Key credential already enrolled ep:one, but this config carries ep:two. \
         One key registers one Endpoint per keypair \u{2014} give each keypair its own Credential."
    );
    assert_eq!(hits.iter().filter(|p| *p == "refresh").count(), 0, "and it must not have gone on to renew");
}

#[test]
fn a_run_that_only_found_the_endpoint_does_not_own_its_slot() {
    let cfg = config(enrolment(), "ep:abc");
    let mut cell = Registration::new();
    let conflict = |path: &str| if path == "enroll" { Some(api(409)) } else { None };
    run(&cfg, &mut cell, &mut Vec::new(), &conflict).expect("renews");
    assert_eq!(cell.endpoint_id(), Some("ep:abc"));
    assert!(!cell.registered_here());
    assert!(release_enrollment(&cfg, &cell).unwrap().is_none());
}

#[test]
fn a_lost_answer_leaves_the_slot_with_this_run() {
    let cfg = config(enrolment(), "ep:abc");
    let mut cell = Registration::new();
    let lost = |path: &str| if path == "enroll" { Some(Failure::Other("connection reset".to_owned())) } else { None };
    let err = run(&cfg, &mut cell, &mut Vec::new(), &lost).expect_err("the answer was lost");
    assert_eq!(err.into_failure().message(), "could not enrol this Endpoint: connection reset");
    assert_eq!(cell.endpoint_id(), None);
    let conflict = |path: &str| if path == "enroll" { Some(api(409)) } else { None };
    run(&cfg, &mut cell, &mut Vec::new(), &conflict).expect("renews");
    assert!(cell.registered_here());
    assert!(release_enrollment(&cfg, &cell).unwrap().is_some());
}

#[test]
fn a_run_that_registered_owns_its_slot() {
    let cfg = config(enrolment(), "ep:abc");
    let mut cell = Registration::new();
    assert!(release_enrollment(&cfg, &cell).unwrap().is_none(), "nothing was taken yet");
    run(&cfg, &mut cell, &mut Vec::new(), &accept).expect("enrol");
    assert!(cell.registered_here());
    assert!(release_enrollment(&cfg, &cell).unwrap().is_some());
}

#[test]
fn each_failure_says_what_was_being_done() {
    let credential = || -> Credential {
        Enrollment::new("enr1_SECRET").with_assertions(Arc::new(Assertions)).with_auth0(Arc::new(Tokens)).into()
    };
    for (path, said) in [
        ("auth0", "could not obtain a current Auth0 token: x"),
        ("assertion", "could not mint a workload identity token for the Identity API: x"),
        ("enroll/challenge", "could not obtain an enrolment challenge: x"),
        ("enroll", "could not enrol this Endpoint: x"),
    ] {
        let fail = move |at: &str| if at == path { Some(Failure::Other("x".to_owned())) } else { None };
        let err = run(&config(credential(), "ep:a"), &mut Registration::new(), &mut Vec::new(), &fail).unwrap_err();
        assert_eq!(err.into_failure().message(), said);
    }
    let cfg = config(credential(), "ep:a");
    let mut cell = Registration::new();
    run(&cfg, &mut cell, &mut Vec::new(), &accept).unwrap();
    for (path, said) in [
        ("refresh/challenge", "could not obtain a renewal challenge: x"),
        ("refresh", "could not renew the endpoint token: x"),
    ] {
        let fail = move |at: &str| if at == path { Some(Failure::Other("x".to_owned())) } else { None };
        let err = run(&cfg, &mut cell, &mut Vec::new(), &fail).unwrap_err();
        assert_eq!(err.into_failure().message(), said);
    }
}

fn sign_in(register: bool) -> Credential {
    Credential::auth0("STARTING", None, register)
}

#[test]
fn register_then_issue_returns_the_endpoint_token() {
    let mut hits = Vec::new();
    let token = run(&config(sign_in(true), "ep:abc"), &mut Registration::new(), &mut hits, &accept).unwrap();
    assert_eq!(token.endpoint_token, "TOKEN.JWT.VALUE");
    assert_eq!(token.expires_in, 900);
    assert_eq!(hits, vec!["register/challenge", "register", "token"]);
}

#[test]
fn without_register_only_issues() {
    let mut hits = Vec::new();
    let token = run(&config(sign_in(false), "ep:abc"), &mut Registration::new(), &mut hits, &accept).unwrap();
    assert_eq!(token.endpoint_token, "TOKEN.JWT.VALUE");
    assert_eq!(hits, vec!["token"]);
}

#[test]
fn renewing_issues_rather_than_registering_again() {
    let cfg = config(sign_in(true), "ep:abc");
    let mut cell = Registration::new();
    let mut hits = Vec::new();
    run(&cfg, &mut cell, &mut hits, &accept).expect("the first token");
    run(&cfg, &mut cell, &mut hits, &accept).expect("the renewal");
    assert_eq!(hits, vec!["register/challenge", "register", "token", "token"]);
    assert!(cell.attempted);
    assert!(!cell.registered_here(), "a person's sign-in takes no slot");
    assert_eq!(
        release_enrollment(&cfg, &cell).err().unwrap().message(),
        "only an Endpoint enrolled with a key can return its own slot"
    );
}

#[test]
fn an_endpoint_already_registered_is_issued_against() {
    let cfg = config(sign_in(true), "ep:abc");
    let mut cell = Registration::new();
    let mut hits = Vec::new();
    let conflict = |path: &str| if path == "register/challenge" { Some(api(409)) } else { None };
    run(&cfg, &mut cell, &mut hits, &conflict).expect("the first token");
    run(&cfg, &mut cell, &mut hits, &conflict).expect("the renewal");
    assert_eq!(hits, vec!["register/challenge", "token", "token"]);
    assert!(!cell.attempted, "no registration was ever sent");
}

#[test]
fn a_registered_keypair_is_not_swapped() {
    let mut cell = Registration::new();
    run(&config(sign_in(true), "ep:one"), &mut cell, &mut Vec::new(), &accept).unwrap();
    let mut hits = Vec::new();
    let err = run(&config(sign_in(true), "ep:two"), &mut cell, &mut hits, &accept).unwrap_err();
    assert_eq!(
        err.into_failure().message(),
        "this credential already registered ep:one, but this config carries ep:two. Give each keypair its own Credential."
    );
    assert!(hits.is_empty());
}

#[test]
fn a_source_is_asked_in_place_of_the_starting_token() {
    let cfg = config(Credential::auth0("STARTING", Some(Arc::new(Tokens)), false), "ep:abc");
    let mut cell = Registration::new();
    let Step::Ask(stage, Request::Auth0Token) = issue_endpoint_token(&cfg, &mut cell) else {
        panic!("the source is asked");
    };
    match issue_step(&cfg, &mut cell, stage, Reply::Text("CURRENT".to_owned())) {
        Step::Ask(_, Request::IssueToken { auth0, .. }) => assert_eq!(auth0, "CURRENT"),
        _ => panic!("the token is issued"),
    }
}

#[test]
fn a_cloned_config_does_not_enrol_again() {
    let mut cell = Registration::new();
    let mut hits = Vec::new();
    run(&config(enrolment(), "ep:abc"), &mut cell, &mut hits, &accept).expect("enrol");
    let token = run(&config(enrolment(), "ep:abc"), &mut cell, &mut hits, &accept).expect("renew");
    assert_eq!(token.endpoint_token, "TOKEN.FROM.REFRESH");
    assert_eq!(
        hits.iter().filter(|p| *p == "enroll").count(),
        1,
        "one key registers one Endpoint; a second enrolment is an unrecoverable 409",
    );
}

#[test]
fn a_cloned_config_registers_no_second_time() {
    let mut cell = Registration::new();
    let mut hits = Vec::new();
    run(&config(sign_in(true), "ep:abc"), &mut cell, &mut hits, &accept).expect("the first token");
    run(&config(sign_in(true), "ep:abc"), &mut cell, &mut hits, &accept).expect("the renewal");
    assert_eq!(hits, vec!["register/challenge", "register", "token", "token"]);
}

#[test]
fn a_registration_outlives_a_failed_issue() {
    let cfg = config(sign_in(true), "ep:abc");
    let mut cell = Registration::new();
    let mut hits = Vec::new();
    let refused = |path: &str| if path == "token" { Some(api(403)) } else { None };
    assert!(run(&cfg, &mut cell, &mut hits, &refused).is_err());
    assert_eq!(cell.endpoint_id(), Some("ep:abc"));
    run(&cfg, &mut cell, &mut hits, &accept).expect("the next one only issues");
    assert_eq!(hits, vec!["register/challenge", "register", "token", "token"]);
    let unreachable = |path: &str| if path == "register/challenge" { Some(api(503)) } else { None };
    let mut cell = Registration::new();
    assert!(run(&cfg, &mut cell, &mut Vec::new(), &unreachable).is_err());
    assert!(!cell.attempted, "nothing was registered, so there is nothing to look for");
}

#[test]
fn a_slot_is_given_back_with_the_key_alone() {
    let credential: Credential = Enrollment::new("enr1_SECRET").with_assertions(Arc::new(Assertions)).into();
    let cfg = config(credential, "ep:abc");
    let mut cell = Registration::new();
    run(&cfg, &mut cell, &mut Vec::new(), &accept).expect("enrol");
    let revocation = release_enrollment(&cfg, &cell).unwrap().expect("this run took a slot");
    assert_eq!(revocation.key, "enr1_SECRET");
    assert_eq!(revocation.endpoint_id, "ep:abc");
    assert_eq!((revocation.reason, revocation.assertion), (None, None));
    assert_eq!(released(None).unwrap(), false);
    assert_eq!(released(Some(Ok(()))).unwrap(), true);
    assert_eq!(released(Some(Err(api(503)))).unwrap_err().message(), api(503).message());
}

#[test]
fn the_proxy_is_given_the_token_of_each_renewal() {
    let mut renewal = TokenRenewal::new(None);
    let mut held = "FIRST".to_owned();
    let outcomes = [
        Renewal::Failed(api(503)),
        Renewal::Renewed { token: endpoint_token("SECOND") },
        Renewal::Failed(api(503)),
        Renewal::Failed(api(503)),
    ];
    let mut waits = vec![renewal.delay.as_secs()];
    for outcome in &outcomes {
        if let (_, Some(token)) = renewal.tried(outcome) {
            held = token.to_owned();
        }
        waits.push(renewal.delay.as_secs());
    }
    assert_eq!(held, "SECOND");
    assert_eq!(waits, vec![240, 30, 840, 30, 60]);
}

#[test]
fn concurrent_callers_enrol_once_between_them() {
    let cfg = config(enrolment(), "ep:abc");
    let mut turns = Turns::new();
    let mut paths: Vec<&'static str> = Vec::new();
    let mut tokens: Vec<String> = Vec::new();
    let mut open: Vec<(u64, Stage, Reply)> = Vec::new();
    let mut waiting: Vec<u64> = (0..8).collect();
    while !(waiting.is_empty() && open.is_empty()) {
        // Everybody who waits tries, and then one question of each open call is answered.
        let mut steps: Vec<(u64, Step)> = Vec::new();
        let mut still: Vec<u64> = Vec::new();
        for caller in waiting {
            match turns.begin(caller, &cfg) {
                Some(step) => steps.push((caller, step)),
                None => still.push(caller),
            }
        }
        waiting = still;
        for (caller, stage, reply) in open {
            steps.push((caller, turns.answered(caller, &cfg, stage, reply)));
        }
        open = Vec::new();
        for (caller, step) in steps {
            match step {
                Step::Done(result) => tokens.push(result.expect("a token").endpoint_token),
                Step::Ask(stage, request) => {
                    paths.push(name(&request));
                    open.push((caller, stage, serve(&request, &accept)));
                }
            }
        }
    }
    assert_eq!(paths.iter().filter(|p| **p == "enroll").count(), 1, "one enrolment between eight callers");
    assert_eq!(tokens.len(), 8);
    assert_eq!(tokens.iter().filter(|t| *t == "TOKEN.FROM.ENROL").count(), 1);
    assert_eq!(tokens.iter().filter(|t| *t == "TOKEN.FROM.REFRESH").count(), 7);
    assert_eq!(turns.holder, None);
}

#[test]
fn a_turn_passes_on_when_its_caller_goes_away() {
    let cfg = config(enrolment(), "ep:abc");
    let mut turns = Turns::new();
    assert!(turns.begin(1, &cfg).is_some());
    assert!(turns.begin(2, &cfg).is_none(), "one goes first");
    turns.leave(2);
    assert_eq!(turns.holder, Some(1));
    turns.leave(1);
    assert!(turns.begin(2, &cfg).is_some());
    assert!(turns.cell.attempted);
    // Without anything to register nobody waits.
    let cfg = config(sign_in(false), "ep:abc");
    let mut turns = Turns::new();
    assert!(turns.begin(1, &cfg).is_some() && turns.begin(2, &cfg).is_some());
}

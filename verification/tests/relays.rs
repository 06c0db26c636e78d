use isekai_p2p::duration::Duration;
use isekai_p2p::public::{
    check_ticket_role, open, where_to_bind, PublicAddress, PublicEndpoint, PublicListener, PublicRelay, PublicTicket,
    RelayRole,
};
use isekai_p2p::relay_rtt::{
    is_healthy, measure_with, round, worth_measuring, ExchangeTimer, Finished, ProbeOptions, ProbeOutcome, RelayCandidate,
    RelayRttSample, RoundError, FRESHNESS_WINDOW, REPORT_INTERVAL,
};

#[test]
fn reporting_is_well_inside_the_window() {
    assert!(REPORT_INTERVAL < FRESHNESS_WINDOW);
    assert!(REPORT_INTERVAL * 2 <= FRESHNESS_WINDOW);
}

#[test]
fn an_initiator_will_not_wait_longer_than_its_budget() {
    let opts = ProbeOptions::initiator_defaults();
    assert!(opts.per_relay <= opts.budget);
    assert!(opts.budget <= Duration::from_secs(2));
}

#[test]
fn the_default_options() {
    let opts = ProbeOptions::default();
    assert_eq!((opts.probes, opts.per_relay, opts.budget), (3, Duration::from_secs(3), Duration::from_secs(10)));
}

fn candidate(dp_id: &str) -> RelayCandidate {
    RelayCandidate { dp_id: dp_id.to_owned(), base_url: format!("https://{dp_id}.relay.invalid:8443") }
}

fn finished(index: usize, outcome: ProbeOutcome) -> Finished {
    Finished { index, outcome }
}

#[test]
fn no_candidates_means_no_probing() {
    assert!(measure_with(&Vec::new(), &Vec::new()).is_empty());
    assert!(!worth_measuring(&None));
    assert!(!worth_measuring(&Some(Vec::new())));
    assert!(worth_measuring(&Some(vec![candidate("dp1_near")])));
}

#[test]
fn a_relay_that_cannot_be_reached_is_measured_and_null() {
    let samples = measure_with(&vec![candidate("dp1_gone")], &vec![finished(0, ProbeOutcome::Probed(None))]);
    assert_eq!(samples, vec![RelayRttSample { dp_id: "dp1_gone".to_owned(), rtt_ms: None }]);
}

#[test]
fn a_relay_that_runs_out_of_its_own_time_is_also_null() {
    let samples = measure_with(&vec![candidate("dp1_slow")], &vec![finished(0, ProbeOutcome::OwnTimeUp)]);
    assert_eq!(samples.first().map(|s| s.rtt_ms), Some(None));
}

#[test]
fn the_budget_omits_rather_than_condemns() {
    let samples = measure_with(&vec![candidate("dp1_slow")], &Vec::new());
    assert!(samples.is_empty(), "got {samples:?}");
    let samples = measure_with(&vec![candidate("dp1_broken")], &vec![finished(0, ProbeOutcome::Broken)]);
    assert!(samples.is_empty(), "got {samples:?}");
}

#[test]
fn a_dark_relay_does_not_cost_the_ones_that_answered() {
    let samples = measure_with(
        &vec![candidate("dp1_near"), candidate("dp1_stuck")],
        &vec![finished(0, ProbeOutcome::Probed(Some(7)))],
    );
    assert_eq!(samples, vec![RelayRttSample { dp_id: "dp1_near".to_owned(), rtt_ms: Some(7) }]);
}

fn time(probes: usize, exchanges: &[Option<u64>]) -> (Option<u32>, usize) {
    let mut timer = ExchangeTimer::new(probes);
    let mut used = 0;
    for exchange in exchanges {
        if timer.is_over() {
            break;
        }
        timer.exchanged(exchange.map(Duration::from_millis));
        used += 1;
    }
    (timer.best, used)
}

#[test]
fn the_warm_up_is_not_counted() {
    let (rtt, used) = time(3, &[Some(1), Some(9), Some(8), Some(9), Some(2)]);
    assert_eq!(rtt, Some(8));
    assert_eq!(used, 4);
}

#[test]
fn a_relay_that_fails_its_warm_up_is_unreachable() {
    assert_eq!(time(3, &[None, Some(1)]), (None, 1));
}

#[test]
fn the_fastest_exchange_is_the_one_kept() {
    assert_eq!(time(3, &[Some(120), Some(120), Some(5), Some(120)]), (Some(5), 4));
}

#[test]
fn a_relay_that_stops_answering_keeps_what_it_gave() {
    assert_eq!(time(3, &[Some(3), Some(4), None, Some(1)]), (Some(4), 3));
}

#[test]
fn a_time_too_long_to_count_is_the_longest() {
    let mut timer = ExchangeTimer::new(1);
    timer.exchanged(Some(Duration::from_secs(0)));
    timer.exchanged(Some(Duration::from_secs(u64::MAX)));
    assert_eq!(timer.best, Some(u32::MAX));
}

#[test]
fn a_round_is_reported_if_anything_finished() {
    assert_eq!(round(&Vec::new()), Err(RoundError::NothingFinished));
    assert_eq!(RoundError::NothingFinished.message(), "no relay finished its probe within the budget");
    let samples = vec![
        RelayRttSample { dp_id: "a".to_owned(), rtt_ms: None },
        RelayRttSample { dp_id: "b".to_owned(), rtt_ms: Some(1) },
    ];
    let summary = round(&samples).unwrap();
    assert_eq!((summary.measured, summary.unreachable), (2, 1));
    assert!(is_healthy(200) && is_healthy(299) && !is_healthy(300) && !is_healthy(199));
}

fn listener(relay: Option<PublicRelay>, ticket: Option<PublicTicket>) -> PublicListener {
    PublicListener {
        listener_id: "ul_1".to_owned(),
        public_address: PublicAddress { hostname: None, ip: "203.0.113.9".to_owned(), port: 10042 },
        relay,
        ticket,
    }
}

fn relay(dp_id: Option<&str>) -> PublicRelay {
    PublicRelay {
        masque_uri: "https://dp1.example:8443/.well-known/masque/udp/%2A/%2A/".to_owned(),
        dp_id: dp_id.map(str::to_owned),
    }
}

fn ticket(role: RelayRole) -> PublicTicket {
    PublicTicket { ticket: "eyJ.JWT.sig".to_owned(), role }
}

#[test]
fn a_named_data_plane_is_dialled() {
    assert_eq!(
        where_to_bind(&listener(Some(relay(Some("dp1abc"))), None), "https://cp:6443"),
        "https://dp1.example:8443/.well-known/masque/udp/%2A/%2A/",
    );
}

#[test]
fn an_unchosen_relay_is_not_followed() {
    assert_eq!(
        where_to_bind(&listener(Some(relay(None)), None), "https://cp:6443"),
        "https://cp:6443",
    );
    assert_eq!(
        where_to_bind(&listener(None, None), "https://cp:6443"),
        "https://cp:6443",
        "no relay at all is the control plane's own data path",
    );
}

#[test]
fn a_ticket_for_a_leg_never_reaches_the_wire() {
    let e = check_ticket_role(&listener(None, Some(ticket(RelayRole::Target)))).expect_err("refused");
    assert!(e.message().contains("relay leg"), "{}", e.message());
    assert_eq!(
        e.message(),
        "the control plane issued a Target ticket for public listener ul_1; presenting it would be refused as a relay leg"
    );
    check_ticket_role(&listener(None, Some(ticket(RelayRole::Public)))).expect("public");
    check_ticket_role(&listener(None, None)).expect("no ticket");
}

#[test]
fn a_public_address_is_bound_with_its_ticket() {
    let public = listener(Some(relay(Some("dp1abc"))), Some(ticket(RelayRole::Public)));
    let Ok(bind) = open(&public, "https://cp:6443") else {
        panic!("a public ticket is shown");
    };
    assert_eq!(bind.target, "https://dp1.example:8443/.well-known/masque/udp/%2A/%2A/");
    assert_eq!(bind.ticket, Some("eyJ.JWT.sig"));
    assert!(open(&listener(None, Some(ticket(RelayRole::Initiator))), "https://cp:6443").is_err());
    let endpoint = PublicEndpoint { listener_id: public.listener_id, advertised: public.public_address };
    assert_eq!(endpoint.listener_id(), "ul_1");
    assert_eq!(endpoint.advertised().port, 10042);
}

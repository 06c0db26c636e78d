//! Measuring the round trip to each relay, and reporting it.

use crate::duration::Duration;
use vstd::prelude::*;

verus! {

/// How long a report counts, in seconds.
pub const FRESHNESS_WINDOW: u64 = 3_600;

/// How often to report, in seconds.
pub const REPORT_INTERVAL: u64 = 1_800;

/// A report lands while the one before the last is still fresh.
pub proof fn law_reports_overlap()
    ensures
        REPORT_INTERVAL < FRESHNESS_WINDOW,
        REPORT_INTERVAL * 2 <= FRESHNESS_WINDOW,
        REPORT_INTERVAL == 1800 && FRESHNESS_WINDOW == 3600,
{
}

/// How much measuring to do.
#[derive(Clone, Copy, Debug, PartialEq, Eq, Structural)]
pub struct ProbeOptions {
    /// How many exchanges to time with each relay.
    pub probes: usize,
    /// How long one relay may take.
    pub per_relay: Duration,
    /// How long all of them together may take.
    pub budget: Duration,
}

impl Default for ProbeOptions {
    fn default() -> (o: Self)
        ensures
            o.probes == 3,
            o.per_relay.nanos == 3_000_000_000,
            o.budget.nanos == 10_000_000_000,
    {
        ProbeOptions { probes: 3, per_relay: Duration::from_secs(3), budget: Duration::from_secs(10) }
    }
}

impl ProbeOptions {
    /// What an initiator can afford, with somebody waiting to connect: one
    /// relay's time fits into the whole.
    pub fn initiator_defaults() -> (o: Self)
        ensures
            o.probes == 2,
            o.per_relay.nanos == 1_200_000_000,
            o.budget.nanos == 1_500_000_000,
            o.per_relay.nanos <= o.budget.nanos,
    {
        ProbeOptions { probes: 2, per_relay: Duration::from_millis(1_200), budget: Duration::from_millis(1_500) }
    }
}

/// A relay to measure.
#[derive(Debug)]
pub struct RelayCandidate {
    /// Its id.
    pub dp_id: String,
    /// Where it is.
    pub base_url: String,
}

/// What was measured of a relay.
#[derive(Debug, PartialEq, Eq)]
pub struct RelayRttSample {
    /// Its id.
    pub dp_id: String,
    /// The round trip in milliseconds; none where it could not be reached.
    pub rtt_ms: Option<u32>,
}

/// How the measuring of one relay ended, within the budget.
#[derive(Clone, Copy, Debug, PartialEq, Eq, Structural)]
pub enum ProbeOutcome {
    /// It was measured, or could not be reached.
    Probed(Option<u32>),
    /// Its own time ran out.
    OwnTimeUp,
    /// The measuring itself broke off, which says nothing about the relay.
    Broken,
}

/// A relay whose measuring ended within the budget.
#[derive(Clone, Copy, Debug, PartialEq, Eq, Structural)]
pub struct Finished {
    /// Which of the candidates it is.
    pub index: usize,
    /// How it ended.
    pub outcome: ProbeOutcome,
}

/// The sample of one relay, where there is one.
pub open spec fn sample_spec(candidates: Seq<RelayCandidate>, finished: Finished) -> Option<RelayRttSample> {
    let dp_id = candidates[finished.index as int].dp_id;
    match finished.outcome {
        ProbeOutcome::Probed(rtt_ms) => Some(RelayRttSample { dp_id, rtt_ms }),
        ProbeOutcome::OwnTimeUp => Some(RelayRttSample { dp_id, rtt_ms: None }),
        ProbeOutcome::Broken => None,
    }
}

/// The samples of the relays that finished, in the order in which they did.
pub open spec fn samples_spec(candidates: Seq<RelayCandidate>, finished: Seq<Finished>) -> Seq<RelayRttSample>
    decreases finished.len(),
{
    if finished.len() == 0 {
        seq![]
    } else {
        let before = samples_spec(candidates, finished.drop_last());
        match sample_spec(candidates, finished.last()) {
            Some(sample) => before.push(sample),
            None => before,
        }
    }
}

/// The samples of a round. A relay that used up its own time is reported as
/// out of reach; one that the budget cut off is left out, since nothing is
/// known of it.
pub fn measure_with(candidates: &Vec<RelayCandidate>, finished: &Vec<Finished>) -> (out: Vec<RelayRttSample>)
    requires
        forall|i: int| 0 <= i < finished@.len() ==> (#[trigger] finished@[i]).index < candidates@.len(),
    ensures
        out@ == samples_spec(candidates@, finished@),
        forall|i: int|
            0 <= i < finished@.len() ==> ((#[trigger] finished@[i]).outcome matches ProbeOutcome::Probed(rtt_ms) ==> out@.contains(
                RelayRttSample { dp_id: candidates@[finished@[i].index as int].dp_id, rtt_ms },
            )),
        forall|k: int|
            0 <= k < out@.len() ==> exists|i: int|
                0 <= i < finished@.len() && (#[trigger] finished@[i]).outcome != ProbeOutcome::Broken
                    && candidates@[finished@[i].index as int].dp_id == (#[trigger] out@[k]).dp_id,
{
    let mut out: Vec<RelayRttSample> = Vec::new();
    let mut i: usize = 0;
    while i < finished.len()
        invariant
            i <= finished@.len(),
            forall|k: int| 0 <= k < finished@.len() ==> (#[trigger] finished@[k]).index < candidates@.len(),
            out@ == samples_spec(candidates@, finished@.take(i as int)),
        decreases finished@.len() - i,
    {
        proof {
            assert(finished@.take(i + 1).drop_last() =~= finished@.take(i as int));
            assert(finished@[i as int].index < candidates@.len());
        }
        let one = finished[i];
        match one.outcome {
            ProbeOutcome::Probed(rtt_ms) => {
                out.push(RelayRttSample { dp_id: candidates[one.index].dp_id.clone(), rtt_ms });
            },
            ProbeOutcome::OwnTimeUp => {
                out.push(RelayRttSample { dp_id: candidates[one.index].dp_id.clone(), rtt_ms: None });
            },
            ProbeOutcome::Broken => {},
        }
        i = i + 1;
    }
    proof {
        assert(finished@.take(i as int) =~= finished@);
        assert forall|i: int| 0 <= i < finished@.len() implies ((#[trigger] finished@[i]).outcome matches ProbeOutcome::Probed(
            rtt_ms,
        ) ==> out@.contains(RelayRttSample { dp_id: candidates@[finished@[i].index as int].dp_id, rtt_ms })) by {
            if let ProbeOutcome::Probed(rtt_ms) = finished@[i].outcome {
                law_report_holds_what_was_measured(
                    candidates@,
                    finished@,
                    RelayRttSample { dp_id: candidates@[finished@[i].index as int].dp_id, rtt_ms },
                );
            }
        }
        assert forall|k: int| 0 <= k < out@.len() implies exists|i: int|
            0 <= i < finished@.len() && (#[trigger] finished@[i]).outcome != ProbeOutcome::Broken
                && candidates@[finished@[i].index as int].dp_id == (#[trigger] out@[k]).dp_id by {
            law_report_holds_what_was_measured(candidates@, finished@, out@[k]);
        }
    }
    out
}

/// A relay is in the report only if its measuring finished, and every relay
/// whose measuring finished without breaking off is.
pub proof fn law_the_budget_omits_rather_than_condemns(
    candidates: Seq<RelayCandidate>,
    finished: Seq<Finished>,
    sample: RelayRttSample,
)
    ensures
        samples_spec(candidates, finished).contains(sample) <==> exists|i: int|
            0 <= i < finished.len() && #[trigger] sample_spec(candidates, finished[i]) == Some(sample),
    decreases finished.len(),
{
    if finished.len() > 0 {
        let rest = finished.drop_last();
        let before = samples_spec(candidates, rest);
        let all = samples_spec(candidates, finished);
        law_the_budget_omits_rather_than_condemns(candidates, rest, sample);
        let n = finished.len() - 1;
        if all.contains(sample) {
            let k = choose|k: int| 0 <= k < all.len() && all[k] == sample;
            if k < before.len() {
                assert(before[k] == sample);
                assert(before.contains(sample));
                let i = choose|i: int| 0 <= i < rest.len() && #[trigger] sample_spec(candidates, rest[i]) == Some(sample);
                assert(sample_spec(candidates, finished[i]) == Some(sample));
            } else {
                assert(sample_spec(candidates, finished[n]) == Some(sample));
            }
        }
        if exists|i: int| 0 <= i < finished.len() && #[trigger] sample_spec(candidates, finished[i]) == Some(sample) {
            let i = choose|i: int|
                0 <= i < finished.len() && #[trigger] sample_spec(candidates, finished[i]) == Some(sample);
            if i < n {
                assert(sample_spec(candidates, rest[i]) == Some(sample));
                let k = choose|k: int| 0 <= k < before.len() && before[k] == sample;
                assert(all[k] == sample);
            } else {
                assert(all[all.len() - 1] == sample);
            }
        }
    }
}

/// The timing of exchanges with one relay.
#[derive(Clone, Copy, Debug, PartialEq, Eq, Structural)]
pub struct ExchangeTimer {
    /// Whether the first exchange, which is not timed, is done.
    pub warmed: bool,
    /// How many exchanges are left to time.
    pub left: usize,
    /// The shortest exchange so far, in milliseconds.
    pub best: Option<u32>,
    /// Whether an exchange failed.
    pub failed: bool,
}

/// A time in milliseconds, as far as it can be counted.
pub open spec fn counted(elapsed: Duration) -> u32 {
    let ms = elapsed.nanos as int / 1_000_000;
    if ms > u32::MAX {
        u32::MAX
    } else {
        ms as u32
    }
}

/// The shorter of the best so far and another.
pub open spec fn shorter(best: Option<u32>, ms: u32) -> Option<u32> {
    match best {
        Some(b) if b <= ms => Some(b),
        _ => Some(ms),
    }
}

/// The timing after one more exchange; none is an exchange that failed.
pub open spec fn timed(t: ExchangeTimer, elapsed: Option<Duration>) -> ExchangeTimer {
    match elapsed {
        None => ExchangeTimer { failed: true, ..t },
        Some(elapsed) => if !t.warmed {
            ExchangeTimer { warmed: true, ..t }
        } else {
            ExchangeTimer { left: (t.left - 1) as usize, best: shorter(t.best, counted(elapsed)), ..t }
        },
    }
}

/// Whether there is nothing left to time.
pub open spec fn over(t: ExchangeTimer) -> bool {
    t.failed || (t.warmed && t.left == 0)
}

impl ExchangeTimer {
    /// Begin to time `probes` exchanges, after one that is not timed.
    pub fn new(probes: usize) -> (t: Self)
        ensures
            t == (ExchangeTimer { warmed: false, left: probes, best: None, failed: false }),
    {
        ExchangeTimer { warmed: false, left: probes, best: None, failed: false }
    }

    /// Whether there is nothing left to time.
    pub fn is_over(&self) -> (r: bool)
        ensures
            r == over(*self),
    {
        self.failed || (self.warmed && self.left == 0)
    }

    /// Take note of an exchange. The first opens the connection and is not
    /// timed; a failure ends the timing and keeps what was timed before.
    pub fn exchanged(&mut self, elapsed: Option<Duration>)
        requires
            !over(*old(self)),
        ensures
            *final(self) == timed(*old(self), elapsed),
    {
        match elapsed {
            None => {
                self.failed = true;
            },
            Some(elapsed) => {
                if !self.warmed {
                    self.warmed = true;
                } else {
                    let millis = elapsed.as_millis();
                    let ms: u32 = if millis > 0xffff_ffff {
                        0xffff_ffff
                    } else {
                        millis as u32
                    };
                    self.left = self.left - 1;
                    self.best = match self.best {
                        Some(b) => if b <= ms {
                            Some(b)
                        } else {
                            Some(ms)
                        },
                        None => Some(ms),
                    };
                }
            },
        }
    }
}

/// The timing after several exchanges.
pub open spec fn timed_all(t: ExchangeTimer, exchanges: Seq<Option<Duration>>) -> ExchangeTimer
    decreases exchanges.len(),
{
    if exchanges.len() == 0 {
        t
    } else {
        timed(timed_all(t, exchanges.drop_last()), exchanges.last())
    }
}

/// The shortest of several exchanges, in milliseconds.
pub open spec fn shortest(exchanges: Seq<Option<Duration>>) -> Option<u32>
    decreases exchanges.len(),
{
    if exchanges.len() == 0 {
        None
    } else {
        match exchanges.last() {
            Some(elapsed) => shorter(shortest(exchanges.drop_last()), counted(elapsed)),
            None => shortest(exchanges.drop_last()),
        }
    }
}

/// The shortest exchange counts, and the first is not counted: `exchanges`
/// follow a first one that took `first`, whatever that was.
pub proof fn law_the_warm_up_is_not_counted(probes: usize, first: Duration, exchanges: Seq<Option<Duration>>)
    requires
        exchanges.len() <= probes,
        forall|i: int| 0 <= i < exchanges.len() ==> (#[trigger] exchanges[i]) is Some,
    ensures
        ({
            let start = ExchangeTimer { warmed: false, left: probes, best: None, failed: false };
            let end = timed_all(timed(start, Some(first)), exchanges);
            &&& end.best == shortest(exchanges)
            &&& end.left == probes - exchanges.len()
            &&& end.warmed && !end.failed
        }),
    decreases exchanges.len(),
{
    if exchanges.len() > 0 {
        let rest = exchanges.drop_last();
        assert forall|i: int| 0 <= i < rest.len() implies (#[trigger] rest[i]) is Some by {
            assert(rest[i] == exchanges[i]);
        }
        law_the_warm_up_is_not_counted(probes, first, rest);
        assert(exchanges[exchanges.len() - 1] is Some);
    }
}

/// A relay that fails the first exchange is out of reach, and nothing more is
/// asked of it.
pub proof fn law_failed_warm_up_is_unreachable(probes: usize)
    ensures
        ({
            let start = ExchangeTimer { warmed: false, left: probes, best: None, failed: false };
            over(timed(start, None)) && timed(start, None).best is None
        }),
{
}

/// Whether the answer to a health request counts as one.
pub fn is_healthy(status: u16) -> (r: bool)
    ensures
        r == (200 <= status < 300),
{
    200 <= status && status < 300
}

/// Whether there is anything to measure: a proxy that offers no relays, or
/// none yet, is not measured.
pub fn worth_measuring(candidates: &Option<Vec<RelayCandidate>>) -> (r: bool)
    ensures
        r == (candidates matches Some(list) && list@.len() > 0),
{
    match candidates {
        Some(list) => list.len() > 0,
        None => false,
    }
}

/// Why a round was not reported.
#[derive(Clone, Copy, Debug, PartialEq, Eq, Structural)]
pub enum RoundError {
    /// No relay finished in time.
    NothingFinished,
}

impl RoundError {
    /// The error in words.
    pub fn message(&self) -> (text: String)
        ensures
            text@ == "no relay finished its probe within the budget"@,
    {
        "no relay finished its probe within the budget".to_owned()
    }
}

/// What a round found.
#[derive(Clone, Copy, Debug, PartialEq, Eq, Structural)]
pub struct RoundSummary {
    /// How many relays were measured.
    pub measured: usize,
    /// How many of them could not be reached.
    pub unreachable: usize,
}

/// How many samples are of relays that could not be reached.
pub open spec fn unreachable_count(samples: Seq<RelayRttSample>) -> nat
    decreases samples.len(),
{
    if samples.len() == 0 {
        0
    } else {
        unreachable_count(samples.drop_last()) + (if samples.last().rtt_ms is None {
            1nat
        } else {
            0
        })
    }
}

/// What a round found; a round without samples is not reported.
pub fn round(samples: &Vec<RelayRttSample>) -> (r: Result<RoundSummary, RoundError>)
    ensures
        samples@.len() == 0 ==> r == Err::<RoundSummary, RoundError>(RoundError::NothingFinished),
        samples@.len() > 0 ==> (r matches Ok(s) && s.measured == samples@.len() && s.unreachable == unreachable_count(
            samples@,
        )),
{
    if samples.len() == 0 {
        return Err(RoundError::NothingFinished);
    }
    let mut unreachable: usize = 0;
    let mut i: usize = 0;
    while i < samples.len()
        invariant
            i <= samples@.len(),
            unreachable <= i,
            unreachable == unreachable_count(samples@.take(i as int)),
        decreases samples@.len() - i,
    {
        proof {
            assert(samples@.take(i + 1).drop_last() =~= samples@.take(i as int));
        }
        if samples[i].rtt_ms.is_none() {
            unreachable = unreachable + 1;
        }
        i = i + 1;
    }
    proof {
        assert(samples@.take(i as int) =~= samples@);
    }
    Ok(RoundSummary { measured: samples.len(), unreachable })
}

/// The report on several measurements is the reports on each of them, one after
/// another; a measurement that did not break off is reported under the id of
/// its own relay and with what it found, and one that did is not reported.
pub proof fn law_each_measurement_is_reported_of_its_own_relay(
    candidates: Seq<RelayCandidate>,
    before: Seq<Finished>,
    one: Finished,
    after: Seq<Finished>,
)
    requires
        one.index < candidates.len(),
    ensures
        ({
            let all = samples_spec(candidates, before + seq![one] + after);
            let first = samples_spec(candidates, before);
            let rest = samples_spec(candidates, after);
            if one.outcome == ProbeOutcome::Broken {
                all == first + rest
            } else {
                &&& all.len() == first.len() + 1 + rest.len()
                &&& all.take(first.len() as int) == first
                &&& all.skip(first.len() as int + 1) == rest
                &&& all[first.len() as int].dp_id@ == candidates[one.index as int].dp_id@
                &&& one.outcome matches ProbeOutcome::Probed(rtt_ms) ==> all[first.len() as int].rtt_ms == rtt_ms
                &&& one.outcome == ProbeOutcome::OwnTimeUp ==> all[first.len() as int].rtt_ms is None
            }
        }),
{
    lemma_samples_add_up(candidates, before + seq![one], after);
    lemma_samples_add_up(candidates, before, seq![one]);
    reveal_with_fuel(samples_spec, 2);
    assert(seq![one].drop_last() =~= Seq::<Finished>::empty());
    let all = samples_spec(candidates, before + seq![one] + after);
    let first = samples_spec(candidates, before);
    let rest = samples_spec(candidates, after);
    if one.outcome == ProbeOutcome::Broken {
        assert(all =~= first + rest);
    } else {
        assert(all.take(first.len() as int) =~= first);
        assert(all.skip(first.len() as int + 1) =~= rest);
    }
}

proof fn lemma_samples_add_up(candidates: Seq<RelayCandidate>, one: Seq<Finished>, other: Seq<Finished>)
    ensures
        samples_spec(candidates, one + other) == samples_spec(candidates, one) + samples_spec(candidates, other),
    decreases other.len(),
{
    if other.len() == 0 {
        assert(one + other =~= one);
        assert(samples_spec(candidates, one) + samples_spec(candidates, other) =~= samples_spec(candidates, one));
    } else {
        lemma_samples_add_up(candidates, one, other.drop_last());
        assert((one + other).drop_last() =~= one + other.drop_last());
        assert(samples_spec(candidates, one + other) =~= samples_spec(candidates, one) + samples_spec(candidates, other));
    }
}

/// The report holds a sample exactly where some measurement that did not break
/// off has its relay's id and found what it says.
pub proof fn law_report_holds_what_was_measured(
    candidates: Seq<RelayCandidate>,
    finished: Seq<Finished>,
    sample: RelayRttSample,
)
    requires
        forall|i: int| 0 <= i < finished.len() ==> (#[trigger] finished[i]).index < candidates.len(),
    ensures
        samples_spec(candidates, finished).contains(sample) <==> exists|i: int|
            0 <= i < finished.len() && (#[trigger] finished[i]).outcome != ProbeOutcome::Broken && candidates[finished[i].index as int].dp_id
                == sample.dp_id && (finished[i].outcome == ProbeOutcome::Probed(sample.rtt_ms) || (finished[i].outcome
                == ProbeOutcome::OwnTimeUp && sample.rtt_ms is None)),
        samples_spec(candidates, finished).len() <= finished.len(),
    decreases finished.len(),
{
    law_the_budget_omits_rather_than_condemns(candidates, finished, sample);
    if finished.len() > 0 {
        let rest = finished.drop_last();
        assert forall|i: int| 0 <= i < rest.len() implies (#[trigger] rest[i]).index < candidates.len() by {
            assert(rest[i] == finished[i]);
        }
        law_report_holds_what_was_measured(candidates, rest, sample);
    }
    if samples_spec(candidates, finished).contains(sample) {
        let i = choose|i: int|
            0 <= i < finished.len() && #[trigger] sample_spec(candidates, finished[i]) == Some(sample);
        assert(finished[i].outcome != ProbeOutcome::Broken);
    }
    if exists|i: int|
        0 <= i < finished.len() && (#[trigger] finished[i]).outcome != ProbeOutcome::Broken && candidates[finished[i].index as int].dp_id
            == sample.dp_id && (finished[i].outcome == ProbeOutcome::Probed(sample.rtt_ms) || (finished[i].outcome
            == ProbeOutcome::OwnTimeUp && sample.rtt_ms is None)) {
        let i = choose|i: int|
            0 <= i < finished.len() && (#[trigger] finished[i]).outcome != ProbeOutcome::Broken && candidates[finished[i].index as int].dp_id
                == sample.dp_id && (finished[i].outcome == ProbeOutcome::Probed(sample.rtt_ms) || (finished[i].outcome
                == ProbeOutcome::OwnTimeUp && sample.rtt_ms is None));
        assert(sample_spec(candidates, finished[i]) == Some(sample));
    }
}

/// The time that is kept is one of those that were taken after the first, in
/// whole milliseconds, and none of them is shorter; times that 32 bits cannot
/// count are the longest there is.
pub proof fn law_fastest_exchange_is_kept(probes: usize, first: Duration, exchanges: Seq<Option<Duration>>)
    requires
        0 < exchanges.len() <= probes,
        forall|i: int| 0 <= i < exchanges.len() ==> (#[trigger] exchanges[i]) is Some,
    ensures
        ({
            let start = ExchangeTimer { warmed: false, left: probes, best: None, failed: false };
            let end = timed_all(timed(start, Some(first)), exchanges);
            &&& end.best is Some
            &&& forall|i: int|
                0 <= i < exchanges.len() ==> end.best->0 as int * 1_000_000 <= (#[trigger] exchanges[i])->0.nanos
                    || end.best->0 == 0xffff_ffff
            &&& exists|i: int|
                0 <= i < exchanges.len() && (end.best->0 as int == (#[trigger] exchanges[i])->0.nanos as int / 1_000_000 || (
                end.best->0 == 0xffff_ffff && exchanges[i]->0.nanos >= 0xffff_ffff * 1_000_000))
            &&& end.best->0 == 0xffff_ffff ==> forall|i: int|
                0 <= i < exchanges.len() ==> (#[trigger] exchanges[i])->0.nanos >= 0xffff_ffff * 1_000_000
            &&& over(end) <==> exchanges.len() == probes
        }),
    decreases exchanges.len(),
{
    law_the_warm_up_is_not_counted(probes, first, exchanges);
    let n = exchanges.len() - 1;
    assert(exchanges[n] is Some);
    let rest = exchanges.drop_last();
    assert forall|i: int| 0 <= i < rest.len() implies (#[trigger] rest[i]) is Some by {
        assert(rest[i] == exchanges[i]);
    }
    let start = ExchangeTimer { warmed: false, left: probes, best: None, failed: false };
    let end = timed_all(timed(start, Some(first)), exchanges);
    let before = timed_all(timed(start, Some(first)), rest);
    law_the_warm_up_is_not_counted(probes, first, rest);
    if rest.len() > 0 {
        law_fastest_exchange_is_kept(probes, first, rest);
        let w = choose|i: int|
            0 <= i < rest.len() && (before.best->0 as int == (#[trigger] rest[i])->0.nanos as int / 1_000_000 || (
            before.best->0 == 0xffff_ffff && rest[i]->0.nanos >= 0xffff_ffff * 1_000_000));
        assert(exchanges[w] == rest[w]);
        assert forall|i: int| 0 <= i < exchanges.len() implies end.best->0 as int * 1_000_000 <= (
        #[trigger] exchanges[i])->0.nanos || end.best->0 == 0xffff_ffff by {
            if i < n {
                assert(exchanges[i] == rest[i]);
                assert(end.best->0 <= before.best->0);
            }
        }
        if end.best->0 == 0xffff_ffff {
            assert forall|i: int| 0 <= i < exchanges.len() implies (#[trigger] exchanges[i])->0.nanos >= 0xffff_ffff
                * 1_000_000 by {
                if i < n {
                    assert(exchanges[i] == rest[i]);
                }
            }
        }
        if end.best == before.best {
            assert(end.best->0 as int == exchanges[w]->0.nanos as int / 1_000_000 || (end.best->0 == 0xffff_ffff
                && exchanges[w]->0.nanos >= 0xffff_ffff * 1_000_000));
        } else {
            assert(end.best->0 as int == exchanges[n]->0.nanos as int / 1_000_000 || (end.best->0 == 0xffff_ffff
                && exchanges[n]->0.nanos >= 0xffff_ffff * 1_000_000));
        }
    } else {
        assert(exchanges.len() == 1);
        assert(before == timed(start, Some(first)));
        assert(end.best->0 as int == exchanges[0]->0.nanos as int / 1_000_000 || (end.best->0 == 0xffff_ffff
            && exchanges[0]->0.nanos >= 0xffff_ffff * 1_000_000));
    }
}

/// A failure ends the timing, whenever it comes, and changes nothing that was
/// timed before it.
pub proof fn law_failure_keeps_what_was_timed(t: ExchangeTimer)
    ensures
        over(timed(t, None)),
        timed(t, None).best == t.best,
        timed(t, None).left == t.left,
{
}

/// Relays that could not be reached are counted one by one.
pub proof fn law_unreachable_relays_are_counted(samples: Seq<RelayRttSample>, one: RelayRttSample)
    ensures
        unreachable_count(samples.push(one)) == unreachable_count(samples) + (if one.rtt_ms is None {
            1int
        } else {
            0
        }),
        unreachable_count(Seq::<RelayRttSample>::empty()) == 0,
        unreachable_count(samples) <= samples.len(),
    decreases samples.len(),
{
    assert(samples.push(one).drop_last() =~= samples);
    if samples.len() > 0 {
        law_unreachable_relays_are_counted(samples.drop_last(), one);
    }
}

} // verus!

//! Keeping a relay leg alive.
//!
//! A leg lives to the horizon written by the relay ticket that opened it, and
//! extending it takes a new ticket, which is a fresh decision on whether this
//! Endpoint may hold the leg. [`RelayLegLease`] decides when to ask for one
//! and what each answer means.

use crate::clock::{parse_timestamp, timestamp_spec};
use crate::duration::{clamped, Duration};
use crate::proxy::{names_kind, ProxyError, RelayTicket};
use vstd::prelude::*;

verus! {

/// The shortest wait before a renewal, in seconds.
pub const RENEW_MIN: u64 = 30;

/// The longest wait before a renewal, in seconds.
pub const RENEW_MAX: u64 = 600;

/// The wait where the length of the lease is not known, in seconds.
pub const RENEW_UNKNOWN: u64 = 120;

/// The wait after a failure that may pass, in seconds.
pub const RETRY_IN: u64 = 30;

/// How long the lease outlasts the ticket, in nanoseconds; none where either
/// stamp cannot be read or the lease does not outlast the ticket.
///
/// Both stamps are the proxy's own, so a clock that disagrees with the proxy's
/// does not change the difference.
pub open spec fn lease_span_spec(ticket: RelayTicket) -> Option<int> {
    match (timestamp_spec(ticket.lease_expires_at@), timestamp_spec(ticket.expires_at@)) {
        (Some(lease), Some(expiry)) => {
            let span = lease.since_epoch() - expiry.since_epoch();
            if span > 0 {
                Some(span)
            } else {
                None
            }
        },
        _ => None,
    }
}

/// The nanoseconds in a span, where there is one.
pub open spec fn nanos_of(span: Option<Duration>) -> Option<int> {
    match span {
        Some(span) => Some(span.nanos as int),
        None => None,
    }
}

/// How long the lease of a ticket outlasts the ticket.
pub fn lease_span(ticket: &RelayTicket) -> (r: Option<Duration>)
    ensures
        nanos_of(r) == lease_span_spec(*ticket),
{
    match (parse_timestamp(ticket.lease_expires_at.as_str()), parse_timestamp(ticket.expires_at.as_str())) {
        (Some(lease), Some(expiry)) => {
            let span = lease.nanos_since(&expiry);
            if span > 0 {
                Some(Duration { nanos: span as u128 })
            } else {
                None
            }
        },
        _ => None,
    }
}

/// Half of `n`, to the nearest whole number; of two that are as near, the even one.
pub open spec fn half_of(n: int) -> int {
    if n % 4 == 3 {
        n / 2 + 1
    } else {
        n / 2
    }
}

/// When to renew a lease of this length, in nanoseconds: half way through it,
/// to the nearest nanosecond and within bounds.
pub open spec fn renew_nanos(span: Option<int>) -> int {
    match span {
        Some(span) => clamped(half_of(span), RENEW_MIN * 1_000_000_000, RENEW_MAX * 1_000_000_000),
        None => RENEW_UNKNOWN * 1_000_000_000,
    }
}

/// When to renew a lease of this length.
pub fn renew_delay(span: Option<Duration>) -> (d: Duration)
    ensures
        d.nanos == renew_nanos(nanos_of(span)),
{
    match span {
        Some(span) => {
            let half: u128 = if span.nanos % 4 == 3 {
                span.nanos / 2 + 1
            } else {
                span.nanos / 2
            };
            Duration { nanos: half }.clamp(Duration::from_secs(RENEW_MIN), Duration::from_secs(RENEW_MAX))
        },
        None => Duration::from_secs(RENEW_UNKNOWN),
    }
}

/// What a failure says about the leg.
#[derive(Clone, Copy, Debug, PartialEq, Eq, Structural)]
pub enum Verdict {
    /// Nothing lasting.
    Retry,
    /// This Endpoint may no longer hold the connection.
    Refused,
    /// The proxy has no such leg; the connection may go on without it.
    LegGone,
    /// The proxy does not lease legs.
    NotLeased,
}

/// What a failure says about the leg.
pub open spec fn verdict_spec(error: ProxyError) -> Verdict {
    let kind = error.kind_spec();
    if kind == Some("connection-closed"@) || kind == Some("grant-invalid"@) || kind == Some("endpoint-revoked"@) {
        Verdict::Refused
    } else if kind == Some("connection-not-found"@) {
        Verdict::LegGone
    } else if error matches ProxyError::Problem { status, kind: None } && status == 404 {
        Verdict::NotLeased
    } else {
        Verdict::Retry
    }
}

/// What a failure says about the leg.
///
/// A bare 404 is a proxy without a ticket route, which has no leases to carry.
/// A typed one is about the relay edge alone: it says nothing about whether
/// the connection is over.
pub fn verdict(error: &ProxyError) -> (v: Verdict)
    ensures
        v == verdict_spec(*error),
        v == Verdict::Refused <==> names_kind(*error, "connection-closed"@) || names_kind(*error, "grant-invalid"@)
            || names_kind(*error, "endpoint-revoked"@),
        v == Verdict::LegGone <==> names_kind(*error, "connection-not-found"@),
{
    proof {
        law_verdict_follows_the_kind(*error);
    }
    if error.is("connection-closed") || error.is("grant-invalid") || error.is("endpoint-revoked") {
        return Verdict::Refused;
    }
    if error.is("connection-not-found") {
        return Verdict::LegGone;
    }
    match error {
        ProxyError::Problem { status, kind: None } => {
            if *status == 404 {
                Verdict::NotLeased
            } else {
                Verdict::Retry
            }
        },
        _ => Verdict::Retry,
    }
}

/// What was answered.
#[derive(Debug)]
pub enum LegEvent {
    /// A ticket was issued.
    Ticket(RelayTicket),
    /// No ticket was issued.
    NoTicket(ProxyError),
    /// The ticket was spent and the lease extended.
    Renewed,
    /// The lease was not extended; the ticket is spent all the same.
    NotRenewed(ProxyError),
}

/// Why the renewal stops.
#[derive(Clone, Copy, Debug, PartialEq, Eq, Structural)]
pub enum LegEnd {
    /// This Endpoint may no longer hold the connection: the leg and the
    /// session end.
    Refused,
    /// The proxy has no such leg: the leg ends.
    Gone,
    /// The lease ran out while renewals failed: the leg ends.
    Lapsed,
    /// The proxy does not lease legs: nothing ends but the renewal.
    NotLeased,
}

impl LegEnd {
    /// Whether the leg is to be taken down.
    pub fn ends_leg(&self) -> (r: bool)
        ensures
            r == (*self != LegEnd::NotLeased),
    {
        match self {
            LegEnd::NotLeased => false,
            _ => true,
        }
    }

    /// Whether the session is to be ended.
    pub fn ends_session(&self) -> (r: bool)
        ensures
            r == (*self == LegEnd::Refused),
    {
        match self {
            LegEnd::Refused => true,
            _ => false,
        }
    }
}

/// What is to be done.
#[derive(Debug)]
pub enum LegAction {
    /// Spend this ticket.
    Spend { ticket: String },
    /// Wait, then ask for a ticket.
    Wait { delay: Duration },
    /// Stop renewing.
    Stop { why: LegEnd },
}

/// The state of the renewal of one leg.
#[derive(Debug)]
pub struct RelayLegLease {
    /// The length of the lease in force, where it is known.
    pub span: Option<Duration>,
    /// When that lease runs out, in nanoseconds on a clock that only goes forward.
    pub lapses_at: Option<u128>,
    /// The ticket being spent.
    pub ticket: Option<RelayTicket>,
}

/// When a lease of this length runs out; the end of the clock's range at the latest.
pub open spec fn lapse_spec(span: Option<Duration>, now: u128) -> Option<u128> {
    match span {
        Some(span) => Some(
            if now + span.nanos > u128::MAX {
                u128::MAX
            } else {
                (now + span.nanos) as u128
            },
        ),
        None => None,
    }
}

fn lapse(span: Option<Duration>, now: u128) -> (r: Option<u128>)
    ensures
        r == lapse_spec(span, now),
{
    match span {
        Some(span) => Some(
            if span.nanos > u128::MAX - now {
                u128::MAX
            } else {
                now + span.nanos
            },
        ),
        None => None,
    }
}

/// Whether the lease has run out.
pub open spec fn lapsed_spec(lapses_at: Option<u128>, now: u128) -> bool {
    lapses_at matches Some(at) && now >= at
}

/// Whether the lease has run out.
pub fn lapsed(lapses_at: Option<u128>, now: u128) -> (r: bool)
    ensures
        r == lapsed_spec(lapses_at, now),
{
    match lapses_at {
        Some(at) => now >= at,
        None => false,
    }
}

/// What a failure leads to.
pub open spec fn failure_action(lease: RelayLegLease, error: ProxyError, now: u128, action: LegAction) -> bool {
    match verdict_spec(error) {
        Verdict::Refused => action == LegAction::Stop { why: LegEnd::Refused },
        Verdict::LegGone => action == LegAction::Stop { why: LegEnd::Gone },
        Verdict::NotLeased => action == LegAction::Stop { why: LegEnd::NotLeased },
        Verdict::Retry => if lapsed_spec(lease.lapses_at, now) {
            action == LegAction::Stop { why: LegEnd::Lapsed }
        } else {
            action matches LegAction::Wait { delay } && delay.nanos == RETRY_IN * 1_000_000_000
        },
    }
}

/// The state after an event and what is then to be done.
pub open spec fn leg_step(before: RelayLegLease, event: LegEvent, now: u128, after: RelayLegLease, action: LegAction) -> bool {
    match event {
        LegEvent::Ticket(ticket) => {
            &&& after == RelayLegLease { ticket: Some(ticket), ..before }
            &&& action == LegAction::Spend { ticket: ticket.ticket }
        },
        LegEvent::NoTicket(error) => {
            &&& after == before
            &&& failure_action(before, error, now, action)
        },
        LegEvent::Renewed => {
            &&& nanos_of(after.span) == (match before.ticket {
                Some(ticket) => match lease_span_spec(ticket) {
                    Some(span) => Some(span),
                    None => nanos_of(before.span),
                },
                None => nanos_of(before.span),
            })
            &&& after.lapses_at == lapse_spec(after.span, now)
            &&& after.ticket is None
            &&& action matches LegAction::Wait { delay } && delay.nanos == renew_nanos(nanos_of(after.span))
        },
        LegEvent::NotRenewed(error) => {
            &&& after == RelayLegLease { ticket: None, ..before }
            &&& failure_action(before, error, now, action)
        },
    }
}

impl RelayLegLease {
    /// Start to renew a leg that was opened with `first`, and how long to wait
    /// before the first renewal.
    pub fn start(first: Option<&RelayTicket>, now: u128) -> (r: (Self, Duration))
        ensures
            nanos_of(r.0.span) == (match first {
                Some(ticket) => lease_span_spec(*ticket),
                None => None,
            }),
            r.0.lapses_at == lapse_spec(r.0.span, now),
            r.0.ticket is None,
            r.1.nanos == renew_nanos(nanos_of(r.0.span)),
    {
        let span = match first {
            Some(ticket) => lease_span(ticket),
            None => None,
        };
        let delay = renew_delay(span);
        (RelayLegLease { span, lapses_at: lapse(span, now), ticket: None }, delay)
    }

    fn failed(&self, error: &ProxyError, now: u128) -> (action: LegAction)
        ensures
            failure_action(*self, *error, now, action),
    {
        match verdict(error) {
            Verdict::Refused => LegAction::Stop { why: LegEnd::Refused },
            Verdict::LegGone => LegAction::Stop { why: LegEnd::Gone },
            Verdict::NotLeased => LegAction::Stop { why: LegEnd::NotLeased },
            Verdict::Retry => {
                if lapsed(self.lapses_at, now) {
                    LegAction::Stop { why: LegEnd::Lapsed }
                } else {
                    LegAction::Wait { delay: Duration::from_secs(RETRY_IN) }
                }
            },
        }
    }

    /// Go on, after an answer.
    pub fn step(&mut self, event: LegEvent, now: u128) -> (action: LegAction)
        ensures
            leg_step(*old(self), event, now, *final(self), action),
    {
        match event {
            LegEvent::Ticket(ticket) => {
                let text = ticket.ticket.clone();
                self.ticket = Some(ticket);
                LegAction::Spend { ticket: text }
            },
            LegEvent::NoTicket(error) => self.failed(&error, now),
            LegEvent::Renewed => {
                let fresh = match &self.ticket {
                    Some(ticket) => lease_span(ticket),
                    None => None,
                };
                if fresh.is_some() {
                    self.span = fresh;
                }
                self.ticket = None;
                self.lapses_at = lapse(self.span, now);
                LegAction::Wait { delay: renew_delay(self.span) }
            },
            LegEvent::NotRenewed(error) => {
                self.ticket = None;
                self.failed(&error, now)
            },
        }
    }
}

/// A clock that disagrees does not change the lease: two tickets whose stamps
/// differ by the same amount have leases of the same length.
pub proof fn law_skew_does_not_change_the_lease(one: RelayTicket, other: RelayTicket, skew: int)
    requires
        timestamp_spec(one.expires_at@) is Some,
        timestamp_spec(one.lease_expires_at@) is Some,
        timestamp_spec(other.expires_at@) is Some,
        timestamp_spec(other.lease_expires_at@) is Some,
        timestamp_spec(other.expires_at@)->0.since_epoch() == timestamp_spec(one.expires_at@)->0.since_epoch() + skew,
        timestamp_spec(other.lease_expires_at@)->0.since_epoch() == timestamp_spec(
            one.lease_expires_at@,
        )->0.since_epoch() + skew,
    ensures
        lease_span_spec(one) == lease_span_spec(other),
{
}

/// A lease long enough for the floor is renewed no later than half way through
/// it, but for the nanosecond that half of one is rounded to.
pub proof fn law_renewal_lands_by_half_the_lease(span: int)
    requires
        span >= 2 * RENEW_MIN * 1_000_000_000,
    ensures
        2 * renew_nanos(Some(span)) <= span + 1,
        span % 2 == 0 ==> 2 * renew_nanos(Some(span)) <= span,
{
}

/// Only a refusal ends the session; a lost leg, a lapsed lease or a proxy
/// without leases leaves it running.
pub proof fn law_only_a_refusal_ends_the_session(
    before: RelayLegLease,
    event: LegEvent,
    now: u128,
    after: RelayLegLease,
    action: LegAction,
)
    requires
        leg_step(before, event, now, after, action),
        action == (LegAction::Stop { why: LegEnd::Refused }),
    ensures
        match event {
            LegEvent::NoTicket(error) | LegEvent::NotRenewed(error) => verdict_spec(error) == Verdict::Refused,
            _ => false,
        },
{
}

/// Renewal does not go on once the lease has run out: a failure then stops it.
pub proof fn law_no_retry_after_the_lapse(
    before: RelayLegLease,
    error: ProxyError,
    now: u128,
    after: RelayLegLease,
    action: LegAction,
)
    requires
        lapsed_spec(before.lapses_at, now),
        leg_step(before, LegEvent::NoTicket(error), now, after, action) || leg_step(
            before,
            LegEvent::NotRenewed(error),
            now,
            after,
            action,
        ),
    ensures
        action is Stop,
{
}

/// What a failure says is decided by the kind that the proxy named: three kinds
/// withdraw the permission, one says that the leg is gone, a 404 without a kind
/// comes from a proxy that does not lease, and all else may pass.
pub proof fn law_verdict_follows_the_kind(error: ProxyError)
    ensures
        verdict_spec(error) == Verdict::Refused <==> names_kind(error, "connection-closed"@) || names_kind(
            error,
            "grant-invalid"@,
        ) || names_kind(error, "endpoint-revoked"@),
        verdict_spec(error) == Verdict::LegGone <==> names_kind(error, "connection-not-found"@),
        verdict_spec(error) == Verdict::NotLeased <==> (error matches ProxyError::Problem { status, kind } && status == 404
            && kind is None),
{
    reveal_strlit("connection-closed");
    reveal_strlit("grant-invalid");
    reveal_strlit("endpoint-revoked");
    reveal_strlit("connection-not-found");
    assert("connection-closed"@.len() == 17 && "connection-not-found"@.len() == 20);
    assert("grant-invalid"@.len() == 13 && "endpoint-revoked"@.len() == 16);
}

/// A step ends the session exactly where the proxy named one of the three kinds
/// that withdraw the permission. Before the lease has run out every other
/// failure but a missing leg and a proxy that does not lease is waited out for
/// 30 seconds, and the lease is left as it is.
pub proof fn law_session_ends_only_for_a_withdrawn_permission(
    before: RelayLegLease,
    event: LegEvent,
    error: ProxyError,
    now: u128,
    after: RelayLegLease,
    action: LegAction,
)
    requires
        leg_step(before, event, now, after, action),
        event == LegEvent::NoTicket(error) || event == LegEvent::NotRenewed(error),
    ensures
        action == (LegAction::Stop { why: LegEnd::Refused }) <==> names_kind(error, "connection-closed"@) || names_kind(
            error,
            "grant-invalid"@,
        ) || names_kind(error, "endpoint-revoked"@),
        action == (LegAction::Stop { why: LegEnd::Gone }) <==> names_kind(error, "connection-not-found"@),
        action == (LegAction::Stop { why: LegEnd::NotLeased }) <==> (error matches ProxyError::Problem { status, kind }
            && status == 404 && kind is None),
        action == (LegAction::Stop { why: LegEnd::Lapsed }) ==> (before.lapses_at matches Some(at) && now >= at),
        before.lapses_at is None || now < before.lapses_at->0 ==> action != (LegAction::Stop { why: LegEnd::Lapsed }),
        action matches LegAction::Wait { delay } ==> delay.nanos == 30_000_000_000,
        !(action is Spend),
        after.span == before.span,
        after.lapses_at == before.lapses_at,
{
    law_verdict_follows_the_kind(error);
}

/// A ticket that was issued is the one that is spent; and once the lease is
/// extended it runs, from then on, for as long as that ticket's stamps are
/// apart, or as long as before where they cannot be told. The next renewal
/// comes half way, but no sooner than 30 seconds and no later than 600.
pub proof fn law_renewed_lease_runs_its_length(
    before: RelayLegLease,
    ticket: RelayTicket,
    at: u128,
    holding: RelayLegLease,
    spend: LegAction,
    now: u128,
    after: RelayLegLease,
    action: LegAction,
)
    requires
        leg_step(before, LegEvent::Ticket(ticket), at, holding, spend),
        leg_step(holding, LegEvent::Renewed, now, after, action),
    ensures
        spend matches LegAction::Spend { ticket: sent } && sent@ == ticket.ticket@,
        holding.lapses_at == before.lapses_at,
        match (timestamp_spec(ticket.expires_at@), timestamp_spec(ticket.lease_expires_at@)) {
            (Some(expiry), Some(lease)) => if lease.since_epoch() > expiry.since_epoch() {
                after.span matches Some(span) && span.nanos == lease.since_epoch() - expiry.since_epoch()
            } else {
                nanos_of(after.span) == nanos_of(before.span)
            },
            _ => nanos_of(after.span) == nanos_of(before.span),
        },
        match after.span {
            Some(span) => after.lapses_at is Some && (now + span.nanos <= u128::MAX ==> after.lapses_at->0 == now
                + span.nanos),
            None => after.lapses_at is None,
        },
        action is Wait,
        30_000_000_000 <= action->delay.nanos <= 600_000_000_000,
        after.span is None ==> action->delay.nanos == 120_000_000_000,
        after.span matches Some(span) ==> {
            &&& span.nanos <= 60_000_000_000 ==> action->delay.nanos == 30_000_000_000
            &&& span.nanos >= 1_200_000_000_000 ==> action->delay.nanos == 600_000_000_000
            &&& 60_000_000_000 <= span.nanos <= 1_200_000_000_000 ==> span.nanos - 1 <= 2 * action->delay.nanos
                <= span.nanos + 1
        },
        after.ticket is None,
{
}

/// A lease is as long as its own stamp is after the ticket's, to the
/// nanosecond; it has a length exactly where both can be read and the lease
/// outlasts the ticket.
pub proof fn law_lease_is_as_long_as_its_stamps_say(ticket: RelayTicket)
    ensures
        timestamp_spec(ticket.expires_at@) is None || timestamp_spec(ticket.lease_expires_at@) is None ==> lease_span_spec(
            ticket,
        ) is None,
        timestamp_spec(ticket.expires_at@) matches Some(expiry) ==> (timestamp_spec(ticket.lease_expires_at@) matches Some(lease) ==> {
            &&& lease_span_spec(ticket) is Some <==> lease.since_epoch() > expiry.since_epoch()
            &&& lease_span_spec(ticket) matches Some(span) ==> expiry.since_epoch() + span == lease.since_epoch()
        }),
{
}

/// Half of an even number is exact, and half of an odd one is rounded to the
/// even neighbour.
pub proof fn law_half_is_rounded_to_even(n: int)
    requires
        n >= 0,
    ensures
        n % 2 == 0 ==> 2 * half_of(n) == n,
        n % 2 == 1 ==> half_of(n) % 2 == 0 && (2 * half_of(n) == n - 1 || 2 * half_of(n) == n + 1),
{
}

/// A lease has run out exactly from the moment on at which its length is used
/// up; one of unknown length never does, and one beyond the clock's range does
/// at its end.
pub proof fn law_lease_lapses_at_its_end(span: Option<Duration>, start: u128, now: u128)
    ensures
        span is None ==> !lapsed_spec(lapse_spec(span, start), now),
        span matches Some(length) ==> {
            &&& start + length.nanos <= u128::MAX ==> (lapsed_spec(lapse_spec(span, start), now) <==> now >= start + length.nanos)
            &&& start + length.nanos > u128::MAX ==> (lapsed_spec(lapse_spec(span, start), now) <==> now == u128::MAX)
        },
{
}

/// A ticket is spent once: whatever the answer to spending it is, it is not
/// held any longer, and a failure to get one leaves everything as it is.
pub proof fn law_ticket_is_spent_once(
    before: RelayLegLease,
    event: LegEvent,
    now: u128,
    after: RelayLegLease,
    action: LegAction,
)
    requires
        leg_step(before, event, now, after, action),
    ensures
        event is Renewed || event is NotRenewed ==> after.ticket is None,
        event is NoTicket ==> after == before,
        event matches LegEvent::Ticket(ticket) ==> after.ticket == Some(ticket),
        action is Spend <==> event is Ticket,
        action is Stop ==> event is NoTicket || event is NotRenewed,
        event is Renewed ==> action is Wait,
{
}

} // verus!

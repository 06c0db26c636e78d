//! The initiator's side of a connection: asking for it, keeping its record
//! alive, and closing it.

use crate::clock::{parse_timestamp, timestamp_spec, Timestamp};
use crate::config::P2pConfig;
use crate::duration::{clamped, Duration};
use crate::proxy::{names_kind, Candidate, PeerConnection, ProxyError};
use vstd::prelude::*;

verus! {

/// The shortest wait before a renewal, in seconds.
pub const LEASE_RENEW_MIN: u64 = 10;

/// The longest wait before a renewal, in seconds.
pub const LEASE_RENEW_MAX: u64 = 60;

/// How long to wait for the report that a connection is closed, in seconds.
pub const REPORT_CLOSED_TIMEOUT: u64 = 3;

/// The instant that an optional text names.
pub open spec fn stamp_spec(text: Option<&str>) -> Option<Timestamp> {
    match text {
        Some(text) => timestamp_spec(text@),
        None => None,
    }
}

fn stamp(text: Option<&str>) -> (r: Option<Timestamp>)
    ensures
        r == stamp_spec(text),
{
    match text {
        Some(text) => parse_timestamp(text),
        None => None,
    }
}

/// When to renew, in nanoseconds: a third of the way to the deadline, to the
/// nearest nanosecond and within bounds.
///
/// The way is measured from when the record was last renewed, which is on the
/// same clock as the deadline; from the local clock only where that is not
/// known.
pub open spec fn renew_nanos(deadline: Option<Timestamp>, renewed: Option<Timestamp>, now: Timestamp) -> int {
    match deadline {
        None => LEASE_RENEW_MAX * 1_000_000_000,
        Some(deadline) => {
            let from = match renewed {
                Some(renewed) => renewed,
                None => now,
            };
            let remaining = deadline.since_epoch() - from.since_epoch();
            if remaining <= 0 {
                LEASE_RENEW_MIN * 1_000_000_000
            } else {
                clamped((remaining + 1) / 3, LEASE_RENEW_MIN * 1_000_000_000, LEASE_RENEW_MAX * 1_000_000_000)
            }
        },
    }
}

/// When to renew the record of a connection.
pub fn renew_delay(expires_at: Option<&str>, updated_at: Option<&str>, now: Timestamp) -> (d: Duration)
    ensures
        d.nanos == renew_nanos(stamp_spec(expires_at), stamp_spec(updated_at), now),
{
    let deadline = match stamp(expires_at) {
        Some(deadline) => deadline,
        None => {
            return Duration::from_secs(LEASE_RENEW_MAX);
        },
    };
    let from = match stamp(updated_at) {
        Some(renewed) => renewed,
        None => now,
    };
    let remaining = deadline.nanos_since(&from);
    if remaining <= 0 {
        return Duration::from_secs(LEASE_RENEW_MIN);
    }
    Duration { nanos: (remaining as u128 + 1) / 3 }.clamp(
        Duration::from_secs(LEASE_RENEW_MIN),
        Duration::from_secs(LEASE_RENEW_MAX),
    )
}

/// What a failed renewal says about the connection.
#[derive(Clone, Copy, Debug, PartialEq, Eq, Structural)]
pub enum Renewal {
    /// Nothing lasting.
    Retry,
    /// The connection is over.
    Over,
    /// This Endpoint has been revoked.
    Refused,
}

/// What a failed renewal says about the connection.
pub open spec fn renewal_verdict_spec(error: ProxyError) -> Renewal {
    let kind = error.kind_spec();
    if kind == Some("connection-closed"@) || kind == Some("connection-not-found"@) || kind == Some("invalid-request"@) {
        Renewal::Over
    } else if kind == Some("endpoint-revoked"@) {
        Renewal::Refused
    } else {
        Renewal::Retry
    }
}

/// What a failed renewal says about the connection.
///
/// A permission that the token lacks, or a token that has expired, is about
/// the token, which is replaced every few minutes.
pub fn renewal_verdict(error: &ProxyError) -> (v: Renewal)
    ensures
        v == renewal_verdict_spec(*error),
{
    if error.is("connection-closed") || error.is("connection-not-found") || error.is("invalid-request") {
        Renewal::Over
    } else if error.is("endpoint-revoked") {
        Renewal::Refused
    } else {
        Renewal::Retry
    }
}

/// A record that was renewed, as far as the next renewal depends on it.
pub open spec fn record_nanos(connection: PeerConnection, now: Timestamp) -> int {
    let deadline = match connection.expires_at {
        Some(text) => timestamp_spec(text@),
        None => None,
    };
    let renewed = match connection.updated_at {
        Some(text) => timestamp_spec(text@),
        None => None,
    };
    renew_nanos(deadline, renewed, now)
}

fn record_delay(connection: &PeerConnection, now: Timestamp) -> (d: Duration)
    ensures
        d.nanos == record_nanos(*connection, now),
{
    let expires_at = match &connection.expires_at {
        Some(text) => Some(text.as_str()),
        None => None,
    };
    let updated_at = match &connection.updated_at {
        Some(text) => Some(text.as_str()),
        None => None,
    };
    renew_delay(expires_at, updated_at, now)
}

/// What is to be done about the record of a connection.
#[derive(Clone, Copy, Debug, PartialEq, Eq, Structural)]
pub enum LeaseAction {
    /// Wait, then renew.
    Wait { delay: Duration },
    /// Stop renewing; the session goes on.
    Stop,
    /// Stop renewing, take the leg down and end the session.
    EndSession,
}

/// The renewal of the record of one connection.
#[derive(Clone, Copy, Debug, PartialEq, Eq, Structural)]
pub struct ConnectionLease {
    /// How long to wait before each attempt.
    pub delay: Duration,
}

impl ConnectionLease {
    /// Start to renew the record of `connection`.
    pub fn start(connection: &PeerConnection, now: Timestamp) -> (lease: Self)
        ensures
            lease.delay.nanos == record_nanos(*connection, now),
    {
        ConnectionLease { delay: record_delay(connection, now) }
    }

    /// Go on, after an attempt. A failure that says nothing lasting is tried
    /// again after the same wait.
    pub fn step(&mut self, outcome: &Result<PeerConnection, ProxyError>, now: Timestamp) -> (action: LeaseAction)
        ensures
            match outcome {
                Ok(connection) => final(self).delay.nanos == record_nanos(*connection, now) && action == (LeaseAction::Wait {
                    delay: final(self).delay,
                }),
                Err(error) => {
                    &&& *final(self) == *old(self)
                    &&& action == (match renewal_verdict_spec(*error) {
                        Renewal::Over => LeaseAction::Stop,
                        Renewal::Refused => LeaseAction::EndSession,
                        Renewal::Retry => LeaseAction::Wait { delay: old(self).delay },
                    })
                },
            },
            action == LeaseAction::EndSession <==> outcome is Err && names_kind(outcome->Err_0, "endpoint-revoked"@),
            action == LeaseAction::Stop <==> outcome is Err && (names_kind(outcome->Err_0, "connection-closed"@) || names_kind(
                outcome->Err_0,
                "connection-not-found"@,
            ) || names_kind(outcome->Err_0, "invalid-request"@)),
    {
        proof {
            if let Err(error) = outcome {
                law_verdict_follows_the_kind(*error);
            }
        }
        match outcome {
            Ok(connection) => {
                self.delay = record_delay(connection, now);
                LeaseAction::Wait { delay: self.delay }
            },
            Err(error) => match renewal_verdict(error) {
                Renewal::Over => LeaseAction::Stop,
                Renewal::Refused => LeaseAction::EndSession,
                Renewal::Retry => LeaseAction::Wait { delay: self.delay },
            },
        }
    }
}

/// A local clock that is wrong does not change the wait, where both stamps of
/// the record can be read.
pub proof fn law_wrong_local_clock_changes_nothing(
    deadline: Timestamp,
    renewed: Timestamp,
    now: Timestamp,
    other: Timestamp,
)
    ensures
        renew_nanos(Some(deadline), Some(renewed), now) == renew_nanos(Some(deadline), Some(renewed), other),
{
}

/// Whatever the record says, the wait stays within its bounds.
pub proof fn law_wait_stays_within_bounds(deadline: Option<Timestamp>, renewed: Option<Timestamp>, now: Timestamp)
    ensures
        LEASE_RENEW_MIN * 1_000_000_000 <= renew_nanos(deadline, renewed, now) <= LEASE_RENEW_MAX * 1_000_000_000,
{
}

/// A record with enough time left is renewed early enough for two more tries
/// after the same wait before the deadline.
pub proof fn law_two_more_tries_fit_before_the_deadline(deadline: Timestamp, renewed: Timestamp, now: Timestamp)
    requires
        deadline.since_epoch() - renewed.since_epoch() >= 3 * LEASE_RENEW_MIN * 1_000_000_000,
    ensures
        3 * renew_nanos(Some(deadline), Some(renewed), now) <= deadline.since_epoch() - renewed.since_epoch() + 1,
{
}

/// What entitles the initiator to connect.
pub enum Authorization<'a> {
    /// A capability that the listener issued.
    Capability(&'a str),
    /// A standing grant.
    Grant,
}

/// The question that opens a connection.
pub struct ConnectRequest<'a> {
    /// The capability, where that is what entitles.
    pub capability: Option<&'a str>,
    /// The listener to connect to.
    pub listener_id: &'a str,
    /// The protocol to speak.
    pub protocol: &'a str,
    /// Where this side may be reached.
    pub candidates: &'a Vec<Candidate>,
}

/// What to ask the proxy for.
pub fn connect_request<'a>(
    cfg: &'a P2pConfig,
    auth: Authorization<'a>,
    listener_id: &'a str,
    candidates: &'a Vec<Candidate>,
) -> (r: ConnectRequest<'a>)
    ensures
        r.capability == (match auth {
            Authorization::Capability(capability) => Some(capability),
            Authorization::Grant => None,
        }),
        r.listener_id == listener_id,
        r.protocol@ == cfg.protocol@,
        r.candidates == candidates,
{
    let capability = match auth {
        Authorization::Capability(capability) => Some(capability),
        Authorization::Grant => None,
    };
    ConnectRequest { capability, listener_id, protocol: cfg.protocol.as_str(), candidates }
}

/// Why a connection could not be opened.
#[derive(Clone, Copy, Debug, PartialEq, Eq, Structural)]
pub enum ConnectError {
    /// The proxy allocated no relay edge.
    NoRelay,
}

impl ConnectError {
    /// The error in words.
    pub fn message(&self) -> (text: String)
        ensures
            text@ == "connect response has no relay info; the proxy did not allocate a relay edge"@,
    {
        "connect response has no relay info; the proxy did not allocate a relay edge".to_owned()
    }
}

/// The relay leg to open for a connection.
pub struct RelayRequest<'a> {
    /// The proxy.
    pub proxy_url: &'a str,
    /// The token to show it.
    pub endpoint_token: &'a str,
    /// The connection.
    pub connection_id: &'a str,
    /// Where the edge is.
    pub masque_uri: &'a str,
}

/// The relay leg to open, from what the proxy answered.
pub fn relay_request<'a>(cfg: &'a P2pConfig, endpoint_token: &'a str, connection: &'a PeerConnection) -> (r: Result<
    RelayRequest<'a>,
    ConnectError,
>)
    ensures
        match connection.relay {
            Some(relay) => r matches Ok(request) && request.proxy_url@ == cfg.proxy_url@ && request.endpoint_token
                == endpoint_token && request.connection_id@ == connection.connection_id@ && request.masque_uri@
                == relay.masque_uri@,
            None => r == Err::<RelayRequest<'a>, ConnectError>(ConnectError::NoRelay),
        },
{
    match &connection.relay {
        Some(relay) => Ok(
            RelayRequest {
                proxy_url: cfg.proxy_url.as_str(),
                endpoint_token,
                connection_id: connection.connection_id.as_str(),
                masque_uri: relay.masque_uri.as_str(),
            },
        ),
        None => Err(ConnectError::NoRelay),
    }
}

/// A connection in use.
#[derive(Debug)]
pub struct InitiatorSession {
    /// The connection's record.
    pub connection: PeerConnection,
    /// The renewal of that record.
    pub lease: ConnectionLease,
    /// Whether the session was ended by the proxy's refusal.
    pub ended: bool,
}

/// How a session is to be closed.
#[derive(Clone, Copy, Debug, PartialEq, Eq, Structural)]
pub enum Closing {
    /// Close the relay leg; nobody is waiting for a report.
    LegOnly,
    /// Report the connection closed, waiting no longer than this, then close the leg.
    ReportFirst { timeout: Duration },
}

impl InitiatorSession {
    /// A session over a connection whose leg is open.
    pub fn new(connection: PeerConnection, now: Timestamp) -> (session: Self)
        ensures
            session.connection == connection,
            session.lease.delay.nanos == record_nanos(connection, now),
            !session.ended,
    {
        let lease = ConnectionLease::start(&connection, now);
        InitiatorSession { connection, lease, ended: false }
    }

    /// The connection's id.
    pub fn connection_id(&self) -> (id: &str)
        ensures
            id@ == self.connection.connection_id@,
    {
        self.connection.connection_id.as_str()
    }

    /// The host to dial, where the proxy named one.
    pub fn video_host(&self) -> (host: Option<&str>)
        ensures
            match self.connection.video_host {
                Some(text) => host matches Some(given) && given@ == text@,
                None => host is None,
            },
    {
        match &self.connection.video_host {
            Some(text) => Some(text.as_str()),
            None => None,
        }
    }

    /// Take note of an attempt to renew the record.
    pub fn renewed(&mut self, outcome: &Result<PeerConnection, ProxyError>, now: Timestamp) -> (action: LeaseAction)
        ensures
            final(self).connection == old(self).connection,
            final(self).ended == (old(self).ended || action == LeaseAction::EndSession),
            match outcome {
                Ok(connection) => final(self).lease.delay.nanos == record_nanos(*connection, now) && action == (LeaseAction::Wait {
                    delay: final(self).lease.delay,
                }),
                Err(error) => {
                    &&& final(self).lease == old(self).lease
                    &&& action == (match renewal_verdict_spec(*error) {
                        Renewal::Over => LeaseAction::Stop,
                        Renewal::Refused => LeaseAction::EndSession,
                        Renewal::Retry => LeaseAction::Wait { delay: old(self).lease.delay },
                    })
                },
            },
            action == LeaseAction::EndSession <==> outcome is Err && names_kind(outcome->Err_0, "endpoint-revoked"@),
            action == LeaseAction::Stop <==> outcome is Err && (names_kind(outcome->Err_0, "connection-closed"@) || names_kind(
                outcome->Err_0,
                "connection-not-found"@,
            ) || names_kind(outcome->Err_0, "invalid-request"@)),
    {
        let action = self.lease.step(outcome, now);
        if action == LeaseAction::EndSession {
            self.ended = true;
        }
        action
    }

    /// How to close the session: a connection that the proxy ended needs no report.
    pub fn close(&self) -> (r: Closing)
        ensures
            self.ended ==> r == Closing::LegOnly,
            !self.ended ==> (r matches Closing::ReportFirst { timeout } && timeout.nanos == REPORT_CLOSED_TIMEOUT
                * 1_000_000_000),
            r matches Closing::ReportFirst { timeout } ==> timeout.nanos == 3_000_000_000,
    {
        if self.ended {
            Closing::LegOnly
        } else {
            Closing::ReportFirst { timeout: Duration::from_secs(REPORT_CLOSED_TIMEOUT) }
        }
    }
}

/// What a failed renewal says is decided by the kind that the proxy named:
/// three kinds say that the connection is over, one that the Endpoint was
/// revoked, and everything else, whatever its status, may pass.
pub proof fn law_verdict_follows_the_kind(error: ProxyError)
    ensures
        renewal_verdict_spec(error) == Renewal::Over <==> names_kind(error, "connection-closed"@) || names_kind(
            error,
            "connection-not-found"@,
        ) || names_kind(error, "invalid-request"@),
        renewal_verdict_spec(error) == Renewal::Refused <==> names_kind(error, "endpoint-revoked"@),
{
    reveal_strlit("connection-closed");
    reveal_strlit("connection-not-found");
    reveal_strlit("invalid-request");
    reveal_strlit("endpoint-revoked");
    assert("connection-closed"@.len() == 17 && "connection-not-found"@.len() == 20);
    assert("invalid-request"@.len() == 15 && "endpoint-revoked"@.len() == 16);
}

/// A record is renewed after a third of the time that it was given, counted
/// from its last renewal, or from now where that is not known: never within ten
/// seconds, nor later than in sixty. One without a deadline is renewed every
/// sixty seconds, and one whose deadline has passed in ten.
pub proof fn law_renewed_after_a_third(deadline: Timestamp, renewed: Option<Timestamp>, now: Timestamp)
    ensures
        ({
            let from = if renewed is Some {
                renewed->0
            } else {
                now
            };
            let left = deadline.since_epoch() - from.since_epoch();
            let wait = renew_nanos(Some(deadline), renewed, now);
            &&& 10_000_000_000 <= wait <= 60_000_000_000
            &&& 30_000_000_000 <= left <= 180_000_000_000 ==> left - 1 <= 3 * wait <= left + 1
            &&& left < 30_000_000_000 ==> wait == 10_000_000_000
            &&& left > 180_000_000_000 ==> wait == 60_000_000_000
        }),
        renew_nanos(None, renewed, now) == 60_000_000_000,
{
}

/// A record's own two stamps decide when it is renewed: the first is the
/// deadline, and the second says from when to count.
pub proof fn law_record_is_renewed_by_its_own_stamps(connection: PeerConnection, now: Timestamp)
    ensures
        connection.expires_at is None ==> record_nanos(connection, now) == 60_000_000_000,
        connection.expires_at matches Some(deadline) ==> {
            &&& timestamp_spec(deadline@) is None ==> record_nanos(connection, now) == 60_000_000_000
            &&& connection.updated_at is None ==> record_nanos(connection, now) == renew_nanos(
                timestamp_spec(deadline@),
                None,
                now,
            )
            &&& connection.updated_at matches Some(renewed) ==> record_nanos(connection, now) == renew_nanos(
                timestamp_spec(deadline@),
                timestamp_spec(renewed@),
                now,
            )
        },
{
}

} // verus!

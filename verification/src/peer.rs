//! Dialling a peer: how the transport is configured, whose certificate is
//! accepted, and when an attempt is worth repeating.

use crate::addr::{ObservedAddress, SocketAddr};
use crate::duration::Duration;
use crate::proxy::{Attestation, PeerConnection};
use crate::text::{decimal, decimal_spec};
use vstd::prelude::*;

verus! {

/// How long a silent connection lives, in seconds.
pub const IDLE_TIMEOUT: u64 = 30;

/// How often a connection is kept alive, in seconds.
pub const CONNECTION_KEEPALIVE: u64 = 10;

/// How often a direct path is kept alive, in seconds.
pub const DIRECT_PATH_KEEPALIVE: u64 = 10;

/// How long a silent handshake lives, in milliseconds.
pub const HANDSHAKE_IDLE_TIMEOUT_MS: u64 = 60_000;

/// The largest packet, in bytes.
pub const MAXIMUM_MTU: u16 = 1248;

/// How many one-way streams a peer may open.
pub const PEER_UNIDI_STREAMS: u16 = 100;

/// How long a peer is dialled, in seconds.
pub const CONNECT_DEADLINE: u64 = 900;

/// How long to wait between two attempts, in milliseconds.
pub const CONNECT_RETRY_DELAY_MS: u64 = 500;

/// How often packet counts are read during a handshake, in seconds.
pub const HANDSHAKE_PROBE_INTERVAL: u64 = 1;

/// What a connection is to be able to do.
pub struct ClientOptions<'a> {
    /// The application protocol.
    pub alpn: &'a str,
    /// Validate the peer's certificate.
    pub verify: bool,
    /// Allow the connection to move onto a direct path.
    pub enable_migration: bool,
    /// Hold the peer to the key it signed for.
    pub pinning: bool,
    /// Receive datagrams.
    pub datagrams: bool,
}

/// The settings of a transport.
#[derive(Debug)]
pub struct ClientSettings<'a> {
    /// The application protocol.
    pub alpn: &'a str,
    /// How long a silent connection lives.
    pub idle_timeout_ms: u64,
    /// How long a silent handshake lives.
    pub handshake_idle_timeout_ms: u64,
    /// How often a connection is kept alive.
    pub keep_alive_ms: u32,
    /// The largest packet.
    pub maximum_mtu: u16,
    /// How many one-way streams a peer may open.
    pub peer_unidi_streams: u16,
    /// Receive datagrams.
    pub datagrams: bool,
    /// Report observed addresses, traverse NATs, use several paths, and keep
    /// each path alive this often.
    pub migration_keep_alive_ms: Option<u32>,
    /// A file of certificate authorities.
    pub ca_file: Option<String>,
    /// Leave the certificate unvalidated.
    pub no_certificate_validation: bool,
    /// Hand the certificate over in a portable form.
    pub indicate_certificate: bool,
}

/// The settings for a connection. `ca_file` is the file of authorities that
/// was named for the process, and `skip_verify` whether validation was
/// switched off for it.
///
/// The certificate is handed over where its name is to be checked, and where
/// the peer is held to a key.
pub fn client_config<'a>(opts: &ClientOptions<'a>, ca_file: Option<String>, skip_verify: bool) -> (s: ClientSettings<'a>)
    ensures
        s.alpn == opts.alpn,
        s.idle_timeout_ms == IDLE_TIMEOUT * 1000,
        s.handshake_idle_timeout_ms == HANDSHAKE_IDLE_TIMEOUT_MS,
        s.keep_alive_ms == CONNECTION_KEEPALIVE * 1000,
        s.maximum_mtu == MAXIMUM_MTU,
        s.peer_unidi_streams == PEER_UNIDI_STREAMS,
        s.datagrams == opts.datagrams,
        s.migration_keep_alive_ms == (if opts.enable_migration {
            Some((DIRECT_PATH_KEEPALIVE * 1000) as u32)
        } else {
            None
        }),
        s.ca_file == (match ca_file {
            Some(file) if file@.len() > 0 => Some(file),
            _ => None,
        }),
        s.no_certificate_validation == (!opts.verify || skip_verify),
        s.indicate_certificate == ((opts.verify && !skip_verify) || opts.pinning),
        s.idle_timeout_ms == 30_000 && s.handshake_idle_timeout_ms == 60_000 && s.keep_alive_ms == 10_000,
        s.maximum_mtu == 1248 && s.peer_unidi_streams == 100,
        opts.enable_migration ==> s.migration_keep_alive_ms == Some(10_000u32),
{
    let ca_file = match ca_file {
        Some(file) => {
            if file.as_str().is_empty() {
                None
            } else {
                Some(file)
            }
        },
        None => None,
    };
    ClientSettings {
        alpn: opts.alpn,
        idle_timeout_ms: 30_000,
        handshake_idle_timeout_ms: HANDSHAKE_IDLE_TIMEOUT_MS,
        keep_alive_ms: 10_000,
        maximum_mtu: MAXIMUM_MTU,
        peer_unidi_streams: PEER_UNIDI_STREAMS,
        datagrams: opts.datagrams,
        migration_keep_alive_ms: if opts.enable_migration {
            Some(10_000)
        } else {
            None
        },
        ca_file,
        no_certificate_validation: !opts.verify || skip_verify,
        indicate_certificate: (opts.verify && !skip_verify) || opts.pinning,
    }
}

/// Why a peer cannot be held to a key.
#[derive(Clone, Copy, Debug, PartialEq, Eq, Structural)]
pub enum Unpinnable {
    /// It published no statement.
    NoStatement,
    /// The proxy named no Endpoint to check the statement against.
    NoPeerEndpoint,
    /// The proxy named no host to dial.
    NoHost,
}

impl Unpinnable {
    /// The reason in words.
    pub open spec fn message_spec(self) -> Seq<char> {
        match self {
            Unpinnable::NoStatement => {
                "the peer published no statement about its key; trusting the proxy about which certificate is right"@
            },
            Unpinnable::NoPeerEndpoint => {
                "the peer signed for its key, but the proxy named no endpoint to check the statement against; not pinning"@
            },
            Unpinnable::NoHost => {
                "the peer signed for its key, but the proxy named no host to dial; not pinning"@
            },
        }
    }

    /// The reason in words.
    pub fn message(&self) -> (text: String)
        ensures
            text@ == self.message_spec(),
    {
        match self {
            Unpinnable::NoStatement => {
                "the peer published no statement about its key; trusting the proxy about which certificate is right".to_owned()
            },
            Unpinnable::NoPeerEndpoint => {
                "the peer signed for its key, but the proxy named no endpoint to check the statement against; not pinning".to_owned()
            },
            Unpinnable::NoHost => {
                "the peer signed for its key, but the proxy named no host to dial; not pinning".to_owned()
            },
        }
    }
}

/// A peer that signed for its key.
#[derive(Debug)]
pub struct AttestedPeer {
    /// Its statement.
    pub attestation: Attestation,
    /// The Endpoint that the statement must be from.
    pub peer_endpoint: String,
    /// The host that the statement must be about.
    pub video_host: String,
}

/// The peer that a connection can be held to: the statement, the Endpoint
/// that the proxy named (the peer, else the target), and the host.
pub open spec fn attested_spec(connection: PeerConnection) -> Result<AttestedPeer, Unpinnable> {
    match connection.video_attestation {
        None => Err(Unpinnable::NoStatement),
        Some(attestation) => {
            let endpoint = match connection.peer_endpoint {
                Some(endpoint) => Some(endpoint),
                None => connection.target_endpoint,
            };
            match (endpoint, connection.video_host) {
                (None, _) => Err(Unpinnable::NoPeerEndpoint),
                (Some(_), None) => Err(Unpinnable::NoHost),
                (Some(peer_endpoint), Some(video_host)) => Ok(AttestedPeer { attestation, peer_endpoint, video_host }),
            }
        },
    }
}

impl AttestedPeer {
    /// The peer that a connection can be held to, or why there is none.
    pub fn from_connection(connection: &PeerConnection) -> (r: Result<AttestedPeer, Unpinnable>)
        ensures
            r == attested_spec(*connection),
    {
        let attestation = match &connection.video_attestation {
            Some(given) => Attestation {
                jwk: given.jwk.clone(),
                expires_at: given.expires_at.clone(),
                signature: given.signature.clone(),
            },
            None => {
                return Err(Unpinnable::NoStatement);
            },
        };
        let peer_endpoint = match &connection.peer_endpoint {
            Some(endpoint) => endpoint.clone(),
            None => match &connection.target_endpoint {
                Some(endpoint) => endpoint.clone(),
                None => {
                    return Err(Unpinnable::NoPeerEndpoint);
                },
            },
        };
        match &connection.video_host {
            Some(host) => Ok(AttestedPeer { attestation, peer_endpoint, video_host: host.clone() }),
            None => Err(Unpinnable::NoHost),
        }
    }
}

impl AttestedPeer {
    /// Whether a certificate carries the key that the peer signed for.
    /// `verified` is what checking the statement against the certificate's key
    /// said; it is absent where the certificate could not be read.
    pub fn accepts(&self, verified: Option<Result<(), String>>) -> (r: Result<(), String>)
        ensures
            match verified {
                Some(result) => r == result,
                None => r matches Err(reason) && reason@ == "the peer's certificate could not be read"@,
            },
    {
        match verified {
            Some(result) => result,
            None => Err("the peer's certificate could not be read".to_owned()),
        }
    }
}

/// What is done with a peer's certificate.
#[derive(Debug)]
pub enum CertificateVerdict {
    /// It is for the host that was dialled.
    Named,
    /// It carries the key that the peer signed for.
    Pinned,
    /// It is refused.
    Refused(String),
}

/// Judge a certificate. `presented` says whether there was one at all; `name`
/// and `pin` are the results of the two checks, where they are to be made.
///
/// The name is looked at first.
pub fn certificate_verdict(presented: bool, name: Option<Result<(), String>>, pin: Option<Result<(), String>>) -> (r:
    CertificateVerdict)
    ensures
        match (presented, name, pin) {
            (false, _, _) => r matches CertificateVerdict::Refused(reason) && reason@
                == "the peer presented no certificate"@,
            (true, Some(Err(reason)), _) => r == CertificateVerdict::Refused(reason),
            (true, _, Some(Err(reason))) => r == CertificateVerdict::Refused(reason),
            (true, _, Some(Ok(_))) => r == CertificateVerdict::Pinned,
            (true, _, None) => r == CertificateVerdict::Named,
        },
{
    if !presented {
        return CertificateVerdict::Refused("the peer presented no certificate".to_owned());
    }
    if let Some(Err(reason)) = name {
        return CertificateVerdict::Refused(reason);
    }
    match pin {
        Some(Err(reason)) => CertificateVerdict::Refused(reason),
        Some(Ok(())) => CertificateVerdict::Pinned,
        None => CertificateVerdict::Named,
    }
}

/// What is to be dialled, and how.
pub struct DialOptions<'a> {
    /// The application protocol.
    pub alpn: &'a str,
    /// The host that the certificate must be for.
    pub host: &'a str,
    /// The port of the relay bridge.
    pub port: u16,
    /// Validate the certificate.
    pub verify: bool,
    /// The peer to hold the connection to.
    pub pin: Option<AttestedPeer>,
    /// The address to offer for a direct path.
    pub candidate: Option<ObservedAddress>,
    /// Receive datagrams.
    pub datagrams: bool,
}

impl<'a> DialOptions<'a> {
    /// What the connection is to be able to do.
    pub fn client_options(&self) -> (opts: ClientOptions<'a>)
        ensures
            opts.alpn == self.alpn,
            opts.verify == self.verify,
            opts.enable_migration == self.candidate is Some,
            opts.pinning == self.pin is Some,
            opts.datagrams == self.datagrams,
    {
        ClientOptions {
            alpn: self.alpn,
            verify: self.verify,
            enable_migration: self.candidate.is_some(),
            pinning: self.pin.is_some(),
            datagrams: self.datagrams,
        }
    }

    /// Whether the name in the certificate is checked.
    pub fn checks_name(&self, skip_verify: bool) -> (r: bool)
        ensures
            r == (self.verify && !skip_verify),
    {
        self.verify && !skip_verify
    }

    /// Whether the certificate is looked at at all.
    pub fn checks_certificate(&self, skip_verify: bool) -> (r: bool)
        ensures
            r == ((self.verify && !skip_verify) || self.pin is Some),
    {
        self.checks_name(skip_verify) || self.pin.is_some()
    }
}

/// Why a connection was lost.
#[derive(Clone, Copy, Debug, PartialEq, Eq, Structural)]
pub enum ConnectionError {
    /// The transport gave up, with this status and error code.
    ShutdownByTransport(u32, u64),
    /// The peer closed it.
    ShutdownByPeer(u64),
    /// This side closed it.
    ShutdownByLocal,
    /// Anything else.
    Other,
}

/// Why a connection could not be started.
#[derive(Clone, Copy, Debug, PartialEq, Eq, Structural)]
pub enum ConnectionStartError {
    /// It was lost.
    ConnectionLost(ConnectionError),
    /// The transport refused, with this status.
    OtherError(u32),
    /// Anything else.
    Other,
}

/// The TLS alert in a status: how far it lies above the first one.
pub open spec fn tls_alert_spec(status: u32, close_notify: u32) -> Option<u8> {
    let offset = (status - close_notify) % 0x1_0000_0000;
    if offset <= 0xff {
        Some(offset as u8)
    } else {
        None
    }
}

/// The TLS alert in a status, where it holds one. `close_notify` is the
/// transport's status for alert zero.
pub fn tls_alert(status: u32, close_notify: u32) -> (r: Option<u8>)
    ensures
        r == tls_alert_spec(status, close_notify),
{
    let offset: u32 = status.wrapping_sub(close_notify);
    if offset <= 0xff {
        Some(offset as u8)
    } else {
        None
    }
}

/// A TLS alert about a certificate.
#[derive(Clone, Copy, Debug, PartialEq, Eq, Structural)]
pub struct CertificateAlert(pub u8);

/// Whether an alert is about a certificate.
pub open spec fn about_certificate(alert: u8) -> bool {
    42 <= alert <= 46 || alert == 48 || alert == 116
}

impl CertificateAlert {
    /// The alert's name.
    pub open spec fn name_spec(self) -> Seq<char> {
        if self.0 == 42 {
            "bad_certificate"@
        } else if self.0 == 43 {
            "unsupported_certificate"@
        } else if self.0 == 44 {
            "certificate_revoked"@
        } else if self.0 == 45 {
            "certificate_expired"@
        } else if self.0 == 46 {
            "certificate_unknown"@
        } else if self.0 == 48 {
            "unknown_ca"@
        } else if self.0 == 116 {
            "certificate_required"@
        } else {
            "certificate refused"@
        }
    }

    /// The alert in words.
    pub open spec fn message_spec(self) -> Seq<char> {
        self.name_spec() + " (TLS alert "@ + decimal_spec(self.0 as nat) + ")"@
    }

    /// The alert in words.
    pub fn message(&self) -> (text: String)
        ensures
            text@ == self.message_spec(),
    {
        let name = if self.0 == 42 {
            "bad_certificate"
        } else if self.0 == 43 {
            "unsupported_certificate"
        } else if self.0 == 44 {
            "certificate_revoked"
        } else if self.0 == 45 {
            "certificate_expired"
        } else if self.0 == 46 {
            "certificate_unknown"
        } else if self.0 == 48 {
            "unknown_ca"
        } else if self.0 == 116 {
            "certificate_required"
        } else {
            "certificate refused"
        };
        let mut text = name.to_owned();
        text.push_str(" (TLS alert ");
        text.push_str(decimal(self.0 as u128).as_str());
        text.push_str(")");
        text
    }
}

/// The status that the transport reported, where it did.
pub open spec fn transport_status(error: ConnectionStartError) -> Option<u32> {
    match error {
        ConnectionStartError::ConnectionLost(ConnectionError::ShutdownByTransport(status, _)) => Some(status),
        ConnectionStartError::OtherError(status) => Some(status),
        _ => None,
    }
}

/// The alert that is the answer on every attempt, where the failure is one.
pub open spec fn permanent_verdict_spec(error: ConnectionStartError, close_notify: u32) -> Option<CertificateAlert> {
    match transport_status(error) {
        Some(status) => match tls_alert_spec(status, close_notify) {
            Some(alert) if about_certificate(alert) => Some(CertificateAlert(alert)),
            _ => None,
        },
        None => None,
    }
}

/// The alert that is the answer on every attempt, where the failure is one: a
/// certificate that was rejected will be rejected again.
pub fn permanent_verdict(error: &ConnectionStartError, close_notify: u32) -> (r: Option<CertificateAlert>)
    ensures
        r == permanent_verdict_spec(*error, close_notify),
{
    let status = match *error {
        ConnectionStartError::ConnectionLost(ConnectionError::ShutdownByTransport(status, _)) => status,
        ConnectionStartError::OtherError(status) => status,
        _ => {
            return None;
        },
    };
    match tls_alert(status, close_notify) {
        Some(alert) => {
            if (42 <= alert && alert <= 46) || alert == 48 || alert == 116 {
                Some(CertificateAlert(alert))
            } else {
                None
            }
        },
        None => None,
    }
}

/// How many packets were sent and received.
#[derive(Clone, Copy, Debug, PartialEq, Eq, Structural)]
pub struct PacketCounts {
    /// Sent.
    pub sent: u64,
    /// Received.
    pub received: u64,
}

/// Why a peer could not be dialled.
#[derive(Debug)]
pub enum DialError {
    /// The process is shutting down.
    ShutDown,
    /// The peer's certificate was refused.
    Refused { reason: String },
    /// The transport's answer is the same on every attempt.
    Permanent { host: String, port: u16, alert: CertificateAlert },
    /// It did not work in time.
    TimedOut { host: String, port: u16, attempts: u32, seen: Option<PacketCounts> },
}

/// The packet counts in words.
pub open spec fn seen_text(seen: Option<PacketCounts>) -> Seq<char> {
    match seen {
        Some(counts) => decimal_spec(counts.sent as nat) + " packets sent, "@ + decimal_spec(counts.received as nat)
            + " received"@,
        None => "no packet counts available"@,
    }
}

impl DialError {
    /// The error in words.
    pub open spec fn message_spec(self) -> Seq<char> {
        match self {
            DialError::ShutDown => "shut down while dialing the peer"@,
            DialError::Refused { reason } => {
                "the peer's certificate was refused, so this is not the peer it claims to be: "@ + reason@
            },
            DialError::Permanent { host, port, alert } => "the transport refused the handshake to "@ + host@ + ":"@
                + decimal_spec(port as nat) + " with "@ + alert.message_spec()
                + ", which is its answer on every attempt"@,
            DialError::TimedOut { host, port, attempts, seen } => "QUIC handshake to "@ + host@ + ":"@ + decimal_spec(
                port as nat,
            ) + " did not complete within 900s ("@ + decimal_spec(attempts as nat) + " attempts, "@ + seen_text(seen)
                + ")"@,
        }
    }

    /// The error in words.
    pub fn message(&self) -> (text: String)
        ensures
            text@ == self.message_spec(),
    {
        match self {
            DialError::ShutDown => "shut down while dialing the peer".to_owned(),
            DialError::Refused { reason } => {
                let mut text =
                    "the peer's certificate was refused, so this is not the peer it claims to be: ".to_owned();
                text.push_str(reason.as_str());
                text
            },
            DialError::Permanent { host, port, alert } => {
                let mut text = "the transport refused the handshake to ".to_owned();
                text.push_str(host.as_str());
                text.push_str(":");
                text.push_str(decimal(*port as u128).as_str());
                text.push_str(" with ");
                text.push_str(alert.message().as_str());
                text.push_str(", which is its answer on every attempt");
                text
            },
            DialError::TimedOut { host, port, attempts, seen } => {
                let counts = match seen {
                    Some(counts) => {
                        let mut text = decimal(counts.sent as u128);
                        text.push_str(" packets sent, ");
                        text.push_str(decimal(counts.received as u128).as_str());
                        text.push_str(" received");
                        text
                    },
                    None => "no packet counts available".to_owned(),
                };
                let mut text = "QUIC handshake to ".to_owned();
                text.push_str(host.as_str());
                text.push_str(":");
                text.push_str(decimal(*port as u128).as_str());
                text.push_str(" did not complete within 900s (");
                text.push_str(decimal(*attempts as u128).as_str());
                text.push_str(" attempts, ");
                text.push_str(counts.as_str());
                text.push_str(")");
                text
            },
        }
    }
}

/// What follows an attempt to dial.
#[derive(Debug)]
pub enum DialAction {
    /// The connection is up.
    Connected,
    /// Give up.
    Fail(DialError),
    /// Wait, then try again.
    Retry { delay: Duration },
}

/// What came of an attempt.
#[derive(Debug)]
pub struct Attempt {
    /// Why the certificate check refused, where it did.
    pub refused: Option<String>,
    /// How starting the connection ended.
    pub result: Result<(), ConnectionStartError>,
    /// The packet counts at the end, where they could be read.
    pub counts: Option<PacketCounts>,
}

/// Dialling one peer.
#[derive(Debug)]
pub struct Dial {
    /// The host that is dialled.
    pub host: String,
    /// The port that is dialled.
    pub port: u16,
    /// When to stop trying, in nanoseconds on a clock that only goes forward.
    pub deadline: u128,
    /// How many attempts were begun.
    pub attempts: u32,
    /// The packet counts last read in this attempt.
    pub last: Option<PacketCounts>,
}

impl Dial {
    /// Start to dial; there are `CONNECT_DEADLINE` seconds for it.
    pub fn new(host: &str, port: u16, now: u64) -> (d: Self)
        ensures
            d.host@ == host@,
            d.port == port,
            d.deadline == now + CONNECT_DEADLINE * 1_000_000_000,
            d.deadline - now == 900_000_000_000,
            d.attempts == 0,
            d.last is None,
    {
        Dial {
            host: host.to_owned(),
            port,
            deadline: now as u128 + CONNECT_DEADLINE as u128 * 1_000_000_000,
            attempts: 0,
            last: None,
        }
    }

    /// Where every attempt is sent: the relay bridge, on this port of the
    /// loopback. The host is only the name that the certificate is held to.
    pub fn remote(&self) -> (a: SocketAddr)
        ensures
            a == (SocketAddr::V4 { ip: 0x7f00_0001, port: self.port }),
    {
        SocketAddr::V4 { ip: 0x7f00_0001, port: self.port }
    }

    /// Begin an attempt. The count stops at its largest value.
    pub fn attempt(&mut self)
        ensures
            *final(self) == (Dial {
                attempts: if old(self).attempts < u32::MAX {
                    (old(self).attempts + 1) as u32
                } else {
                    u32::MAX
                },
                last: None,
                ..*old(self)
            }),
    {
        if self.attempts < u32::MAX {
            self.attempts = self.attempts + 1;
        }
        self.last = None;
    }

    /// Note the packet counts during a handshake.
    pub fn probed(&mut self, counts: PacketCounts)
        ensures
            *final(self) == (Dial { last: Some(counts), ..*old(self) }),
    {
        self.last = Some(counts);
    }

    /// What follows an attempt.
    ///
    /// A certificate that was refused ends it, whatever the transport says. A
    /// failure that is the answer on every attempt ends it too; any other is
    /// tried again until the deadline.
    pub fn finished(&self, attempt: &Attempt, close_notify: u32, now: u64) -> (action: DialAction)
        ensures
            dial_spec(*self, *attempt, close_notify, now, action),
    {
        if let Some(reason) = &attempt.refused {
            return DialAction::Fail(DialError::Refused { reason: reason.clone() });
        }
        match &attempt.result {
            Ok(()) => DialAction::Connected,
            Err(error) => {
                if let Some(alert) = permanent_verdict(error, close_notify) {
                    return DialAction::Fail(DialError::Permanent { host: self.host.clone(), port: self.port, alert });
                }
                if now as u128 >= self.deadline {
                    let seen = if attempt.counts.is_some() {
                        attempt.counts
                    } else {
                        self.last
                    };
                    return DialAction::Fail(
                        DialError::TimedOut { host: self.host.clone(), port: self.port, attempts: self.attempts, seen },
                    );
                }
                DialAction::Retry { delay: Duration::from_millis(CONNECT_RETRY_DELAY_MS) }
            },
        }
    }
}

/// What follows an attempt to dial.
pub open spec fn dial_spec(dial: Dial, attempt: Attempt, close_notify: u32, now: u64, action: DialAction) -> bool {
    match (attempt.refused, attempt.result) {
        (Some(reason), _) => action == DialAction::Fail(DialError::Refused { reason }),
        (None, Ok(_)) => action == DialAction::Connected,
        (None, Err(error)) => match permanent_verdict_spec(error, close_notify) {
            Some(alert) => action == DialAction::Fail(
                DialError::Permanent { host: dial.host, port: dial.port, alert },
            ),
            None => if now >= dial.deadline {
                action == DialAction::Fail(
                    DialError::TimedOut {
                        host: dial.host,
                        port: dial.port,
                        attempts: dial.attempts,
                        seen: if attempt.counts is Some {
                            attempt.counts
                        } else {
                            dial.last
                        },
                    },
                )
            } else {
                action matches DialAction::Retry { delay } && delay.nanos == CONNECT_RETRY_DELAY_MS * 1_000_000
            },
        },
    }
}

/// A peer whose certificate was refused is never connected to, and not tried
/// again.
pub proof fn law_refused_certificate_ends_the_dial(
    dial: Dial,
    attempt: Attempt,
    close_notify: u32,
    now: u64,
    action: DialAction,
)
    requires
        attempt.refused is Some,
        dial_spec(dial, attempt, close_notify, now, action),
    ensures
        action matches DialAction::Fail(DialError::Refused { reason }) && reason == attempt.refused->0,
{
}

/// Before the deadline only a refusal or an answer about a certificate ends
/// the dial; every other failure is tried again.
pub proof fn law_unanswered_handshake_is_retried(
    dial: Dial,
    attempt: Attempt,
    close_notify: u32,
    now: u64,
    action: DialAction,
)
    requires
        attempt.refused is None,
        attempt.result matches Err(error) && permanent_verdict_spec(error, close_notify) is None,
        now < dial.deadline,
        dial_spec(dial, attempt, close_notify, now, action),
    ensures
        action is Retry,
{
}

/// The alert is read back out of the status that carries it.
pub proof fn law_alert_is_read_back(alert: u8, close_notify: u32)
    requires
        close_notify + alert <= u32::MAX,
    ensures
        tls_alert_spec((close_notify + alert) as u32, close_notify) == Some(alert),
        permanent_verdict_spec(
            ConnectionStartError::ConnectionLost(
                ConnectionError::ShutdownByTransport((close_notify + alert) as u32, 0),
            ),
            close_notify,
        ) == (if about_certificate(alert) {
            Some(CertificateAlert(alert))
        } else {
            None
        }),
{
}

/// A peer is held to a key exactly where it signed for one, the proxy named the
/// Endpoint to check that against, and a host to dial; and then it is held to
/// that very statement, Endpoint and host. The Endpoint that is named as the
/// peer goes before the one that was asked for.
pub proof fn law_held_to_what_was_named(connection: PeerConnection)
    ensures
        attested_spec(connection) is Ok <==> connection.video_attestation is Some && (connection.peer_endpoint is Some
            || connection.target_endpoint is Some) && connection.video_host is Some,
        attested_spec(connection) matches Ok(peer) ==> {
            &&& peer.attestation.jwk@ == connection.video_attestation->0.jwk@
            &&& peer.attestation.expires_at@ == connection.video_attestation->0.expires_at@
            &&& peer.attestation.signature@ == connection.video_attestation->0.signature@
            &&& peer.video_host@ == connection.video_host->0@
            &&& connection.peer_endpoint is Some ==> peer.peer_endpoint@ == connection.peer_endpoint->0@
            &&& connection.peer_endpoint is None ==> peer.peer_endpoint@ == connection.target_endpoint->0@
        },
        attested_spec(connection) == Err::<AttestedPeer, Unpinnable>(Unpinnable::NoStatement) <==> connection.video_attestation is None,
        attested_spec(connection) == Err::<AttestedPeer, Unpinnable>(Unpinnable::NoPeerEndpoint) <==> connection.video_attestation is Some
            && connection.peer_endpoint is None && connection.target_endpoint is None,
{
}

/// An alert is found in a status exactly where the status lies no more than 255
/// above the first one, counted round the end of the range, and it is that
/// distance.
pub proof fn law_alert_is_the_distance(status: u32, close_notify: u32)
    ensures
        match tls_alert_spec(status, close_notify) {
            Some(alert) => status == close_notify + alert || status + 0x1_0000_0000 == close_notify + alert,
            None => forall|alert: u8|
                #![trigger close_notify + alert]
                status != close_notify + alert && status + 0x1_0000_0000 != close_notify + alert,
        },
{
}

/// A failure is the answer on every attempt exactly where the transport reports
/// an alert about a certificate, which seven of them are.
pub proof fn law_only_certificate_alerts_are_final(error: ConnectionStartError, close_notify: u32, alert: u8)
    ensures
        about_certificate(alert) <==> alert == 42 || alert == 43 || alert == 44 || alert == 45 || alert == 46 || alert == 48
            || alert == 116,
        permanent_verdict_spec(error, close_notify) == Some(CertificateAlert(alert)) <==> about_certificate(alert) && (match error {
            ConnectionStartError::ConnectionLost(ConnectionError::ShutdownByTransport(status, _)) => tls_alert_spec(
                status,
                close_notify,
            ) == Some(alert),
            ConnectionStartError::OtherError(status) => tls_alert_spec(status, close_notify) == Some(alert),
            _ => false,
        }),
        error matches ConnectionStartError::ConnectionLost(ConnectionError::ShutdownByPeer(_)) ==> permanent_verdict_spec(
            error,
            close_notify,
        ) is None,
        error == ConnectionStartError::ConnectionLost(ConnectionError::ShutdownByLocal) ==> permanent_verdict_spec(
            error,
            close_notify,
        ) is None,
{
}

/// How an attempt to dial can end: connected exactly where it started and its
/// certificate was not refused; tried again in half a second exactly where it
/// failed for a passing reason before the deadline; and given up with the
/// reason otherwise. What is said of a failure is said of the host, port and
/// attempts of this dial, with the packet counts that were read last.
pub proof fn law_dial_ends_as_the_attempt_did(
    dial: Dial,
    attempt: Attempt,
    close_notify: u32,
    now: u64,
    action: DialAction,
)
    requires
        dial_spec(dial, attempt, close_notify, now, action),
    ensures
        action is Connected <==> attempt.refused is None && attempt.result is Ok,
        action is Retry <==> attempt.refused is None && (attempt.result matches Err(error) && permanent_verdict_spec(
            error,
            close_notify,
        ) is None) && now < dial.deadline,
        action matches DialAction::Retry { delay } ==> delay.nanos == 500_000_000,
        action matches DialAction::Fail(failure) ==> match failure {
            DialError::ShutDown => false,
            DialError::Refused { reason } => attempt.refused == Some(reason),
            DialError::Permanent { host, port, alert } => host@ == dial.host@ && port == dial.port && attempt.refused is None && (
            attempt.result matches Err(error) && permanent_verdict_spec(error, close_notify) == Some(alert)),
            DialError::TimedOut { host, port, attempts, seen } => host@ == dial.host@ && port == dial.port && attempts
                == dial.attempts && now >= dial.deadline && (attempt.counts is Some ==> seen == attempt.counts) && (
            attempt.counts is None ==> seen == dial.last),
        },
{
}

/// What is said of an alert names it, and two different ones about certificates
/// are not said in the same words.
pub proof fn law_alerts_are_told_apart(a: CertificateAlert, b: CertificateAlert)
    requires
        about_certificate(a.0),
        about_certificate(b.0),
        a != b,
    ensures
        a.name_spec() != b.name_spec(),
{
    reveal_strlit("bad_certificate");
    reveal_strlit("unsupported_certificate");
    reveal_strlit("certificate_revoked");
    reveal_strlit("certificate_expired");
    reveal_strlit("certificate_unknown");
    reveal_strlit("unknown_ca");
    reveal_strlit("certificate_required");
    assert("bad_certificate"@.len() == 15 && "unsupported_certificate"@.len() == 23 && "unknown_ca"@.len() == 10);
    assert("certificate_required"@.len() == 20);
    assert("certificate_revoked"@.len() == 19 && "certificate_expired"@.len() == 19 && "certificate_unknown"@.len() == 19);
    assert("certificate_revoked"@[12] == 'r' && "certificate_expired"@[12] == 'e' && "certificate_unknown"@[12] == 'u');
}

/// A dial that ran out of time is told with its host, port and attempts, and
/// with how many packets were sent and how many came back, each in its place.
pub proof fn law_timed_out_dial_tells_what_was_seen(host: String, port: u16, attempts: u32, counts: PacketCounts)
    ensures
        (DialError::TimedOut { host, port, attempts, seen: Some(counts) }).message_spec() == "QUIC handshake to "@ + host@ + ":"@
            + decimal_spec(port as nat) + " did not complete within 900s ("@ + decimal_spec(attempts as nat) + " attempts, "@ + (
        decimal_spec(counts.sent as nat) + " packets sent, "@ + decimal_spec(counts.received as nat) + " received"@) + ")"@,
        (DialError::TimedOut { host, port, attempts, seen: None }).message_spec() == "QUIC handshake to "@ + host@ + ":"@
            + decimal_spec(port as nat) + " did not complete within 900s ("@ + decimal_spec(attempts as nat) + " attempts, "@
            + "no packet counts available"@ + ")"@,
{
}

/// An answer that is the same on every attempt is told with the host, the port
/// and the alert, by its name and number.
pub proof fn law_final_answer_names_the_alert(host: String, port: u16, alert: CertificateAlert)
    ensures
        (DialError::Permanent { host, port, alert }).message_spec() == "the transport refused the handshake to "@ + host@ + ":"@
            + decimal_spec(port as nat) + " with "@ + (alert.name_spec() + " (TLS alert "@ + decimal_spec(alert.0 as nat) + ")"@)
            + ", which is its answer on every attempt"@,
        alert.0 == 42 ==> alert.name_spec() == "bad_certificate"@,
        alert.0 == 48 ==> alert.name_spec() == "unknown_ca"@,
        alert.0 == 45 ==> alert.name_spec() == "certificate_expired"@,
{
}

} // verus!

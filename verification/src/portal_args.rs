//! What the arguments of the portal client ask for, and which of them do not
//! go together. Everything here is settled before anything is sent.

use crate::addr::{IpAddr, SocketAddr};
use crate::auth::Credential;
use crate::config::{Narrowing, P2pConfig};
use crate::text::{
    copy_strings, decimal_spec, eq_ignore_ascii_case, free_of, law_cut_at_the_first, law_decimal_reads_back, lemma_decimal, lemma_position_is, parse_u16,
    parse_u16_spec, same, same_but_case, split_once, split_once_spec,
};
use vstd::prelude::*;

verus! {

/// The audience that the proxy checks an assertion against.
pub const PROXY_AUDIENCE: &'static str = "isekai-proxy";

/// The arguments.
pub struct Args {
    /// Identity API base URL.
    pub identity_url: String,
    /// Reach it over HTTP/3.
    pub identity_http3: bool,
    /// Proxy base URL.
    pub proxy_url: String,
    /// An Auth0 access token.
    pub auth0_token: Option<String>,
    /// Sign in and stop.
    pub login: bool,
    /// The protocol to speak.
    pub protocol: String,
    /// Register the Endpoint first.
    pub register: bool,
    /// A name for the device.
    pub device_name: Option<String>,
    /// Print the Endpoint's id and stop.
    pub whoami: bool,
    /// A pairing code to redeem.
    pub pair: Option<String>,
    /// A ticket to redeem.
    pub redeem: Option<String>,
    /// A name to record with the grant.
    pub label: Option<String>,
    /// Which server to connect to.
    pub peer: Option<String>,
    /// The listener that a capability is for.
    pub listener: Option<String>,
    /// A capability.
    pub capability: Option<String>,
    /// Local ports to map onto services.
    pub map: Vec<String>,
    /// Register with an Enrollment Key.
    pub enroll: bool,
    /// Issue an Enrollment Key.
    pub issue_enrollment_key: bool,
    /// The protocols of its Endpoints.
    pub enrollment_protocols: Vec<String>,
    /// The permissions of its Endpoints.
    pub permissions: Vec<String>,
    /// How long it is usable, in seconds.
    pub enrollment_ttl: Option<i64>,
    /// How many of its Endpoints may be alive.
    pub max_live_endpoints: Option<i64>,
    /// How long one of them may be unused, in seconds.
    pub endpoint_idle_ttl: Option<i64>,
    /// Bind it to this issuer.
    pub binding_oidc: Option<String>,
    /// Bind it to this subject.
    pub binding_subject: Option<String>,
    /// Bind it to nothing.
    pub binding_none: bool,
    /// What it is for.
    pub enrollment_label: Option<String>,
    /// List the Enrollment Keys.
    pub enrollment_keys: bool,
    /// List what registered with this key.
    pub enrollment_key_enrollments: Option<String>,
    /// Stop this Enrollment Key.
    pub revoke_enrollment_key: Option<String>,
    /// List the Endpoints.
    pub endpoints: bool,
    /// Which Endpoints to list.
    pub endpoint_status: Option<String>,
    /// Retire this Endpoint.
    pub revoke_endpoint: Option<String>,
    /// Why it is retired.
    pub reason: Option<String>,
    /// A note on that.
    pub note: Option<String>,
}

impl Default for Args {
    fn default() -> (args: Self)
        ensures
            args.identity_url@ == "https://identity.isekai.tools:9443"@,
            args.proxy_url@ == "https://tokyo.link.isekai.tools:8443"@,
            args.protocol@ == "isekai-portal-v1"@,
            !args.identity_http3 && !args.login && !args.register && !args.whoami && !args.enroll
                && !args.issue_enrollment_key && !args.binding_none && !args.enrollment_keys && !args.endpoints,
            args.auth0_token is None && args.device_name is None && args.pair is None && args.redeem is None
                && args.label is None && args.peer is None && args.listener is None && args.capability is None,
            args.map@.len() == 0 && args.enrollment_protocols@.len() == 0 && args.permissions@.len() == 0,
            args.enrollment_ttl is None && args.max_live_endpoints is None && args.endpoint_idle_ttl is None,
            args.binding_oidc is None && args.binding_subject is None && args.enrollment_label is None,
            args.enrollment_key_enrollments is None && args.revoke_enrollment_key is None && args.endpoint_status is None
                && args.revoke_endpoint is None && args.reason is None && args.note is None,
    {
        Args {
            identity_url: "https://identity.isekai.tools:9443".to_owned(),
            identity_http3: false,
            proxy_url: "https://tokyo.link.isekai.tools:8443".to_owned(),
            auth0_token: None,
            login: false,
            protocol: "isekai-portal-v1".to_owned(),
            register: false,
            device_name: None,
            whoami: false,
            pair: None,
            redeem: None,
            label: None,
            peer: None,
            listener: None,
            capability: None,
            map: Vec::new(),
            enroll: false,
            issue_enrollment_key: false,
            enrollment_protocols: Vec::new(),
            permissions: Vec::new(),
            enrollment_ttl: None,
            max_live_endpoints: None,
            endpoint_idle_ttl: None,
            binding_oidc: None,
            binding_subject: None,
            binding_none: false,
            enrollment_label: None,
            enrollment_keys: false,
            enrollment_key_enrollments: None,
            revoke_enrollment_key: None,
            endpoints: false,
            endpoint_status: None,
            revoke_endpoint: None,
            reason: None,
            note: None,
        }
    }
}

/// What a secret is.
#[derive(Clone, Copy, Debug, PartialEq, Eq, Structural)]
pub enum SecretKind {
    /// A ticket's secret.
    Ticket,
    /// A ticket with the proxy it is for.
    TicketTransfer,
    /// A Provisioning Key.
    ProvisioningKey,
    /// An Enrollment Key.
    EnrollmentKey,
    /// Something else that must not be sent.
    Other,
}

/// What a secret is, in words.
pub open spec fn what_it_is_spec(kind: SecretKind) -> Seq<char> {
    match kind {
        SecretKind::Ticket | SecretKind::TicketTransfer => "a ticket"@,
        SecretKind::ProvisioningKey => "a Provisioning Key"@,
        SecretKind::EnrollmentKey => "an Enrollment Key"@,
        SecretKind::Other => "a secret"@,
    }
}

/// What a secret is, in words that a person can act on.
pub fn what_it_is(kind: SecretKind) -> (text: &'static str)
    ensures
        text@ == what_it_is_spec(kind),
{
    match kind {
        SecretKind::Ticket => "a ticket",
        SecretKind::TicketTransfer => "a ticket",
        SecretKind::ProvisioningKey => "a Provisioning Key",
        SecretKind::EnrollmentKey => "an Enrollment Key",
        SecretKind::Other => "a secret",
    }
}

/// A ticket, and the proxy that it is for.
pub struct TicketTransfer {
    /// The ticket.
    pub ticket: String,
    /// The proxy's address; empty where the string did not say.
    pub proxy: String,
}

/// What is wrong with a `--map`.
#[derive(Debug)]
pub enum MapError {
    /// It has no port and service.
    Shape { map: String },
    /// Its port is not one.
    Port { port: String, map: String },
}

/// Why a run was refused.
#[derive(Debug)]
pub enum RunError {
    /// A reason or a note without a revocation.
    ReasonWithoutRevocation,
    /// A status without a listing.
    StatusWithoutListing,
    /// A status that is not known.
    UnknownStatus(String),
    /// Two ways in.
    PairAndRedeem,
    /// Arguments of an unattended run that do not go together, or a key that
    /// is missing.
    Unattended(String),
    /// A Provisioning Key and another way in.
    ProvisioningAndOther,
    /// A peer where being let in names it.
    PeerNotNeeded,
    /// A secret in place of a pairing code.
    SecretAsCode { kind: SecretKind, redacted: String },
    /// A string that is not a ticket.
    NotATicket,
    /// A ticket for another proxy.
    OtherProxy { ticket: String, configured: String },
    /// A map that is not one.
    BadMap(MapError),
    /// Nothing to do.
    NothingToForward,
    /// A capability without its listener.
    CapabilityWithoutListener,
    /// A listener without a capability.
    ListenerWithoutCapability,
}

impl RunError {
    /// The error in words.
    pub open spec fn message_spec(self) -> Seq<char> {
        match self {
            RunError::ReasonWithoutRevocation => {
                "--reason and --note describe a --revoke-endpoint, and this run has none"@
            },
            RunError::StatusWithoutListing => {
                "--endpoint-status describes --endpoints, which this run is not asking for"@
            },
            RunError::UnknownStatus(status) => "--endpoint-status takes `active`, `revoked` or `all`, not `"@ + status@
                + "`"@,
            RunError::PairAndRedeem => "--pair and --redeem are two ways in; use one"@,
            RunError::Unattended(why) => why@,
            RunError::ProvisioningAndOther => {
                "a Provisioning Key and --pair/--redeem are different ways in; use one"@
            },
            RunError::PeerNotNeeded => "--peer is not needed here: being let in is what names the peer"@,
            RunError::SecretAsCode { kind, redacted } => "that is "@ + what_it_is_spec(kind) + ", not a pairing code"@ + (
            match kind {
                SecretKind::Ticket | SecretKind::TicketTransfer => " -- redeem it with --redeem."@,
                _ => "."@,
            }) + "\nNothing was sent. ("@ + redacted@ + ")"@,
            RunError::NotATicket => {
                "that is not a ticket -- expected the `iskt1_` string the operator sent, or a bare `tkt1_` secret"@
            },
            RunError::OtherProxy { ticket, configured } => "this ticket is for "@ + ticket@ + ", but --proxy-url is "@
                + configured@
                + ".\nRedeeming sends this Endpoint's token to whichever proxy is used, so the address is not taken from the ticket on its own.\nIf you trust it: --proxy-url https://"@
                + ticket@
                + " --redeem \u{2026}\nPass it to every later command too -- that is where the grant lives."@,
            RunError::BadMap(MapError::Shape { map }) => "--map wants `port:service` or `udp:port:service`, got `"@ + map@
                + "`"@,
            RunError::BadMap(MapError::Port { port, map }) => "`"@ + port@ + "` is not a port, in --map `"@ + map@ + "`"@,
            RunError::NothingToForward => "nothing to forward; pass at least one --map port:service"@,
            RunError::CapabilityWithoutListener => {
                "--capability needs --listener, which names the one it is for"@
            },
            RunError::ListenerWithoutCapability => {
                "--listener is only for the --capability path. On a grant the current listener is found for you -- drop it, or add --capability"@
            },
        }
    }

    /// The error in words.
    pub fn message(&self) -> (text: String)
        ensures
            text@ == self.message_spec(),
    {
        match self {
            RunError::ReasonWithoutRevocation => {
                "--reason and --note describe a --revoke-endpoint, and this run has none".to_owned()
            },
            RunError::StatusWithoutListing => {
                "--endpoint-status describes --endpoints, which this run is not asking for".to_owned()
            },
            RunError::UnknownStatus(status) => {
                let mut text = "--endpoint-status takes `active`, `revoked` or `all`, not `".to_owned();
                text.push_str(status.as_str());
                text.push_str("`");
                text
            },
            RunError::PairAndRedeem => "--pair and --redeem are two ways in; use one".to_owned(),
            RunError::Unattended(why) => why.clone(),
            RunError::ProvisioningAndOther => {
                "a Provisioning Key and --pair/--redeem are different ways in; use one".to_owned()
            },
            RunError::PeerNotNeeded => {
                "--peer is not needed here: being let in is what names the peer".to_owned()
            },
            RunError::SecretAsCode { kind, redacted } => {
                let mut text = "that is ".to_owned();
                text.push_str(what_it_is(*kind));
                text.push_str(", not a pairing code");
                match kind {
                    SecretKind::Ticket => text.push_str(" -- redeem it with --redeem."),
                    SecretKind::TicketTransfer => text.push_str(" -- redeem it with --redeem."),
                    _ => text.push_str("."),
                }
                text.push_str("\nNothing was sent. (");
                text.push_str(redacted.as_str());
                text.push_str(")");
                text
            },
            RunError::NotATicket => {
                "that is not a ticket -- expected the `iskt1_` string the operator sent, or a bare `tkt1_` secret".to_owned()
            },
            RunError::OtherProxy { ticket, configured } => {
                let mut text = "this ticket is for ".to_owned();
                text.push_str(ticket.as_str());
                text.push_str(", but --proxy-url is ");
                text.push_str(configured.as_str());
                text.push_str(
                    ".\nRedeeming sends this Endpoint's token to whichever proxy is used, so the address is not taken from the ticket on its own.\nIf you trust it: --proxy-url https://",
                );
                text.push_str(ticket.as_str());
                text.push_str(
                    " --redeem \u{2026}\nPass it to every later command too -- that is where the grant lives.",
                );
                text
            },
            RunError::BadMap(MapError::Shape { map }) => {
                let mut text = "--map wants `port:service` or `udp:port:service`, got `".to_owned();
                text.push_str(map.as_str());
                text.push_str("`");
                text
            },
            RunError::BadMap(MapError::Port { port, map }) => {
                let mut text = "`".to_owned();
                text.push_str(port.as_str());
                text.push_str("` is not a port, in --map `");
                text.push_str(map.as_str());
                text.push_str("`");
                text
            },
            RunError::NothingToForward => {
                "nothing to forward; pass at least one --map port:service".to_owned()
            },
            RunError::CapabilityWithoutListener => {
                "--capability needs --listener, which names the one it is for".to_owned()
            },
            RunError::ListenerWithoutCapability => {
                "--listener is only for the --capability path. On a grant the current listener is found for you -- drop it, or add --capability".to_owned()
            },
        }
    }
}

/// What a run begins with.
#[derive(Clone, Copy, Debug, PartialEq, Eq, Structural)]
pub enum FirstStep {
    /// Sign in, and stop.
    Login,
    /// The commands about Enrollment Keys and Endpoints.
    Admin,
    /// Load this Endpoint's key, and go on.
    Key,
}

/// Whether a command about Enrollment Keys or Endpoints was given.
pub open spec fn is_admin(args: Args) -> bool {
    args.issue_enrollment_key || args.enrollment_keys || args.enrollment_key_enrollments is Some
        || args.revoke_enrollment_key is Some || args.endpoints || args.revoke_endpoint is Some
}

/// What a run begins with. Signing in comes first: it needs no key, and
/// nothing else about the arguments.
pub open spec fn first_step_spec(args: Args) -> Result<FirstStep, RunError> {
    if args.login {
        Ok(FirstStep::Login)
    } else if (args.reason is Some || args.note is Some) && args.revoke_endpoint is None {
        Err(RunError::ReasonWithoutRevocation)
    } else if args.endpoint_status is Some && !args.endpoints {
        Err(RunError::StatusWithoutListing)
    } else if args.endpoint_status matches Some(status) && status@ != "active"@ && status@ != "revoked"@ && status@
        != "all"@ {
        Err(RunError::UnknownStatus(args.endpoint_status->0))
    } else if is_admin(args) {
        Ok(FirstStep::Admin)
    } else {
        Ok(FirstStep::Key)
    }
}

/// What a run begins with.
pub fn first_step(args: &Args) -> (r: Result<FirstStep, RunError>)
    ensures
        r == first_step_spec(*args),
{
    if args.login {
        return Ok(FirstStep::Login);
    }
    if (args.reason.is_some() || args.note.is_some()) && args.revoke_endpoint.is_none() {
        return Err(RunError::ReasonWithoutRevocation);
    }
    if let Some(status) = &args.endpoint_status {
        if !args.endpoints {
            return Err(RunError::StatusWithoutListing);
        }
        if !same(status.as_str(), "active") && !same(status.as_str(), "revoked") && !same(status.as_str(), "all") {
            return Err(RunError::UnknownStatus(status.clone()));
        }
    }
    if args.issue_enrollment_key || args.enrollment_keys || args.enrollment_key_enrollments.is_some()
        || args.revoke_enrollment_key.is_some() || args.endpoints || args.revoke_endpoint.is_some() {
        Ok(FirstStep::Admin)
    } else {
        Ok(FirstStep::Key)
    }
}

/// What was found out about the arguments, without sending anything.
pub struct Findings {
    /// Whether the arguments of an unattended run go together.
    pub unattended: Result<(), String>,
    /// Whether the Enrollment Key is there.
    pub enrollment_key: Result<(), String>,
    /// The Provisioning Key, where there is one.
    pub provisioning: Result<Option<String>, String>,
    /// What the pairing code is, where it is a secret, and how it may be shown.
    pub secret: Option<(SecretKind, String)>,
    /// The ticket, where the string to redeem is one.
    pub transfer: Option<TicketTransfer>,
    /// The address of the proxy that the arguments name.
    pub configured: String,
}

/// What is wrong with a ticket: it is not one, or it is for another proxy. The
/// address in a ticket never chooses the proxy.
pub open spec fn ticket_refusal(transfer: Option<TicketTransfer>, configured: String) -> Option<RunError> {
    match transfer {
        None => Some(RunError::NotATicket),
        Some(transfer) => if transfer.proxy@.len() > 0 && !same_but_case(transfer.proxy@, configured@) {
            Some(RunError::OtherProxy { ticket: transfer.proxy, configured })
        } else {
            None
        },
    }
}

/// Check a ticket.
pub fn check_ticket(transfer: &Option<TicketTransfer>, configured: &String) -> (r: Option<RunError>)
    ensures
        r == ticket_refusal(*transfer, *configured),
{
    match transfer {
        None => Some(RunError::NotATicket),
        Some(transfer) => {
            if !transfer.proxy.as_str().is_empty() && !eq_ignore_ascii_case(
                transfer.proxy.as_str(),
                configured.as_str(),
            ) {
                Some(RunError::OtherProxy { ticket: transfer.proxy.clone(), configured: configured.clone() })
            } else {
                None
            }
        },
    }
}

/// There is a Provisioning Key.
pub open spec fn provisioned(findings: Findings) -> bool {
    findings.provisioning matches Ok(Some(_))
}

/// Why a run is refused, before the maps are looked at.
pub open spec fn refusal(args: Args, findings: Findings) -> Option<RunError> {
    if args.pair is Some && args.redeem is Some {
        Some(RunError::PairAndRedeem)
    } else if findings.unattended is Err {
        Some(RunError::Unattended(findings.unattended->Err_0))
    } else if args.enroll && findings.enrollment_key is Err {
        Some(RunError::Unattended(findings.enrollment_key->Err_0))
    } else if findings.provisioning is Err {
        Some(RunError::Unattended(findings.provisioning->Err_0))
    } else if provisioned(findings) && (args.pair is Some || args.redeem is Some) {
        Some(RunError::ProvisioningAndOther)
    } else if args.peer is Some && (args.pair is Some || args.redeem is Some || provisioned(findings)) {
        Some(RunError::PeerNotNeeded)
    } else if args.pair is Some && findings.secret is Some {
        let (kind, redacted) = findings.secret->0;
        Some(RunError::SecretAsCode { kind, redacted })
    } else if args.redeem is Some {
        ticket_refusal(findings.transfer, findings.configured)
    } else {
        None
    }
}

fn refuse(args: &Args, findings: &Findings) -> (r: Option<RunError>)
    ensures
        r == refusal(*args, *findings),
{
    if args.pair.is_some() && args.redeem.is_some() {
        return Some(RunError::PairAndRedeem);
    }
    if let Err(why) = &findings.unattended {
        return Some(RunError::Unattended(why.clone()));
    }
    if args.enroll {
        if let Err(why) = &findings.enrollment_key {
            return Some(RunError::Unattended(why.clone()));
        }
    }
    let provisioned = match &findings.provisioning {
        Err(why) => {
            return Some(RunError::Unattended(why.clone()));
        },
        Ok(key) => key.is_some(),
    };
    if provisioned && (args.pair.is_some() || args.redeem.is_some()) {
        return Some(RunError::ProvisioningAndOther);
    }
    if args.peer.is_some() && (args.pair.is_some() || args.redeem.is_some() || provisioned) {
        return Some(RunError::PeerNotNeeded);
    }
    if args.pair.is_some() {
        if let Some((kind, redacted)) = &findings.secret {
            return Some(RunError::SecretAsCode { kind: *kind, redacted: redacted.clone() });
        }
    }
    if args.redeem.is_some() {
        return check_ticket(&findings.transfer, &findings.configured);
    }
    None
}

/// What a local port carries.
#[derive(Clone, Copy, Debug, PartialEq, Eq, Structural)]
pub enum Protocol {
    /// TCP.
    Tcp,
    /// UDP.
    Udp,
}

/// A local port, and the service behind it.
#[derive(Debug, PartialEq, Eq)]
pub struct Mapping {
    /// What it carries.
    pub protocol: Protocol,
    /// Where it is bound.
    pub local: SocketAddr,
    /// The service.
    pub service: String,
}

/// The protocol of a map, and the rest of it.
pub open spec fn map_protocol(map: Seq<char>) -> (Protocol, Seq<char>) {
    match split_once_spec(map, ':') {
        Some((word, rest)) => if word == "tcp"@ {
            (Protocol::Tcp, rest)
        } else if word == "udp"@ {
            (Protocol::Udp, rest)
        } else {
            (Protocol::Tcp, map)
        },
        None => (Protocol::Tcp, map),
    }
}

/// What a map says: the protocol, the port and the service, or which part of
/// it is the port that is not one.
pub open spec fn map_spec(map: Seq<char>) -> Result<(Protocol, u16, Seq<char>), Option<Seq<char>>> {
    let (protocol, rest) = map_protocol(map);
    match split_once_spec(rest, ':') {
        None => Err(None),
        Some((port, service)) => match parse_u16_spec(port) {
            None => Err(Some(port)),
            Some(number) => Ok((protocol, number, service)),
        },
    }
}

/// The mapping is what the map says.
pub open spec fn mapped(map: Seq<char>, bind: IpAddr, mapping: Mapping) -> bool {
    map_spec(map) matches Ok(parts) && mapping.protocol == parts.0 && mapping.local == bind.with_port_spec(parts.1)
        && mapping.service@ == parts.2
}

/// The error is what is wrong with the map.
pub open spec fn map_refused(map: Seq<char>, error: MapError) -> bool {
    match (map_spec(map), error) {
        (Err(None), MapError::Shape { map: shown }) => shown@ == map,
        (Err(Some(part)), MapError::Port { port, map: shown }) => port@ == part && shown@ == map,
        _ => false,
    }
}

fn parse_map(map: &String, bind: IpAddr) -> (r: Result<Mapping, MapError>)
    ensures
        match r {
            Ok(mapping) => mapped(map@, bind, mapping),
            Err(error) => map_refused(map@, error),
        },
{
    let mut protocol = Protocol::Tcp;
    let mut rest = map.clone();
    if let Some((word, tail)) = split_once(map.as_str(), ':') {
        if same(word.as_str(), "tcp") {
            rest = tail;
        } else if same(word.as_str(), "udp") {
            protocol = Protocol::Udp;
            rest = tail;
        }
    }
    match split_once(rest.as_str(), ':') {
        None => Err(MapError::Shape { map: map.clone() }),
        Some((port, service)) => match parse_u16(port.as_str()) {
            None => Err(MapError::Port { port, map: map.clone() }),
            Some(number) => Ok(Mapping { protocol, local: bind.with_port(number), service }),
        },
    }
}

/// Read maps `port:service` or `udp:port:service`; the first that is not one
/// is refused.
pub fn maps(given: &Vec<String>, bind: IpAddr) -> (r: Result<Vec<Mapping>, MapError>)
    ensures
        match r {
            Ok(list) => list@.len() == given@.len() && forall|i: int|
                0 <= i < given@.len() ==> mapped(given@[i]@, bind, #[trigger] list@[i]),
            Err(error) => exists|i: int|
                0 <= i < given@.len() && map_refused(#[trigger] given@[i]@, error) && forall|k: int|
                    0 <= k < i ==> map_spec(#[trigger] given@[k]@) is Ok,
        },
{
    let mut list: Vec<Mapping> = Vec::new();
    let mut i: usize = 0;
    while i < given.len()
        invariant
            i <= given@.len(),
            list@.len() == i,
            forall|k: int| 0 <= k < i ==> mapped(given@[k]@, bind, #[trigger] list@[k]),
        decreases given@.len() - i,
    {
        match parse_map(&given[i], bind) {
            Ok(mapping) => list.push(mapping),
            Err(error) => {
                proof {
                    assert(map_refused(given@[i as int]@, error));
                    assert forall|k: int| 0 <= k < i implies map_spec(#[trigger] given@[k]@) is Ok by {
                        assert(mapped(given@[k]@, bind, list@[k]));
                    }
                }
                return Err(error);
            },
        }
        i = i + 1;
    }
    Ok(list)
}

/// A map with its protocol said.
pub open spec fn map_text(protocol: Protocol, port: u16, service: Seq<char>) -> Seq<char> {
    (match protocol {
        Protocol::Tcp => "tcp:"@,
        Protocol::Udp => "udp:"@,
    }) + plain_map_text(port, service)
}

/// A map without a protocol.
pub open spec fn plain_map_text(port: u16, service: Seq<char>) -> Seq<char> {
    decimal_spec(port as nat) + ":"@ + service
}

proof fn lemma_plain_map(port: u16, service: Seq<char>)
    ensures
        split_once_spec(plain_map_text(port, service), ':') == Some((decimal_spec(port as nat), service)),
{
    reveal_strlit(":");
    lemma_decimal(port as nat);
    let digits = decimal_spec(port as nat);
    let text = plain_map_text(port, service);
    assert forall|j: int| 0 <= j < digits.len() implies #[trigger] text[j] != ':' by {
        assert(text[j] == digits[j]);
    }
    lemma_position_is(text, ':', digits.len() as int);
    assert(text.take(digits.len() as int) =~= digits);
    assert(text.skip(digits.len() as int + 1) =~= service);
}

/// A map says what was written in it, whatever the service is called; without
/// a protocol it is TCP.
pub proof fn law_map_says_what_was_written(protocol: Protocol, port: u16, service: Seq<char>)
    ensures
        map_spec(map_text(protocol, port, service)) == Ok::<(Protocol, u16, Seq<char>), Option<Seq<char>>>(
            (protocol, port, service),
        ),
        map_spec(plain_map_text(port, service)) == Ok::<(Protocol, u16, Seq<char>), Option<Seq<char>>>(
            (Protocol::Tcp, port, service),
        ),
{
    lemma_plain_map(port, service);
    law_decimal_reads_back(port);
    reveal_strlit("tcp");
    reveal_strlit("udp");
    reveal_strlit("tcp:");
    reveal_strlit("udp:");
    let digits = decimal_spec(port as nat);
    lemma_decimal(port as nat);
    assert(digits[0] != "tcp"@[0]);
    assert(digits[0] != "udp"@[0]);
    let plain = plain_map_text(port, service);
    let text = map_text(protocol, port, service);
    lemma_position_is(text, ':', 3);
    assert(text.skip(4) =~= plain);
    match protocol {
        Protocol::Tcp => {
            assert(text.take(3) =~= "tcp"@);
        },
        Protocol::Udp => {
            assert(text.take(3) =~= "udp"@);
            assert("udp"@[0] != "tcp"@[0]);
        },
    }
}

/// How this run is let in.
pub enum WayIn {
    /// By a pairing code.
    Pair(String),
    /// By a ticket.
    Ticket(TicketTransfer),
    /// By a Provisioning Key.
    Provisioning(String),
    /// It already was.
    Standing,
}

/// What a run does once it has an Endpoint.
pub struct Plan {
    /// The ports to forward; none is a run that stops once it is let in.
    pub maps: Vec<Mapping>,
    /// How it is let in.
    pub way_in: WayIn,
}

/// How a run is let in: a code before a ticket before a key.
pub open spec fn way_in_spec(args: Args, findings: Findings) -> WayIn {
    if args.pair is Some {
        WayIn::Pair(args.pair->0)
    } else if args.redeem is Some {
        WayIn::Ticket(findings.transfer->0)
    } else if provisioned(findings) {
        WayIn::Provisioning(findings.provisioning->Ok_0->0)
    } else {
        WayIn::Standing
    }
}

/// What a run does once it has an Endpoint, or why it is refused. What is
/// wrong with a way in is said before what is wrong with a map.
pub fn plan(args: &Args, findings: Findings, bind: IpAddr) -> (r: Result<Plan, RunError>)
    ensures
        match refusal(*args, findings) {
            Some(error) => r == Err::<Plan, RunError>(error),
            None => match r {
                Err(RunError::BadMap(error)) => exists|i: int|
                    0 <= i < args.map@.len() && map_refused(#[trigger] args.map@[i]@, error) && forall|k: int|
                        0 <= k < i ==> map_spec(#[trigger] args.map@[k]@) is Ok,
                Err(error) => error == RunError::NothingToForward && args.map@.len() == 0 && way_in_spec(*args, findings)
                    == WayIn::Standing,
                Ok(plan) => {
                    &&& plan.way_in == way_in_spec(*args, findings)
                    &&& plan.maps@.len() == args.map@.len()
                    &&& forall|i: int|
                        0 <= i < args.map@.len() ==> mapped(args.map@[i]@, bind, #[trigger] plan.maps@[i])
                    &&& plan.maps@.len() > 0 || plan.way_in != WayIn::Standing
                },
            },
        },
{
    if let Some(error) = refuse(args, &findings) {
        return Err(error);
    }
    let list = match maps(&args.map, bind) {
        Ok(list) => list,
        Err(error) => {
            return Err(RunError::BadMap(error));
        },
    };
    let way_in = match &args.pair {
        Some(code) => WayIn::Pair(code.clone()),
        None => match (&args.redeem, findings.transfer, findings.provisioning) {
            (Some(_), Some(transfer), _) => WayIn::Ticket(transfer),
            (None, _, Ok(Some(key))) => WayIn::Provisioning(key),
            _ => WayIn::Standing,
        },
    };
    if list.len() == 0 {
        if let WayIn::Standing = way_in {
            return Err(RunError::NothingToForward);
        }
    }
    Ok(Plan { maps: list, way_in })
}

/// A secret that was put in place of a pairing code is never handed on as one.
pub proof fn law_secret_is_never_sent_as_a_code(args: Args, findings: Findings)
    requires
        args.pair is Some,
        findings.secret is Some,
    ensures
        refusal(args, findings) is Some,
{
}

/// A ticket never chooses the proxy: one that names another is refused.
pub proof fn law_ticket_never_chooses_the_proxy(args: Args, findings: Findings)
    requires
        args.redeem is Some,
        findings.transfer matches Some(transfer) && transfer.proxy@.len() > 0 && !same_but_case(
            transfer.proxy@,
            findings.configured@,
        ),
    ensures
        refusal(args, findings) is Some,
{
}

/// The session configuration that the arguments ask for. `credential` is an
/// Enrollment Key where one was asked for, else a person's sign-in.
pub fn config(args: &Args, credential: Credential, endpoint: String) -> (cfg: P2pConfig)
    ensures
        cfg.identity_url == args.identity_url,
        cfg.identity_http3 == args.identity_http3,
        cfg.proxy_url == args.proxy_url,
        cfg.credential == credential,
        cfg.protocol == args.protocol,
        cfg.device_name == args.device_name,
        cfg.token_ttl is None,
        cfg.endpoint == endpoint,
        cfg.narrowing.permissions is None && cfg.narrowing.protocols is None && cfg.narrowing.gateways is None,
{
    P2pConfig {
        identity_url: args.identity_url.clone(),
        identity_http3: args.identity_http3,
        proxy_url: args.proxy_url.clone(),
        credential,
        protocol: args.protocol.clone(),
        device_name: args.device_name.clone(),
        token_ttl: None,
        endpoint,
        narrowing: Narrowing { permissions: None, protocols: None, gateways: None },
    }
}

/// How the server is reached.
pub enum Reach<'a> {
    /// By a capability for one listener.
    Capability { capability: &'a str, listener_id: &'a str },
    /// By a grant, with the peer where it is known.
    Grant { peer: Option<&'a str> },
}

/// How the server is reached. Being let in names the peer better than an
/// argument does.
pub fn reach<'a>(args: &'a Args, admitted_by: Option<&'a str>) -> (r: Result<Reach<'a>, RunError>)
    ensures
        match (args.capability, args.listener) {
            (Some(capability), Some(listener)) => r matches Ok(Reach::Capability { capability: c, listener_id: l }) && c@
                == capability@ && l@ == listener@,
            (Some(_), None) => r matches Err(RunError::CapabilityWithoutListener),
            (None, Some(_)) => r matches Err(RunError::ListenerWithoutCapability),
            (None, None) => r matches Ok(Reach::Grant { peer }) && (match (admitted_by, args.peer) {
                (Some(given), _) => peer == Some(given),
                (None, Some(named)) => peer is Some && peer->0@ == named@,
                (None, None) => peer is None,
            }),
        },
{
    match (&args.capability, &args.listener) {
        (Some(capability), Some(listener)) => Ok(
            Reach::Capability { capability: capability.as_str(), listener_id: listener.as_str() },
        ),
        (Some(_), None) => Err(RunError::CapabilityWithoutListener),
        (None, Some(_)) => Err(RunError::ListenerWithoutCapability),
        (None, None) => {
            let peer = match admitted_by {
                Some(given) => Some(given),
                None => match &args.peer {
                    Some(named) => Some(named.as_str()),
                    None => None,
                },
            };
            Ok(Reach::Grant { peer })
        },
    }
}

/// Why an Endpoint is retired.
#[derive(Clone, Copy, Debug, PartialEq, Eq, Structural)]
pub enum RevokeReason {
    /// The device is lost.
    DeviceLost,
    /// The Endpoint is not needed.
    EndpointDeleted,
    /// An administrator decided.
    AdminRevoke,
    /// Something happened.
    SecurityIncident,
}

/// What is wrong with a command about Enrollment Keys or Endpoints.
#[derive(Debug)]
pub enum AdminError {
    /// A revocation without a reason.
    NoReason,
    /// A reason that only Identity gives.
    IdentitysOwn(String),
    /// A reason that is not known.
    UnknownReason(String),
    /// Two answers about the binding.
    TwoBindings,
    /// No answer about the binding.
    NoBinding,
    /// An issuer without a subject.
    NoSubject,
    /// A subject without an issuer.
    NoIssuer,
}

impl AdminError {
    /// The error in words.
    pub open spec fn message_spec(self) -> Seq<char> {
        match self {
            AdminError::NoReason => {
                "--revoke-endpoint needs --reason: device_lost, endpoint_deleted, admin_revoke or security_incident. It goes in the audit log, so it is not guessed for you"@
            },
            AdminError::IdentitysOwn(reason) => "`"@ + reason@
                + "` is a reason Identity writes for itself -- the idle sweep, a job returning its slot, a key being revoked. A request cannot claim one"@,
            AdminError::UnknownReason(reason) => "unknown --reason `"@ + reason@
                + "`: device_lost, endpoint_deleted, admin_revoke or security_incident"@,
            AdminError::TwoBindings => "--binding-none and --binding-oidc are two answers; give one"@,
            AdminError::NoBinding => {
                "--issue-enrollment-key needs a binding: --binding-oidc with --binding-subject, or --binding-none to say the key alone is enough. Omitting it would make the shortest command the most dangerous one"@
            },
            AdminError::NoSubject => {
                "--binding-oidc needs --binding-subject: an issuer without a subject would let any workload that issuer knows about register"@
            },
            AdminError::NoIssuer => {
                "--binding-subject needs --binding-oidc, which says who vouches for that subject"@
            },
        }
    }

    /// The error in words.
    pub fn message(&self) -> (text: String)
        ensures
            text@ == self.message_spec(),
    {
        match self {
            AdminError::NoReason => {
                "--revoke-endpoint needs --reason: device_lost, endpoint_deleted, admin_revoke or security_incident. It goes in the audit log, so it is not guessed for you".to_owned()
            },
            AdminError::IdentitysOwn(reason) => {
                let mut text = "`".to_owned();
                text.push_str(reason.as_str());
                text.push_str(
                    "` is a reason Identity writes for itself -- the idle sweep, a job returning its slot, a key being revoked. A request cannot claim one",
                );
                text
            },
            AdminError::UnknownReason(reason) => {
                let mut text = "unknown --reason `".to_owned();
                text.push_str(reason.as_str());
                text.push_str("`: device_lost, endpoint_deleted, admin_revoke or security_incident");
                text
            },
            AdminError::TwoBindings => "--binding-none and --binding-oidc are two answers; give one".to_owned(),
            AdminError::NoBinding => {
                "--issue-enrollment-key needs a binding: --binding-oidc with --binding-subject, or --binding-none to say the key alone is enough. Omitting it would make the shortest command the most dangerous one".to_owned()
            },
            AdminError::NoSubject => {
                "--binding-oidc needs --binding-subject: an issuer without a subject would let any workload that issuer knows about register".to_owned()
            },
            AdminError::NoIssuer => {
                "--binding-subject needs --binding-oidc, which says who vouches for that subject".to_owned()
            },
        }
    }
}

/// The reason that the arguments name. It is not guessed, and the reasons that
/// Identity gives for itself cannot be claimed.
pub open spec fn reason_spec(reason: Option<String>) -> Result<RevokeReason, AdminError> {
    match reason {
        None => Err(AdminError::NoReason),
        Some(text) => if text@ == "device_lost"@ {
            Ok(RevokeReason::DeviceLost)
        } else if text@ == "endpoint_deleted"@ {
            Ok(RevokeReason::EndpointDeleted)
        } else if text@ == "admin_revoke"@ {
            Ok(RevokeReason::AdminRevoke)
        } else if text@ == "security_incident"@ {
            Ok(RevokeReason::SecurityIncident)
        } else if text@ == "enrollment_idle"@ || text@ == "enrollment_released"@ || text@ == "enrollment_key_revoked"@ {
            Err(AdminError::IdentitysOwn(text))
        } else {
            Err(AdminError::UnknownReason(text))
        },
    }
}

/// The reason that the arguments name.
pub fn revoke_reason(args: &Args) -> (r: Result<RevokeReason, AdminError>)
    ensures
        r == reason_spec(args.reason),
{
    match &args.reason {
        None => Err(AdminError::NoReason),
        Some(text) => {
            let reason = text.as_str();
            if same(reason, "device_lost") {
                Ok(RevokeReason::DeviceLost)
            } else if same(reason, "endpoint_deleted") {
                Ok(RevokeReason::EndpointDeleted)
            } else if same(reason, "admin_revoke") {
                Ok(RevokeReason::AdminRevoke)
            } else if same(reason, "security_incident") {
                Ok(RevokeReason::SecurityIncident)
            } else if same(reason, "enrollment_idle") || same(reason, "enrollment_released") || same(
                reason,
                "enrollment_key_revoked",
            ) {
                Err(AdminError::IdentitysOwn(text.clone()))
            } else {
                Err(AdminError::UnknownReason(text.clone()))
            }
        },
    }
}

/// What an Enrollment Key is bound to.
#[derive(Debug)]
pub enum Binding {
    /// A workload that this issuer vouches for.
    Oidc { issuer: String, subject: String },
    /// Nothing.
    Unbound,
}

/// An Enrollment Key to issue.
#[derive(Debug)]
pub struct NewEnrollmentKey {
    /// What it is bound to.
    pub binding: Binding,
    /// The permissions of its Endpoints.
    pub permissions: Vec<String>,
    /// The protocols of its Endpoints.
    pub protocols: Vec<String>,
    /// How long it is usable, in seconds.
    pub ttl: Option<i64>,
    /// How many of its Endpoints may be alive.
    pub max_live_endpoints: Option<i64>,
    /// How long one of them may be unused, in seconds.
    pub endpoint_idle_ttl: Option<i64>,
    /// What it is for.
    pub label: Option<String>,
}

/// What the arguments say about the binding. A contradiction is said before
/// half an answer.
pub open spec fn binding_spec(args: Args) -> Result<Binding, AdminError> {
    if args.binding_none && (args.binding_oidc is Some || args.binding_subject is Some) {
        Err(AdminError::TwoBindings)
    } else {
        match (args.binding_oidc, args.binding_subject) {
            (Some(issuer), Some(subject)) => Ok(Binding::Oidc { issuer, subject }),
            (Some(_), None) => Err(AdminError::NoSubject),
            (None, Some(_)) => Err(AdminError::NoIssuer),
            (None, None) => if args.binding_none {
                Ok(Binding::Unbound)
            } else {
                Err(AdminError::NoBinding)
            },
        }
    }
}

/// The request is the one that the arguments ask for.
pub open spec fn request_spec(args: Args, request: NewEnrollmentKey) -> bool {
    &&& binding_spec(args) == Ok::<Binding, AdminError>(request.binding)
    &&& if args.permissions@.len() == 0 {
        request.permissions@.len() == 1 && request.permissions@[0]@ == "peer-connect:initiate"@
    } else {
        request.permissions@ == args.permissions@
    }
    &&& if args.enrollment_protocols@.len() == 0 {
        request.protocols@ == seq![args.protocol]
    } else {
        request.protocols@ == args.enrollment_protocols@
    }
    &&& request.ttl == args.enrollment_ttl
    &&& request.max_live_endpoints == args.max_live_endpoints
    &&& request.endpoint_idle_ttl == args.endpoint_idle_ttl
    &&& request.label == args.enrollment_label
}

/// The Enrollment Key to issue. Its Endpoints may only connect, unless more
/// was asked for, and a key that is bound to nothing has to be asked for.
pub fn enrollment_request(args: &Args) -> (r: Result<NewEnrollmentKey, AdminError>)
    ensures
        match binding_spec(*args) {
            Err(error) => r == Err::<NewEnrollmentKey, AdminError>(error),
            Ok(_) => r matches Ok(request) && request_spec(*args, request),
        },
{
    if args.binding_none && (args.binding_oidc.is_some() || args.binding_subject.is_some()) {
        return Err(AdminError::TwoBindings);
    }
    let binding = match (&args.binding_oidc, &args.binding_subject) {
        (Some(issuer), Some(subject)) => Binding::Oidc { issuer: issuer.clone(), subject: subject.clone() },
        (Some(_), None) => {
            return Err(AdminError::NoSubject);
        },
        (None, Some(_)) => {
            return Err(AdminError::NoIssuer);
        },
        (None, None) => {
            if args.binding_none {
                Binding::Unbound
            } else {
                return Err(AdminError::NoBinding);
            }
        },
    };
    let mut permissions = copy_strings(&args.permissions);
    if permissions.len() == 0 {
        permissions.push("peer-connect:initiate".to_owned());
    }
    let mut protocols = copy_strings(&args.enrollment_protocols);
    if protocols.len() == 0 {
        protocols.push(args.protocol.clone());
        proof {
            assert(protocols@ =~= seq![args.protocol]);
        }
    }
    Ok(
        NewEnrollmentKey {
            binding,
            permissions,
            protocols,
            ttl: args.enrollment_ttl,
            max_live_endpoints: args.max_live_endpoints,
            endpoint_idle_ttl: args.endpoint_idle_ttl,
            label: args.enrollment_label.clone(),
        },
    )
}

/// Every key that is issued has a binding that was asked for: nothing bound to
/// nothing comes of leaving an argument out.
pub proof fn law_unbound_key_is_asked_for(args: Args)
    requires
        binding_spec(args) == Ok::<Binding, AdminError>(Binding::Unbound),
    ensures
        args.binding_none,
{
}

/// One command about Enrollment Keys or Endpoints.
#[derive(Debug)]
pub enum AdminCommand {
    /// Stop an Enrollment Key.
    RevokeEnrollmentKey(String),
    /// Issue one.
    IssueEnrollmentKey(NewEnrollmentKey),
    /// Retire an Endpoint.
    RevokeEndpoint { endpoint_id: String, reason: RevokeReason, note: Option<String> },
    /// List the Endpoints.
    ListEndpoints { status: Option<String> },
    /// List the Enrollment Keys.
    ListEnrollmentKeys,
    /// List what registered with a key.
    ListEnrollments(String),
}

/// How many of the commands are asked for.
pub open spec fn admin_count(args: Args) -> int {
    (if args.revoke_enrollment_key is Some {
        1int
    } else {
        0
    }) + (if args.issue_enrollment_key {
        1int
    } else {
        0
    }) + (if args.revoke_endpoint is Some {
        1int
    } else {
        0
    }) + (if args.endpoints {
        1int
    } else {
        0
    }) + (if args.enrollment_keys {
        1int
    } else {
        0
    }) + (if args.enrollment_key_enrollments is Some {
        1int
    } else {
        0
    })
}

/// The place of a command among the others.
pub open spec fn admin_rank(command: AdminCommand) -> int {
    match command {
        AdminCommand::RevokeEnrollmentKey(_) => 0,
        AdminCommand::IssueEnrollmentKey(_) => 1,
        AdminCommand::RevokeEndpoint { .. } => 2,
        AdminCommand::ListEndpoints { .. } => 3,
        AdminCommand::ListEnrollmentKeys => 4,
        AdminCommand::ListEnrollments(_) => 5,
    }
}

/// The command is one that the arguments ask for.
pub open spec fn admin_asked(args: Args, command: AdminCommand) -> bool {
    match command {
        AdminCommand::RevokeEnrollmentKey(id) => args.revoke_enrollment_key == Some(id),
        AdminCommand::IssueEnrollmentKey(request) => args.issue_enrollment_key && request_spec(args, request),
        AdminCommand::RevokeEndpoint { endpoint_id, reason, note } => args.revoke_endpoint == Some(endpoint_id)
            && reason_spec(args.reason) == Ok::<RevokeReason, AdminError>(reason) && note == args.note,
        AdminCommand::ListEndpoints { status } => args.endpoints && status == args.endpoint_status,
        AdminCommand::ListEnrollmentKeys => args.enrollment_keys,
        AdminCommand::ListEnrollments(id) => args.enrollment_key_enrollments == Some(id),
    }
}

/// What is wrong with the commands, before anybody signs in for them.
pub open spec fn admin_refusal(args: Args) -> Option<AdminError> {
    if args.issue_enrollment_key && binding_spec(args) is Err {
        Some(binding_spec(args)->Err_0)
    } else if args.revoke_endpoint is Some && reason_spec(args.reason) is Err {
        Some(reason_spec(args.reason)->Err_0)
    } else {
        None
    }
}

/// The commands about Enrollment Keys and Endpoints, in the order in which
/// they are carried out.
pub fn enrollment_admin(args: &Args) -> (r: Result<Vec<AdminCommand>, AdminError>)
    ensures
        match admin_refusal(*args) {
            Some(error) => r == Err::<Vec<AdminCommand>, AdminError>(error),
            None => r matches Ok(commands) && {
                &&& commands@.len() == admin_count(*args)
                &&& forall|i: int| 0 <= i < commands@.len() ==> admin_asked(*args, #[trigger] commands@[i])
                &&& forall|i: int, j: int|
                    0 <= i < j < commands@.len() ==> admin_rank(#[trigger] commands@[i]) < admin_rank(
                        #[trigger] commands@[j],
                    )
                &&& args.revoke_enrollment_key matches Some(id) ==> commands@.contains(
                    AdminCommand::RevokeEnrollmentKey(id),
                )
                &&& args.issue_enrollment_key ==> exists|i: int|
                    0 <= i < commands@.len() && (#[trigger] commands@[i]) is IssueEnrollmentKey
                &&& args.revoke_endpoint is Some ==> exists|i: int|
                    0 <= i < commands@.len() && (#[trigger] commands@[i]) is RevokeEndpoint
                &&& args.endpoints ==> commands@.contains(AdminCommand::ListEndpoints { status: args.endpoint_status })
                &&& args.enrollment_keys ==> commands@.contains(AdminCommand::ListEnrollmentKeys)
                &&& args.enrollment_key_enrollments matches Some(id) ==> commands@.contains(
                    AdminCommand::ListEnrollments(id),
                )
            },
        },
{
    let request = if args.issue_enrollment_key {
        match enrollment_request(args) {
            Ok(request) => Some(request),
            Err(error) => {
                return Err(error);
            },
        }
    } else {
        None
    };
    let reason = if args.revoke_endpoint.is_some() {
        match revoke_reason(args) {
            Ok(reason) => Some(reason),
            Err(error) => {
                return Err(error);
            },
        }
    } else {
        None
    };
    let mut commands: Vec<AdminCommand> = Vec::new();
    if let Some(id) = &args.revoke_enrollment_key {
        commands.push(AdminCommand::RevokeEnrollmentKey(id.clone()));
    }
    let ghost first = commands@.len() as int;
    if let Some(request) = request {
        commands.push(AdminCommand::IssueEnrollmentKey(request));
    }
    let ghost second = commands@.len() as int;
    if let (Some(id), Some(reason)) = (&args.revoke_endpoint, reason) {
        commands.push(
            AdminCommand::RevokeEndpoint { endpoint_id: id.clone(), reason, note: args.note.clone() },
        );
    }
    let ghost third = commands@.len() as int;
    if args.endpoints {
        commands.push(AdminCommand::ListEndpoints { status: args.endpoint_status.clone() });
    }
    let ghost fourth = commands@.len() as int;
    if args.enrollment_keys {
        commands.push(AdminCommand::ListEnrollmentKeys);
    }
    if let Some(id) = &args.enrollment_key_enrollments {
        commands.push(AdminCommand::ListEnrollments(id.clone()));
    }
    proof {
        if args.revoke_enrollment_key is Some {
            assert(commands@[0] == AdminCommand::RevokeEnrollmentKey(args.revoke_enrollment_key->0));
        }
        if args.issue_enrollment_key {
            assert(commands@[first] is IssueEnrollmentKey);
        }
        if args.revoke_endpoint is Some {
            assert(commands@[second] is RevokeEndpoint);
        }
        if args.endpoints {
            assert(commands@[third] == AdminCommand::ListEndpoints { status: args.endpoint_status });
        }
        if args.enrollment_keys {
            assert(commands@[fourth] == AdminCommand::ListEnrollmentKeys);
        }
        if args.enrollment_key_enrollments is Some {
            assert(commands@[commands@.len() - 1] == AdminCommand::ListEnrollments(args.enrollment_key_enrollments->0));
        }
    }
    Ok(commands)
}

/// What a run begins with, by its arguments alone: signing in comes before
/// everything; then a reason or note needs a revocation, and a status a listing
/// and one of three words; then the commands about keys and Endpoints come
/// before this Endpoint's own key.
pub proof fn law_run_begins_by_its_arguments(args: Args)
    ensures
        first_step_spec(args) == Ok::<FirstStep, RunError>(FirstStep::Login) <==> args.login,
        first_step_spec(args) == Err::<FirstStep, RunError>(RunError::ReasonWithoutRevocation) <==> !args.login && (args.reason is Some
            || args.note is Some) && args.revoke_endpoint is None,
        first_step_spec(args) == Err::<FirstStep, RunError>(RunError::StatusWithoutListing) ==> args.endpoint_status is Some
            && !args.endpoints,
        first_step_spec(args) matches Err(RunError::UnknownStatus(shown)) ==> args.endpoint_status == Some(shown) && shown@
            != "active"@ && shown@ != "revoked"@ && shown@ != "all"@,
        first_step_spec(args) is Ok && !args.login && args.endpoint_status is Some ==> args.endpoints && (args.endpoint_status->0@
            == "active"@ || args.endpoint_status->0@ == "revoked"@ || args.endpoint_status->0@ == "all"@),
        first_step_spec(args) is Ok && !args.login ==> (first_step_spec(args) == Ok::<FirstStep, RunError>(FirstStep::Admin) <==> (
        args.issue_enrollment_key || args.enrollment_keys || args.enrollment_key_enrollments is Some
            || args.revoke_enrollment_key is Some || args.endpoints || args.revoke_endpoint is Some)),
        args.reason is None && args.note is None && args.endpoint_status is None ==> first_step_spec(args) is Ok,
{
}

/// A ticket is refused exactly where the string is none, or where it names a
/// proxy and not the one that is configured; what is said names the two.
pub proof fn law_ticket_is_for_the_configured_proxy(transfer: Option<TicketTransfer>, configured: String)
    ensures
        ticket_refusal(transfer, configured) == Some(RunError::NotATicket) <==> transfer is None,
        transfer matches Some(given) ==> {
            &&& given.proxy@.len() == 0 ==> ticket_refusal(transfer, configured) is None
            &&& given.proxy@ == configured@ ==> ticket_refusal(transfer, configured) is None
            &&& given.proxy@.len() > 0 && given.proxy@.len() != configured@.len() ==> ticket_refusal(transfer, configured)
                == Some(RunError::OtherProxy { ticket: given.proxy, configured })
            &&& given.proxy@.len() > 0 ==> (ticket_refusal(transfer, configured) is None <==> same_but_case(
                given.proxy@,
                configured@,
            ))
        },
{
}

/// The ways in that are asked for.
pub open spec fn ways_in(args: Args, findings: Findings) -> int {
    (if args.pair is Some {
        1int
    } else {
        0
    }) + (if args.redeem is Some {
        1int
    } else {
        0
    }) + (if findings.provisioning matches Ok(Some(_)) {
        1int
    } else {
        0
    })
}

/// A run is not refused exactly where everything that was found out is in
/// order: at most one way in, with no peer named beside it, a code that is no
/// secret, and a ticket that is one and for this proxy.
pub proof fn law_run_is_refused_only_for_a_reason(args: Args, findings: Findings)
    ensures
        refusal(args, findings) is None <==> {
            &&& ways_in(args, findings) <= 1
            &&& findings.unattended is Ok
            &&& args.enroll ==> findings.enrollment_key is Ok
            &&& findings.provisioning is Ok
            &&& args.peer is Some ==> ways_in(args, findings) == 0
            &&& args.pair is Some ==> findings.secret is None
            &&& args.redeem is Some ==> (findings.transfer matches Some(given) && (given.proxy@.len() == 0 || same_but_case(
                given.proxy@,
                findings.configured@,
            )))
        },
        refusal(args, findings) == Some(RunError::PairAndRedeem) <==> args.pair is Some && args.redeem is Some,
        refusal(args, findings) matches Some(RunError::SecretAsCode { kind, redacted }) ==> findings.secret == Some((kind, redacted))
            && args.pair is Some,
        refusal(args, findings) matches Some(RunError::PeerNotNeeded) ==> args.peer is Some && ways_in(args, findings) == 1,
        refusal(args, findings) matches Some(RunError::ProvisioningAndOther) ==> ways_in(args, findings) == 2,
        refusal(args, findings) matches Some(RunError::Unattended(why)) ==> findings.unattended == Err::<(), String>(why)
            || (args.enroll && findings.enrollment_key == Err::<(), String>(why)) || findings.provisioning == Err::<
            Option<String>,
            String,
        >(why),
{
}

/// A run that is not refused is let in by what was asked for, and by nothing
/// where nothing was.
pub proof fn law_let_in_by_what_was_asked_for(args: Args, findings: Findings)
    requires
        refusal(args, findings) is None,
    ensures
        match way_in_spec(args, findings) {
            WayIn::Pair(code) => args.pair matches Some(given) && code@ == given@,
            WayIn::Ticket(transfer) => args.redeem is Some && findings.transfer == Some(transfer),
            WayIn::Provisioning(key) => findings.provisioning == Ok::<Option<String>, String>(Some(key)),
            WayIn::Standing => ways_in(args, findings) == 0,
        },
        ways_in(args, findings) == 0 <==> way_in_spec(args, findings) == WayIn::Standing,
        args.pair is Some <==> way_in_spec(args, findings) is Pair,
        args.redeem is Some <==> way_in_spec(args, findings) is Ticket,
{
}

/// A reason is one of four words, and each of them is its own reason; three
/// more are known and cannot be claimed, and every other is not known.
pub proof fn law_reason_is_the_word_that_was_given(text: String)
    ensures
        reason_spec(None) == Err::<RevokeReason, AdminError>(AdminError::NoReason),
        reason_spec(Some(text)) == Ok::<RevokeReason, AdminError>(RevokeReason::DeviceLost) <==> text@ == "device_lost"@,
        reason_spec(Some(text)) == Ok::<RevokeReason, AdminError>(RevokeReason::EndpointDeleted) <==> text@ == "endpoint_deleted"@,
        reason_spec(Some(text)) == Ok::<RevokeReason, AdminError>(RevokeReason::AdminRevoke) <==> text@ == "admin_revoke"@,
        reason_spec(Some(text)) == Ok::<RevokeReason, AdminError>(RevokeReason::SecurityIncident) <==> text@
            == "security_incident"@,
        reason_spec(Some(text)) == Err::<RevokeReason, AdminError>(AdminError::IdentitysOwn(text)) <==> text@ == "enrollment_idle"@
            || text@ == "enrollment_released"@ || text@ == "enrollment_key_revoked"@,
        reason_spec(Some(text)) != Err::<RevokeReason, AdminError>(AdminError::NoReason),
        reason_spec(Some(text)) matches Err(AdminError::UnknownReason(shown)) ==> shown == text,
{
    reveal_strlit("device_lost");
    reveal_strlit("endpoint_deleted");
    reveal_strlit("admin_revoke");
    reveal_strlit("security_incident");
    reveal_strlit("enrollment_idle");
    reveal_strlit("enrollment_released");
    reveal_strlit("enrollment_key_revoked");
    assert("device_lost"@.len() == 11 && "endpoint_deleted"@.len() == 16 && "admin_revoke"@.len() == 12);
    assert("security_incident"@.len() == 17 && "enrollment_idle"@.len() == 15 && "enrollment_released"@.len() == 19);
    assert("enrollment_key_revoked"@.len() == 22);
}

/// A key is bound to the issuer and subject that were given, both or neither;
/// to nothing exactly where that was said and neither was given.
pub proof fn law_key_is_bound_as_asked(args: Args)
    ensures
        binding_spec(args) matches Ok(Binding::Oidc { issuer, subject }) ==> args.binding_oidc == Some(issuer) && args.binding_subject
            == Some(subject) && !args.binding_none,
        binding_spec(args) is Ok <==> (args.binding_oidc is Some <==> args.binding_subject is Some) && (args.binding_none
            <==> args.binding_oidc is None),
        binding_spec(args) == Ok::<Binding, AdminError>(Binding::Unbound) <==> args.binding_none && args.binding_oidc is None
            && args.binding_subject is None,
        binding_spec(args) == Err::<Binding, AdminError>(AdminError::TwoBindings) <==> args.binding_none && (args.binding_oidc is Some
            || args.binding_subject is Some),
        binding_spec(args) == Err::<Binding, AdminError>(AdminError::NoBinding) <==> !args.binding_none && args.binding_oidc is None
            && args.binding_subject is None,
        binding_spec(args) == Err::<Binding, AdminError>(AdminError::NoSubject) <==> !args.binding_none && args.binding_oidc is Some
            && args.binding_subject is None,
{
}

/// A key that is issued is the one that was asked for, field by field; its
/// Endpoints may only connect, and speak only this run's protocol, unless
/// something else was said.
pub proof fn law_key_is_issued_as_asked(args: Args, request: NewEnrollmentKey)
    requires
        request_spec(args, request),
    ensures
        args.permissions@.len() > 0 ==> request.permissions@ == args.permissions@,
        args.permissions@.len() == 0 ==> request.permissions@.len() == 1 && request.permissions@[0]@ == "peer-connect:initiate"@,
        args.enrollment_protocols@.len() > 0 ==> request.protocols@ == args.enrollment_protocols@,
        args.enrollment_protocols@.len() == 0 ==> request.protocols@.len() == 1 && request.protocols@[0]@ == args.protocol@,
        request.permissions@.len() > 0 && request.protocols@.len() > 0,
        request.ttl == args.enrollment_ttl,
        request.max_live_endpoints == args.max_live_endpoints,
        request.endpoint_idle_ttl == args.endpoint_idle_ttl,
        request.label == args.enrollment_label,
        binding_spec(args) is Ok,
        request.binding is Unbound <==> args.binding_none,
        request.binding matches Binding::Oidc { issuer, subject } ==> args.binding_oidc == Some(issuer) && args.binding_subject
            == Some(subject),
{
}

/// Stopping a key or an Endpoint comes before anything is listed, so that a
/// listing shows what was done; and only what was asked for is done, to what
/// was named.
pub proof fn law_only_what_was_asked_for_is_done(args: Args, command: AdminCommand, other: AdminCommand)
    requires
        admin_asked(args, command),
    ensures
        match command {
            AdminCommand::RevokeEnrollmentKey(id) => args.revoke_enrollment_key matches Some(named) && id@ == named@,
            AdminCommand::IssueEnrollmentKey(_) => args.issue_enrollment_key,
            AdminCommand::RevokeEndpoint { endpoint_id, note, .. } => (args.revoke_endpoint matches Some(named) && endpoint_id@ == named@)
                && args.reason is Some && note == args.note,
            AdminCommand::ListEndpoints { status } => args.endpoints && status == args.endpoint_status,
            AdminCommand::ListEnrollmentKeys => args.enrollment_keys,
            AdminCommand::ListEnrollments(id) => args.enrollment_key_enrollments matches Some(named) && id@ == named@,
        },
        (command is RevokeEnrollmentKey || command is IssueEnrollmentKey || command is RevokeEndpoint) && (other is ListEndpoints
            || other is ListEnrollmentKeys || other is ListEnrollments) ==> admin_rank(command) < admin_rank(other),
        command is RevokeEnrollmentKey && other is IssueEnrollmentKey ==> admin_rank(command) < admin_rank(other),
        command is IssueEnrollmentKey && other is RevokeEndpoint ==> admin_rank(command) < admin_rank(other),
        command is ListEndpoints && (other is ListEnrollmentKeys || other is ListEnrollments) ==> admin_rank(command)
            < admin_rank(other),
        command is ListEnrollmentKeys && other is ListEnrollments ==> admin_rank(command) < admin_rank(other),
{
}

/// No command is asked for twice: there are as many as there are arguments that
/// ask for one, and none exactly where none does.
pub proof fn law_each_argument_asks_for_one_command(args: Args)
    ensures
        0 <= admin_count(args) <= 6,
        admin_count(args) == 0 <==> !args.issue_enrollment_key && !args.enrollment_keys && !args.endpoints
            && args.enrollment_key_enrollments is None && args.revoke_enrollment_key is None && args.revoke_endpoint is None,
        admin_count(args) == 6 <==> args.issue_enrollment_key && args.enrollment_keys && args.endpoints
            && args.enrollment_key_enrollments is Some && args.revoke_enrollment_key is Some && args.revoke_endpoint is Some,
{
}

/// A refusal is put so that what was given and what it is held against are told
/// apart: the ticket's proxy before the configured one, a port before the map
/// it stands in, and what a secret is before how it may be shown.
pub proof fn law_refusal_names_what_was_given(a: String, b: String, kind: SecretKind)
    ensures
        "this ticket is for "@.len() + a@.len() <= (RunError::OtherProxy { ticket: a, configured: b }).message_spec().len(),
        (RunError::OtherProxy { ticket: a, configured: b }).message_spec().subrange(
            "this ticket is for "@.len() as int,
            ("this ticket is for "@.len() + a@.len()) as int,
        ) == a@,
        (RunError::OtherProxy { ticket: a, configured: b }).message_spec().subrange(
            ("this ticket is for "@.len() + a@.len() + ", but --proxy-url is "@.len()) as int,
            ("this ticket is for "@.len() + a@.len() + ", but --proxy-url is "@.len() + b@.len()) as int,
        ) == b@,
        RunError::BadMap(MapError::Port { port: a, map: b }).message_spec() == "`"@ + a@ + "` is not a port, in --map `"@ + b@ + "`"@,
        kind == SecretKind::Ticket || kind == SecretKind::TicketTransfer ==> (RunError::SecretAsCode {
            kind,
            redacted: a,
        }).message_spec() == "that is "@ + what_it_is_spec(kind) + ", not a pairing code"@ + " -- redeem it with --redeem."@
            + "\nNothing was sent. ("@ + a@ + ")"@,
        kind != SecretKind::Ticket && kind != SecretKind::TicketTransfer ==> (RunError::SecretAsCode {
            kind,
            redacted: a,
        }).message_spec() == "that is "@ + what_it_is_spec(kind) + ", not a pairing code"@ + "."@ + "\nNothing was sent. ("@ + a@
            + ")"@,
{
    let text = (RunError::OtherProxy { ticket: a, configured: b }).message_spec();
    let x = "this ticket is for "@.len() as int;
    let y = x + a@.len() + ", but --proxy-url is "@.len();
    assert(text.subrange(x, x + a@.len()) =~= a@);
    assert(text.subrange(y, y + b@.len()) =~= b@);
}

/// Commands are refused exactly where a key is to be issued without a binding
/// that was asked for, or an Endpoint to be retired without a reason that may
/// be given; the first is said before the second.
pub proof fn law_commands_are_refused_for_a_reason(args: Args)
    ensures
        admin_refusal(args) is None <==> (args.issue_enrollment_key ==> binding_spec(args) is Ok) && (args.revoke_endpoint is Some
            ==> reason_spec(args.reason) is Ok),
        admin_refusal(args) matches Some(error) ==> (args.issue_enrollment_key && binding_spec(args) == Err::<Binding, AdminError>(
            error,
        )) || (args.revoke_endpoint is Some && reason_spec(args.reason) == Err::<RevokeReason, AdminError>(error)),
        args.issue_enrollment_key && binding_spec(args) is Err ==> admin_refusal(args) == Some(binding_spec(args)->Err_0),
        !args.issue_enrollment_key && args.revoke_endpoint is None ==> admin_refusal(args) is None,
{
}

/// A map is bound at the port that it names, on the address that was given, and
/// is for the service that follows it, however many colons that has.
pub proof fn law_map_is_bound_where_it_says(port: u16, service: Seq<char>, bind: IpAddr, mapping: Mapping)
    ensures
        mapped(map_text(Protocol::Udp, port, service), bind, mapping) <==> mapping.protocol == Protocol::Udp && mapping.service@
            == service && mapping.local == bind.with_port_spec(port),
        mapped(map_text(Protocol::Tcp, port, service), bind, mapping) <==> mapped(plain_map_text(port, service), bind, mapping),
        mapped(plain_map_text(port, service), bind, mapping) <==> mapping.protocol == Protocol::Tcp && mapping.service@ == service
            && mapping.local == bind.with_port_spec(port),
{
    law_map_says_what_was_written(Protocol::Udp, port, service);
    law_map_says_what_was_written(Protocol::Tcp, port, service);
}

/// A map without a colon is none, and one whose port is not a number is refused
/// with that port, for both protocols.
pub proof fn law_map_is_refused_by_its_part(text: Seq<char>, port: Seq<char>, service: Seq<char>)
    requires
        free_of(text, ':'),
        free_of(port, ':'),
        parse_u16_spec(port) is None,
        port != "tcp"@,
        port != "udp"@,
    ensures
        map_spec(text) == Err::<(Protocol, u16, Seq<char>), Option<Seq<char>>>(None),
        map_spec(port + seq![':'] + service) == Err::<(Protocol, u16, Seq<char>), Option<Seq<char>>>(Some(port)),
        map_spec("udp"@ + seq![':'] + (port + seq![':'] + service)) == Err::<(Protocol, u16, Seq<char>), Option<Seq<char>>>(
            Some(port),
        ),
{
    law_cut_at_the_first(text, ':', service);
    law_cut_at_the_first(port, ':', service);
    reveal_strlit("udp");
    law_cut_at_the_first("udp"@, ':', port + seq![':'] + service);
    reveal_strlit("tcp");
    assert("udp"@[0] != "tcp"@[0]);
}

/// What a secret is, is said so that the kinds that are handled differently are
/// told apart; a ticket is one in either form.
pub proof fn law_secrets_are_told_apart()
    ensures
        what_it_is_spec(SecretKind::Ticket) == what_it_is_spec(SecretKind::TicketTransfer),
        what_it_is_spec(SecretKind::Ticket) != what_it_is_spec(SecretKind::ProvisioningKey),
        what_it_is_spec(SecretKind::Ticket) != what_it_is_spec(SecretKind::EnrollmentKey),
        what_it_is_spec(SecretKind::ProvisioningKey) != what_it_is_spec(SecretKind::EnrollmentKey),
{
    reveal_strlit("a ticket");
    reveal_strlit("a Provisioning Key");
    reveal_strlit("an Enrollment Key");
    assert("a ticket"@.len() == 8 && "a Provisioning Key"@.len() == 18 && "an Enrollment Key"@.len() == 17);
}

} // verus!

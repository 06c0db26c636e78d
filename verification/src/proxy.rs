//! What the proxy's control plane says, as plain values.

use crate::text::same;
use vstd::prelude::*;

verus! {

/// A failed call to the proxy.
#[derive(Debug)]
pub enum ProxyError {
    /// The proxy answered with an error.
    Problem {
        /// The HTTP status.
        status: u16,
        /// The kind of problem, where the answer named one.
        kind: Option<String>,
    },
    /// The proxy could not be reached.
    Transport(String),
}

impl ProxyError {
    /// The kind of problem that the proxy named.
    pub open spec fn kind_spec(self) -> Option<Seq<char>> {
        match self {
            ProxyError::Problem { kind: Some(kind), .. } => Some(kind@),
            _ => None,
        }
    }

    /// Whether the proxy named this kind of problem.
    pub fn is(&self, wanted: &str) -> (r: bool)
        ensures
            r == (self.kind_spec() == Some(wanted@)),
    {
        match self {
            ProxyError::Problem { status: _, kind: Some(kind) } => same(kind.as_str(), wanted),
            _ => false,
        }
    }
}

/// A ticket that authorizes a relay leg for a while.
#[derive(Debug)]
pub struct RelayTicket {
    /// The ticket itself.
    pub ticket: String,
    /// Until when the ticket can be spent.
    pub expires_at: String,
    /// Until when the leg lives once it is spent.
    pub lease_expires_at: String,
}

/// Where a relay edge was allocated.
#[derive(Debug)]
pub struct RelayInfo {
    /// The URI to open it at.
    pub masque_uri: String,
}

/// A peer's signed statement about its key.
#[derive(Debug)]
pub struct Attestation {
    /// The public key.
    pub jwk: String,
    /// Until when the statement holds.
    pub expires_at: String,
    /// The signature.
    pub signature: String,
}

/// How a candidate address was found.
#[derive(Clone, Copy, Debug, PartialEq, Eq, Structural)]
pub enum CandidateType {
    /// An address of this machine.
    Host,
    /// An address that a server saw.
    ServerReflexive,
    /// An address at a relay.
    Relay,
}

/// An address at which a peer may be reached.
#[derive(Debug)]
pub struct Candidate {
    /// How it was found.
    pub candidate_type: CandidateType,
    /// The address.
    pub address: String,
    /// The port.
    pub port: u16,
}

/// A connection between two Endpoints, as the proxy records it.
#[derive(Debug)]
pub struct PeerConnection {
    /// Its id.
    pub connection_id: String,
    /// The Endpoint that asked for it.
    pub initiator_endpoint: Option<String>,
    /// The Endpoint that was asked.
    pub target_endpoint: Option<String>,
    /// The other party, where the answer was made for one of the two.
    pub peer_endpoint: Option<String>,
    /// The relay edge, where one was allocated.
    pub relay: Option<RelayInfo>,
    /// When the record lapses.
    pub expires_at: Option<String>,
    /// When the record was last renewed.
    pub updated_at: Option<String>,
    /// The host to dial.
    pub video_host: Option<String>,
    /// The peer's statement about its key.
    pub video_attestation: Option<Attestation>,
}

/// The party of a pair that is not `own`: the initiator, else the target.
pub open spec fn other_party_spec(
    initiator: Option<String>,
    target: Option<String>,
    own: Seq<char>,
) -> Option<Seq<char>> {
    match initiator {
        Some(endpoint) if endpoint@ != own => Some(endpoint@),
        _ => match target {
            Some(endpoint) if endpoint@ != own => Some(endpoint@),
            _ => None,
        },
    }
}

impl PeerConnection {
    /// The Endpoint at the other end from `own`.
    pub fn other_party(&self, own: &str) -> (r: Option<&str>)
        ensures
            match (r, other_party_spec(self.initiator_endpoint, self.target_endpoint, own@)) {
                (Some(got), Some(want)) => got@ == want,
                (None, None) => true,
                _ => false,
            },
    {
        if let Some(endpoint) = &self.initiator_endpoint {
            if !same(endpoint.as_str(), own) {
                return Some(endpoint.as_str());
            }
        }
        if let Some(endpoint) = &self.target_endpoint {
            if !same(endpoint.as_str(), own) {
                return Some(endpoint.as_str());
            }
        }
        None
    }
}

/// Of the two ends of a connection the other party is the one that is not
/// one's own, whichever of the two asked; it is never oneself, and it is known
/// as soon as one end is somebody else.
pub proof fn law_other_party_is_not_oneself(initiator: Option<String>, target: Option<String>, own: Seq<char>)
    ensures
        match other_party_spec(initiator, target, own) {
            Some(name) => name != own && ((initiator matches Some(a) && a@ == name) || (target matches Some(b) && b@ == name)),
            None => (initiator matches Some(a) ==> a@ == own) && (target matches Some(b) ==> b@ == own),
        },
        initiator matches Some(a) ==> (target matches Some(b) ==> {
            &&& a@ == own && b@ != own ==> other_party_spec(initiator, target, own) == Some(b@)
            &&& a@ != own ==> other_party_spec(initiator, target, own) == Some(a@)
        }),
{
}

/// The proxy named this kind of problem.
pub open spec fn names_kind(error: ProxyError, kind: Seq<char>) -> bool {
    error matches ProxyError::Problem { kind: Some(given), .. } && given@ == kind
}

} // verus!

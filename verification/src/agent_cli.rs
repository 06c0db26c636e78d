//! Arguments of the command-line agent.

use crate::auth::Credential;
use crate::codec::{quoted, quoted_text};
use crate::config::{Narrowing, P2pConfig};
use crate::proxy::{Candidate, CandidateType};
use crate::text::{
    decimal_spec, free_of, law_cut_at_the_first, law_decimal_reads_back, lemma_position, parse_u16, parse_u16_spec, same, split_once,
    split_once_spec,
};
use vstd::prelude::*;

verus! {

/// Why an argument is not a candidate.
#[derive(Debug)]
pub enum CandidateError {
    /// This argument does not have three parts.
    Shape(String),
    /// This type is not known.
    UnknownType(String),
    /// The port of this argument is not one.
    Port(String),
}

impl CandidateError {
    /// The error in words.
    pub open spec fn message_spec(self) -> Seq<char> {
        match self {
            CandidateError::Shape(spec) => "candidate must be `type,address,port`: "@ + quoted_text(spec@),
            CandidateError::UnknownType(other) => "unknown candidate type "@ + quoted_text(other@),
            CandidateError::Port(spec) => "invalid port in "@ + quoted_text(spec@),
        }
    }

    /// The error in words.
    pub fn message(&self) -> (text: String)
        ensures
            text@ == self.message_spec(),
    {
        let (said, about) = match self {
            CandidateError::Shape(spec) => ("candidate must be `type,address,port`: ", spec),
            CandidateError::UnknownType(other) => ("unknown candidate type ", other),
            CandidateError::Port(spec) => ("invalid port in ", spec),
        };
        let mut text = said.to_owned();
        text.push_str(quoted(about.as_str()).as_str());
        text
    }
}

/// The type that a name stands for.
pub open spec fn candidate_type(name: Seq<char>) -> Option<CandidateType> {
    if name == "host"@ {
        Some(CandidateType::Host)
    } else if name == "srflx"@ {
        Some(CandidateType::ServerReflexive)
    } else if name == "relay"@ {
        Some(CandidateType::Relay)
    } else {
        None
    }
}

/// The three parts of an argument; the last takes what is left.
pub open spec fn three_parts(spec: Seq<char>) -> Option<(Seq<char>, Seq<char>, Seq<char>)> {
    match split_once_spec(spec, ',') {
        None => None,
        Some((kind, rest)) => match split_once_spec(rest, ',') {
            None => None,
            Some((address, port)) => Some((kind, address, port)),
        },
    }
}

/// Whether an argument is a candidate.
pub open spec fn is_candidate(spec: Seq<char>) -> bool {
    match three_parts(spec) {
        None => false,
        Some((kind, _, port)) => candidate_type(kind) is Some && parse_u16_spec(port) is Some,
    }
}

/// The candidate that an argument stands for.
pub open spec fn reads_as(spec: Seq<char>, c: Candidate) -> bool {
    match three_parts(spec) {
        None => false,
        Some((kind, address, port)) => candidate_type(kind) == Some(c.candidate_type) && c.address@ == address
            && parse_u16_spec(port) == Some(c.port),
    }
}

/// Why an argument is not a candidate: its parts are looked at first, then its
/// type, then its port.
pub open spec fn refused_as(spec: Seq<char>, error: CandidateError) -> bool {
    match three_parts(spec) {
        None => error matches CandidateError::Shape(shown) && shown@ == spec,
        Some((kind, _, port)) => if candidate_type(kind) is None {
            error matches CandidateError::UnknownType(shown) && shown@ == kind
        } else {
            parse_u16_spec(port) is None && (error matches CandidateError::Port(shown) && shown@ == spec)
        },
    }
}

/// Read an argument `type,address,port`.
pub fn parse_candidate(spec: &str) -> (r: Result<Candidate, CandidateError>)
    ensures
        r is Ok <==> is_candidate(spec@),
        match r {
            Ok(c) => reads_as(spec@, c),
            Err(error) => refused_as(spec@, error),
        },
{
    let (kind, rest) = match split_once(spec, ',') {
        Some(parts) => parts,
        None => {
            return Err(CandidateError::Shape(spec.to_owned()));
        },
    };
    let (address, port) = match split_once(rest.as_str(), ',') {
        Some(parts) => parts,
        None => {
            return Err(CandidateError::Shape(spec.to_owned()));
        },
    };
    let known = if same(kind.as_str(), "host") {
        CandidateType::Host
    } else if same(kind.as_str(), "srflx") {
        CandidateType::ServerReflexive
    } else if same(kind.as_str(), "relay") {
        CandidateType::Relay
    } else {
        return Err(CandidateError::UnknownType(kind));
    };
    match parse_u16(port.as_str()) {
        Some(number) => Ok(Candidate { candidate_type: known, address, port: number }),
        None => Err(CandidateError::Port(spec.to_owned())),
    }
}

/// The argument at `i` is not a candidate, and every one before it is.
pub open spec fn first_refused(specs: Seq<String>, i: int) -> bool {
    &&& 0 <= i < specs.len()
    &&& !is_candidate(specs[i]@)
    &&& forall|k: int| 0 <= k < i ==> is_candidate(#[trigger] specs[k]@)
}

/// Read arguments `type,address,port`; the first that is not one is refused.
pub fn parse_candidates(specs: &Vec<String>) -> (r: Result<Vec<Candidate>, CandidateError>)
    ensures
        r is Ok <==> forall|i: int| 0 <= i < specs@.len() ==> is_candidate(#[trigger] specs@[i]@),
        match r {
            Ok(list) => list@.len() == specs@.len() && forall|i: int|
                0 <= i < specs@.len() ==> reads_as(specs@[i]@, #[trigger] list@[i]),
            Err(error) => exists|i: int| #[trigger]
                first_refused(specs@, i) && refused_as(specs@[i]@, error),
        },
{
    let mut list: Vec<Candidate> = Vec::new();
    let mut i: usize = 0;
    while i < specs.len()
        invariant
            i <= specs@.len(),
            list@.len() == i,
            forall|k: int| 0 <= k < i ==> reads_as(specs@[k]@, #[trigger] list@[k]),
            forall|k: int| 0 <= k < i ==> is_candidate(#[trigger] specs@[k]@),
        decreases specs@.len() - i,
    {
        match parse_candidate(specs[i].as_str()) {
            Ok(candidate) => list.push(candidate),
            Err(error) => {
                proof {
                    assert(first_refused(specs@, i as int));
                }
                return Err(error);
            },
        }
        i = i + 1;
    }
    Ok(list)
}

/// What a connect command does.
pub enum ConnectPlan<'a> {
    /// Ask the proxy for the connection and print it.
    Ask,
    /// Ask for it and run a relay leg from this local address.
    Relay { local: &'a str },
}

/// What a connect command does: without a relay it asks and is done; with one
/// it binds where it was told, else anywhere on the loopback.
pub fn connect_plan<'a>(relay: bool, relay_local_addr: Option<&'a str>) -> (plan: ConnectPlan<'a>)
    ensures
        match plan {
            ConnectPlan::Ask => !relay,
            ConnectPlan::Relay { local } => relay && local@ == (match relay_local_addr {
                Some(given) => given@,
                None => "127.0.0.1:0"@,
            }),
        },
{
    if !relay {
        return ConnectPlan::Ask;
    }
    match relay_local_addr {
        Some(given) => ConnectPlan::Relay { local: given },
        None => ConnectPlan::Relay { local: "127.0.0.1:0" },
    }
}

/// The configuration of a token command, which never reaches the proxy.
pub fn token_config(
    identity_url: String,
    identity_http3: bool,
    auth0_token: &str,
    register: bool,
    device_name: Option<String>,
    ttl: Option<i64>,
    endpoint: String,
) -> (cfg: P2pConfig)
    ensures
        cfg.identity_url == identity_url,
        cfg.identity_http3 == identity_http3,
        cfg.proxy_url@ == ""@,
        cfg.credential matches Credential::Auth0 { token, source, register: r } && token@ == auth0_token@ && source is None
            && r == register,
        cfg.protocol@ == ""@,
        cfg.device_name == device_name,
        cfg.token_ttl == ttl,
        cfg.endpoint == endpoint,
        cfg.narrowing.permissions is None && cfg.narrowing.protocols is None && cfg.narrowing.gateways is None,
{
    P2pConfig {
        identity_url,
        identity_http3,
        proxy_url: "".to_owned(),
        credential: Credential::auth0(auth0_token, None, register),
        protocol: "".to_owned(),
        device_name,
        token_ttl: ttl,
        endpoint,
        narrowing: Narrowing { permissions: None, protocols: None, gateways: None },
    }
}

/// The configuration of a connect command that was handed its Endpoint Token,
/// and so never reaches the Identity API.
pub fn relay_config(proxy_url: String, protocol: String, endpoint: String) -> (cfg: P2pConfig)
    ensures
        cfg.identity_url@ == ""@,
        !cfg.identity_http3,
        cfg.proxy_url == proxy_url,
        cfg.credential matches Credential::Auth0 { token, source, register } && token@ == ""@ && source is None && !register,
        cfg.protocol == protocol,
        cfg.device_name is None,
        cfg.token_ttl is None,
        cfg.endpoint == endpoint,
        cfg.narrowing.permissions is None && cfg.narrowing.protocols is None && cfg.narrowing.gateways is None,
{
    P2pConfig {
        identity_url: "".to_owned(),
        identity_http3: false,
        proxy_url,
        credential: Credential::auth0("", None, false),
        protocol,
        device_name: None,
        token_ttl: None,
        endpoint,
        narrowing: Narrowing { permissions: None, protocols: None, gateways: None },
    }
}

/// An argument `type,address,port` is the candidate of that type, address and
/// port, and of no other: written out it reads back, for each of the three
/// types and every port. Only those three names are types.
pub proof fn law_candidate_reads_back(kind: Seq<char>, address: Seq<char>, port: u16, c: Candidate)
    requires
        free_of(kind, ','),
        free_of(address, ','),
    ensures
        ({
            let spec = kind + seq![','] + (address + seq![','] + decimal_spec(port as nat));
            &&& is_candidate(spec) <==> kind == "host"@ || kind == "srflx"@ || kind == "relay"@
            &&& reads_as(spec, c) <==> c.address@ == address && c.port == port && match c.candidate_type {
                CandidateType::Host => kind == "host"@,
                CandidateType::ServerReflexive => kind == "srflx"@,
                CandidateType::Relay => kind == "relay"@,
            }
        }),
        !is_candidate(kind),
        !is_candidate(kind + seq![','] + address),
{
    let port_text = decimal_spec(port as nat);
    law_cut_at_the_first(kind, ',', address + seq![','] + port_text);
    law_cut_at_the_first(address, ',', port_text);
    law_cut_at_the_first(kind, ',', address);
    law_decimal_reads_back(port);
    reveal_strlit("host");
    reveal_strlit("srflx");
    reveal_strlit("relay");
    assert("host"@[0] == 'h' && "srflx"@[0] == 's' && "relay"@[0] == 'r');
}

/// An argument is refused exactly where it is no candidate, and for one reason:
/// what is shown is the argument, or the type where that is what is not known.
pub proof fn law_refused_for_one_reason(spec: Seq<char>, error: CandidateError, other: CandidateError, c: Candidate)
    requires
        refused_as(spec, error),
        refused_as(spec, other),
    ensures
        !is_candidate(spec),
        !reads_as(spec, c),
        error is Shape <==> other is Shape,
        error is UnknownType <==> other is UnknownType,
        error is Port ==> error->Port_0@ == spec,
        error is Shape ==> error->Shape_0@ == spec,
        error is UnknownType ==> error->UnknownType_0@.len() < spec.len() && error->UnknownType_0@ == spec.take(
            error->UnknownType_0@.len() as int,
        ) && spec[error->UnknownType_0@.len() as int] == ',' && free_of(error->UnknownType_0@, ','),
{
    lemma_position(spec, ',');
}

} // verus!

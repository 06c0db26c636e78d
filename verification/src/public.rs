//! A service with an address of its own on the public internet.

use vstd::prelude::*;

verus! {

/// Which side of a relay a ticket is for.
#[derive(Clone, Copy, Debug, PartialEq, Eq, Structural)]
pub enum RelayRole {
    /// The initiator's leg.
    Initiator,
    /// The target's leg.
    Target,
    /// A public address.
    Public,
}

impl RelayRole {
    /// The role's name.
    pub open spec fn name_spec(self) -> Seq<char> {
        match self {
            RelayRole::Initiator => "Initiator"@,
            RelayRole::Target => "Target"@,
            RelayRole::Public => "Public"@,
        }
    }

    /// The role's name.
    pub fn name(&self) -> (text: &'static str)
        ensures
            text@ == self.name_spec(),
    {
        match self {
            RelayRole::Initiator => "Initiator",
            RelayRole::Target => "Target",
            RelayRole::Public => "Public",
        }
    }
}

/// A ticket for a relay.
#[derive(Debug)]
pub struct PublicTicket {
    /// The ticket itself.
    pub ticket: String,
    /// Which side it is for.
    pub role: RelayRole,
}

/// The relay of a public listener.
#[derive(Debug)]
pub struct PublicRelay {
    /// Where to bind at it.
    pub masque_uri: String,
    /// The data plane that was chosen, where one was.
    pub dp_id: Option<String>,
}

/// An address that anybody can reach.
#[derive(Debug)]
pub struct PublicAddress {
    /// Its name, where it has one.
    pub hostname: Option<String>,
    /// Its IP address.
    pub ip: String,
    /// Its port.
    pub port: u16,
}

/// A service that was declared public.
#[derive(Debug)]
pub struct PublicListener {
    /// The listener's id.
    pub listener_id: String,
    /// Where it is reached.
    pub public_address: PublicAddress,
    /// The relay, where the answer named one.
    pub relay: Option<PublicRelay>,
    /// A ticket, where one was issued.
    pub ticket: Option<PublicTicket>,
}

/// How a service is declared public.
pub struct PublishOptions<'a> {
    /// Makes a repeated declaration the same one.
    pub idempotency_key: &'a str,
    /// Where it should be.
    pub region: Option<&'a str>,
    /// For how long, in seconds.
    pub ttl: Option<u64>,
}

/// A public address that is being served.
#[derive(Debug)]
pub struct PublicEndpoint {
    /// The listener's id.
    pub listener_id: String,
    /// Where it is reached.
    pub advertised: PublicAddress,
}

impl PublicEndpoint {
    /// The listener's id.
    pub fn listener_id(&self) -> (id: &str)
        ensures
            id@ == self.listener_id@,
    {
        self.listener_id.as_str()
    }

    /// Where it is reached.
    pub fn advertised(&self) -> (address: &PublicAddress)
        ensures
            *address == self.advertised,
    {
        &self.advertised
    }
}

/// A ticket that is not for a public address.
#[derive(Debug)]
pub struct TicketRoleError {
    /// What it is for.
    pub role: RelayRole,
    /// The listener it came with.
    pub listener_id: String,
}

impl TicketRoleError {
    /// The error in words.
    pub open spec fn message_spec(self) -> Seq<char> {
        "the control plane issued a "@ + self.role.name_spec() + " ticket for public listener "@ + self.listener_id@
            + "; presenting it would be refused as a relay leg"@
    }

    /// The error in words.
    pub fn message(&self) -> (text: String)
        ensures
            text@ == self.message_spec(),
    {
        let mut text = "the control plane issued a ".to_owned();
        text.push_str(self.role.name());
        text.push_str(" ticket for public listener ");
        text.push_str(self.listener_id.as_str());
        text.push_str("; presenting it would be refused as a relay leg");
        text
    }
}

/// Check that a ticket, where there is one, is for a public address.
pub fn check_ticket_role(listener: &PublicListener) -> (r: Result<(), TicketRoleError>)
    ensures
        match listener.ticket {
            Some(ticket) if ticket.role != RelayRole::Public => r matches Err(error) && error.role == ticket.role
                && error.listener_id == listener.listener_id,
            _ => r is Ok,
        },
{
    if let Some(ticket) = &listener.ticket {
        if ticket.role != RelayRole::Public {
            return Err(TicketRoleError { role: ticket.role, listener_id: listener.listener_id.clone() });
        }
    }
    Ok(())
}

/// Where to bind: at the relay, if a data plane was chosen, else at the proxy.
pub open spec fn bind_target(listener: PublicListener, proxy_url: Seq<char>) -> Seq<char> {
    match listener.relay {
        Some(relay) if relay.dp_id is Some => relay.masque_uri@,
        _ => proxy_url,
    }
}

/// Where to bind.
pub fn where_to_bind<'a>(listener: &'a PublicListener, proxy_url: &'a str) -> (target: &'a str)
    ensures
        target@ == bind_target(*listener, proxy_url@),
{
    if let Some(relay) = &listener.relay {
        if relay.dp_id.is_some() {
            return relay.masque_uri.as_str();
        }
    }
    proxy_url
}

/// A bind session to open.
pub struct PublicBind<'a> {
    /// Where to bind.
    pub target: &'a str,
    /// The ticket to show there.
    pub ticket: Option<&'a str>,
}

/// The bind session to open for a listener; none is opened with a ticket that
/// would be refused.
pub fn open<'a>(listener: &'a PublicListener, proxy_url: &'a str) -> (r: Result<PublicBind<'a>, TicketRoleError>)
    ensures
        match listener.ticket {
            Some(ticket) => if ticket.role == RelayRole::Public {
                r matches Ok(bind) && bind.target@ == bind_target(*listener, proxy_url@) && bind.ticket is Some
                    && bind.ticket->0@ == ticket.ticket@
            } else {
                r matches Err(error) && error.role == ticket.role && error.listener_id == listener.listener_id
            },
            None => r matches Ok(bind) && bind.target@ == bind_target(*listener, proxy_url@) && bind.ticket is None,
        },
{
    match check_ticket_role(listener) {
        Err(error) => Err(error),
        Ok(()) => {
            let ticket = match &listener.ticket {
                Some(ticket) => Some(ticket.ticket.as_str()),
                None => None,
            };
            Ok(PublicBind { target: where_to_bind(listener, proxy_url), ticket })
        },
    }
}

/// A listener is served at its relay exactly where a data plane was chosen for
/// it; without one, or without a relay, at the proxy.
pub proof fn law_bound_at_the_chosen_relay(listener: PublicListener, relay: PublicRelay, proxy_url: Seq<char>)
    ensures
        listener.relay == Some(relay) && relay.dp_id is Some ==> bind_target(listener, proxy_url) == relay.masque_uri@,
        listener.relay == Some(relay) && relay.dp_id is None ==> bind_target(listener, proxy_url) == proxy_url,
        listener.relay is None ==> bind_target(listener, proxy_url) == proxy_url,
{
}

/// The roles have different names.
pub proof fn law_roles_are_told_apart(a: RelayRole, b: RelayRole)
    requires
        a != b,
    ensures
        a.name_spec() != b.name_spec(),
{
    reveal_strlit("Initiator");
    reveal_strlit("Target");
    reveal_strlit("Public");
    assert("Initiator"@[0] == 'I' && "Target"@[0] == 'T' && "Public"@[0] == 'P');
}

/// A ticket that is for something else is told with its role and the listener
/// that it came with, each in its place.
pub proof fn law_wrong_ticket_is_told_with_its_role(error: TicketRoleError)
    ensures
        error.message_spec() == "the control plane issued a "@ + (match error.role {
            RelayRole::Initiator => "Initiator"@,
            RelayRole::Target => "Target"@,
            RelayRole::Public => "Public"@,
        }) + " ticket for public listener "@ + error.listener_id@ + "; presenting it would be refused as a relay leg"@,
{
}

} // verus!

//! Socket addresses as plain numbers.

use vstd::prelude::*;

verus! {

/// An IP address and a port.
#[derive(Clone, Copy, Debug, PartialEq, Eq, Hash, Structural)]
#[allow(inconsistent_fields)]
pub enum SocketAddr {
    /// An IPv4 address, most significant byte first.
    V4 { ip: u32, port: u16 },
    /// An IPv6 address, most significant byte first.
    V6 { ip: u128, port: u16, flowinfo: u32, scope_id: u32 },
}

impl SocketAddr {
    /// The IPv4 address `a.b.c.d` with a port.
    pub fn v4(a: u8, b: u8, c: u8, d: u8, port: u16) -> (addr: Self)
        ensures
            addr == (SocketAddr::V4 {
                ip: (a as int * 0x100_0000 + b as int * 0x1_0000 + c as int * 0x100 + d as int) as u32,
                port,
            }),
    {
        SocketAddr::V4 { ip: a as u32 * 0x100_0000 + b as u32 * 0x1_0000 + c as u32 * 0x100 + d as u32, port }
    }

    /// The order of addresses: IPv4 before IPv6, then by address, then by
    /// port, then by the rest.
    pub open spec fn precedes_spec(self, other: Self) -> bool {
        match (self, other) {
            (SocketAddr::V4 { ip: a, port: p }, SocketAddr::V4 { ip: b, port: q }) => a < b || (a == b && p < q),
            (SocketAddr::V4 { .. }, SocketAddr::V6 { .. }) => true,
            (SocketAddr::V6 { .. }, SocketAddr::V4 { .. }) => false,
            (
                SocketAddr::V6 { ip: a, port: p, flowinfo: f, scope_id: s },
                SocketAddr::V6 { ip: b, port: q, flowinfo: g, scope_id: t },
            ) => a < b || (a == b && (p < q || (p == q && (f < g || (f == g && s < t))))),
        }
    }

    /// Whether this address comes before `other`.
    pub fn precedes(&self, other: &SocketAddr) -> (r: bool)
        ensures
            r == self.precedes_spec(*other),
    {
        match (*self, *other) {
            (SocketAddr::V4 { ip: a, port: p }, SocketAddr::V4 { ip: b, port: q }) => a < b || (a == b && p < q),
            (SocketAddr::V4 { .. }, SocketAddr::V6 { .. }) => true,
            (SocketAddr::V6 { .. }, SocketAddr::V4 { .. }) => false,
            (
                SocketAddr::V6 { ip: a, port: p, flowinfo: f, scope_id: s },
                SocketAddr::V6 { ip: b, port: q, flowinfo: g, scope_id: t },
            ) => a < b || (a == b && (p < q || (p == q && (f < g || (f == g && s < t))))),
        }
    }
}

/// An IP address.
#[derive(Clone, Copy, Debug, PartialEq, Eq, Structural)]
pub enum IpAddr {
    /// An IPv4 address, most significant byte first.
    V4(u32),
    /// An IPv6 address, most significant byte first.
    V6(u128),
}

impl IpAddr {
    /// This address with a port.
    pub open spec fn with_port_spec(self, port: u16) -> SocketAddr {
        match self {
            IpAddr::V4(ip) => SocketAddr::V4 { ip, port },
            IpAddr::V6(ip) => SocketAddr::V6 { ip, port, flowinfo: 0, scope_id: 0 },
        }
    }

    /// This address with a port.
    pub fn with_port(self, port: u16) -> (addr: SocketAddr)
        ensures
            addr == self.with_port_spec(port),
    {
        match self {
            IpAddr::V4(ip) => SocketAddr::V4 { ip, port },
            IpAddr::V6(ip) => SocketAddr::V6 { ip, port, flowinfo: 0, scope_id: 0 },
        }
    }
}

/// Where a socket is bound, and where a server saw it from.
#[derive(Clone, Copy, Debug, PartialEq, Eq, Structural)]
pub struct ObservedAddress {
    /// Where it is bound.
    pub local: SocketAddr,
    /// Where it was seen.
    pub observed: SocketAddr,
}

/// Addresses are in one line: of two different ones exactly one comes first,
/// and what comes before something comes before all that follows it.
pub proof fn law_addresses_are_in_one_line(a: SocketAddr, b: SocketAddr, c: SocketAddr)
    ensures
        a != b <==> (a.precedes_spec(b) || b.precedes_spec(a)),
        !(a.precedes_spec(b) && b.precedes_spec(a)),
        a.precedes_spec(b) && b.precedes_spec(c) ==> a.precedes_spec(c),
        a is V4 && b is V6 ==> a.precedes_spec(b),
{
}

/// Of two addresses of one family the one with the lower IP address comes
/// first, whatever the ports; and of two ports of one IP address the lower.
pub proof fn law_lower_address_comes_first(ip: u32, other: u32, long: u128, longer: u128, p: u16, q: u16, rest: (u32, u32, u32, u32))
    ensures
        ip < other ==> (SocketAddr::V4 { ip, port: p }).precedes_spec(SocketAddr::V4 { ip: other, port: q }),
        p < q ==> (SocketAddr::V4 { ip, port: p }).precedes_spec(SocketAddr::V4 { ip, port: q }),
        long < longer ==> (SocketAddr::V6 { ip: long, port: p, flowinfo: rest.0, scope_id: rest.1 }).precedes_spec(
            SocketAddr::V6 { ip: longer, port: q, flowinfo: rest.2, scope_id: rest.3 },
        ),
        p < q ==> (SocketAddr::V6 { ip: long, port: p, flowinfo: rest.0, scope_id: rest.1 }).precedes_spec(
            SocketAddr::V6 { ip: long, port: q, flowinfo: rest.2, scope_id: rest.3 },
        ),
        rest.0 < rest.2 ==> (SocketAddr::V6 { ip: long, port: p, flowinfo: rest.0, scope_id: rest.1 }).precedes_spec(
            SocketAddr::V6 { ip: long, port: p, flowinfo: rest.2, scope_id: rest.3 },
        ),
        rest.1 < rest.3 ==> (SocketAddr::V6 { ip: long, port: p, flowinfo: rest.0, scope_id: rest.1 }).precedes_spec(
            SocketAddr::V6 { ip: long, port: p, flowinfo: rest.0, scope_id: rest.3 },
        ),
{
}

/// With a port, an IP address is still itself: nothing but the port comes from
/// elsewhere.
pub proof fn law_port_leaves_the_address(ip: IpAddr, port: u16)
    ensures
        match ip.with_port_spec(port) {
            SocketAddr::V4 { ip: kept, port: given } => ip == IpAddr::V4(kept) && given == port,
            SocketAddr::V6 { ip: kept, port: given, flowinfo, scope_id } => ip == IpAddr::V6(kept) && given == port && flowinfo
                == 0 && scope_id == 0,
        },
{
}

} // verus!

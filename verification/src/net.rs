//! Plain-value network address types.
//!
//! The model keeps addresses as raw octets and segments so that every
//! projection over a decoded response can be stated and proved; the runtime
//! layer converts them to its own socket address types at the edge.

use vstd::prelude::*;

verus! {

/// An IPv4 address as its four octets, in network order.
#[derive(Clone, Copy, Debug, PartialEq, Eq)]
pub struct Ipv4Address {
    pub octets: [u8; 4],
}

/// An IPv6 address as its eight 16-bit segments, in network order.
#[derive(Clone, Copy, Debug, PartialEq, Eq)]
pub struct Ipv6Address {
    pub segments: [u16; 8],
}

/// Either kind of IP address.
#[derive(Clone, Copy, Debug, PartialEq, Eq)]
pub enum IpAddress {
    V4(Ipv4Address),
    V6(Ipv6Address),
}

/// An IP address paired with a port.
#[derive(Clone, Copy, Debug, PartialEq, Eq)]
pub struct ServiceAddress {
    pub ip: IpAddress,
    pub port: u16,
}

impl Ipv4Address {
    /// Builds an address from its four octets.
    pub fn new(a: u8, b: u8, c: u8, d: u8) -> (r: Ipv4Address)
        ensures
            r.octets@ == seq![a, b, c, d],
    {
        let r = Ipv4Address { octets: [a, b, c, d] };
        proof {
            assert(r.octets@ =~= seq![a, b, c, d]);
        }
        r
    }
}

} // verus!

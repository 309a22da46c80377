//! IPv4 addresses as four octets, and the /24 subnet rule of the tunnels.

use vstd::prelude::*;

verus! {

/// An IPv4 address, most significant octet first.
#[derive(Clone, Copy, Debug, PartialEq, Eq, Hash, Structural)]
pub struct Ipv4 {
    pub a: u8,
    pub b: u8,
    pub c: u8,
    pub d: u8,
}

/// The address of a host as far as the relay reads it: an IPv4 address, or
/// the mere fact that it is an IPv6 one.
#[derive(Clone, Copy, Debug, PartialEq, Eq, Hash, Structural)]
pub enum HostAddr {
    V4(Ipv4),
    V6,
}

impl Ipv4 {
    /// The four octets in network order.
    pub open spec fn octets_spec(self) -> Seq<u8> {
        seq![self.a, self.b, self.c, self.d]
    }

    /// Whether both addresses lie in the same /24 network.
    pub open spec fn same_subnet_spec(self, other: Ipv4) -> bool {
        self.a == other.a && self.b == other.b && self.c == other.c
    }

    /// Whether the address lies in 224.0.0.0/4.
    pub open spec fn is_multicast_spec(self) -> bool {
        224 <= self.a <= 239
    }

    pub fn new(a: u8, b: u8, c: u8, d: u8) -> (ip: Ipv4)
        ensures
            ip == (Ipv4 { a, b, c, d }),
    {
        Ipv4 { a, b, c, d }
    }

    pub fn from_octets(octets: [u8; 4]) -> (ip: Ipv4)
        ensures
            ip.octets_spec() == octets@,
    {
        let ip = Ipv4 { a: octets[0], b: octets[1], c: octets[2], d: octets[3] };
        assert(ip.octets_spec() =~= octets@);
        ip
    }

    pub fn octets(&self) -> (octets: [u8; 4])
        ensures
            octets@ == self.octets_spec(),
    {
        let octets: [u8; 4] = [self.a, self.b, self.c, self.d];
        assert(octets@ =~= self.octets_spec());
        octets
    }

    /// Whether `other` lies in the /24 network of `self`.
    #[verifier::when_used_as_spec(same_subnet_spec)]
    pub fn same_subnet(self, other: Ipv4) -> (same: bool)
        ensures
            same == self.same_subnet_spec(other),
    {
        self.a == other.a && self.b == other.b && self.c == other.c
    }

    /// Whether the address is a multicast group address.
    #[verifier::when_used_as_spec(is_multicast_spec)]
    pub fn is_multicast(self) -> (multicast: bool)
        ensures
            multicast == self.is_multicast_spec(),
    {
        self.a >= 224 && self.a <= 239
    }

    /// The address with the same /24 network and host octet `d`.
    pub fn with_host(self, d: u8) -> (ip: Ipv4)
        ensures
            ip == (Ipv4 { a: self.a, b: self.b, c: self.c, d }),
    {
        Ipv4 { a: self.a, b: self.b, c: self.c, d }
    }
}

} // verus!

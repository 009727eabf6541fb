//! Hardware and socket addresses of services, as plain values.

use vstd::prelude::*;

verus! {

/// A 48-bit hardware address.
#[derive(Clone, Copy, Debug, PartialEq, Eq, Hash)]
pub struct MacAddr {
    pub octets: [u8; 6],
}

impl MacAddr {
    /// The address with the given six octets, first to last.
    pub fn new(a: u8, b: u8, c: u8, d: u8, e: u8, f: u8) -> (mac: MacAddr)
        ensures
            mac.octets@ == seq![a, b, c, d, e, f],
    {
        let mac = MacAddr { octets: [a, b, c, d, e, f] };
        assert(mac.octets@ =~= seq![a, b, c, d, e, f]);
        mac
    }

    /// The six octets of the address.
    pub fn octets(&self) -> (octets: [u8; 6])
        ensures
            octets == self.octets,
    {
        self.octets
    }
}

/// An IP address.
#[derive(Clone, Copy, Debug, PartialEq, Eq, Hash)]
pub enum IpAddress {
    /// The four octets of an IPv4 address, in network order.
    V4([u8; 4]),
    /// The sixteen octets of an IPv6 address, in network order.
    V6([u8; 16]),
}

impl IpAddress {
    /// The IP version: 4 or 6.
    pub open spec fn spec_version(self) -> u8 {
        match self {
            IpAddress::V4(_) => 4,
            IpAddress::V6(_) => 6,
        }
    }

    /// The address as sixteen bytes: an IPv6 address as it is, an IPv4
    /// address in the first four bytes with twelve zero bytes behind it.
    pub open spec fn spec_bytes(self) -> Seq<u8> {
        match self {
            IpAddress::V4(octets) => octets@ + Seq::new(12, |i: int| 0u8),
            IpAddress::V6(octets) => octets@,
        }
    }

    /// The IP version: 4 or 6.
    pub fn version(&self) -> (version: u8)
        ensures
            version == self.spec_version(),
    {
        match self {
            IpAddress::V4(_) => 4,
            IpAddress::V6(_) => 6,
        }
    }

    /// The address as sixteen bytes: an IPv6 address as it is, an IPv4
    /// address in the first four bytes with twelve zero bytes behind it.
    pub fn bytes(&self) -> (bytes: [u8; 16])
        ensures
            bytes@ == self.spec_bytes(),
    {
        match self {
            IpAddress::V4(octets) => {
                let mut bytes = [0u8;16];
                let mut i: usize = 0;
                while i < 4
                    invariant
                        i <= 4,
                        forall|j: int| 0 <= j < i ==> bytes@[j] == octets@[j],
                        forall|j: int| i <= j < 16 ==> bytes@[j] == 0u8,
                    decreases 4 - i,
                {
                    bytes[i] = octets[i];
                    i += 1;
                }
                assert(bytes@ =~= self.spec_bytes());
                bytes
            },
            IpAddress::V6(octets) => *octets,
        }
    }
}

/// An IP address with a port.
#[derive(Clone, Copy, Debug, PartialEq, Eq, Hash)]
pub struct SocketAddress {
    pub ip: IpAddress,
    pub port: u16,
}

impl SocketAddress {
    /// The socket address with the given IP address and port.
    pub fn new(ip: IpAddress, port: u16) -> (address: SocketAddress)
        ensures
            address == (SocketAddress { ip, port }),
    {
        SocketAddress { ip, port }
    }

    /// The IP address.
    pub fn ip(&self) -> (ip: IpAddress)
        ensures
            ip == self.ip,
    {
        self.ip
    }

    /// The port.
    pub fn port(&self) -> (port: u16)
        ensures
            port == self.port,
    {
        self.port
    }
}

} // verus!

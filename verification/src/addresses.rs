//! IP addresses as the C side passes them, and as the stack keeps them.

use vstd::prelude::*;
use vstd::std_specs::convert::FromSpecImpl;
use smoltcp::wire::Ipv6Address;

verus! {

/// An IPv4 address as four octets, most significant first.
#[derive(Clone, Copy, Debug)]
pub struct Ipv4AddressC {
    pub ip_address: [u8; 4],
}

/// An IPv4 address with its network mask length.
#[derive(Clone, Copy, Debug)]
pub struct Ipv4CidrC {
    pub ip_address: Ipv4AddressC,
    pub mask: u8,
}

/// An IPv6 address with its network mask length.
#[derive(Clone, Copy, Debug)]
pub struct Ipv6CidrC {
    pub ip_address: Ipv6AddressC,
    pub mask: u8,
}

/// An IPv6 address as eight 16-bit groups, most significant first.
#[derive(Clone, Copy, Debug)]
pub struct Ipv6AddressC {
    pub ip_address: [u16; 8],
}

/// Room for either kind of address, as the C side lays it out.
#[derive(Clone, Copy, Debug)]
pub struct IpAddressC {
    pub ipv4_address: Ipv4AddressC,
    pub ipv6_address: Ipv6AddressC,
}

/// An IP address in network byte order.
#[derive(Clone, Copy, Debug, PartialEq, Eq)]
pub enum IpAddr {
    Ipv4([u8; 4]),
    Ipv6([u8; 16]),
}

/// An address together with the length of its network prefix.
#[derive(Clone, Copy, Debug, PartialEq, Eq)]
pub struct IpCidr {
    pub address: IpAddr,
    pub prefix_len: u8,
}

/// Whether `prefix_len` is a valid prefix length for the family of `a`:
/// at most 32 for IPv4 and at most 128 for IPv6.
pub open spec fn prefix_fits(a: IpAddr, prefix_len: u8) -> bool {
    match a {
        IpAddr::Ipv4(_) => prefix_len <= 32,
        IpAddr::Ipv6(_) => prefix_len <= 128,
    }
}

/// The sixteen octets of an IPv6 address given by its eight groups: each
/// group written big-endian, in order.
pub open spec fn ipv6_octets(g: [u16; 8]) -> [u8; 16] {
    [
        (g[0] / 256) as u8, (g[0] % 256) as u8, (g[1] / 256) as u8, (g[1] % 256) as u8,
        (g[2] / 256) as u8, (g[2] % 256) as u8, (g[3] / 256) as u8, (g[3] % 256) as u8,
        (g[4] / 256) as u8, (g[4] % 256) as u8, (g[5] / 256) as u8, (g[5] % 256) as u8,
        (g[6] / 256) as u8, (g[6] % 256) as u8, (g[7] / 256) as u8, (g[7] % 256) as u8,
    ]
}

/// `Ipv6Address::new` of smoltcp on the eight groups, taken as its octets.
/// The contract states what smoltcp's source does: each group is written in
/// network byte order.
#[verifier::external_body]
fn ipv6_address_octets(groups: [u16; 8]) -> (octets: [u8; 16])
    ensures
        octets == ipv6_octets(groups),
{
    Ipv6Address::new(
        groups[0],
        groups[1],
        groups[2],
        groups[3],
        groups[4],
        groups[5],
        groups[6],
        groups[7],
    ).0
}

impl From<Ipv4AddressC> for IpAddr {
    fn from(a: Ipv4AddressC) -> (r: IpAddr) {
        IpAddr::Ipv4(a.ip_address)
    }
}

impl FromSpecImpl<Ipv4AddressC> for IpAddr {
    open spec fn obeys_from_spec() -> bool {
        true
    }

    open spec fn from_spec(a: Ipv4AddressC) -> IpAddr {
        IpAddr::Ipv4(a.ip_address)
    }
}

impl From<Ipv6AddressC> for IpAddr {
    fn from(a: Ipv6AddressC) -> (r: IpAddr) {
        IpAddr::Ipv6(ipv6_address_octets(a.ip_address))
    }
}

impl FromSpecImpl<Ipv6AddressC> for IpAddr {
    open spec fn obeys_from_spec() -> bool {
        true
    }

    open spec fn from_spec(a: Ipv6AddressC) -> IpAddr {
        IpAddr::Ipv6(ipv6_octets(a.ip_address))
    }
}

} // verus!

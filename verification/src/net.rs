//! Network addresses as plain numbers.

use vstd::prelude::*;

verus! {

/// An IP address, as the number that its octets spell big-endian.
#[derive(Debug, Clone, Copy, PartialEq, Eq, Hash, Structural)]
pub enum IpAddr {
    V4(u32),
    V6(u128),
}

impl IpAddr {
    /// The number of the dotted address `a.b.c.d`.
    pub open spec fn v4_number(a: u8, b: u8, c: u8, d: u8) -> int {
        a * 16777216 + b * 65536 + c * 256 + d
    }

    /// The IPv4 address `a.b.c.d`.
    pub fn v4(a: u8, b: u8, c: u8, d: u8) -> (r: IpAddr)
        ensures
            r == IpAddr::V4(IpAddr::v4_number(a, b, c, d) as u32),
    {
        IpAddr::V4(a as u32 * 16777216 + b as u32 * 65536 + c as u32 * 256 + d as u32)
    }

    /// Loopback addresses are `127.0.0.0/8` and `::1`.
    pub open spec fn loopback(self) -> bool {
        match self {
            IpAddr::V4(n) => n / 16777216 == 127,
            IpAddr::V6(n) => n == 1,
        }
    }

    /// Whether the address is a loopback address.
    pub fn is_loopback(&self) -> (r: bool)
        ensures
            r == self.loopback(),
    {
        match *self {
            IpAddr::V4(n) => n / 16777216 == 127,
            IpAddr::V6(n) => n == 1,
        }
    }
}

/// A socket address. The scope is 0 except on scoped IPv6 addresses.
#[derive(Debug, Clone, Copy, PartialEq, Eq, Hash, Structural)]
pub struct SocketAddr {
    pub ip: IpAddr,
    pub port: u16,
    pub scope_id: u32,
}

impl SocketAddr {
    /// The address with this IP and port, without a scope.
    pub fn new(ip: IpAddr, port: u16) -> (r: SocketAddr)
        ensures
            r == (SocketAddr { ip, port, scope_id: 0 }),
    {
        SocketAddr { ip, port, scope_id: 0 }
    }
}

/// Whether `ip` stands in `ips`.
pub fn contains_ip(ips: &[IpAddr], ip: IpAddr) -> (r: bool)
    ensures
        r == ips@.contains(ip),
{
    let mut i: usize = 0;
    while i < ips.len()
        invariant
            i <= ips.len(),
            forall|j: int| 0 <= j < i ==> ips@[j] != ip,
        decreases ips.len() - i,
    {
        if ips[i] == ip {
            return true;
        }
        i += 1;
    }
    false
}

/// The loopback addresses are those whose first octet is 127, whatever the others are, and no
/// others with four octets; of those with sixteen there is one.
pub proof fn loopback_goes_by_the_first_octet(a: u8, b: u8, c: u8, d: u8, n: u128)
    ensures
        IpAddr::V4((a * 16777216 + b * 65536 + c * 256 + d) as u32).loopback() <==> a == 127,
        IpAddr::v4_number(a, b, c, d) == a * 16777216 + b * 65536 + c * 256 + d,
        IpAddr::V6(n).loopback() <==> n == 1,
{
}

}

//! Internet addresses of the clients that leases are granted to.

use crate::err::AccessError;
use vstd::prelude::*;

verus! {

/// An IPv4 or IPv6 address, held as the number that its bytes spell in
/// network order.
#[derive(Clone, Copy, Debug, PartialEq, Eq, Structural)]
pub enum IpAddr {
    V4(u32),
    V6(u128),
}

/// The number spelled by four address bytes in network order.
pub open spec fn v4_bits(a: u8, b: u8, c: u8, d: u8) -> int {
    a as int * 0x100_0000 + b as int * 0x1_0000 + c as int * 0x100 + d as int
}

impl IpAddr {
    /// Whether this is the all-zero address of its family, `0.0.0.0` or
    /// `::`, which names no host.
    pub open spec fn spec_is_unspecified(&self) -> bool {
        match *self {
            IpAddr::V4(bits) => bits == 0,
            IpAddr::V6(bits) => bits == 0,
        }
    }

    /// The all-zero address of the family of `self`.
    pub open spec fn spec_unspecified_like(&self) -> IpAddr {
        match *self {
            IpAddr::V4(_) => IpAddr::V4(0),
            IpAddr::V6(_) => IpAddr::V6(0),
        }
    }

    /// The address a request is served for: the one it names, or `source`
    /// where it names none.
    pub open spec fn spec_or_source(self, source: IpAddr) -> IpAddr {
        if self.spec_is_unspecified() {
            source
        } else {
            self
        }
    }

    /// The IPv4 address `a.b.c.d`.
    pub fn v4(a: u8, b: u8, c: u8, d: u8) -> (addr: IpAddr)
        ensures
            addr == IpAddr::V4(v4_bits(a, b, c, d) as u32),
            v4_bits(a, b, c, d) <= u32::MAX,
    {
        let hi: u32 = a as u32 * 0x100_0000u32 + b as u32 * 0x1_0000u32;
        let lo: u32 = c as u32 * 0x100u32 + d as u32;
        IpAddr::V4(hi + lo)
    }

    /// Whether this is an IPv4 address.
    pub fn is_ipv4(&self) -> (r: bool)
        ensures
            r == (*self is V4),
    {
        match *self {
            IpAddr::V4(_) => true,
            IpAddr::V6(_) => false,
        }
    }

    /// Whether this is an IPv6 address.
    pub fn is_ipv6(&self) -> (r: bool)
        ensures
            r == (*self is V6),
    {
        match *self {
            IpAddr::V4(_) => false,
            IpAddr::V6(_) => true,
        }
    }

    /// Whether this is the all-zero address of its family.
    #[verifier::when_used_as_spec(spec_is_unspecified)]
    pub fn is_unspecified(&self) -> (r: bool)
        ensures
            r == self.spec_is_unspecified(),
    {
        match *self {
            IpAddr::V4(bits) => bits == 0,
            IpAddr::V6(bits) => bits == 0,
        }
    }

    /// The all-zero address of the same family: the local address a
    /// client binds to reach a server at `self`.
    #[verifier::when_used_as_spec(spec_unspecified_like)]
    pub fn unspecified_like(&self) -> (r: IpAddr)
        ensures
            r == self.spec_unspecified_like(),
    {
        match *self {
            IpAddr::V4(_) => IpAddr::V4(0),
            IpAddr::V6(_) => IpAddr::V6(0),
        }
    }

    /// The address a request is served for. A request that names the
    /// unspecified address asks for the address its datagram came from,
    /// `source`; any other address stands as it is.
    #[verifier::when_used_as_spec(spec_or_source)]
    pub fn or_source(self, source: IpAddr) -> (r: IpAddr)
        ensures
            r == self.spec_or_source(source),
    {
        if self.is_unspecified() {
            source
        } else {
            self
        }
    }
}

/// Picks the server's address among those that its name resolved to, in
/// the order given, and returns its place. A client that prefers IPv4
/// takes the first IPv4 address and fails without one; any other client
/// takes the first address, of which there must be one.
pub fn choose_remote(addrs: &Vec<IpAddr>, prefer_ipv4: bool) -> (result: Result<usize, AccessError>)
    requires
        prefer_ipv4 || addrs.len() > 0,
    ensures
        match result {
            Ok(at) => {
                &&& at < addrs.len()
                &&& prefer_ipv4 ==> addrs[at as int] is V4 && forall|j: int|
                    0 <= j < at ==> !(addrs[j] is V4)
                &&& !prefer_ipv4 ==> at == 0
            },
            Err(e) => {
                &&& prefer_ipv4
                &&& e is NoIpv4Addr
                &&& forall|j: int| 0 <= j < addrs.len() ==> !(addrs[j] is V4)
            },
        },
{
    if !prefer_ipv4 {
        return Ok(0);
    }
    let mut i: usize = 0;
    while i < addrs.len()
        invariant
            prefer_ipv4,
            i <= addrs.len(),
            forall|j: int| 0 <= j < i ==> !(addrs[j] is V4),
        decreases addrs.len() - i,
    {
        if addrs[i].is_ipv4() {
            return Ok(i);
        }
        i += 1;
    }
    Err(AccessError::NoIpv4Addr)
}

} // verus!

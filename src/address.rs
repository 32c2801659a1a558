//! Host addresses as plain numbers: whether one is publicly routable, and
//! which of a host's addresses to probe.

use vstd::prelude::*;

verus! {

/// An IP address: four octets, or eight 16-bit groups.
#[derive(PartialEq, Eq, Debug, Clone, Copy)]
pub enum HostAddr {
    V4([u8; 4]),
    V6([u16; 8]),
}

/// Which family of address a target is probed over.
#[derive(PartialEq, Eq, Structural, Debug, Clone, Copy)]
pub enum AddrPreference {
    /// The first address, whatever its family.
    Any,
    /// The first IPv4 address.
    V4,
    /// The first IPv6 address.
    V6,
}

/// Why no address could be chosen.
#[derive(PartialEq, Eq, Structural, Debug, Clone, Copy)]
pub enum ResolveError {
    NoAddress,
    NoIpv4,
    NoIpv6,
}

/// A private, loopback or link-local IPv4 address.
pub open spec fn local_v4(o: Seq<u8>) -> bool {
    o[0] == 10 || (o[0] == 172 && 16 <= o[1] && o[1] <= 31) || (o[0] == 192 && o[1] == 168)
        || o[0] == 127 || (o[0] == 169 && o[1] == 254)
}

/// A unique-local (private), loopback or link-local IPv6 address.
pub open spec fn local_v6(g: Seq<u16>) -> bool {
    (g[0] == 0 && g[1] == 0 && g[2] == 0 && g[3] == 0 && g[4] == 0 && g[5] == 0 && g[6] == 0
        && g[7] == 1) || (0xfc00 <= g[0] && g[0] <= 0xfdff) || (0xfe80 <= g[0] && g[0] <= 0xfebf)
}

/// Whether an address is publicly routable.
pub open spec fn public_addr(a: HostAddr) -> bool {
    match a {
        HostAddr::V4(o) => !local_v4(o@),
        HostAddr::V6(g) => !local_v6(g@),
    }
}

/// Whether an address is of the family asked for.
pub open spec fn preferred(a: HostAddr, pref: AddrPreference) -> bool {
    match pref {
        AddrPreference::Any => true,
        AddrPreference::V4 => a is V4,
        AddrPreference::V6 => a is V6,
    }
}

impl HostAddr {
    /// Whether the address is publicly routable: not private, loopback or
    /// link-local.
    pub fn is_public(&self) -> (r: bool)
        ensures
            r == public_addr(*self),
    {
        match self {
            HostAddr::V4(o) => {
                let local = o[0] == 10 || (o[0] == 172 && 16 <= o[1] && o[1] <= 31)
                    || (o[0] == 192 && o[1] == 168) || o[0] == 127 || (o[0] == 169 && o[1] == 254);
                !local
            },
            HostAddr::V6(g) => {
                let local = (g[0] == 0 && g[1] == 0 && g[2] == 0 && g[3] == 0 && g[4] == 0
                    && g[5] == 0 && g[6] == 0 && g[7] == 1) || (0xfc00 <= g[0] && g[0] <= 0xfdff)
                    || (0xfe80 <= g[0] && g[0] <= 0xfebf);
                !local
            },
        }
    }
}

/// The first of a host's addresses that is of the family asked for.
pub fn choose_address(addrs: &Vec<HostAddr>, pref: AddrPreference) -> (r: Result<HostAddr, ResolveError>)
    ensures
        r is Ok <==> exists|i: int| 0 <= i < addrs@.len() && preferred(#[trigger] addrs@[i], pref),
        r matches Ok(a) ==> exists|i: int| 0 <= i < addrs@.len() && addrs@[i] == a
            && preferred(a, pref)
            && forall|j: int| 0 <= j < i ==> !preferred(#[trigger] addrs@[j], pref),
        r matches Err(e) ==> e == match pref {
            AddrPreference::Any => ResolveError::NoAddress,
            AddrPreference::V4 => ResolveError::NoIpv4,
            AddrPreference::V6 => ResolveError::NoIpv6,
        },
{
    let mut i: usize = 0;
    while i < addrs.len()
        invariant
            i <= addrs@.len(),
            forall|j: int| 0 <= j < i ==> !preferred(#[trigger] addrs@[j], pref),
        decreases addrs@.len() - i,
    {
        let a = addrs[i];
        let ok = match pref {
            AddrPreference::Any => true,
            AddrPreference::V4 => matches!(a, HostAddr::V4(_)),
            AddrPreference::V6 => matches!(a, HostAddr::V6(_)),
        };
        if ok {
            return Ok(a);
        }
        i = i + 1;
    }
    match pref {
        AddrPreference::Any => Err(ResolveError::NoAddress),
        AddrPreference::V4 => Err(ResolveError::NoIpv4),
        AddrPreference::V6 => Err(ResolveError::NoIpv6),
    }
}

} // verus!

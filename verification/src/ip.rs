use vstd::prelude::*;

verus! {

/// An IP address as the failover logic sees it: a version tag and the
/// address bits. Two addresses are the same exactly when both agree.
#[derive(Clone, Copy, Debug, PartialEq, Eq, Structural)]
pub enum IpAddress {
    /// An IPv4 address, its four octets in network order.
    V4(u32),
    /// An IPv6 address, its sixteen octets in network order.
    V6(u128),
}

impl IpAddress {
    /// Whether this is an IPv6 address.
    pub fn is_ipv6(&self) -> (r: bool)
        ensures
            r <==> self is V6,
    {
        match self {
            IpAddress::V4(_) => false,
            IpAddress::V6(_) => true,
        }
    }
}

/// Copies a list of addresses.
pub fn copy_addresses(v: &Vec<IpAddress>) -> (r: Vec<IpAddress>)
    ensures
        r@ == v@,
{
    let mut r: Vec<IpAddress> = Vec::new();
    let mut i: usize = 0;
    while i < v.len()
        invariant
            i <= v.len(),
            r@ == v@.take(i as int),
        decreases v.len() - i,
    {
        r.push(v[i]);
        i = i + 1;
        assert(r@ =~= v@.take(i as int));
    }
    assert(v@.take(v.len() as int) =~= v@);
    r
}

/// Whether `ip` occurs in `v`.
pub fn contains_address(v: &Vec<IpAddress>, ip: IpAddress) -> (r: bool)
    ensures
        r <==> v@.contains(ip),
{
    let mut i: usize = 0;
    while i < v.len()
        invariant
            i <= v.len(),
            forall|j: int| 0 <= j < i ==> v@[j] != ip,
        decreases v.len() - i,
    {
        if v[i] == ip {
            assert(v@[i as int] == ip);
            return true;
        }
        i = i + 1;
    }
    false
}

} // verus!

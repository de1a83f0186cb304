//! Socket addresses as the library holds them: plain values, ordered by IP
//! address and then by port.
use core::cmp::Ordering;
use vstd::prelude::*;
use vstd::std_specs::cmp::PartialOrdSpec;

verus! {

/// The identity of a socket address as plain values: whether it is IPv6,
/// the bits of its IP address, its port, and for IPv6 its flow information
/// and scope id (both zero for IPv4).
pub type AddrKey = (bool, u128, u16, u32, u32);

/// What addresses are ordered by: whether the address is IPv6, the bits of
/// its IP address and its port.
pub type OrdKey = (bool, u128, u16);

/// The part of an address's identity that it is ordered by.
pub open spec fn ord_key(k: AddrKey) -> OrdKey {
    (k.0, k.1, k.2)
}

/// A socket address ordered by IP address, then port. IPv4 addresses order
/// before IPv6 addresses; flow information and scope id take no part in
/// the order.
#[derive(PartialEq, Eq, Structural, Clone, Copy, Debug, Hash)]
pub struct SocketAddrOrdered {
    /// Whether the IP address is an IPv6 address.
    pub is_v6: bool,
    /// The bits of the IP address, most significant first.
    pub ip: u128,
    /// The port.
    pub port: u16,
    /// The flow information of an IPv6 address; zero for IPv4.
    pub flowinfo: u32,
    /// The scope id of an IPv6 address; zero for IPv4.
    pub scope_id: u32,
}

impl View for SocketAddrOrdered {
    type V = AddrKey;

    open spec fn view(&self) -> AddrKey {
        (self.is_v6, self.ip, self.port, self.flowinfo, self.scope_id)
    }
}

/// Whether address `a` orders strictly before address `b`: IPv4 before
/// IPv6, then by IP address bits, then by port.
pub open spec fn key_less(a: OrdKey, b: OrdKey) -> bool {
    ||| (!a.0 && b.0)
    ||| (a.0 == b.0 && a.1 < b.1)
    ||| (a.0 == b.0 && a.1 == b.1 && a.2 < b.2)
}

/// How address `a` compares with address `b`.
pub open spec fn key_ordering(a: OrdKey, b: OrdKey) -> Ordering {
    if a == b {
        Ordering::Equal
    } else if key_less(a, b) {
        Ordering::Less
    } else {
        Ordering::Greater
    }
}

impl SocketAddrOrdered {
    /// The IPv4 socket address with IP address bits `ip` and port `port`.
    pub fn from_v4(ip: u32, port: u16) -> (a: Self)
        ensures
            a@ == (false, ip as u128, port, 0u32, 0u32),
    {
        SocketAddrOrdered { is_v6: false, ip: ip as u128, port, flowinfo: 0, scope_id: 0 }
    }

    /// The IPv6 socket address with IP address bits `ip`, port `port`, flow
    /// information `flowinfo` and scope id `scope_id`.
    pub fn from_v6(ip: u128, port: u16, flowinfo: u32, scope_id: u32) -> (a: Self)
        ensures
            a@ == (true, ip, port, flowinfo, scope_id),
    {
        SocketAddrOrdered { is_v6: true, ip, port, flowinfo, scope_id }
    }

    /// The address whose identity is `k`.
    pub fn from_key(k: AddrKey) -> (a: Self)
        ensures
            a@ == k,
    {
        SocketAddrOrdered { is_v6: k.0, ip: k.1, port: k.2, flowinfo: k.3, scope_id: k.4 }
    }

    /// The identity of the address.
    pub fn key(&self) -> (k: AddrKey)
        ensures
            k == self@,
    {
        (self.is_v6, self.ip, self.port, self.flowinfo, self.scope_id)
    }

    /// What the address is ordered by.
    pub fn order_key(&self) -> (k: OrdKey)
        ensures
            k == ord_key(self@),
    {
        (self.is_v6, self.ip, self.port)
    }

    /// Whether two addresses are the same address.
    pub fn same(&self, other: &Self) -> (b: bool)
        ensures
            b == (self@ == other@),
    {
        self.is_v6 == other.is_v6 && self.ip == other.ip && self.port == other.port
            && self.flowinfo == other.flowinfo && self.scope_id == other.scope_id
    }
}

impl PartialOrd for SocketAddrOrdered {
    fn partial_cmp(&self, other: &Self) -> (r: Option<Ordering>) {
        if self.is_v6 == other.is_v6 && self.ip == other.ip && self.port == other.port {
            Some(Ordering::Equal)
        } else if (!self.is_v6 && other.is_v6) || (self.is_v6 == other.is_v6 && self.ip
            < other.ip) || (self.is_v6 == other.is_v6 && self.ip == other.ip && self.port
            < other.port) {
            Some(Ordering::Less)
        } else {
            Some(Ordering::Greater)
        }
    }
}

impl vstd::std_specs::cmp::PartialOrdSpecImpl for SocketAddrOrdered {
    open spec fn obeys_partial_cmp_spec() -> bool {
        true
    }

    open spec fn partial_cmp_spec(&self, other: &Self) -> Option<Ordering> {
        Some(key_ordering(ord_key(self@), ord_key(other@)))
    }
}

/// The order of addresses is a strict total order: irreflexive,
/// transitive, and of two different addresses one orders before the other.
pub proof fn lemma_key_order_total(a: OrdKey, b: OrdKey, c: OrdKey)
    ensures
        !key_less(a, a),
        key_less(a, b) && key_less(b, c) ==> key_less(a, c),
        a != b ==> (key_less(a, b) != key_less(b, a)),
{
}

/// Comparing two addresses and comparing them the other way round give
/// opposite answers.
pub proof fn lemma_key_ordering_antisymmetric(a: OrdKey, b: OrdKey)
    ensures
        key_ordering(a, b) == Ordering::Less <==> key_ordering(b, a) == Ordering::Greater,
        key_ordering(a, b) == Ordering::Equal <==> a == b,
{
}

/// Comparing two addresses goes by the IP address first and by the port
/// only between equal IP addresses: of two addresses of one family, the one
/// with the smaller IP address orders first whatever the ports, and IPv4
/// addresses order before IPv6 addresses. Flow information and scope id
/// take no part.
pub proof fn lemma_partial_cmp_ip_then_port(a: SocketAddrOrdered, b: SocketAddrOrdered)
    ensures
        !a.is_v6 && b.is_v6 ==> a.partial_cmp_spec(&b) == Some(Ordering::Less),
        a.is_v6 && !b.is_v6 ==> a.partial_cmp_spec(&b) == Some(Ordering::Greater),
        a.is_v6 == b.is_v6 && a.ip < b.ip ==> a.partial_cmp_spec(&b) == Some(Ordering::Less),
        a.is_v6 == b.is_v6 && a.ip > b.ip ==> a.partial_cmp_spec(&b) == Some(Ordering::Greater),
        a.is_v6 == b.is_v6 && a.ip == b.ip && a.port < b.port ==> a.partial_cmp_spec(&b) == Some(
            Ordering::Less,
        ),
        a.is_v6 == b.is_v6 && a.ip == b.ip && a.port > b.port ==> a.partial_cmp_spec(&b) == Some(
            Ordering::Greater,
        ),
        a.is_v6 == b.is_v6 && a.ip == b.ip && a.port == b.port ==> a.partial_cmp_spec(&b) == Some(
            Ordering::Equal,
        ),
{
}

} // verus!

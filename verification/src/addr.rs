//! Internet addresses as plain octets.

use vstd::prelude::*;

verus! {

/// An IP address of either family.
#[derive(Debug, Clone, Copy)]
pub enum IpAddr {
    V4([u8; 4]),
    V6([u8; 16]),
}

impl View for IpAddr {
    type V = Seq<u8>;

    /// The octets in network order: four or sixteen of them.
    open spec fn view(&self) -> Seq<u8> {
        match self {
            IpAddr::V4(o) => o@,
            IpAddr::V6(o) => o@,
        }
    }
}

impl IpAddr {
    /// Whether every octet is zero.
    pub fn is_unspecified(&self) -> (res: bool)
        ensures
            res == unspecified(self@),
    {
        match self {
            IpAddr::V4(o) => {
                let s = o.as_slice();
                assert(s@ == self@);
                all_zero(s)
            },
            IpAddr::V6(o) => {
                let s = o.as_slice();
                assert(s@ == self@);
                all_zero(s)
            },
        }
    }
}

/// Sixteen octets as an array.
pub fn octets16(bytes: &[u8]) -> (res: [u8; 16])
    requires
        bytes@.len() == 16,
    ensures
        res@ == bytes@,
{
    let res: [u8; 16] = [
        bytes[0],
        bytes[1],
        bytes[2],
        bytes[3],
        bytes[4],
        bytes[5],
        bytes[6],
        bytes[7],
        bytes[8],
        bytes[9],
        bytes[10],
        bytes[11],
        bytes[12],
        bytes[13],
        bytes[14],
        bytes[15],
    ];
    assert(res@ =~= bytes@);
    res
}

fn all_zero(bytes: &[u8]) -> (res: bool)
    ensures
        res == (forall|i: int| 0 <= i < bytes@.len() ==> bytes@[i] == 0),
{
    let mut i: usize = 0;
    while i < bytes.len()
        invariant
            i <= bytes@.len(),
            forall|k: int| 0 <= k < i ==> bytes@[k] == 0,
        decreases bytes@.len() - i,
    {
        if bytes[i] != 0 {
            return false;
        }
        i = i + 1;
    }
    true
}

impl PartialEq for IpAddr {
    fn eq(&self, other: &Self) -> (res: bool) {
        match (self, other) {
            (IpAddr::V4(a), IpAddr::V4(b)) => crate::wire::same_bytes(a.as_slice(), b.as_slice()),
            (IpAddr::V6(a), IpAddr::V6(b)) => crate::wire::same_bytes(a.as_slice(), b.as_slice()),
            (IpAddr::V4(a), IpAddr::V6(b)) => {
                assert(a@.len() != b@.len());
                false
            },
            (IpAddr::V6(a), IpAddr::V4(b)) => {
                assert(a@.len() != b@.len());
                false
            },
        }
    }
}

impl vstd::std_specs::cmp::PartialEqSpecImpl for IpAddr {
    open spec fn obeys_eq_spec() -> bool {
        true
    }

    open spec fn eq_spec(&self, other: &Self) -> bool {
        self@ == other@
    }
}

/// An IP address and a UDP or TCP port.
///
/// The flow information and scope of an IPv6 socket address belong to its
/// identity; both are zero unless the operating system reported others.
#[derive(Debug, Clone, Copy)]
pub enum SocketAddr {
    V4 { ip: [u8; 4], port: u16 },
    V6 { ip: [u8; 16], port: u16, flowinfo: u32, scope_id: u32 },
}

/// A socket address as plain values.
#[verifier::ext_equal]
pub struct SocketAddrView {
    pub octets: Seq<u8>,
    pub port: u16,
    pub flowinfo: u32,
    pub scope_id: u32,
}

impl View for SocketAddr {
    type V = SocketAddrView;

    open spec fn view(&self) -> SocketAddrView {
        match self {
            SocketAddr::V4 { ip, port } => SocketAddrView {
                octets: ip@,
                port: *port,
                flowinfo: 0,
                scope_id: 0,
            },
            SocketAddr::V6 { ip, port, flowinfo, scope_id } => SocketAddrView {
                octets: ip@,
                port: *port,
                flowinfo: *flowinfo,
                scope_id: *scope_id,
            },
        }
    }
}

/// The socket address with these octets and this port, and neither flow
/// information nor scope.
pub open spec fn plain_addr(octets: Seq<u8>, port: u16) -> SocketAddrView {
    SocketAddrView { octets, port, flowinfo: 0, scope_id: 0 }
}

impl SocketAddr {
    pub fn new(ip: IpAddr, port: u16) -> (res: Self)
        ensures
            res@ == plain_addr(ip@, port),
    {
        match ip {
            IpAddr::V4(ip) => SocketAddr::V4 { ip, port },
            IpAddr::V6(ip) => SocketAddr::V6 { ip, port, flowinfo: 0, scope_id: 0 },
        }
    }

    pub fn ip(&self) -> (res: IpAddr)
        ensures
            res@ == self@.octets,
    {
        match self {
            SocketAddr::V4 { ip, .. } => IpAddr::V4(*ip),
            SocketAddr::V6 { ip, .. } => IpAddr::V6(*ip),
        }
    }

    pub fn port(&self) -> (res: u16)
        ensures
            res == self@.port,
    {
        match self {
            SocketAddr::V4 { port, .. } => *port,
            SocketAddr::V6 { port, .. } => *port,
        }
    }

    pub fn is_ipv4(&self) -> (res: bool)
        ensures
            res == (self@.octets.len() == 4),
            res == (self is V4),
    {
        match self {
            SocketAddr::V4 { ip, .. } => {
                assert(ip@.len() == 4);
                true
            },
            SocketAddr::V6 { ip, .. } => {
                assert(ip@.len() == 16);
                false
            },
        }
    }
}

impl PartialEq for SocketAddr {
    fn eq(&self, other: &Self) -> (res: bool) {
        match (self, other) {
            (SocketAddr::V4 { ip: a, port: p }, SocketAddr::V4 { ip: b, port: q }) => {
                crate::wire::same_bytes(a.as_slice(), b.as_slice()) && *p == *q
            },
            (
                SocketAddr::V6 { ip: a, port: p, flowinfo: f, scope_id: s },
                SocketAddr::V6 { ip: b, port: q, flowinfo: g, scope_id: t },
            ) => {
                crate::wire::same_bytes(a.as_slice(), b.as_slice()) && *p == *q && *f == *g
                    && *s == *t
            },
            (SocketAddr::V4 { ip: a, .. }, SocketAddr::V6 { ip: b, .. }) => {
                assert(a@.len() != b@.len());
                false
            },
            (SocketAddr::V6 { ip: a, .. }, SocketAddr::V4 { ip: b, .. }) => {
                assert(a@.len() != b@.len());
                false
            },
        }
    }
}

impl vstd::std_specs::cmp::PartialEqSpecImpl for SocketAddr {
    open spec fn obeys_eq_spec() -> bool {
        true
    }

    open spec fn eq_spec(&self, other: &Self) -> bool {
        self@ == other@
    }
}

/// The first address that names a concrete host, not the unspecified one.
pub fn first_specified(addrs: &Vec<SocketAddr>) -> (res: Option<SocketAddr>)
    ensures
        match res {
            Some(a) => exists|i: int| #![trigger addrs@[i]]
                0 <= i < addrs@.len() && addrs@[i] == a && !unspecified(a@.octets) && (forall|j: int|
                    0 <= j < i ==> unspecified((#[trigger] addrs@[j])@.octets)),
            None => forall|i: int|
                0 <= i < addrs@.len() ==> unspecified((#[trigger] addrs@[i])@.octets),
        },
{
    let mut i: usize = 0;
    while i < addrs.len()
        invariant
            i <= addrs@.len(),
            forall|j: int| 0 <= j < i ==> unspecified((#[trigger] addrs@[j])@.octets),
        decreases addrs@.len() - i,
    {
        if !addrs[i].ip().is_unspecified() {
            assert(addrs@[i as int] == addrs[i as int]);
            return Some(addrs[i]);
        }
        i = i + 1;
    }
    None
}

/// Whether every octet is zero.
pub open spec fn unspecified(octets: Seq<u8>) -> bool {
    forall|i: int| 0 <= i < octets.len() ==> octets[i] == 0
}

// ---------------------------------------------------------------------------
// Laws
// ---------------------------------------------------------------------------

/// A socket address shows its octets in order, its port, its flow information
/// and its scope; one made from an IP address and a port has neither of the
/// last two.
pub proof fn law_address_shows_its_parts(
    v4: [u8; 4],
    v6: [u8; 16],
    port: u16,
    flowinfo: u32,
    scope_id: u32,
    octets: Seq<u8>,
)
    ensures
        (SocketAddr::V4 { ip: v4, port })@.octets == v4@,
        (SocketAddr::V4 { ip: v4, port })@.port == port,
        (SocketAddr::V4 { ip: v4, port })@.flowinfo == 0,
        (SocketAddr::V4 { ip: v4, port })@.scope_id == 0,
        (SocketAddr::V6 { ip: v6, port, flowinfo, scope_id })@.octets == v6@,
        (SocketAddr::V6 { ip: v6, port, flowinfo, scope_id })@.port == port,
        (SocketAddr::V6 { ip: v6, port, flowinfo, scope_id })@.flowinfo == flowinfo,
        (SocketAddr::V6 { ip: v6, port, flowinfo, scope_id })@.scope_id == scope_id,
        IpAddr::V4(v4)@ == v4@,
        IpAddr::V6(v6)@ == v6@,
        plain_addr(octets, port).octets == octets,
        plain_addr(octets, port).port == port,
        plain_addr(octets, port).flowinfo == 0,
        plain_addr(octets, port).scope_id == 0,
        unspecified(octets) <==> octets == Seq::new(octets.len(), |i: int| 0u8),
{
    let zeros = Seq::new(octets.len(), |i: int| 0u8);
    if unspecified(octets) {
        assert(octets =~= zeros);
    }
    if octets == zeros {
        assert forall|i: int| 0 <= i < octets.len() implies octets[i] == 0 by {
            assert(zeros[i] == 0);
        }
    }
}

/// Two IP addresses, or two socket addresses, are the same exactly where
/// everything they show is the same.
pub proof fn law_same_address(a: IpAddr, b: IpAddr, c: SocketAddr, d: SocketAddr)
    ensures
        vstd::std_specs::cmp::PartialEqSpec::eq_spec(&a, &b) <==> a@ == b@,
        vstd::std_specs::cmp::PartialEqSpec::eq_spec(&c, &d) <==> c@.octets == d@.octets && c@.port
            == d@.port && c@.flowinfo == d@.flowinfo && c@.scope_id == d@.scope_id,
{
}

} // verus!

//! Internet addresses as plain values.
use vstd::prelude::*;

verus! {

/// An IPv4 address, most significant octet first.
#[derive(Clone, Copy, Debug, PartialEq, Eq, Structural)]
pub struct Ipv4Addr {
    pub a: u8,
    pub b: u8,
    pub c: u8,
    pub d: u8,
}

impl Ipv4Addr {
    pub fn new(a: u8, b: u8, c: u8, d: u8) -> (r: Ipv4Addr)
        ensures
            r == (Ipv4Addr { a, b, c, d }),
    {
        Ipv4Addr { a, b, c, d }
    }

    /// The four octets in order.
    pub open spec fn octets(self) -> Seq<u8> {
        seq![self.a, self.b, self.c, self.d]
    }
}

/// An IPv6 address, as its eight 16-bit segments, most significant first.
#[derive(Clone, Copy, Debug, PartialEq, Eq, Structural)]
pub struct Ipv6Addr {
    pub s0: u16,
    pub s1: u16,
    pub s2: u16,
    pub s3: u16,
    pub s4: u16,
    pub s5: u16,
    pub s6: u16,
    pub s7: u16,
}

/// The 16-bit segment whose high octet is `hi` and whose low octet is `lo`.
pub open spec fn octet_pair(hi: u8, lo: u8) -> u16 {
    (hi * 256 + lo) as u16
}

impl Ipv6Addr {
    /// The eight segments in order.
    pub open spec fn segs(self) -> Seq<u16> {
        seq![self.s0, self.s1, self.s2, self.s3, self.s4, self.s5, self.s6, self.s7]
    }

    /// The address whose segments are `g`.
    pub open spec fn of_segs(g: Seq<u16>) -> Ipv6Addr
        recommends
            g.len() == 8,
    {
        Ipv6Addr {
            s0: g[0],
            s1: g[1],
            s2: g[2],
            s3: g[3],
            s4: g[4],
            s5: g[5],
            s6: g[6],
            s7: g[7],
        }
    }

    pub fn new(s0: u16, s1: u16, s2: u16, s3: u16, s4: u16, s5: u16, s6: u16, s7: u16) -> (r:
        Ipv6Addr)
        ensures
            r == (Ipv6Addr { s0, s1, s2, s3, s4, s5, s6, s7 }),
    {
        Ipv6Addr { s0, s1, s2, s3, s4, s5, s6, s7 }
    }

    pub fn segments(&self) -> (r: [u16; 8])
        ensures
            r@ == self.segs(),
    {
        [self.s0, self.s1, self.s2, self.s3, self.s4, self.s5, self.s6, self.s7]
    }

    /// Whether the address lies in `::ffff:0:0/96`.
    pub open spec fn is_v4_mapped(self) -> bool {
        self.s0 == 0 && self.s1 == 0 && self.s2 == 0 && self.s3 == 0 && self.s4 == 0 && self.s5
            == 0xffff
    }

    /// The IPv4 address in the last four octets.
    pub open spec fn low_v4(self) -> Ipv4Addr {
        Ipv4Addr {
            a: (self.s6 / 256) as u8,
            b: (self.s6 % 256) as u8,
            c: (self.s7 / 256) as u8,
            d: (self.s7 % 256) as u8,
        }
    }

    /// The IPv4 address that `::ffff:a.b.c.d` stands for, and `None` for every other address.
    pub fn to_ipv4_mapped(&self) -> (r: Option<Ipv4Addr>)
        ensures
            r == (if self.is_v4_mapped() {
                Some(self.low_v4())
            } else {
                None
            }),
    {
        if self.s0 == 0 && self.s1 == 0 && self.s2 == 0 && self.s3 == 0 && self.s4 == 0 && self.s5
            == 0xffff {
            Some(
                Ipv4Addr {
                    a: (self.s6 / 256) as u8,
                    b: (self.s6 % 256) as u8,
                    c: (self.s7 / 256) as u8,
                    d: (self.s7 % 256) as u8,
                },
            )
        } else {
            None
        }
    }
}

/// An IP address of either family.
#[derive(Clone, Copy, Debug, PartialEq, Eq, Structural)]
pub enum IpAddr {
    V4(Ipv4Addr),
    V6(Ipv6Addr),
}

/// Loopback: `127.0.0.0/8`, or `::1`.
pub open spec fn loopback(ip: IpAddr) -> bool {
    match ip {
        IpAddr::V4(v4) => v4.a == 127,
        IpAddr::V6(v6) => v6.segs() == seq![0u16, 0, 0, 0, 0, 0, 0, 1],
    }
}

impl IpAddr {
    pub fn is_loopback(&self) -> (r: bool)
        ensures
            r == loopback(*self),
    {
        match self {
            IpAddr::V4(v4) => v4.a == 127,
            IpAddr::V6(v6) => {
                let r = v6.s0 == 0 && v6.s1 == 0 && v6.s2 == 0 && v6.s3 == 0 && v6.s4 == 0
                    && v6.s5 == 0 && v6.s6 == 0 && v6.s7 == 1;
                proof {
                    let one = seq![0u16, 0, 0, 0, 0, 0, 0, 1];
                    if r {
                        assert(v6.segs() =~= one);
                    } else if v6.segs() == one {
                        assert(v6.segs()[0] == 0 && v6.segs()[1] == 0 && v6.segs()[2] == 0
                            && v6.segs()[3] == 0 && v6.segs()[4] == 0 && v6.segs()[5] == 0
                            && v6.segs()[6] == 0 && v6.segs()[7] == 1);
                    }
                }
                r
            },
        }
    }
}

#[derive(Clone, Copy, Debug, PartialEq, Eq, Structural)]
pub struct SocketAddrV4 {
    pub ip: Ipv4Addr,
    pub port: u16,
}

#[derive(Clone, Copy, Debug, PartialEq, Eq, Structural)]
pub struct SocketAddrV6 {
    pub ip: Ipv6Addr,
    pub port: u16,
    pub flowinfo: u32,
    pub scope_id: u32,
}

/// The address of one end of a datagram or stream.
#[derive(Clone, Copy, Debug, PartialEq, Eq, Structural)]
pub enum SocketAddr {
    V4(SocketAddrV4),
    V6(SocketAddrV6),
}

/// `port` at `ip`, with no flow information and no scope.
pub open spec fn socket_addr(ip: IpAddr, port: u16) -> SocketAddr {
    match ip {
        IpAddr::V4(ip) => SocketAddr::V4(SocketAddrV4 { ip, port }),
        IpAddr::V6(ip) => SocketAddr::V6(SocketAddrV6 { ip, port, flowinfo: 0, scope_id: 0 }),
    }
}

impl SocketAddr {
    pub open spec fn ip_of(self) -> IpAddr {
        match self {
            SocketAddr::V4(v4) => IpAddr::V4(v4.ip),
            SocketAddr::V6(v6) => IpAddr::V6(v6.ip),
        }
    }

    pub open spec fn port_of(self) -> u16 {
        match self {
            SocketAddr::V4(v4) => v4.port,
            SocketAddr::V6(v6) => v6.port,
        }
    }

    pub fn new(ip: IpAddr, port: u16) -> (r: SocketAddr)
        ensures
            r == socket_addr(ip, port),
    {
        match ip {
            IpAddr::V4(ip) => SocketAddr::V4(SocketAddrV4 { ip, port }),
            IpAddr::V6(ip) => SocketAddr::V6(SocketAddrV6 { ip, port, flowinfo: 0, scope_id: 0 }),
        }
    }

    pub fn ip(&self) -> (r: IpAddr)
        ensures
            r == self.ip_of(),
    {
        match self {
            SocketAddr::V4(v4) => IpAddr::V4(v4.ip),
            SocketAddr::V6(v6) => IpAddr::V6(v6.ip),
        }
    }

    pub fn port(&self) -> (r: u16)
        ensures
            r == self.port_of(),
    {
        match self {
            SocketAddr::V4(v4) => v4.port,
            SocketAddr::V6(v6) => v6.port,
        }
    }
}

/// Whether `addr` is an IPv4-mapped IPv6 address.
pub open spec fn v4_mapped(addr: SocketAddr) -> bool {
    addr matches SocketAddr::V6(v6) && v6.ip.is_v4_mapped()
}

/// `addr` with an IPv4-mapped IPv6 address replaced by the IPv4 address that it stands for.
pub open spec fn normalized(addr: SocketAddr) -> SocketAddr {
    match addr {
        SocketAddr::V6(v6) if v6.ip.is_v4_mapped() => SocketAddr::V4(
            SocketAddrV4 { ip: v6.ip.low_v4(), port: v6.port },
        ),
        _ => addr,
    }
}

/// Normalize an IPv4-mapped IPv6 address (`::ffff:a.b.c.d`) back to plain IPv4
/// so that it is routed to the IPv4 socket. The IPv6 socket is IPv6-only, so a
/// mapped address would otherwise fail to send.
pub fn normalize_v4_mapped(addr: SocketAddr) -> (r: SocketAddr)
    ensures
        r == normalized(addr),
{
    match addr {
        SocketAddr::V6(v6) => match v6.ip.to_ipv4_mapped() {
            Some(v4) => SocketAddr::new(IpAddr::V4(v4), v6.port),
            None => addr,
        },
        SocketAddr::V4(_) => addr,
    }
}

/// The address that a datagram or stream to `target` reaches, if there is a target.
pub open spec fn reached(target: Option<SocketAddr>) -> Option<SocketAddr> {
    match target {
        Some(t) => Some(normalized(t)),
        None => None,
    }
}

/// Normalizing leaves no IPv4-mapped address, so a second time changes nothing.
pub proof fn normalizing_is_final(addr: SocketAddr)
    ensures
        !v4_mapped(normalized(addr)),
        normalized(normalized(addr)) == normalized(addr),
{
}

/// Normalizing keeps the port, and keeps every address that is not IPv4-mapped as it is.
pub proof fn normalizing_keeps_the_rest(addr: SocketAddr)
    ensures
        normalized(addr).port_of() == addr.port_of(),
        !v4_mapped(addr) ==> normalized(addr) == addr,
{
}

/// The mapped form of an IPv4 address, `::ffff:a.b.c.d`.
pub open spec fn mapped_form(ip: Ipv4Addr) -> Ipv6Addr {
    Ipv6Addr {
        s0: 0,
        s1: 0,
        s2: 0,
        s3: 0,
        s4: 0,
        s5: 0xffff,
        s6: octet_pair(ip.a, ip.b),
        s7: octet_pair(ip.c, ip.d),
    }
}

/// A target written in mapped form is normalized to the IPv4 address it was made from.
pub proof fn mapped_target_becomes_ipv4(ip: Ipv4Addr, port: u16)
    ensures
        normalized(socket_addr(IpAddr::V6(mapped_form(ip)), port)) == socket_addr(
            IpAddr::V4(ip),
            port,
        ),
{
    assert(octet_pair(ip.a, ip.b) == ip.a * 256 + ip.b);
    assert(octet_pair(ip.c, ip.d) == ip.c * 256 + ip.d);
}

/// The IPv4 loopback addresses are those from `127.0.0.0` to `127.255.255.255`, and of
/// the IPv6 addresses the first after the one of all zeros is the only one.
pub proof fn what_is_loopback(v4: Ipv4Addr, v6: Ipv6Addr)
    ensures
        loopback(IpAddr::V4(v4)) <==> 0x7f00_0000 <= v4.a * 0x100_0000 + v4.b * 0x1_0000 + v4.c
            * 0x100 + v4.d <= 0x7fff_ffff,
        loopback(IpAddr::V6(v6)) <==> v6.s7 == 1 && v6.s0 + v6.s1 + v6.s2 + v6.s3 + v6.s4 + v6.s5
            + v6.s6 == 0,
{
    let one = seq![0u16, 0, 0, 0, 0, 0, 0, 1];
    let g = v6.segs();
    if g == one {
        assert(g[0] == 0 && g[1] == 0 && g[2] == 0 && g[3] == 0 && g[4] == 0 && g[5] == 0 && g[6]
            == 0 && g[7] == 1);
    } else if v6.s7 == 1 && v6.s0 + v6.s1 + v6.s2 + v6.s3 + v6.s4 + v6.s5 + v6.s6 == 0 {
        assert(g =~= one);
    }
}

/// The segments of an address stand in the order of significance, and an address is
/// made up of its segments.
pub proof fn segments_stand_in_order(ip: Ipv6Addr)
    ensures
        ip.segs().len() == 8,
        ip.segs()[0] == ip.s0 && ip.segs()[1] == ip.s1 && ip.segs()[2] == ip.s2 && ip.segs()[3]
            == ip.s3,
        ip.segs()[4] == ip.s4 && ip.segs()[5] == ip.s5 && ip.segs()[6] == ip.s6 && ip.segs()[7]
            == ip.s7,
        Ipv6Addr::of_segs(ip.segs()) == ip,
{
}

/// An address made of an IP address and a port has them, and nothing besides; and so
/// does any other address.
pub proof fn an_address_has_its_parts(
    ip: IpAddr,
    port: u16,
    v4: SocketAddrV4,
    v6: SocketAddrV6,
)
    ensures
        socket_addr(ip, port).ip_of() == ip,
        socket_addr(ip, port).port_of() == port,
        socket_addr(ip, port) matches SocketAddr::V6(sa) ==> sa.flowinfo == 0 && sa.scope_id == 0,
        SocketAddr::V4(v4).ip_of() == IpAddr::V4(v4.ip),
        SocketAddr::V4(v4).port_of() == v4.port,
        SocketAddr::V6(v6).ip_of() == IpAddr::V6(v6.ip),
        SocketAddr::V6(v6).port_of() == v6.port,
{
}

/// Normalizing changes an IPv6 address in `::ffff:0:0/96` alone. It becomes an IPv4
/// address with the same last 32 bits and the same port.
pub proof fn what_normalizing_changes(v4: SocketAddrV4, v6: SocketAddrV6)
    ensures
        normalized(SocketAddr::V4(v4)) == SocketAddr::V4(v4),
        v6.ip.s0 == 0 && v6.ip.s1 == 0 && v6.ip.s2 == 0 && v6.ip.s3 == 0 && v6.ip.s4 == 0
            && v6.ip.s5 == 0xffff ==> (normalized(SocketAddr::V6(v6)) matches SocketAddr::V4(r)
            && r.ip.a * 0x100 + r.ip.b == v6.ip.s6 && r.ip.c * 0x100 + r.ip.d == v6.ip.s7 && r.port
            == v6.port),
        !(v6.ip.s0 == 0 && v6.ip.s1 == 0 && v6.ip.s2 == 0 && v6.ip.s3 == 0 && v6.ip.s4 == 0
            && v6.ip.s5 == 0xffff) ==> normalized(SocketAddr::V6(v6)) == SocketAddr::V6(v6),
        v4_mapped(SocketAddr::V6(v6)) <==> normalized(SocketAddr::V6(v6)) is V4,
        !v4_mapped(SocketAddr::V4(v4)),
{
}

/// Of two octets in a segment the first is the more significant one.
pub proof fn octets_make_a_segment(hi: u8, lo: u8)
    ensures
        octet_pair(hi, lo) == hi * 0x100 + lo,
{
}

/// What there is to reach is what normalizing gives, and with no target there is
/// nothing to reach.
pub proof fn what_is_reached(t: SocketAddr)
    ensures
        reached(Some(t)) == Some(normalized(t)),
        reached(None) is None,
{
}

} // verus!

//! Where a client asks to be relayed to, and the addresses that stands for.
use vstd::prelude::*;

use crate::addr::{socket_addr, IpAddr, Ipv4Addr, Ipv6Addr, SocketAddr};
use crate::literal::{format_ip, ip_of, ip_text, parse_ip};
use crate::roundtrip::written_address_is_read_back;

verus! {

/// The address in a client's request. `S` is the type of text: `String`, or
/// `Seq<char>` where contracts speak of it.
#[derive(Debug, PartialEq, Eq)]
pub enum Address<S = String> {
    Absent,
    DomainAddress(S, u16),
    SocketAddress(SocketAddr),
}

impl View for Address<String> {
    type V = Address<Seq<char>>;

    open spec fn view(&self) -> Address<Seq<char>> {
        match self {
            Address::Absent => Address::Absent,
            Address::DomainAddress(domain, port) => Address::DomainAddress(domain@, *port),
            Address::SocketAddress(addr) => Address::SocketAddress(*addr),
        }
    }
}

/// What a name resolved to.
#[derive(Clone, Copy, Debug, PartialEq, Eq, Structural)]
pub struct ResolveInfo {
    pub ipv4: Option<Ipv4Addr>,
    pub ipv6: Option<Ipv6Addr>,
}

impl ResolveInfo {
    pub fn from_ipv4(ip: Ipv4Addr) -> (r: ResolveInfo)
        ensures
            r == (ResolveInfo { ipv4: Some(ip), ipv6: None }),
    {
        ResolveInfo { ipv4: Some(ip), ipv6: None }
    }
}

/// A host and port to dial, with what the host resolved to where that is known.
#[derive(Debug, PartialEq, Eq)]
pub struct Addr<S = String> {
    pub host: S,
    pub port: u16,
    pub resolve_info: Option<ResolveInfo>,
}

impl View for Addr<String> {
    type V = Addr<Seq<char>>;

    open spec fn view(&self) -> Addr<Seq<char>> {
        Addr { host: self.host@, port: self.port, resolve_info: self.resolve_info }
    }
}

impl Addr<String> {
    pub fn new(host: &str, port: u16) -> (r: Addr)
        ensures
            r@ == (Addr { host: host@, port, resolve_info: None::<ResolveInfo> }),
    {
        Addr { host: String::from_str(host), port, resolve_info: None }
    }

    pub fn with_resolve_info(self, info: ResolveInfo) -> (r: Addr)
        ensures
            r@ == (Addr { resolve_info: Some(info), ..self@ }),
    {
        Addr { host: self.host, port: self.port, resolve_info: Some(info) }
    }
}

/// How a direct outbound chooses between the address families.
#[derive(Clone, Copy, Debug, PartialEq, Eq, Structural)]
pub enum DirectMode {
    Auto,
    Prefer64,
    Prefer46,
    Only6,
    Only4,
}

/// The dialling address of `addr`: the domain as it is, an IP address as text,
/// and the empty host with port 0 for no address.
pub open spec fn acl_addr_of(addr: Address<Seq<char>>) -> Addr<Seq<char>> {
    match addr {
        Address::Absent => Addr { host: Seq::empty(), port: 0, resolve_info: None },
        Address::DomainAddress(domain, port) => Addr { host: domain, port, resolve_info: None },
        Address::SocketAddress(sa) => Addr {
            host: ip_text(sa.ip_of()),
            port: sa.port_of(),
            resolve_info: None,
        },
    }
}

/// Convert a client's address to a dialling address.
pub fn address_to_acl_addr(addr: &Address) -> (r: Addr)
    ensures
        r@ == acl_addr_of(addr@),
{
    match addr {
        Address::DomainAddress(domain, port) => Addr::new(domain.as_str(), *port),
        Address::SocketAddress(sock_addr) => Addr {
            host: format_ip(sock_addr.ip()),
            port: sock_addr.port(),
            resolve_info: None,
        },
        Address::Absent => {
            let host = String::new();
            assert(host@ =~= Seq::empty());
            Addr { host, port: 0, resolve_info: None }
        },
    }
}

/// The IPv4 address of `addr`: the resolved one, or the host where nothing was
/// resolved and the host is an IPv4 literal.
pub open spec fn v4_of(addr: Addr<Seq<char>>) -> Option<Ipv4Addr> {
    match addr.resolve_info {
        Some(info) => info.ipv4,
        None => match ip_of(addr.host) {
            Some(IpAddr::V4(ip)) => Some(ip),
            _ => None,
        },
    }
}

/// The IPv6 address of `addr`, likewise.
pub open spec fn v6_of(addr: Addr<Seq<char>>) -> Option<Ipv6Addr> {
    match addr.resolve_info {
        Some(info) => info.ipv6,
        None => match ip_of(addr.host) {
            Some(IpAddr::V6(ip)) => Some(ip),
            _ => None,
        },
    }
}

pub open spec fn v4_target(addr: Addr<Seq<char>>) -> Option<SocketAddr> {
    match v4_of(addr) {
        Some(ip) => Some(socket_addr(IpAddr::V4(ip), addr.port)),
        None => None,
    }
}

pub open spec fn v6_target(addr: Addr<Seq<char>>) -> Option<SocketAddr> {
    match v6_of(addr) {
        Some(ip) => Some(socket_addr(IpAddr::V6(ip), addr.port)),
        None => None,
    }
}

/// The targets of a datagram to `addr`, in the order in which they are tried.
pub open spec fn candidates(mode: Option<DirectMode>, addr: Addr<Seq<char>>) -> Seq<
    Option<SocketAddr>,
> {
    match mode {
        Some(DirectMode::Prefer64) => seq![v6_target(addr), v4_target(addr)],
        Some(DirectMode::Only6) => seq![v6_target(addr), None],
        Some(DirectMode::Only4) => seq![v4_target(addr), None],
        Some(DirectMode::Auto) | Some(DirectMode::Prefer46) | None => seq![
            v4_target(addr),
            v6_target(addr),
        ],
    }
}

/// Ordered UDP send targets for a resolved address, honoring the direct
/// family-selection `mode`. Slot 0 is the preferred family; slot 1 (if
/// resolved) is the other family, used as a send-time fallback. `None` (no
/// direct outbound), `Auto` and `Prefer46` prefer IPv4 for compatibility.
/// Addresses without `resolve_info` (IP literals) fall back to reading the host
/// as a single candidate of its own family.
pub fn udp_target_candidates(mode: Option<DirectMode>, acl_addr: &Addr) -> (r: [Option<
    SocketAddr,
>; 2])
    ensures
        r@ == candidates(mode, acl_addr@),
{
    let port: u16 = acl_addr.port;
    let (v4, v6): (Option<SocketAddr>, Option<SocketAddr>) = match &acl_addr.resolve_info {
        Some(info) => (
            match info.ipv4 {
                Some(ip) => Some(SocketAddr::new(IpAddr::V4(ip), port)),
                None => None,
            },
            match info.ipv6 {
                Some(ip) => Some(SocketAddr::new(IpAddr::V6(ip), port)),
                None => None,
            },
        ),
        None => match parse_ip(acl_addr.host.as_str()) {
            Some(IpAddr::V4(ip)) => (Some(SocketAddr::new(IpAddr::V4(ip), port)), None),
            Some(IpAddr::V6(ip)) => (None, Some(SocketAddr::new(IpAddr::V6(ip), port))),
            None => (None, None),
        },
    };
    assert(v4 == v4_target(acl_addr@) && v6 == v6_target(acl_addr@));
    let r: [Option<SocketAddr>; 2] = match mode {
        Some(DirectMode::Prefer64) => [v6, v4],
        Some(DirectMode::Only6) => [v6, None],
        Some(DirectMode::Only4) => [v4, None],
        Some(DirectMode::Auto) | Some(DirectMode::Prefer46) | None => [v4, v6],
    };
    assert(r@ =~= candidates(mode, acl_addr@));
    r
}

/// `Only4` yields IPv4 targets alone, and `Only6` IPv6 targets alone.
pub proof fn single_family_modes_hold_to_their_family(addr: Addr<Seq<char>>, i: int)
    requires
        0 <= i < 2,
    ensures
        candidates(Some(DirectMode::Only4), addr)[i] matches Some(t) ==> t is V4,
        candidates(Some(DirectMode::Only6), addr)[i] matches Some(t) ==> t is V6,
{
}

/// `Prefer64` tries the targets of `Prefer46` in the opposite order, and `Auto`
/// and no direct outbound try them in the order of `Prefer46`.
pub proof fn preference_only_orders(addr: Addr<Seq<char>>)
    ensures
        candidates(Some(DirectMode::Prefer64), addr) == candidates(
            Some(DirectMode::Prefer46),
            addr,
        ).reverse(),
        candidates(Some(DirectMode::Auto), addr) == candidates(Some(DirectMode::Prefer46), addr),
        candidates(None, addr) == candidates(Some(DirectMode::Prefer46), addr),
{
    assert(candidates(Some(DirectMode::Prefer64), addr) =~= candidates(
        Some(DirectMode::Prefer46),
        addr,
    ).reverse());
}

/// Every target has the port that was asked for, and the two differ in family.
pub proof fn candidates_keep_the_port(mode: Option<DirectMode>, addr: Addr<Seq<char>>, i: int)
    requires
        0 <= i < 2,
    ensures
        candidates(mode, addr).len() == 2,
        candidates(mode, addr)[i] matches Some(t) ==> t.port_of() == addr.port,
        candidates(mode, addr)[0] matches Some(s) ==> (candidates(mode, addr)[1] matches Some(t)
            ==> (s is V4) != (t is V4)),
{
}

/// A client that names a socket address gets that address as its one target,
/// in every mode that admits its family, and none in a mode that does not.
pub proof fn socket_address_is_its_own_target(mode: Option<DirectMode>, sa: SocketAddr)
    ensures
        ({
            let c = candidates(mode, acl_addr_of(Address::SocketAddress(sa)));
            let own = Some(socket_addr(sa.ip_of(), sa.port_of()));
            let admitted = match mode {
                Some(DirectMode::Only4) => sa is V4,
                Some(DirectMode::Only6) => sa is V6,
                _ => true,
            };
            if admitted {
                (c[0] == own && c[1] is None) || (c[0] is None && c[1] == own)
            } else {
                c[0] is None && c[1] is None
            }
        }),
{
    written_address_is_read_back(sa.ip_of());
}

/// A host that is no IP literal and was not resolved has no target.
pub proof fn unresolved_name_has_no_target(mode: Option<DirectMode>, addr: Addr<Seq<char>>)
    requires
        addr.resolve_info is None,
        ip_of(addr.host) is None,
    ensures
        candidates(mode, addr) == seq![None::<SocketAddr>, None],
{
    assert(candidates(mode, addr) =~= seq![None::<SocketAddr>, None]);
}

/// A name is dialled as it is, an address as a text from which it can be read back,
/// each with the port that was named, and with nothing resolved yet.
pub proof fn what_is_named_is_dialled(domain: Seq<char>, port: u16, sa: SocketAddr)
    ensures
        acl_addr_of(Address::DomainAddress(domain, port)).host == domain,
        acl_addr_of(Address::DomainAddress(domain, port)).port == port,
        acl_addr_of(Address::SocketAddress(sa)).host == ip_text(sa.ip_of()),
        ip_of(acl_addr_of(Address::SocketAddress(sa)).host) == Some(sa.ip_of()),
        acl_addr_of(Address::SocketAddress(sa)).port == sa.port_of(),
        acl_addr_of(Address::Absent).host.len() == 0,
        acl_addr_of(Address::Absent).port == 0,
        acl_addr_of(Address::DomainAddress(domain, port)).resolve_info is None,
        acl_addr_of(Address::SocketAddress(sa)).resolve_info is None,
        acl_addr_of(Address::Absent).resolve_info is None,
{
    written_address_is_read_back(sa.ip_of());
}

/// Where a name was resolved, its targets are the very addresses that it resolved to,
/// at the port asked for. Each family that it resolved in and that the mode admits has
/// its target, and no other family has one: not the host's own text, either.
pub proof fn targets_are_what_was_resolved(
    mode: Option<DirectMode>,
    addr: Addr<Seq<char>>,
    info: ResolveInfo,
    t: SocketAddr,
)
    requires
        addr.resolve_info == Some(info),
    ensures
        candidates(mode, addr).len() == 2,
        candidates(mode, addr).contains(Some(t)) <==> match t {
            SocketAddr::V4(sa) => mode != Some(DirectMode::Only6) && info.ipv4 == Some(sa.ip)
                && sa.port == addr.port,
            SocketAddr::V6(sa) => mode != Some(DirectMode::Only4) && info.ipv6 == Some(sa.ip)
                && sa.port == addr.port && sa.flowinfo == 0 && sa.scope_id == 0,
        },
{
    let c = candidates(mode, addr);
    assert(c[0] == c[0] && c[1] == c[1]);
    assert(c.contains(Some(t)) <==> c[0] == Some(t) || c[1] == Some(t));
}

/// Where nothing was resolved, a host that is the text of an address has that address
/// as its one target, at the port asked for, if the mode admits its family.
pub proof fn a_literal_is_its_own_target(
    mode: Option<DirectMode>,
    addr: Addr<Seq<char>>,
    t: SocketAddr,
)
    requires
        addr.resolve_info is None,
    ensures
        candidates(mode, addr).contains(Some(t)) <==> {
            &&& ip_of(addr.host) == Some(t.ip_of())
            &&& t == socket_addr(t.ip_of(), addr.port)
            &&& t is V4 ==> mode != Some(DirectMode::Only6)
            &&& t is V6 ==> mode != Some(DirectMode::Only4)
        },
{
    let c = candidates(mode, addr);
    assert(c[0] == c[0] && c[1] == c[1]);
    assert(c.contains(Some(t)) <==> c[0] == Some(t) || c[1] == Some(t));
}

/// `Prefer64` and `Only6` have their IPv6 target in front and no IPv6 target behind;
/// every other mode, and no direct outbound, has its IPv4 target in front and no IPv4
/// target behind.
pub proof fn the_preferred_family_comes_first(mode: Option<DirectMode>, addr: Addr<Seq<char>>)
    ensures
        ({
            let c = candidates(mode, addr);
            if mode == Some(DirectMode::Prefer64) || mode == Some(DirectMode::Only6) {
                (c[0] matches Some(t) ==> t is V6) && (c[1] matches Some(t) ==> t is V4)
            } else {
                (c[0] matches Some(t) ==> t is V4) && (c[1] matches Some(t) ==> t is V6)
            }
        }),
        mode == Some(DirectMode::Only4) || mode == Some(DirectMode::Only6) ==> candidates(
            mode,
            addr,
        )[1] is None,
{
}

} // verus!

use server_tuic::addr::{
    normalize_v4_mapped, IpAddr, Ipv4Addr, Ipv6Addr, SocketAddr, SocketAddrV6,
};
use server_tuic::target::{
    address_to_acl_addr, udp_target_candidates, Addr, Address, DirectMode, ResolveInfo,
};

const LOCALHOST_V6: Ipv6Addr = Ipv6Addr {
    s0: 0,
    s1: 0,
    s2: 0,
    s3: 0,
    s4: 0,
    s5: 0,
    s6: 0,
    s7: 1,
};

fn v4(a: u8, b: u8, c: u8, d: u8, port: u16) -> SocketAddr {
    SocketAddr::new(IpAddr::V4(Ipv4Addr::new(a, b, c, d)), port)
}

fn v6_localhost(port: u16) -> SocketAddr {
    SocketAddr::new(IpAddr::V6(LOCALHOST_V6), port)
}

fn dual_addr(port: u16) -> Addr {
    Addr::new("dual.example", port).with_resolve_info(ResolveInfo {
        ipv4: Some(Ipv4Addr::new(1, 2, 3, 4)),
        ipv6: Some(LOCALHOST_V6),
    })
}

#[test]
fn prefer64_orders_ipv6_then_ipv4() {
    let addr = dual_addr(443);
    assert_eq!(
        udp_target_candidates(Some(DirectMode::Prefer64), &addr),
        [Some(v6_localhost(443)), Some(v4(1, 2, 3, 4, 443))]
    );
}

#[test]
fn prefer46_orders_ipv4_then_ipv6() {
    let addr = dual_addr(443);
    assert_eq!(
        udp_target_candidates(Some(DirectMode::Prefer46), &addr),
        [Some(v4(1, 2, 3, 4, 443)), Some(v6_localhost(443))]
    );
}

#[test]
fn auto_and_non_direct_prefer_ipv4_then_ipv6() {
    let addr = dual_addr(443);
    let expected = [Some(v4(1, 2, 3, 4, 443)), Some(v6_localhost(443))];
    assert_eq!(udp_target_candidates(Some(DirectMode::Auto), &addr), expected);
    // `None` means no direct outbound: keep the compatibility-first v4 order.
    assert_eq!(udp_target_candidates(None, &addr), expected);
}

#[test]
fn only6_and_only4_yield_single_family() {
    let addr = dual_addr(443);
    assert_eq!(
        udp_target_candidates(Some(DirectMode::Only6), &addr),
        [Some(v6_localhost(443)), None]
    );
    assert_eq!(
        udp_target_candidates(Some(DirectMode::Only4), &addr),
        [Some(v4(1, 2, 3, 4, 443)), None]
    );
}

#[test]
fn missing_preferred_family_is_skipped() {
    // Prefer64 with a v4-only resolution: no IPv6 candidate, so slot 0 is
    // None and only the IPv4 target remains.
    let addr = Addr::new("v4.example", 53)
        .with_resolve_info(ResolveInfo::from_ipv4(Ipv4Addr::new(9, 9, 9, 9)));
    assert_eq!(
        udp_target_candidates(Some(DirectMode::Prefer64), &addr),
        [None, Some(v4(9, 9, 9, 9, 53))]
    );
}

#[test]
fn ip_literal_without_resolve_info_parses_host() {
    // Socket address targets carry no resolve_info; the host is a literal IP
    // that must be read as a single candidate.
    let addr = Addr::new("203.0.113.7", 8080);
    assert_eq!(
        udp_target_candidates(Some(DirectMode::Auto), &addr),
        [Some(v4(203, 0, 113, 7, 8080)), None]
    );
}

#[test]
fn ipv6_literal_without_resolve_info_is_parsed() {
    // An IPv6-literal target with no resolve_info must still yield a candidate.
    // Prefer64 puts the (only) v6 candidate in slot 0.
    let addr = Addr::new("2606:4700:4700::1111", 443);
    let expected = SocketAddr::new(
        IpAddr::V6(Ipv6Addr::new(0x2606, 0x4700, 0x4700, 0, 0, 0, 0, 0x1111)),
        443,
    );
    assert_eq!(
        udp_target_candidates(Some(DirectMode::Prefer64), &addr),
        [Some(expected), None]
    );
}

#[test]
fn only4_with_ipv6_literal_yields_no_target() {
    // Family mode applies to IP literals too: an Only4 outbound cannot use an
    // IPv6-literal target, so there is no candidate.
    let addr = Addr::new("2606:4700:4700::1111", 443);
    assert_eq!(udp_target_candidates(Some(DirectMode::Only4), &addr), [None, None]);
}

#[test]
fn unresolved_name_yields_no_target() {
    let addr = Addr::new("name.example", 443);
    assert_eq!(udp_target_candidates(Some(DirectMode::Auto), &addr), [None, None]);
}

#[test]
fn empty_resolution_is_not_replaced_by_the_host() {
    let addr = Addr::new("203.0.113.7", 443)
        .with_resolve_info(ResolveInfo { ipv4: None, ipv6: None });
    assert_eq!(udp_target_candidates(Some(DirectMode::Auto), &addr), [None, None]);
}

#[test]
fn addresses_become_hosts_and_ports() {
    assert_eq!(
        address_to_acl_addr(&Address::DomainAddress("a.example".to_string(), 53)),
        Addr::new("a.example", 53)
    );
    assert_eq!(
        address_to_acl_addr(&Address::SocketAddress(v4(10, 0, 0, 1, 80))),
        Addr::new("10.0.0.1", 80)
    );
    assert_eq!(
        address_to_acl_addr(&Address::SocketAddress(v6_localhost(80))),
        Addr::new("::1", 80)
    );
    assert_eq!(address_to_acl_addr(&Address::Absent), Addr::new("", 0));
}

#[test]
fn socket_address_is_its_own_candidate() {
    let mapped = SocketAddr::new(
        IpAddr::V6(Ipv6Addr::new(0, 0, 0, 0, 0, 0xffff, 0x7f00, 1)),
        7,
    );
    for sa in [v4(10, 0, 0, 1, 80), v6_localhost(443), mapped] {
        let addr = address_to_acl_addr(&Address::SocketAddress(sa));
        let [first, second] = udp_target_candidates(Some(DirectMode::Prefer64), &addr);
        assert_eq!(first.or(second), Some(sa));
        assert!(first.is_none() || second.is_none());
    }
}

#[test]
fn mapped_addresses_are_normalized() {
    let mapped = SocketAddr::V6(SocketAddrV6 {
        ip: Ipv6Addr::new(0, 0, 0, 0, 0, 0xffff, 0x0102, 0x0304),
        port: 99,
        flowinfo: 5,
        scope_id: 6,
    });
    assert_eq!(normalize_v4_mapped(mapped), v4(1, 2, 3, 4, 99));
    assert_eq!(normalize_v4_mapped(v4(1, 2, 3, 4, 99)), v4(1, 2, 3, 4, 99));
}

#[test]
fn other_addresses_are_left_alone() {
    let scoped = SocketAddr::V6(SocketAddrV6 {
        ip: Ipv6Addr::new(0xfe80, 0, 0, 0, 0, 0, 0, 1),
        port: 99,
        flowinfo: 5,
        scope_id: 6,
    });
    assert_eq!(normalize_v4_mapped(scoped), scoped);
    assert_eq!(normalize_v4_mapped(v6_localhost(1)), v6_localhost(1));
}

#[test]
fn loopback_is_127_and_1() {
    assert!(IpAddr::V4(Ipv4Addr::new(127, 9, 8, 7)).is_loopback());
    assert!(!IpAddr::V4(Ipv4Addr::new(128, 0, 0, 1)).is_loopback());
    assert!(IpAddr::V6(LOCALHOST_V6).is_loopback());
    assert!(!IpAddr::V6(Ipv6Addr::new(0, 0, 0, 0, 0, 0xffff, 0x7f00, 1)).is_loopback());
}

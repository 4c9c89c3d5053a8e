use bytes::Bytes;
use server_tuic::addr::{IpAddr, Ipv4Addr, Ipv6Addr, SocketAddr};
use server_tuic::connection::{AclQuery, Config, Connection, Relay, UdpRelayMode, Usage};
use server_tuic::error::{Error, SocketOp};
use server_tuic::outbound::{resolve_decision, OutboundHandler, Protocol, ResolveDecision};
use server_tuic::target::{Addr, Address, DirectMode, ResolveInfo};
use server_tuic::tcp::{ConnectAction, ConnectEvent, ConnectFlow, Refusal};
use server_tuic::udp::{DropReason, PacketAction, PacketEnd, PacketEvent, PacketFlow};

const DIRECT: OutboundHandler = OutboundHandler::Direct {
    mode: DirectMode::Prefer64,
    udp: true,
};

fn sock(a: u8, b: u8, c: u8, d: u8, port: u16) -> SocketAddr {
    SocketAddr::new(IpAddr::V4(Ipv4Addr::new(a, b, c, d)), port)
}

fn mapped(a: u8, b: u8, c: u8, d: u8, port: u16) -> SocketAddr {
    let high = u16::from(a) * 256 + u16::from(b);
    let low = u16::from(c) * 256 + u16::from(d);
    let ip = Ipv6Addr::new(0, 0, 0, 0, 0, 0xffff, high, low);
    SocketAddr::new(IpAddr::V6(ip), port)
}

fn connection(acl: bool) -> Connection {
    Connection::new(Config {
        acl,
        drop_loopback: true,
        drop_private: true,
        udp_relay_ipv6: true,
        max_external_packet_size: 1500,
    })
}

fn domain() -> Address {
    Address::DomainAddress("a.example".to_string(), 443)
}

fn resolved() -> ResolveInfo {
    ResolveInfo::from_ipv4(Ipv4Addr::new(1, 2, 3, 4))
}

#[test]
fn loopback_and_private_targets_are_dropped_if_configured() {
    let mut conn = connection(false);
    assert!(conn.should_drop_address(&sock(127, 0, 0, 1, 1), false));
    assert!(conn.should_drop_address(&sock(10, 0, 0, 1, 1), true));
    assert!(!conn.should_drop_address(&sock(9, 9, 9, 9, 1), false));
    assert!(conn.should_drop_address(&mapped(127, 0, 0, 1, 1), false));
    assert!(!conn.should_drop_address(&mapped(9, 9, 9, 9, 1), false));
    conn.cfg.drop_loopback = false;
    conn.cfg.drop_private = false;
    assert!(!conn.should_drop_address(&sock(127, 0, 0, 1, 1), false));
    assert!(!conn.should_drop_address(&sock(10, 0, 0, 1, 1), true));
}

#[test]
fn rules_are_asked_about_host_and_port() {
    let conn = connection(true);
    assert_eq!(
        conn.acl_query(&domain()),
        Some(AclQuery { host: "a.example".to_string(), port: 443 })
    );
    assert_eq!(
        conn.acl_query(&Address::SocketAddress(sock(1, 2, 3, 4, 5))),
        Some(AclQuery { host: "1.2.3.4".to_string(), port: 5 })
    );
    assert_eq!(
        conn.acl_query(&Address::Absent),
        Some(AclQuery { host: String::new(), port: 0 })
    );
    assert_eq!(connection(false).acl_query(&domain()), None);
}

#[test]
fn without_a_match_the_outbound_is_direct() {
    assert_eq!(
        Connection::get_outbound_handler(None),
        OutboundHandler::Direct { mode: DirectMode::Auto, udp: true }
    );
    assert_eq!(
        Connection::get_outbound_handler(Some(OutboundHandler::Reject)),
        OutboundHandler::Reject
    );
}

#[test]
fn outbounds_say_what_they_are() {
    let proxy = OutboundHandler::Proxied { udp: false };
    assert!(DIRECT.is_direct() && DIRECT.allows_udp() && !DIRECT.is_reject());
    assert!(!proxy.is_direct() && !proxy.allows_udp() && !proxy.is_reject());
    assert!(OutboundHandler::Reject.is_reject() && !OutboundHandler::Reject.allows_udp());
    assert_eq!(DIRECT.direct_mode(), Some(DirectMode::Prefer64));
    assert_eq!(proxy.direct_mode(), None);
}

#[test]
fn only_direct_domains_are_resolved_beforehand() {
    assert_eq!(
        resolve_decision(&DIRECT, &domain()),
        ResolveDecision::Cache("a.example".to_string())
    );
    assert_eq!(
        resolve_decision(&OutboundHandler::Proxied { udp: true }, &domain()),
        ResolveDecision::Skip
    );
    assert_eq!(
        resolve_decision(&DIRECT, &Address::SocketAddress(sock(1, 2, 3, 4, 5))),
        ResolveDecision::Skip
    );
}

#[test]
fn a_direct_stream_is_resolved_dialled_checked_and_copied() {
    let mut conn = connection(true);
    let (flow, action) =
        conn.handle_connect(ConnectFlow::Start { addr: domain() }, ConnectEvent::Begin);
    assert_eq!(
        action,
        ConnectAction::MatchAcl {
            query: AclQuery { host: "a.example".to_string(), port: 443 },
            protocol: Protocol::TCP,
        }
    );
    let (flow, action) = conn.handle_connect(flow, ConnectEvent::AclMatch(Some(DIRECT)));
    assert_eq!(action, ConnectAction::Resolve("a.example".to_string()));
    let (flow, action) = conn.handle_connect(flow, ConnectEvent::Resolved(Some(resolved())));
    assert_eq!(
        action,
        ConnectAction::Dial {
            addr: Addr::new("a.example", 443).with_resolve_info(resolved()),
            outbound: DIRECT,
        }
    );
    let (flow, action) = conn.handle_connect(flow, ConnectEvent::Dialed(true));
    assert_eq!(action, ConnectAction::QueryPeer);
    let peer = sock(1, 2, 3, 4, 443);
    let (flow, action) = conn.handle_connect(flow, ConnectEvent::PeerKnown(Some(peer)));
    assert_eq!(action, ConnectAction::ClassifyPeer(peer));
    let (flow, action) = conn.handle_connect(flow, ConnectEvent::PeerClassified(false));
    assert_eq!(action, ConnectAction::Copy);
    conn.auth = Some(77);
    let (flow, action) =
        conn.handle_connect(flow, ConnectEvent::Copied { tx: 10, rx: 20, failed: false });
    assert_eq!(action, ConnectAction::CloseClient { reset: false });
    let (flow, action) = conn.handle_connect(flow, ConnectEvent::ClientClosed);
    assert_eq!(action, ConnectAction::ShutTarget);
    let (flow, action) = conn.handle_connect(flow, ConnectEvent::TargetShut);
    assert_eq!(
        action,
        ConnectAction::Settle {
            failed: false,
            usage: Some(Usage { uid: 77, request: true, tx: Some(10), rx: Some(20) }),
        }
    );
    assert_eq!(flow, ConnectFlow::Ended);
    let (flow, action) = conn.handle_connect(flow, ConnectEvent::Dialed(true));
    assert_eq!((flow, action), (ConnectFlow::Ended, ConnectAction::Wait));
}

#[test]
fn a_failed_copy_resets_and_an_unknown_user_is_not_billed() {
    let conn = connection(false);
    let (flow, action) = conn.handle_connect(
        ConnectFlow::Copying,
        ConnectEvent::Copied { tx: 1, rx: 2, failed: true },
    );
    assert_eq!(action, ConnectAction::CloseClient { reset: true });
    let (flow, _) = conn.handle_connect(flow, ConnectEvent::ClientClosed);
    let (_, action) = conn.handle_connect(flow, ConnectEvent::TargetShut);
    assert_eq!(action, ConnectAction::Settle { usage: None, failed: true });
}

#[test]
fn rejected_streams_are_refused() {
    let conn = connection(true);
    let (flow, action) = conn.handle_connect(
        ConnectFlow::Matching { addr: domain() },
        ConnectEvent::AclMatch(Some(OutboundHandler::Reject)),
    );
    assert_eq!(action, ConnectAction::Refuse(Refusal::Rejected));
    assert_eq!(flow, ConnectFlow::Ended);
}

#[test]
fn unresolved_streams_are_refused() {
    let conn = connection(true);
    let (flow, _) = conn.handle_connect(
        ConnectFlow::Matching { addr: domain() },
        ConnectEvent::AclMatch(None),
    );
    let (flow, action) = conn.handle_connect(flow, ConnectEvent::Resolved(None));
    assert_eq!(action, ConnectAction::Refuse(Refusal::DnsFailed));
    assert_eq!(flow, ConnectFlow::Ended);
}

#[test]
fn direct_streams_to_refused_peers_are_blocked() {
    let conn = connection(false);
    let start = ConnectFlow::Start { addr: Address::SocketAddress(sock(127, 0, 0, 1, 80)) };
    let (flow, action) = conn.handle_connect(start, ConnectEvent::Begin);
    assert_eq!(
        action,
        ConnectAction::Dial {
            addr: Addr::new("127.0.0.1", 80),
            outbound: OutboundHandler::Direct { mode: DirectMode::Auto, udp: true },
        }
    );
    let (flow, _) = conn.handle_connect(flow, ConnectEvent::Dialed(true));
    let peer = sock(127, 0, 0, 1, 80);
    let (flow, action) = conn.handle_connect(flow, ConnectEvent::PeerKnown(Some(peer)));
    assert_eq!(action, ConnectAction::ClassifyPeer(peer));
    let (flow, action) = conn.handle_connect(flow, ConnectEvent::PeerClassified(false));
    assert_eq!(action, ConnectAction::Refuse(Refusal::Blocked));
    assert_eq!(flow, ConnectFlow::Ended);
}

/// How a direct stream goes on whose far end is `peer`, a private address or not.
fn inspected(conn: &Connection, peer: SocketAddr, private: bool) -> [ConnectAction; 2] {
    let (flow, asked) =
        conn.handle_connect(ConnectFlow::Inspecting, ConnectEvent::PeerKnown(Some(peer)));
    let (_, action) = conn.handle_connect(flow, ConnectEvent::PeerClassified(private));
    [asked, action]
}

#[test]
fn a_mapped_peer_is_checked_as_what_it_reaches() {
    let mut conn = connection(false);
    conn.cfg.drop_private = false;
    assert_eq!(
        inspected(&conn, mapped(127, 0, 0, 1, 80), false),
        [
            ConnectAction::ClassifyPeer(sock(127, 0, 0, 1, 80)),
            ConnectAction::Refuse(Refusal::Blocked),
        ]
    );
    assert_eq!(
        inspected(&conn, mapped(9, 9, 9, 9, 80), false),
        [ConnectAction::ClassifyPeer(sock(9, 9, 9, 9, 80)), ConnectAction::Copy]
    );
    let refused = [
        ConnectAction::ClassifyPeer(sock(10, 0, 0, 1, 80)),
        ConnectAction::Refuse(Refusal::Blocked),
    ];
    conn.cfg.drop_private = true;
    assert_eq!(inspected(&conn, mapped(10, 0, 0, 1, 80), true), refused);
    conn.cfg.drop_private = false;
    assert_eq!(inspected(&conn, mapped(10, 0, 0, 1, 80), true)[1], ConnectAction::Copy);
}

#[test]
fn an_unknown_peer_is_let_through() {
    let conn = connection(false);
    let (_, action) = conn.handle_connect(ConnectFlow::Inspecting, ConnectEvent::PeerKnown(None));
    assert_eq!(action, ConnectAction::Copy);
}

#[test]
fn proxied_streams_are_copied_unchecked() {
    let conn = connection(true);
    let proxy = OutboundHandler::Proxied { udp: false };
    let (flow, action) = conn.handle_connect(
        ConnectFlow::Matching { addr: domain() },
        ConnectEvent::AclMatch(Some(proxy)),
    );
    assert_eq!(
        action,
        ConnectAction::Dial { addr: Addr::new("a.example", 443), outbound: proxy }
    );
    let (_, action) = conn.handle_connect(flow, ConnectEvent::Dialed(true));
    assert_eq!(action, ConnectAction::Copy);
}

#[test]
fn a_failed_dial_is_abandoned() {
    let conn = connection(true);
    let (flow, action) = conn.handle_connect(
        ConnectFlow::Dialing { outbound: DIRECT },
        ConnectEvent::Dialed(false),
    );
    assert_eq!((flow, action), (ConnectFlow::Ended, ConnectAction::Abandon));
}

fn pkt() -> Bytes {
    Bytes::from(vec![1u8, 2, 3])
}

fn accepted(addr: Address) -> PacketEvent<u8> {
    PacketEvent::Accepted { pkt: pkt(), addr, assoc_id: 6 }
}

#[test]
fn a_datagram_opens_a_session_and_is_sent() {
    let mut conn = connection(true);
    conn.auth = Some(5);
    let (flow, action) =
        conn.handle_packet::<u8>(PacketFlow::Start, PacketEvent::Arrived(UdpRelayMode::Quic));
    assert_eq!(action, PacketAction::Accept);
    assert_eq!(conn.udp_relay_mode, Some(UdpRelayMode::Quic));
    let (flow, action) = conn.handle_packet(flow, accepted(domain()));
    assert_eq!(action, PacketAction::LockSessions);
    let (flow, action) = conn.handle_packet(flow, PacketEvent::<u8>::Locked);
    assert_eq!(action, PacketAction::CreateSession { assoc_id: 6 });
    let (flow, action) = conn.handle_packet(flow, PacketEvent::<u8>::SessionCreated(Ok(40)));
    assert_eq!(conn.session(6), Some(40));
    assert_eq!(
        action,
        PacketAction::MatchAcl {
            query: AclQuery { host: "a.example".to_string(), port: 443 },
            protocol: Protocol::UDP,
        }
    );
    let (flow, action) = conn.handle_packet(flow, PacketEvent::<u8>::AclMatch(Some(DIRECT)));
    assert_eq!(action, PacketAction::Resolve("a.example".to_string()));
    let v6 = Ipv6Addr::new(0x2606, 0, 0, 0, 0, 0, 0, 1);
    let info = ResolveInfo { ipv4: Some(Ipv4Addr::new(1, 2, 3, 4)), ipv6: Some(v6) };
    let (flow, action) = conn.handle_packet(flow, PacketEvent::<u8>::Resolved(Some(info)));
    let first = SocketAddr::new(IpAddr::V6(v6), 443);
    let second = sock(1, 2, 3, 4, 443);
    assert_eq!(
        action,
        PacketAction::Classify { first: Some(first), second: Some(second) }
    );
    let (flow, action) =
        conn.handle_packet(flow, PacketEvent::<u8>::Classified { first: false, second: false });
    assert_eq!(
        action,
        PacketAction::Send {
            session: 40,
            pkt: pkt(),
            targets: vec![first, second],
            usage: Some(Usage { uid: 5, request: true, tx: Some(3), rx: None }),
        }
    );
    let (flow, action) = conn.handle_packet(flow, PacketEvent::<u8>::Sent(Ok(())));
    assert_eq!(action, PacketAction::End(PacketEnd::Delivered));
    assert_eq!(flow, PacketFlow::Ended);
}

#[test]
fn a_session_opened_meanwhile_is_used() {
    let mut conn = connection(true);
    let (flow, _) = conn.handle_packet(PacketFlow::Accepting, accepted(domain()));
    conn.udp_sessions.insert(6, 8);
    let (flow, _) = conn.handle_packet(flow, PacketEvent::<u8>::Locked);
    assert_eq!(
        flow,
        PacketFlow::Matching { pkt: pkt(), addr: domain(), session: 8 }
    );
    let creating = PacketFlow::Creating { pkt: pkt(), addr: domain(), assoc_id: 6 };
    let (flow, _) = conn.handle_packet(creating, PacketEvent::<u8>::SessionCreated(Ok(9)));
    assert_eq!(
        flow,
        PacketFlow::Matching { pkt: pkt(), addr: domain(), session: 8 }
    );
    assert_eq!(conn.session(6), Some(8));
}

#[test]
fn a_known_session_is_used() {
    let mut conn = connection(true);
    conn.udp_sessions.insert(6, 8);
    let (flow, _) = conn.handle_packet(PacketFlow::Accepting, accepted(domain()));
    assert_eq!(
        flow,
        PacketFlow::Matching { pkt: pkt(), addr: domain(), session: 8 }
    );
}

#[test]
fn fragments_and_failures_end_quietly() {
    let mut conn = connection(true);
    let (_, action) = conn.handle_packet(PacketFlow::Accepting, PacketEvent::<u8>::Incomplete);
    assert_eq!(action, PacketAction::End(PacketEnd::Incomplete));
    let (_, action) = conn.handle_packet(PacketFlow::Accepting, PacketEvent::AcceptFailed(3u8));
    assert_eq!(action, PacketAction::End(PacketEnd::AcceptFailed(3)));
}

#[test]
fn a_failed_session_fails_the_datagram() {
    let mut conn = connection(true);
    let creating = PacketFlow::Creating { pkt: pkt(), addr: domain(), assoc_id: 6 };
    let failure = Error::Socket(SocketOp::SetOnlyV6, 2u8);
    let (_, action) = conn.handle_packet(creating, PacketEvent::SessionCreated(Err(failure)));
    assert_eq!(
        action,
        PacketAction::End(PacketEnd::Failed(Error::Socket(SocketOp::SetOnlyV6, 2)))
    );
    assert_eq!(conn.session(6), None);
}

fn after_match(handler: OutboundHandler) -> PacketAction<u8> {
    let mut conn = connection(true);
    let matching = PacketFlow::Matching { pkt: pkt(), addr: domain(), session: 1 };
    conn.handle_packet(matching, PacketEvent::AclMatch(Some(handler))).1
}

#[test]
fn datagrams_are_dropped_where_they_may_not_go() {
    let dropped = |why| PacketAction::End(PacketEnd::Dropped(why));
    assert_eq!(after_match(OutboundHandler::Reject), dropped(DropReason::Rejected));
    assert_eq!(
        after_match(OutboundHandler::Proxied { udp: false }),
        dropped(DropReason::UdpNotAllowed)
    );
    assert_eq!(
        after_match(OutboundHandler::Direct { mode: DirectMode::Auto, udp: false }),
        dropped(DropReason::UdpNotAllowed)
    );
    assert_eq!(
        after_match(OutboundHandler::Proxied { udp: true }),
        dropped(DropReason::Proxied)
    );
}

#[test]
fn an_unresolved_datagram_is_dropped() {
    let mut conn = connection(true);
    let resolving = PacketFlow::Resolving {
        pkt: pkt(),
        acl_addr: Addr::new("a.example", 443),
        mode: DirectMode::Auto,
        session: 1,
    };
    let (_, action) = conn.handle_packet(resolving, PacketEvent::<u8>::Resolved(None));
    assert_eq!(
        action,
        PacketAction::End(PacketEnd::Dropped(DropReason::DnsFailed))
    );
}

#[test]
fn a_datagram_without_a_usable_target_fails() {
    let mut conn = connection(true);
    let resolving = PacketFlow::Resolving {
        pkt: pkt(),
        acl_addr: Addr::new("a.example", 443),
        mode: DirectMode::Only6,
        session: 1,
    };
    let (_, action) = conn.handle_packet(resolving, PacketEvent::<u8>::Resolved(Some(resolved())));
    assert_eq!(
        action,
        PacketAction::End(PacketEnd::Failed(Error::NoUsableTarget))
    );
}

#[test]
fn without_rules_a_literal_goes_straight_to_its_target() {
    let mut conn = connection(false);
    conn.udp_sessions.insert(6, 8);
    let target = sock(9, 9, 9, 9, 53);
    let (flow, action) =
        conn.handle_packet(PacketFlow::Accepting, accepted(Address::SocketAddress(target)));
    assert_eq!(action, PacketAction::Classify { first: Some(target), second: None });
    let (_, action) =
        conn.handle_packet(flow, PacketEvent::<u8>::Classified { first: false, second: false });
    assert_eq!(
        action,
        PacketAction::Send { session: 8, pkt: pkt(), targets: vec![target], usage: None }
    );
}

#[test]
fn a_datagram_to_a_mapped_loopback_address_is_blocked() {
    let blocked = PacketAction::End(PacketEnd::Dropped(DropReason::Blocked));
    let asked = PacketAction::Classify { first: None, second: Some(sock(127, 0, 0, 1, 53)) };
    let target = Address::SocketAddress(mapped(127, 0, 0, 1, 53));
    let not_private = || PacketEvent::<u8>::Classified { first: false, second: false };

    let mut conn = connection(false);
    conn.cfg.drop_private = false;
    conn.udp_sessions.insert(6, 8);
    let (flow, action) = conn.handle_packet(PacketFlow::Accepting, accepted(target));
    assert_eq!(action, asked);
    let (flow, action) = conn.handle_packet(flow, not_private());
    assert_eq!((flow, action), (PacketFlow::Ended, blocked));

    let blocked = PacketAction::End(PacketEnd::Dropped(DropReason::Blocked));
    let target = Address::SocketAddress(mapped(127, 0, 0, 1, 53));
    let mut conn = connection(false);
    conn.cfg.drop_private = false;
    let (flow, _) = conn.handle_packet(PacketFlow::Accepting, accepted(target));
    let (flow, _) = conn.handle_packet(flow, PacketEvent::<u8>::Locked);
    let (flow, action) = conn.handle_packet(flow, PacketEvent::<u8>::SessionCreated(Ok(40)));
    assert_eq!(action, asked);
    let (flow, action) = conn.handle_packet(flow, not_private());
    assert_eq!((flow, action), (PacketFlow::Ended, blocked));
}

#[test]
fn a_datagram_to_a_mapped_address_goes_to_what_it_reaches() {
    let mut conn = connection(false);
    conn.udp_sessions.insert(6, 8);
    let reached = sock(10, 0, 0, 1, 53);
    let asked = PacketAction::Classify { first: None, second: Some(reached) };
    for private in [false, true] {
        let target = Address::SocketAddress(mapped(10, 0, 0, 1, 53));
        let (flow, action) = conn.handle_packet(PacketFlow::Accepting, accepted(target));
        assert_eq!(action, asked);
        let (_, action) =
            conn.handle_packet(flow, PacketEvent::<u8>::Classified { first: false, second: private });
        if private {
            assert_eq!(action, PacketAction::End(PacketEnd::Dropped(DropReason::Blocked)));
        } else {
            assert_eq!(
                action,
                PacketAction::Send { session: 8, pkt: pkt(), targets: vec![reached], usage: None }
            );
        }
    }
}

/// What a name's datagram comes to when it resolves to `info` and no target is private.
fn after_resolving(mode: DirectMode, info: ResolveInfo) -> PacketAction<u8> {
    let mut conn = connection(true);
    let resolving = PacketFlow::Resolving {
        pkt: pkt(),
        acl_addr: Addr::new("a.example", 443),
        mode,
        session: 1,
    };
    let (flow, _) = conn.handle_packet(resolving, PacketEvent::<u8>::Resolved(Some(info)));
    conn.handle_packet(flow, PacketEvent::Classified { first: false, second: false }).1
}

#[test]
fn a_name_is_sent_to_what_it_resolves_to() {
    let loopback = ResolveInfo {
        ipv4: Some(Ipv4Addr::new(127, 0, 0, 1)),
        ipv6: Some(Ipv6Addr::new(0, 0, 0, 0, 0, 0xffff, 0x7f00, 1)),
    };
    assert_eq!(
        after_resolving(DirectMode::Prefer64, loopback),
        PacketAction::End(PacketEnd::Dropped(DropReason::Blocked))
    );
    let fallback = ResolveInfo {
        ipv4: Some(Ipv4Addr::new(1, 2, 3, 4)),
        ipv6: Some(Ipv6Addr::new(0, 0, 0, 0, 0, 0xffff, 0x7f00, 1)),
    };
    let sent = PacketAction::Send {
        session: 1,
        pkt: pkt(),
        targets: vec![sock(1, 2, 3, 4, 443)],
        usage: None,
    };
    assert_eq!(after_resolving(DirectMode::Auto, fallback), sent);
    let mapped_only = ResolveInfo {
        ipv4: None,
        ipv6: Some(Ipv6Addr::new(0, 0, 0, 0, 0, 0xffff, 0x0102, 0x0304)),
    };
    assert_eq!(after_resolving(DirectMode::Only6, mapped_only), sent);
}

#[test]
fn the_filter_applies_to_every_candidate() {
    let conn = connection(false);
    let open = sock(9, 9, 9, 9, 53);
    let loopback = sock(127, 0, 0, 1, 53);
    assert_eq!(conn.send_targets([Some(loopback), Some(open)], [false, false]), vec![open]);
    assert_eq!(conn.send_targets([Some(open), Some(loopback)], [false, false]), vec![open]);
    assert_eq!(conn.send_targets([Some(open), None], [true, false]), vec![]);
    assert_eq!(conn.send_targets([None, Some(open)], [true, false]), vec![open]);
}

#[test]
fn a_datagram_with_refused_targets_only_is_blocked() {
    let mut conn = connection(false);
    let classifying = PacketFlow::Classifying {
        pkt: pkt(),
        first: Some(sock(127, 0, 0, 1, 1)),
        second: Some(sock(10, 0, 0, 1, 1)),
        session: 1,
    };
    let (_, action) =
        conn.handle_packet(classifying, PacketEvent::<u8>::Classified { first: false, second: true });
    assert_eq!(
        action,
        PacketAction::End(PacketEnd::Dropped(DropReason::Blocked))
    );
}

#[test]
fn a_vanished_session_or_failed_send_fails_the_datagram() {
    let mut conn = connection(false);
    let (_, action) = conn.handle_packet(PacketFlow::Sending, PacketEvent::<u8>::SessionGone);
    assert_eq!(
        action,
        PacketAction::End(PacketEnd::Failed(Error::SessionDropped))
    );
    let (_, action) =
        conn.handle_packet(PacketFlow::Sending, PacketEvent::Sent(Err(Error::Io(4u8))));
    assert_eq!(action, PacketAction::End(PacketEnd::Failed(Error::Io(4))));
}

#[test]
fn unexpected_events_change_nothing() {
    let mut conn = connection(false);
    let (flow, action) = conn.handle_packet(PacketFlow::Start, PacketEvent::<u8>::SessionGone);
    assert_eq!((flow, action), (PacketFlow::Start, PacketAction::Wait));
    assert_eq!(conn.udp_relay_mode, None);
}

#[test]
fn dissociating_forgets_the_session() {
    let mut conn = connection(false);
    conn.udp_sessions.insert(6, 8);
    conn.udp_sessions.insert(7, 9);
    assert_eq!(conn.handle_dissociate(6), Some(8));
    assert_eq!(conn.handle_dissociate(6), None);
    assert_eq!(conn.session(6), None);
    assert_eq!(conn.session(7), Some(9));
}

#[test]
fn a_retired_session_leaves_its_successor() {
    let mut conn = connection(false);
    conn.udp_sessions.insert(6, 9);
    assert!(!conn.retire_session(6, 8));
    assert_eq!(conn.session(6), Some(9));
    assert!(conn.retire_session(6, 9));
    assert_eq!(conn.session(6), None);
}

#[test]
fn datagrams_from_outside_go_to_the_client_in_the_latest_mode() {
    let mut conn = connection(false);
    conn.auth = Some(2);
    for mode in [UdpRelayMode::Native, UdpRelayMode::Quic] {
        conn.handle_packet::<u8>(PacketFlow::Start, PacketEvent::Arrived(mode));
        let addr = Address::SocketAddress(sock(9, 9, 9, 9, 53));
        assert_eq!(
            conn.relay_packet(pkt(), addr, 6),
            Relay {
                mode,
                pkt: pkt(),
                addr: Address::SocketAddress(sock(9, 9, 9, 9, 53)),
                assoc_id: 6,
                usage: Some(Usage { uid: 2, request: false, tx: None, rx: Some(3) }),
            }
        );
    }
}

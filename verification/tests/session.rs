use bytes::Bytes;
use server_tuic::addr::{IpAddr, Ipv4Addr, Ipv6Addr, SocketAddr};
use server_tuic::connection::Config;
use server_tuic::error::{Error, Family, Kind, SocketOp};
use server_tuic::send::{send_to_first, SendAction, Sending};
use server_tuic::session::{ListenAction, ListenEvent, SetupStep, UdpSession};
use server_tuic::target::Address;

fn v4_localhost(port: u16) -> SocketAddr {
    SocketAddr::new(IpAddr::V4(Ipv4Addr::new(127, 0, 0, 1)), port)
}

fn v6_localhost(port: u16) -> SocketAddr {
    SocketAddr::new(IpAddr::V6(Ipv6Addr::new(0, 0, 0, 0, 0, 0, 0, 1)), port)
}

fn config(ipv6: bool) -> Config {
    Config {
        acl: false,
        drop_loopback: false,
        drop_private: false,
        udp_relay_ipv6: ipv6,
        max_external_packet_size: 16,
    }
}

fn bytes(text: &[u8]) -> Bytes {
    Bytes::from(text.to_vec())
}

/// The IPv4 attempt that `action` asks for.
fn to_v4(action: SendAction<u8>) -> Sending<u8> {
    match action {
        SendAction::ToV4(sending) => sending,
        other => panic!("expected an IPv4 attempt: {other:?}"),
    }
}

/// The IPv6 attempt that `action` asks for.
fn to_v6(action: SendAction<u8>) -> Sending<u8> {
    match action {
        SendAction::ToV6(sending) => sending,
        other => panic!("expected an IPv6 attempt: {other:?}"),
    }
}

#[test]
fn falls_back_to_ipv4_when_ipv6_socket_absent() {
    // Prefer64 ordering [v6, v4] with no IPv6 socket: the v6 attempt errors
    // and the datagram must still be sent via the IPv4 fallback.
    let targets = vec![v6_localhost(4000), v4_localhost(4000)];
    let sending = to_v4(send_to_first(false, bytes(b"ping"), targets));
    assert_eq!(sending.to, v4_localhost(4000));
    assert_eq!(sending.pkt, bytes(b"ping"));
    assert_eq!(sending.reply(Ok(())), SendAction::Done(Ok(())));
}

#[test]
fn ipv4_mapped_ipv6_target_routes_to_ipv4_socket() {
    // A `::ffff:127.0.0.1` target with only a v4 socket must be normalized
    // to IPv4 and sent, not rejected as IPv6.
    let mapped = SocketAddr::new(
        IpAddr::V6(Ipv6Addr::new(0, 0, 0, 0, 0, 0xffff, 0x7f00, 1)),
        4000,
    );
    let sending = to_v4(send_to_first(false, bytes(b"map"), vec![mapped]));
    assert_eq!(sending.to, v4_localhost(4000));
    assert_eq!(sending.pkt, bytes(b"map"));
    assert_eq!(sending.reply(Ok(())), SendAction::Done(Ok(())));
}

#[test]
fn errors_when_all_targets_fail() {
    // Only an IPv6 target but no IPv6 socket: no candidate can be sent.
    let action = send_to_first::<u8>(false, bytes(b"x"), vec![v6_localhost(9)]);
    assert!(matches!(
        action,
        SendAction::Done(Err(Error::UdpRelayIpv6Disabled(_)))
    ));
}

#[test]
fn an_empty_list_has_no_target() {
    let action = send_to_first::<u8>(true, bytes(b"x"), vec![]);
    assert_eq!(action, SendAction::Done(Err(Error::NoTarget)));
    assert_eq!(
        Error::<u8>::NoTarget.context(),
        Some("no UDP target address")
    );
    assert_eq!(
        Error::<u8>::NoTarget.cause(),
        Some((Kind::InvalidInput, "empty target list"))
    );
    assert_eq!(Error::Io(1u8).cause(), None);
    assert_eq!(Error::<u8>::NoUsableTarget.cause(), None);
}

#[test]
fn a_failed_send_moves_on_and_the_last_error_stays() {
    let targets = vec![v6_localhost(1), v4_localhost(2)];
    let sending = to_v6(send_to_first(true, bytes(b"x"), targets));
    assert_eq!(sending.to, v6_localhost(1));
    let sending = to_v4(sending.reply(Err(7)));
    assert_eq!(sending.to, v4_localhost(2));
    assert_eq!(sending.reply(Err(8)), SendAction::Done(Err(Error::Io(8))));
}

#[test]
fn a_disabled_family_after_a_failure_is_the_last_error() {
    let targets = vec![v4_localhost(2), v6_localhost(1)];
    let sending = to_v4(send_to_first(false, bytes(b"x"), targets));
    assert_eq!(sending.to, v4_localhost(2));
    assert_eq!(
        sending.reply(Err(7)),
        SendAction::Done(Err(Error::UdpRelayIpv6Disabled(v6_localhost(1))))
    );
}

/// The addresses tried and the result, where the network answers `answers` in turn.
fn run(
    ipv6: bool,
    targets: Vec<SocketAddr>,
    answers: &[Result<(), u8>],
) -> (Vec<SocketAddr>, Result<(), Error<u8>>) {
    let mut tried = Vec::new();
    let mut action = send_to_first(ipv6, bytes(b"ping"), targets);
    loop {
        let sending = match action {
            SendAction::ToV4(sending) | SendAction::ToV6(sending) => sending,
            SendAction::Done(result) => return (tried, result),
        };
        assert_eq!(sending.pkt, bytes(b"ping"));
        let answer = answers[tried.len()];
        tried.push(sending.to);
        action = sending.reply(answer);
    }
}

#[test]
fn a_run_carries_the_datagram_to_each_target_in_turn() {
    let targets = || vec![v6_localhost(1), v4_localhost(2), v4_localhost(3)];
    assert_eq!(
        run(true, targets(), &[Err(7), Err(8), Ok(())]),
        (targets(), Ok(()))
    );
    assert_eq!(
        run(true, targets(), &[Err(7), Ok(())]),
        (vec![v6_localhost(1), v4_localhost(2)], Ok(()))
    );
    assert_eq!(
        run(true, targets(), &[Err(7), Err(8), Err(9)]),
        (targets(), Err(Error::Io(9)))
    );
    assert_eq!(
        run(false, targets(), &[Err(7), Err(8)]),
        (vec![v4_localhost(2), v4_localhost(3)], Err(Error::Io(8)))
    );
}

#[test]
fn a_session_sends_as_its_sockets_allow() {
    let session = UdpSession { assoc_id: 1, ipv6: true, open: true };
    let sending = to_v6(session.send(bytes(b"x"), vec![v6_localhost(1)]));
    assert_eq!(sending.to, v6_localhost(1));
    assert_eq!(sending.pkt, bytes(b"x"));
    let session = UdpSession { ipv6: false, ..session };
    assert_eq!(
        session.send::<u8>(bytes(b"x"), vec![v6_localhost(1)]),
        SendAction::Done(Err(Error::UdpRelayIpv6Disabled(v6_localhost(1))))
    );
}

fn set_up(ipv6: bool, fail_at: Option<usize>) -> (Vec<SocketOp>, SetupStep<u8>) {
    let mut ops = Vec::new();
    let mut step = UdpSession::new::<u8>(&config(ipv6), 5);
    while let SetupStep::Perform(op, setup) = step {
        let fails = fail_at == Some(ops.len());
        ops.push(op);
        step = setup.reply(if fails { Err(9) } else { Ok(()) });
    }
    (ops, step)
}

#[test]
fn ipv4_only_setup() {
    let (ops, end) = set_up(false, None);
    assert_eq!(
        ops,
        vec![
            SocketOp::Create(Family::V4),
            SocketOp::SetNonblocking(Family::V4),
            SocketOp::Bind(Family::V4),
            SocketOp::Register(Family::V4),
        ]
    );
    assert_eq!(
        end,
        SetupStep::Ready(UdpSession { assoc_id: 5, ipv6: false, open: true })
    );
}

#[test]
fn dual_stack_setup() {
    let (ops, end) = set_up(true, None);
    assert_eq!(
        ops[4..],
        [
            SocketOp::Create(Family::V6),
            SocketOp::SetNonblocking(Family::V6),
            SocketOp::SetOnlyV6,
            SocketOp::Bind(Family::V6),
            SocketOp::Register(Family::V6),
        ]
    );
    assert_eq!(
        end,
        SetupStep::Ready(UdpSession { assoc_id: 5, ipv6: true, open: true })
    );
}

#[test]
fn the_first_failure_ends_the_setup() {
    for k in 0..9 {
        let (ops, end) = set_up(true, Some(k));
        assert_eq!(ops.len(), k + 1);
        let expected = match ops[k] {
            SocketOp::Register(_) => Error::Io(9),
            op => Error::Socket(op, 9),
        };
        assert_eq!(end, SetupStep::Failed(expected));
    }
}

#[test]
fn setup_failures_are_named() {
    let texts: Vec<Option<&str>> = set_up(true, None).0.iter().map(|op| op.failure()).collect();
    assert_eq!(
        texts,
        vec![
            Some("failed to create UDP associate IPv4 socket"),
            Some("failed setting UDP associate IPv4 socket as non-blocking"),
            Some("failed to bind UDP associate IPv4 socket"),
            None,
            Some("failed to create UDP associate IPv6 socket"),
            Some("failed setting UDP associate IPv6 socket as non-blocking"),
            Some("failed setting UDP associate IPv6 socket as IPv6-only"),
            Some("failed to bind UDP associate IPv6 socket"),
            None,
        ]
    );
}

#[test]
fn errors_have_their_context() {
    assert_eq!(
        Error::Socket(SocketOp::SetOnlyV6, 1u8).context(),
        Some("failed setting UDP associate IPv6 socket as IPv6-only")
    );
    assert_eq!(
        Error::<u8>::NoUsableTarget.context(),
        Some("no usable UDP target address")
    );
    assert_eq!(
        Error::<u8>::SessionDropped.context(),
        Some("UdpSession dropped already")
    );
    assert_eq!(Error::Io(1u8).context(), None);
    assert_eq!(
        Error::<u8>::UdpRelayIpv6Disabled(v6_localhost(1)).context(),
        None
    );
}

#[test]
fn sockets_are_bound_to_any_port() {
    assert_eq!(
        Family::V4.bind_addr(),
        SocketAddr::new(IpAddr::V4(Ipv4Addr::new(0, 0, 0, 0)), 0)
    );
    assert_eq!(
        Family::V6.bind_addr(),
        SocketAddr::new(IpAddr::V6(Ipv6Addr::new(0, 0, 0, 0, 0, 0, 0, 0)), 0)
    );
}

#[test]
fn a_received_datagram_is_trimmed_and_its_sender_normalized() {
    let mut buf = UdpSession::recv_buffer(&config(true));
    assert_eq!(buf, vec![0u8; 16]);
    buf[0] = 1;
    buf[1] = 2;
    buf[2] = 3;
    let mapped = SocketAddr::new(
        IpAddr::V6(Ipv6Addr::new(0, 0, 0, 0, 0, 0xffff, 0x7f00, 1)),
        53,
    );
    let (pkt, from) = UdpSession::recv(buf, 2, mapped);
    assert_eq!(pkt, Bytes::from(vec![1u8, 2]));
    assert_eq!(from, v4_localhost(53));
}

#[test]
fn a_received_datagram_is_relayed() {
    let mut session = UdpSession { assoc_id: 3, ipv6: false, open: true };
    let event: ListenEvent<u8> = ListenEvent::Received {
        pkt: Bytes::from(vec![9u8]),
        from: v4_localhost(53),
    };
    assert_eq!(
        session.listen(event),
        ListenAction::Relay {
            pkt: Bytes::from(vec![9u8]),
            addr: Address::SocketAddress(v4_localhost(53)),
            assoc_id: 3,
        }
    );
    assert!(session.open);
}

#[test]
fn a_failing_socket_does_not_end_the_session() {
    let mut session = UdpSession { assoc_id: 3, ipv6: false, open: true };
    assert_eq!(session.listen(ListenEvent::RecvFailed(1u8)), ListenAction::Resume);
    assert!(session.open);
}

#[test]
fn an_idle_session_is_told_to_close_once() {
    let mut session = UdpSession { assoc_id: 3, ipv6: false, open: true };
    let idle = || ListenEvent::<u8>::IdleTimeout;
    assert_eq!(session.listen(idle()), ListenAction::Close { signal: true });
    assert_eq!(session.listen(idle()), ListenAction::Close { signal: false });
    assert!(!session.close());
    assert_eq!(session.listen(ListenEvent::<u8>::CloseRequested), ListenAction::Stop);
}

#[test]
fn a_lost_parent_ends_the_session() {
    let mut session = UdpSession { assoc_id: 3, ipv6: false, open: true };
    assert_eq!(session.listen(ListenEvent::<u8>::ParentClosed), ListenAction::Stop);
    assert!(session.close());
    assert!(!session.close());
}

#[test]
fn closing_and_idling_signal_once_between_them() {
    let mut session = UdpSession { assoc_id: 3, ipv6: false, open: true };
    let idle = || ListenEvent::<u8>::IdleTimeout;
    assert!(session.close());
    assert_eq!(session.listen(idle()), ListenAction::Close { signal: false });
    assert!(!session.close());
    assert_eq!(session.listen(idle()), ListenAction::Close { signal: false });
}

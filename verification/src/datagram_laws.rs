//! What each event means to a client's datagram, whatever the datagram is.
use vstd::prelude::*;

use crate::addr::{loopback, normalized, socket_addr, IpAddr, SocketAddr};
use crate::connection::{AclQuery, Config, ConnectionState, UdpRelayMode, Usage};
use crate::error::Error;
use crate::literal::{ip_of, ip_text};
use crate::outbound::{OutboundHandler, Protocol};
use crate::roundtrip::{no_text_is_no_address, written_address_is_read_back};
use crate::target::{Addr, Address, DirectMode, ResolveInfo};
use crate::udp::{
    allowed, packet_conn, packet_next, DropReason, PacketAction, PacketEnd, PacketEvent,
    PacketFlow, PacketStep,
};

verus! {

/// A fragment that arrives is taken in, and its mode is the one from then on.
pub proof fn an_arriving_fragment_is_taken_in<E>(conn: ConnectionState, mode: UdpRelayMode)
    ensures
        ({
            let event = PacketEvent::<E, Seq<char>, Seq<u8>>::Arrived(mode);
            let after = packet_conn(conn, PacketFlow::Start, event);
            &&& packet_next(conn, PacketFlow::Start, event).0 is Accepting
            &&& packet_next(conn, PacketFlow::Start, event).1 is Accept
            &&& after.udp_relay_mode == Some(mode)
            &&& after.cfg == conn.cfg && after.auth == conn.auth && after.udp_sessions
                == conn.udp_sessions
        }),
{
}

/// A datagram that waits for more fragments, or whose fragment could not be taken in,
/// ends as just that.
pub proof fn an_incomplete_datagram_ends<E>(conn: ConnectionState, e: E)
    ensures
        ({
            let step = packet_next(
                conn,
                PacketFlow::Accepting,
                PacketEvent::<E, Seq<char>, Seq<u8>>::Incomplete,
            );
            step.1 matches PacketAction::End(end) && step.0 is Ended && end is Incomplete
        }),
        ({
            let step = packet_next(
                conn,
                PacketFlow::Accepting,
                PacketEvent::<E, Seq<char>, Seq<u8>>::AcceptFailed(e),
            );
            step.1 matches PacketAction::End(end) && step.0 is Ended && end == PacketEnd::AcceptFailed(e)
        }),
{
}

/// A whole datagram looks for the session of its association. Where there is none it
/// looks again with the sessions locked, and only where there is still none is one
/// created, for that association. The datagram is kept as it came.
pub proof fn a_session_is_looked_for_twice<E>(
    conn: ConnectionState,
    pkt: Seq<u8>,
    addr: Address<Seq<char>>,
    assoc_id: u16,
)
    requires
        !conn.udp_sessions.contains_key(assoc_id),
    ensures
        ({
            let locking = packet_next(
                conn,
                PacketFlow::Accepting,
                PacketEvent::<E, Seq<char>, Seq<u8>>::Accepted { pkt, addr, assoc_id },
            );
            let creating = packet_next(
                conn,
                locking.0,
                PacketEvent::<E, Seq<char>, Seq<u8>>::Locked,
            );
            &&& locking.1 is LockSessions
            &&& locking.0 == (PacketFlow::Locking { pkt, addr, assoc_id })
            &&& creating.1 matches PacketAction::CreateSession { assoc_id: a }
            &&& a == assoc_id
            &&& creating.0 == (PacketFlow::Creating { pkt, addr, assoc_id })
        }),
{
}

/// However its session becomes known, a datagram goes on alike: found at once, found
/// once the sessions were locked, found although one was created meanwhile, or created.
/// A created session is the association's from then on, and no other association's, and
/// one that was there before stays.
pub proof fn however_found_a_session_serves_alike<E>(
    conn: ConnectionState,
    pkt: Seq<u8>,
    addr: Address<Seq<char>>,
    assoc_id: u16,
    session: u64,
    created: u64,
)
    requires
        conn.udp_sessions.get(assoc_id) == Some(session),
    ensures
        ({
            let found = packet_next(
                conn,
                PacketFlow::Accepting,
                PacketEvent::<E, Seq<char>, Seq<u8>>::Accepted { pkt, addr, assoc_id },
            );
            let without = ConnectionState { udp_sessions: conn.udp_sessions.remove(assoc_id), ..conn };
            let creating = PacketFlow::Creating { pkt, addr, assoc_id };
            let other = PacketEvent::<E, Seq<char>, Seq<u8>>::SessionCreated(Ok(created));
            let this = PacketEvent::<E, Seq<char>, Seq<u8>>::SessionCreated(Ok(session));
            &&& packet_next::<E>(
                conn,
                PacketFlow::Locking { pkt, addr, assoc_id },
                PacketEvent::Locked,
            ) == found
            &&& packet_next(conn, creating, other) == found
            &&& packet_conn(conn, creating, other) == conn
            &&& packet_next(without, creating, this) == found
            &&& packet_conn(without, creating, this) == conn
        }),
{
    let without = ConnectionState { udp_sessions: conn.udp_sessions.remove(assoc_id), ..conn };
    assert(without.udp_sessions.insert(assoc_id, session) =~= conn.udp_sessions);
}

/// A session that could not be created fails the datagram with that error, and nothing
/// is entered.
pub proof fn a_failed_session_fails_its_datagram<E>(
    conn: ConnectionState,
    pkt: Seq<u8>,
    addr: Address<Seq<char>>,
    assoc_id: u16,
    e: Error<E>,
)
    ensures
        ({
            let creating = PacketFlow::Creating { pkt, addr, assoc_id };
            let event = PacketEvent::<E, Seq<char>, Seq<u8>>::SessionCreated(Err(e));
            &&& packet_next(conn, creating, event).0 is Ended
            &&& packet_next(conn, creating, event).1 matches PacketAction::End(end)
            &&& end == PacketEnd::Failed(e)
            &&& packet_conn(conn, creating, event) == conn
        }),
{
}

/// With access rules a datagram in a session asks them about the name or the address
/// that it names and about its port, as a datagram. Without, it goes on at once as if
/// they had matched nothing, which is as if they had chosen a direct outbound in
/// automatic mode that carries datagrams.
pub proof fn a_datagram_in_its_session_asks_the_rules<E>(
    conn: ConnectionState,
    any: ConnectionState,
    pkt: Seq<u8>,
    addr: Address<Seq<char>>,
    assoc_id: u16,
    session: u64,
)
    requires
        conn.udp_sessions.get(assoc_id) == Some(session),
    ensures
        ({
            let step = packet_next(
                conn,
                PacketFlow::Accepting,
                PacketEvent::<E, Seq<char>, Seq<u8>>::Accepted { pkt, addr, assoc_id },
            );
            let matching = PacketFlow::Matching { pkt, addr, session };
            &&& conn.cfg.acl ==> {
                &&& step.0 == matching
                &&& step.1 matches PacketAction::MatchAcl { query, protocol }
                &&& protocol == Protocol::UDP
                &&& query == (match addr {
                    Address::DomainAddress(domain, port) => AclQuery { host: domain, port },
                    Address::SocketAddress(sa) => AclQuery {
                        host: ip_text(sa.ip_of()),
                        port: sa.port_of(),
                    },
                    Address::Absent => AclQuery { host: Seq::empty(), port: 0 },
                })
            }
            &&& !conn.cfg.acl ==> step == packet_next(
                any,
                matching,
                PacketEvent::<E, Seq<char>, Seq<u8>>::AclMatch(None),
            )
            &&& packet_next(
                any,
                matching,
                PacketEvent::<E, Seq<char>, Seq<u8>>::AclMatch(None),
            ) == packet_next(
                conn,
                matching,
                PacketEvent::<E, Seq<char>, Seq<u8>>::AclMatch(
                    Some(OutboundHandler::Direct { mode: DirectMode::Auto, udp: true }),
                ),
            )
        }),
{
}

/// A datagram goes on exactly through a direct outbound that carries datagrams. It is
/// dropped as rejected through a rejecting one, as not allowed through one that carries
/// none, and as proxied through a proxy; and for none of these reasons otherwise.
pub proof fn only_a_direct_outbound_carries_on<E>(
    conn: ConnectionState,
    pkt: Seq<u8>,
    addr: Address<Seq<char>>,
    session: u64,
    outbound: OutboundHandler,
)
    ensures
        ({
            let step = packet_next(
                conn,
                PacketFlow::Matching { pkt, addr, session },
                PacketEvent::<E, Seq<char>, Seq<u8>>::AclMatch(Some(outbound)),
            );
            let dropped_as = |why: DropReason|
                step.0 is Ended && step.1 == PacketAction::<
                    E,
                    Seq<char>,
                    Seq<u8>,
                    Seq<SocketAddr>,
                >::End(PacketEnd::Dropped(why));
            match outbound {
                OutboundHandler::Reject => dropped_as(DropReason::Rejected),
                OutboundHandler::Proxied { udp: false } => dropped_as(DropReason::UdpNotAllowed),
                OutboundHandler::Proxied { udp: true } => dropped_as(DropReason::Proxied),
                OutboundHandler::Direct { mode: _, udp: false } => dropped_as(
                    DropReason::UdpNotAllowed,
                ),
                OutboundHandler::Direct { mode: _, udp: true } => !(step.1
                    matches PacketAction::End(end) && end is Dropped),
            }
        }),
{
}

/// A datagram to a name, through a direct outbound of any mode that carries datagrams,
/// is resolved: that very name, for the port asked for. Where it does not resolve the
/// datagram is dropped.
pub proof fn a_datagram_to_a_name_is_resolved<E>(
    conn: ConnectionState,
    later: ConnectionState,
    pkt: Seq<u8>,
    domain: Seq<char>,
    port: u16,
    session: u64,
    mode: DirectMode,
)
    ensures
        ({
            let step = packet_next(
                conn,
                PacketFlow::Matching { pkt, addr: Address::DomainAddress(domain, port), session },
                PacketEvent::<E, Seq<char>, Seq<u8>>::AclMatch(
                    Some(OutboundHandler::Direct { mode, udp: true }),
                ),
            );
            let failed = packet_next(
                later,
                step.0,
                PacketEvent::<E, Seq<char>, Seq<u8>>::Resolved(None),
            );
            &&& step.1 matches PacketAction::Resolve(d)
            &&& d == domain
            &&& step.0 == (PacketFlow::<Seq<char>, Seq<u8>>::Resolving {
                pkt,
                acl_addr: Addr { host: domain, port, resolve_info: None },
                mode,
                session,
            })
            &&& failed.0 is Ended
            &&& failed.1 matches PacketAction::End(end)
            &&& end == PacketEnd::<E>::Dropped(DropReason::DnsFailed)
        }),
{
}

/// A name that does not resolve drops its datagram, and nothing else drops one for that
/// reason.
pub proof fn only_a_failed_resolution_drops_for_it<E>(
    conn: ConnectionState,
    flow: PacketFlow<Seq<char>, Seq<u8>>,
    event: PacketEvent<E, Seq<char>, Seq<u8>>,
)
    ensures
        packet_next(conn, flow, event).1 == PacketAction::<
            E,
            Seq<char>,
            Seq<u8>,
            Seq<SocketAddr>,
        >::End(PacketEnd::Dropped(DropReason::DnsFailed)) <==> flow is Resolving && event
            == PacketEvent::<E, Seq<char>, Seq<u8>>::Resolved(None),
{
}

/// Whatever a name resolves to, its datagram's targets are exactly those addresses, at
/// the port asked for, in the families that the mode admits: IPv6 first where the mode
/// prefers it, IPv4 first otherwise. Each is taken as the address that it reaches. Only
/// where none is left does the datagram fail for want of a usable target.
pub proof fn a_resolved_datagram_goes_to_what_was_resolved<E>(
    conn: ConnectionState,
    pkt: Seq<u8>,
    acl_addr: Addr<Seq<char>>,
    mode: DirectMode,
    session: u64,
    info: ResolveInfo,
)
    ensures
        ({
            let step = packet_next(
                conn,
                PacketFlow::Resolving { pkt, acl_addr, mode, session },
                PacketEvent::<E, Seq<char>, Seq<u8>>::Resolved(Some(info)),
            );
            let has_v4 = info.ipv4 is Some && !(mode is Only6);
            let has_v6 = info.ipv6 is Some && !(mode is Only4);
            let v4 = socket_addr(IpAddr::V4(info.ipv4->0), acl_addr.port);
            let v6 = normalized(socket_addr(IpAddr::V6(info.ipv6->0), acl_addr.port));
            let v6_first = mode is Prefer64 || mode is Only6;
            &&& !has_v4 && !has_v6 ==> (step.1 matches PacketAction::End(end) && step.0 is Ended && end
                == PacketEnd::<E>::Failed(Error::NoUsableTarget))
            &&& has_v4 || has_v6 ==> {
                &&& step.1 matches PacketAction::Classify { first, second }
                &&& step.0 == (PacketFlow::<Seq<char>, Seq<u8>>::Classifying {
                    pkt,
                    first,
                    second,
                    session,
                })
                &&& (if v6_first { second } else { first }) == (if has_v4 {
                    Some(v4)
                } else {
                    None
                })
                &&& (if v6_first { first } else { second }) == (if has_v6 {
                    Some(v6)
                } else {
                    None
                })
            }
        }),
{
}

/// A datagram to an address, through a direct outbound that carries datagrams, has what
/// that address reaches as its one target if the mode admits its family, and fails for
/// want of a usable target otherwise. One that names no address fails so.
pub proof fn a_datagram_to_an_address_goes_there<E>(
    conn: ConnectionState,
    pkt: Seq<u8>,
    sa: SocketAddr,
    session: u64,
    mode: DirectMode,
)
    ensures
        ({
            let step = packet_next(
                conn,
                PacketFlow::Matching { pkt, addr: Address::SocketAddress(sa), session },
                PacketEvent::<E, Seq<char>, Seq<u8>>::AclMatch(
                    Some(OutboundHandler::Direct { mode, udp: true }),
                ),
            );
            let own = Some(normalized(socket_addr(sa.ip_of(), sa.port_of())));
            if (sa is V4 && mode is Only6) || (sa is V6 && mode is Only4) {
                step.1 matches PacketAction::End(end) && step.0 is Ended && end == PacketEnd::<E>::Failed(Error::NoUsableTarget)
            } else {
                &&& step.1 matches PacketAction::Classify { first, second }
                &&& step.0 == (PacketFlow::<Seq<char>, Seq<u8>>::Classifying {
                    pkt,
                    first,
                    second,
                    session,
                })
                &&& (first == own && second is None) || (first is None && second == own)
            }
        }),
        ({
            let step = packet_next(
                conn,
                PacketFlow::Matching { pkt, addr: Address::Absent, session },
                PacketEvent::<E, Seq<char>, Seq<u8>>::AclMatch(
                    Some(OutboundHandler::Direct { mode, udp: true }),
                ),
            );
            step.1 matches PacketAction::End(end) && step.0 is Ended && end == PacketEnd::<E>::Failed(Error::NoUsableTarget)
        }),
{
    written_address_is_read_back(sa.ip_of());
    no_text_is_no_address();
}

/// A datagram fails for want of a usable target, where no error that came with an event
/// says so, only once its name has resolved to no address in a family that the mode
/// admits, or where it names no name at all and no address that the mode admits.
pub proof fn only_an_unusable_target_fails_so<E>(
    conn: ConnectionState,
    flow: PacketFlow<Seq<char>, Seq<u8>>,
    event: PacketEvent<E, Seq<char>, Seq<u8>>,
)
    requires
        packet_next(conn, flow, event).1 == PacketAction::<
            E,
            Seq<char>,
            Seq<u8>,
            Seq<SocketAddr>,
        >::End(PacketEnd::Failed(Error::NoUsableTarget)),
        !(event is SessionCreated && flow is Creating && event->SessionCreated_0 is Err),
        !(event is Sent),
    ensures
        flow matches PacketFlow::Resolving { mode, .. } ==> {
            &&& event matches PacketEvent::Resolved(Some(info))
            &&& info.ipv4 is None || mode is Only6
            &&& info.ipv6 is None || mode is Only4
        },
        flow matches PacketFlow::Matching { addr, .. } ==> !(addr is DomainAddress),
        flow matches PacketFlow::Locking { addr, .. } ==> !(addr is DomainAddress),
        flow matches PacketFlow::Creating { addr, .. } ==> !(addr is DomainAddress),
        event matches PacketEvent::Accepted { addr, .. } ==> flow is Accepting && !(
        addr is DomainAddress),
        !(flow is Start || flow is Classifying || flow is Sending || flow is Ended),
{
}

/// Which of two candidates are sent to: each that is there and that neither setting
/// refuses, in their order, once.
pub proof fn two_candidates_are_filtered_each_for_itself(
    cfg: Config,
    first: Option<SocketAddr>,
    second: Option<SocketAddr>,
    p: bool,
    q: bool,
)
    ensures
        ({
            let targets = allowed(cfg, seq![first, second], seq![p, q]);
            let keeps_first = first is Some && !(cfg.drop_private && p) && !(cfg.drop_loopback
                && loopback(normalized(first->0).ip_of()));
            let keeps_second = second is Some && !(cfg.drop_private && q) && !(cfg.drop_loopback
                && loopback(normalized(second->0).ip_of()));
            &&& targets.len() == (if keeps_first { 1int } else { 0 }) + (if keeps_second { 1int } else {
                0
            })
            &&& keeps_first ==> targets[0] == first->0
            &&& keeps_second ==> targets.last() == second->0
        }),
{
    let c = seq![first, second];
    let private = seq![p, q];
    reveal_with_fuel(allowed, 3);
    assert(c.drop_last() =~= seq![first]);
    assert(c.drop_last().drop_last() =~= Seq::empty());
    assert(private.drop_last() =~= seq![p]);
}

/// Once classified, a datagram is sent if any of its targets is neither a private address
/// while those are refused nor a loopback address while those are, and dropped as
/// blocked otherwise. What is sent is the datagram itself, through its session, to those
/// targets in order, and it counts as one request of as many bytes as it has.
pub proof fn a_classified_datagram_is_sent_or_blocked<E>(
    conn: ConnectionState,
    pkt: Seq<u8>,
    first: Option<SocketAddr>,
    second: Option<SocketAddr>,
    session: u64,
    p: bool,
    q: bool,
)
    ensures
        ({
            let step = packet_next(
                conn,
                PacketFlow::Classifying { pkt, first, second, session },
                PacketEvent::<E, Seq<char>, Seq<u8>>::Classified { first: p, second: q },
            );
            let keeps_first = first is Some && !(conn.cfg.drop_private && p) && !(
            conn.cfg.drop_loopback && loopback(normalized(first->0).ip_of()));
            let keeps_second = second is Some && !(conn.cfg.drop_private && q) && !(
            conn.cfg.drop_loopback && loopback(normalized(second->0).ip_of()));
            &&& !keeps_first && !keeps_second ==> (step.1 matches PacketAction::End(end)
                && step.0 is Ended && end == PacketEnd::<E>::Dropped(DropReason::Blocked))
            &&& keeps_first || keeps_second ==> {
                &&& step.0 is Sending
                &&& step.1 matches PacketAction::Send { session: s, pkt: sent, targets, usage }
                &&& s == session
                &&& sent == pkt
                &&& targets.len() == (if keeps_first && keeps_second { 2int } else { 1 })
                &&& keeps_first ==> targets[0] == first->0
                &&& keeps_second ==> targets.last() == second->0
                &&& conn.auth is None ==> usage is None
                &&& conn.auth matches Some(uid) ==> usage == Some(
                    Usage { uid, request: true, tx: Some(pkt.len() as usize), rx: None },
                )
            }
        }),
{
    two_candidates_are_filtered_each_for_itself(conn.cfg, first, second, p, q);
}

/// A datagram that was sent ends as delivered, one that was not ends with the error that
/// came back, and one whose session is gone ends for that.
pub proof fn a_sent_datagram_ends_as_it_went<E>(conn: ConnectionState, e: Error<E>)
    ensures
        ({
            let step = packet_next(
                conn,
                PacketFlow::Sending,
                PacketEvent::<E, Seq<char>, Seq<u8>>::Sent(Ok(())),
            );
            step.1 matches PacketAction::End(end) && step.0 is Ended && end is Delivered
        }),
        ({
            let step = packet_next(
                conn,
                PacketFlow::Sending,
                PacketEvent::<E, Seq<char>, Seq<u8>>::Sent(Err(e)),
            );
            step.1 matches PacketAction::End(end) && step.0 is Ended && end == PacketEnd::Failed(e)
        }),
        ({
            let step = packet_next(
                conn,
                PacketFlow::Sending,
                PacketEvent::<E, Seq<char>, Seq<u8>>::SessionGone,
            );
            step.1 matches PacketAction::End(end) && step.0 is Ended && end == PacketEnd::<E>::Failed(Error::SessionDropped)
        }),
{
}

/// A datagram takes the events that it waits for in its flow, and those move it; any
/// other changes nothing, and an ended datagram waits for none. Only an arriving fragment
/// and a created session change the connection.
pub proof fn other_events_change_nothing<E>(
    conn: ConnectionState,
    flow: PacketFlow<Seq<char>, Seq<u8>>,
    event: PacketEvent<E, Seq<char>, Seq<u8>>,
)
    ensures
        ({
            let awaited = match flow {
                PacketFlow::Start => event is Arrived,
                PacketFlow::Accepting => event is Incomplete || event is AcceptFailed
                    || event is Accepted,
                PacketFlow::Locking { .. } => event is Locked,
                PacketFlow::Creating { .. } => event is SessionCreated,
                PacketFlow::Matching { .. } => event is AclMatch,
                PacketFlow::Resolving { .. } => event is Resolved,
                PacketFlow::Classifying { .. } => event is Classified,
                PacketFlow::Sending => event is Sent || event is SessionGone,
                PacketFlow::Ended => false,
            };
            &&& !awaited ==> packet_next(conn, flow, event).0 == flow && packet_next(
                conn,
                flow,
                event,
            ).1 is Wait && packet_conn(conn, flow, event) == conn
            &&& awaited ==> !(packet_next(conn, flow, event).1 is Wait)
            &&& !(flow is Start) && !(flow is Creating) ==> packet_conn(conn, flow, event) == conn
        }),
{
}

/// Without access rules a datagram to a name, in a session that is there, is resolved
/// and then sent to what the name resolved to, unless the settings refuse it.
pub proof fn a_datagram_to_a_name_comes_about<E>(
    conn: ConnectionState,
    pkt: Seq<u8>,
    domain: Seq<char>,
    port: u16,
    assoc_id: u16,
    session: u64,
    info: ResolveInfo,
    p: bool,
    q: bool,
)
    requires
        !conn.cfg.acl,
        conn.udp_sessions.get(assoc_id) == Some(session),
        info.ipv4 is Some,
        !conn.cfg.drop_private || !p,
        !conn.cfg.drop_loopback || !loopback(IpAddr::V4(info.ipv4->0)),
    ensures
        ({
            let s1: PacketStep<E> = packet_next(
                conn,
                PacketFlow::Accepting,
                PacketEvent::Accepted { pkt, addr: Address::DomainAddress(domain, port), assoc_id },
            );
            let s2: PacketStep<E> = packet_next(conn, s1.0, PacketEvent::Resolved(Some(info)));
            let s3: PacketStep<E> = packet_next(
                conn,
                s2.0,
                PacketEvent::Classified { first: p, second: q },
            );
            &&& s1.1 matches PacketAction::Resolve(d)
            &&& d == domain
            &&& s3.1 matches PacketAction::Send { session: s, pkt: sent, targets, .. }
            &&& s == session && sent == pkt
            &&& targets[0] == socket_addr(IpAddr::V4(info.ipv4->0), port)
        }),
{
    let first = Some(socket_addr(IpAddr::V4(info.ipv4->0), port));
    let second = match info.ipv6 {
        Some(ip) => Some(normalized(socket_addr(IpAddr::V6(ip), port))),
        None => None,
    };
    two_candidates_are_filtered_each_for_itself(conn.cfg, first, second, p, q);
}

} // verus!

//! What each event means to a request for a stream, whatever the request is.
use vstd::prelude::*;

use crate::addr::{loopback, normalized, SocketAddr};
use crate::connection::{AclQuery, ConnectionState, Usage};
use crate::literal::{ip_of, ip_text};
use crate::outbound::{OutboundHandler, Protocol};
use crate::roundtrip::written_address_is_read_back;
use crate::target::{Addr, Address, DirectMode, ResolveInfo};
use crate::tcp::{connect_next, ConnectAction, ConnectEvent, ConnectFlow, Refusal};

verus! {

/// With access rules a request begins by asking them about the name or the address that
/// the client named and about its port, as a stream; the request itself is kept.
pub proof fn a_request_begins_with_the_rules(
    conn: ConnectionState,
    domain: Seq<char>,
    port: u16,
    sa: SocketAddr,
)
    requires
        conn.cfg.acl,
    ensures
        connect_next(
            conn,
            ConnectFlow::Start { addr: Address::DomainAddress(domain, port) },
            ConnectEvent::Begin,
        ) == (
            ConnectFlow::Matching { addr: Address::DomainAddress(domain, port) },
            ConnectAction::MatchAcl {
                query: AclQuery { host: domain, port },
                protocol: Protocol::TCP,
            },
        ),
        connect_next(
            conn,
            ConnectFlow::Start { addr: Address::<Seq<char>>::SocketAddress(sa) },
            ConnectEvent::Begin,
        ) == (
            ConnectFlow::Matching { addr: Address::<Seq<char>>::SocketAddress(sa) },
            ConnectAction::MatchAcl {
                query: AclQuery { host: ip_text(sa.ip_of()), port: sa.port_of() },
                protocol: Protocol::TCP,
            },
        ),
        ip_of(ip_text(sa.ip_of())) == Some(sa.ip_of()),
        connect_next(
            conn,
            ConnectFlow::Start { addr: Address::<Seq<char>>::Absent },
            ConnectEvent::Begin,
        ) == (
            ConnectFlow::Matching { addr: Address::<Seq<char>>::Absent },
            ConnectAction::MatchAcl {
                query: AclQuery { host: Seq::<char>::empty(), port: 0 },
                protocol: Protocol::TCP,
            },
        ),
{
    written_address_is_read_back(sa.ip_of());
}

/// Without access rules a request goes on at once as it would if the rules had matched
/// nothing, and that is as if they had chosen a direct outbound in automatic mode.
pub proof fn no_rules_and_no_match_mean_direct(
    conn: ConnectionState,
    other: ConnectionState,
    addr: Address<Seq<char>>,
)
    ensures
        !conn.cfg.acl ==> connect_next(conn, ConnectFlow::Start { addr }, ConnectEvent::Begin)
            == connect_next(other, ConnectFlow::Matching { addr }, ConnectEvent::AclMatch(None)),
        connect_next(conn, ConnectFlow::Matching { addr }, ConnectEvent::AclMatch(None))
            == connect_next(
            other,
            ConnectFlow::Matching { addr },
            ConnectEvent::AclMatch(
                Some(OutboundHandler::Direct { mode: DirectMode::Auto, udp: true }),
            ),
        ),
{
}

/// A name that is to be reached directly, in whatever mode, is resolved first. Whatever
/// it resolves to, it is then dialled by that name, at the port asked for, with exactly
/// what it resolved to and through the outbound that was chosen; where it does not
/// resolve the request is refused.
pub proof fn a_direct_name_is_resolved_and_dialled(
    conn: ConnectionState,
    later: ConnectionState,
    domain: Seq<char>,
    port: u16,
    mode: DirectMode,
    udp: bool,
    info: ResolveInfo,
)
    ensures
        ({
            let outbound = OutboundHandler::Direct { mode, udp };
            let (resolving, action) = connect_next(
                conn,
                ConnectFlow::Matching { addr: Address::DomainAddress(domain, port) },
                ConnectEvent::AclMatch(Some(outbound)),
            );
            &&& action == ConnectAction::Resolve(domain)
            &&& connect_next(later, resolving, ConnectEvent::Resolved(Some(info))) == (
                ConnectFlow::<Seq<char>>::Dialing { outbound },
                ConnectAction::Dial {
                    addr: Addr { host: domain, port, resolve_info: Some(info) },
                    outbound,
                },
            )
            &&& connect_next(later, resolving, ConnectEvent::Resolved(None)) == (
                ConnectFlow::<Seq<char>>::Ended,
                ConnectAction::<Seq<char>>::Refuse(Refusal::DnsFailed),
            )
        }),
{
}

/// What is resolved is dialled: the same host and port, through the same outbound, with
/// what it resolved to, for every answer of the resolver that is one.
pub proof fn every_resolution_is_dialled(
    conn: ConnectionState,
    acl_addr: Addr<Seq<char>>,
    outbound: OutboundHandler,
    info: ResolveInfo,
)
    ensures
        ({
            let (flow, action) = connect_next(
                conn,
                ConnectFlow::Resolving { acl_addr, outbound },
                ConnectEvent::Resolved(Some(info)),
            );
            &&& flow == (ConnectFlow::<Seq<char>>::Dialing { outbound })
            &&& action matches ConnectAction::Dial { addr, outbound: through }
            &&& through == outbound
            &&& addr.host == acl_addr.host && addr.port == acl_addr.port
            &&& addr.resolve_info == Some(info)
        }),
        connect_next(
            conn,
            ConnectFlow::Resolving { acl_addr, outbound },
            ConnectEvent::Resolved(None),
        ) == (
            ConnectFlow::<Seq<char>>::Ended,
            ConnectAction::<Seq<char>>::Refuse(Refusal::DnsFailed),
        ),
{
}

/// An address, and anything that a proxy is to reach, is dialled at once and unresolved:
/// a name by itself, an address by its text, each at the port asked for.
pub proof fn anything_else_is_dialled_at_once(
    conn: ConnectionState,
    domain: Seq<char>,
    port: u16,
    sa: SocketAddr,
    outbound: OutboundHandler,
)
    requires
        !(outbound is Reject),
    ensures
        ({
            let event = ConnectEvent::AclMatch(Some(outbound));
            &&& outbound is Proxied ==> connect_next(
                conn,
                ConnectFlow::Matching { addr: Address::DomainAddress(domain, port) },
                event,
            ) == (
                ConnectFlow::<Seq<char>>::Dialing { outbound },
                ConnectAction::Dial {
                    addr: Addr {
                        host: domain,
                        port,
                        resolve_info: None::<ResolveInfo>,
                    },
                    outbound,
                },
            )
            &&& connect_next(
                conn,
                ConnectFlow::Matching { addr: Address::<Seq<char>>::SocketAddress(sa) },
                event,
            ) == (
                ConnectFlow::<Seq<char>>::Dialing { outbound },
                ConnectAction::Dial {
                    addr: Addr {
                        host: ip_text(sa.ip_of()),
                        port: sa.port_of(),
                        resolve_info: None::<ResolveInfo>,
                    },
                    outbound,
                },
            )
            &&& ip_of(ip_text(sa.ip_of())) == Some(sa.ip_of())
            &&& connect_next(
                conn,
                ConnectFlow::Matching { addr: Address::<Seq<char>>::Absent },
                event,
            ) == (
                ConnectFlow::<Seq<char>>::Dialing { outbound },
                ConnectAction::Dial {
                    addr: Addr {
                        host: Seq::<char>::empty(),
                        port: 0,
                        resolve_info: None::<ResolveInfo>,
                    },
                    outbound,
                },
            )
        }),
{
    written_address_is_read_back(sa.ip_of());
}

/// A target that the rules reject is refused at once, whatever it is.
pub proof fn a_rejected_request_is_refused(conn: ConnectionState, addr: Address<Seq<char>>)
    ensures
        connect_next(
            conn,
            ConnectFlow::Matching { addr },
            ConnectEvent::AclMatch(Some(OutboundHandler::Reject)),
        ) == (
            ConnectFlow::<Seq<char>>::Ended,
            ConnectAction::<Seq<char>>::Refuse(Refusal::Rejected),
        ),
{
}

/// A request is refused for being rejected only where the rules rejected it, for want
/// of resolution only where its name did not resolve, and as blocked only where its far
/// end is a private address while those are refused or a loopback address while those
/// are. It is abandoned only where dialling failed.
pub proof fn nothing_is_refused_without_its_reason(
    conn: ConnectionState,
    flow: ConnectFlow<Seq<char>>,
    event: ConnectEvent,
)
    ensures
        connect_next(conn, flow, event).1 == ConnectAction::<Seq<char>>::Refuse(Refusal::Rejected)
            ==> flow is Matching && event == ConnectEvent::AclMatch(Some(OutboundHandler::Reject)),
        connect_next(conn, flow, event).1 == ConnectAction::<Seq<char>>::Refuse(Refusal::DnsFailed)
            ==> flow is Resolving && event == ConnectEvent::Resolved(None),
        connect_next(conn, flow, event).1 == ConnectAction::<Seq<char>>::Refuse(Refusal::Blocked)
            ==> (flow matches ConnectFlow::Checking { peer }
            && event matches ConnectEvent::PeerClassified(private) && ((conn.cfg.drop_private
            && private) || (conn.cfg.drop_loopback && loopback(normalized(peer).ip_of())))),
        connect_next(conn, flow, event).1 == ConnectAction::<Seq<char>>::Abandon ==> flow is Dialing
            && event == ConnectEvent::Dialed(false),
        connect_next(conn, flow, event).1 is Settle ==> flow is Shutting && event is TargetShut,
{
}

/// Once dialled, a direct stream has its far end found out and a proxied one is copied;
/// a failed dial is abandoned.
pub proof fn after_dialling(conn: ConnectionState, mode: DirectMode, udp: bool)
    ensures
        connect_next(
            conn,
            ConnectFlow::<Seq<char>>::Dialing { outbound: OutboundHandler::Direct { mode, udp } },
            ConnectEvent::Dialed(true),
        ) == (ConnectFlow::<Seq<char>>::Inspecting, ConnectAction::<Seq<char>>::QueryPeer),
        connect_next(
            conn,
            ConnectFlow::<Seq<char>>::Dialing { outbound: OutboundHandler::Proxied { udp } },
            ConnectEvent::Dialed(true),
        ) == (ConnectFlow::<Seq<char>>::Copying, ConnectAction::<Seq<char>>::Copy),
        forall|outbound: OutboundHandler| #[trigger]
            connect_next(
                conn,
                ConnectFlow::<Seq<char>>::Dialing { outbound },
                ConnectEvent::Dialed(false),
            ) == (ConnectFlow::<Seq<char>>::Ended, ConnectAction::<Seq<char>>::Abandon),
{
}

/// A far end that is not known is let through. One that is known is asked about, as the
/// address that it reaches; it is then refused exactly if it is a private address while
/// private targets are refused, or a loopback address while loopback targets are, and
/// its stream is copied otherwise.
pub proof fn the_far_end_decides(
    conn: ConnectionState,
    later: ConnectionState,
    addr: SocketAddr,
    private: bool,
)
    ensures
        connect_next(conn, ConnectFlow::<Seq<char>>::Inspecting, ConnectEvent::PeerKnown(None)) == (
            ConnectFlow::<Seq<char>>::Copying,
            ConnectAction::<Seq<char>>::Copy,
        ),
        ({
            let (checking, asked) = connect_next(
                conn,
                ConnectFlow::<Seq<char>>::Inspecting,
                ConnectEvent::PeerKnown(Some(addr)),
            );
            let answer = connect_next(later, checking, ConnectEvent::PeerClassified(private));
            &&& asked == ConnectAction::<Seq<char>>::ClassifyPeer(normalized(addr))
            &&& (later.cfg.drop_private && private) || (later.cfg.drop_loopback && loopback(
                normalized(addr).ip_of(),
            )) ==> answer == (
                ConnectFlow::<Seq<char>>::Ended,
                ConnectAction::<Seq<char>>::Refuse(Refusal::Blocked),
            )
            &&& !(later.cfg.drop_private && private) && !(later.cfg.drop_loopback && loopback(
                normalized(addr).ip_of(),
            )) ==> answer == (
                ConnectFlow::<Seq<char>>::Copying,
                ConnectAction::<Seq<char>>::Copy,
            )
        }),
{
}

/// The counts of a copied stream are kept to the end, and put on the account of whoever
/// is the user then, as one request.
pub proof fn a_copied_stream_is_closed_and_counted(
    conn: ConnectionState,
    tx: usize,
    rx: usize,
    failed: bool,
)
    ensures
        connect_next(
            conn,
            ConnectFlow::<Seq<char>>::Copying,
            ConnectEvent::Copied { tx, rx, failed },
        ) == (
            ConnectFlow::<Seq<char>>::Closing { tx, rx, failed },
            ConnectAction::<Seq<char>>::CloseClient { reset: failed },
        ),
        connect_next(
            conn,
            ConnectFlow::<Seq<char>>::Closing { tx, rx, failed },
            ConnectEvent::ClientClosed,
        ) == (
            ConnectFlow::<Seq<char>>::Shutting { tx, rx, failed },
            ConnectAction::<Seq<char>>::ShutTarget,
        ),
        ({
            let (flow, action) = connect_next(
                conn,
                ConnectFlow::<Seq<char>>::Shutting { tx, rx, failed },
                ConnectEvent::TargetShut,
            );
            &&& flow is Ended
            &&& action matches ConnectAction::Settle { usage, failed: f }
            &&& f == failed
            &&& conn.auth is None ==> usage is None
            &&& conn.auth matches Some(uid) ==> usage == Some(
                Usage { uid, request: true, tx: Some(tx), rx: Some(rx) },
            )
        }),
{
}

/// A request takes the events that it waits for, one kind in each flow, and those are
/// the ones that move it; any other changes nothing, and an ended request waits for none.
pub proof fn other_events_change_nothing(
    conn: ConnectionState,
    flow: ConnectFlow<Seq<char>>,
    event: ConnectEvent,
)
    ensures
        ({
            let awaited = match flow {
                ConnectFlow::Start { .. } => event is Begin,
                ConnectFlow::Matching { .. } => event is AclMatch,
                ConnectFlow::Resolving { .. } => event is Resolved,
                ConnectFlow::Dialing { .. } => event is Dialed,
                ConnectFlow::Inspecting => event is PeerKnown,
                ConnectFlow::Checking { .. } => event is PeerClassified,
                ConnectFlow::Copying => event is Copied,
                ConnectFlow::Closing { .. } => event is ClientClosed,
                ConnectFlow::Shutting { .. } => event is TargetShut,
                ConnectFlow::Ended => false,
            };
            &&& !awaited ==> connect_next(conn, flow, event) == (
                flow,
                ConnectAction::<Seq<char>>::Wait,
            )
            &&& awaited ==> !(connect_next(conn, flow, event).1 is Wait)
        }),
{
}

/// A stream to a name that resolves, that the settings do not refuse and that is copied
/// without a failure comes about: each answer leads to the next question, the name is
/// dialled as it resolved, and the bytes are counted for the user.
pub proof fn a_stream_to_a_name_comes_about(
    conn: ConnectionState,
    domain: Seq<char>,
    port: u16,
    mode: DirectMode,
    udp: bool,
    info: ResolveInfo,
    peer: SocketAddr,
    private: bool,
    tx: usize,
    rx: usize,
)
    requires
        conn.cfg.acl,
        private ==> !conn.cfg.drop_private,
        loopback(normalized(peer).ip_of()) ==> !conn.cfg.drop_loopback,
    ensures
        ({
            let outbound = OutboundHandler::Direct { mode, udp };
            let addr = Address::DomainAddress(domain, port);
            let s1 = connect_next(conn, ConnectFlow::Start { addr }, ConnectEvent::Begin);
            let s2 = connect_next(conn, s1.0, ConnectEvent::AclMatch(Some(outbound)));
            let s3 = connect_next(conn, s2.0, ConnectEvent::Resolved(Some(info)));
            let s4 = connect_next(conn, s3.0, ConnectEvent::Dialed(true));
            let s5 = connect_next(conn, s4.0, ConnectEvent::PeerKnown(Some(peer)));
            let s6 = connect_next(conn, s5.0, ConnectEvent::PeerClassified(private));
            let s7 = connect_next(conn, s6.0, ConnectEvent::Copied { tx, rx, failed: false });
            let s8 = connect_next(conn, s7.0, ConnectEvent::ClientClosed);
            let s9 = connect_next(conn, s8.0, ConnectEvent::TargetShut);
            &&& s1.1 matches ConnectAction::MatchAcl { query, .. } && query.host == domain
            &&& s2.1 == ConnectAction::Resolve(domain)
            &&& s3.1 == (ConnectAction::Dial {
                addr: Addr { host: domain, port, resolve_info: Some(info) },
                outbound,
            })
            &&& s4.1 is QueryPeer
            &&& s5.1 == ConnectAction::<Seq<char>>::ClassifyPeer(normalized(peer))
            &&& s6.1 is Copy
            &&& s7.1 == (ConnectAction::<Seq<char>>::CloseClient { reset: false })
            &&& s8.1 is ShutTarget
            &&& s9.1 matches ConnectAction::Settle { usage, failed }
            &&& !failed
            &&& conn.auth matches Some(uid) ==> usage == Some(
                Usage { uid, request: true, tx: Some(tx), rx: Some(rx) },
            )
        }),
{
}

} // verus!

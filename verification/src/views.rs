//! What contracts speak of is all that there is: nothing is lost or changed on the way
//! from a value to what stands for it.

use vstd::prelude::*;

use crate::addr::SocketAddr;
use crate::connection::{AclQuery, Connection, Relay};
use crate::outbound::ResolveDecision;
use crate::packet::content;
use crate::send::{SendAction, Sending};
use crate::session::{ListenAction, ListenEvent};
use crate::target::{Addr, Address};
use crate::tcp::{ConnectAction, ConnectFlow};
use crate::udp::{PacketAction, PacketEvent, PacketFlow};

verus! {

/// Addresses, and what is asked about them, stand for themselves, text as its characters.
pub proof fn addresses_are_as_they_read(
    domain: String,
    port: u16,
    sa: SocketAddr,
    addr: Addr,
    query: AclQuery,
)
    ensures
        Address::<String>::Absent@ == Address::<Seq<char>>::Absent,
        Address::DomainAddress(domain, port)@ == Address::DomainAddress(domain@, port),
        Address::<String>::SocketAddress(sa)@ == Address::<Seq<char>>::SocketAddress(sa),
        addr@.host == addr.host@ && addr@.port == addr.port && addr@.resolve_info
            == addr.resolve_info,
        query@.host == query.host@ && query@.port == query.port,
        ResolveDecision::Cache(domain)@ == ResolveDecision::Cache(domain@),
        ResolveDecision::<String>::Skip@ == ResolveDecision::<Seq<char>>::Skip,
{
}

/// A connection and what it relays stand for themselves.
pub proof fn connections_are_as_they_stand(conn: Connection, relay: Relay)
    ensures
        conn@.cfg == conn.cfg && conn@.auth == conn.auth && conn@.udp_relay_mode
            == conn.udp_relay_mode && conn@.udp_sessions == conn.udp_sessions@,
        relay@.mode == relay.mode && relay@.pkt == content(relay.pkt) && relay@.addr == relay.addr@
            && relay@.assoc_id == relay.assoc_id && relay@.usage == relay.usage,
{
}

/// A request for a stream is taken as it is.
pub proof fn streams_are_as_they_flow(flow: ConnectFlow, action: ConnectAction)
    ensures
        match flow {
            ConnectFlow::Start { addr } => flow@ == (ConnectFlow::Start { addr: addr@ }),
            ConnectFlow::Matching { addr } => flow@ == (ConnectFlow::Matching { addr: addr@ }),
            ConnectFlow::Resolving { acl_addr, outbound } => flow@ == (ConnectFlow::Resolving {
                acl_addr: acl_addr@,
                outbound,
            }),
            ConnectFlow::Dialing { outbound } => flow@ matches ConnectFlow::Dialing { outbound: o }
                && o == outbound,
            ConnectFlow::Inspecting => flow@ is Inspecting,
            ConnectFlow::Checking { peer } => flow@ matches ConnectFlow::Checking { peer: p } && p
                == peer,
            ConnectFlow::Copying => flow@ is Copying,
            ConnectFlow::Closing { tx, rx, failed } => flow@ matches ConnectFlow::Closing {
                tx: t,
                rx: r,
                failed: f,
            } && t == tx && r == rx && f == failed,
            ConnectFlow::Shutting { tx, rx, failed } => flow@ matches ConnectFlow::Shutting {
                tx: t,
                rx: r,
                failed: f,
            } && t == tx && r == rx && f == failed,
            ConnectFlow::Ended => flow@ is Ended,
        },
        match action {
            ConnectAction::MatchAcl { query, protocol } => action@ == (ConnectAction::MatchAcl {
                query: query@,
                protocol,
            }),
            ConnectAction::Resolve(domain) => action@ == ConnectAction::Resolve(domain@),
            ConnectAction::Dial { addr, outbound } => action@ == (ConnectAction::Dial {
                addr: addr@,
                outbound,
            }),
            ConnectAction::QueryPeer => action@ is QueryPeer,
            ConnectAction::ClassifyPeer(peer) => action@ matches ConnectAction::ClassifyPeer(p) && p
                == peer,
            ConnectAction::Copy => action@ is Copy,
            ConnectAction::Refuse(why) => action@ matches ConnectAction::Refuse(w) && w == why,
            ConnectAction::Abandon => action@ is Abandon,
            ConnectAction::CloseClient { reset } => action@ matches ConnectAction::CloseClient {
                reset: r,
            } && r == reset,
            ConnectAction::ShutTarget => action@ is ShutTarget,
            ConnectAction::Settle { usage, failed } => action@ matches ConnectAction::Settle {
                usage: u,
                failed: f,
            } && u == usage && f == failed,
            ConnectAction::Wait => action@ is Wait,
        },
{
}

/// How far a datagram has come, and what happened to it, is taken as it is.
pub proof fn datagrams_are_as_they_flow<E>(flow: PacketFlow, event: PacketEvent<E>)
    ensures
        match flow {
            PacketFlow::Start => flow@ is Start,
            PacketFlow::Accepting => flow@ is Accepting,
            PacketFlow::Locking { pkt, addr, assoc_id } => flow@ == (PacketFlow::Locking {
                pkt: content(pkt),
                addr: addr@,
                assoc_id,
            }),
            PacketFlow::Creating { pkt, addr, assoc_id } => flow@ == (PacketFlow::Creating {
                pkt: content(pkt),
                addr: addr@,
                assoc_id,
            }),
            PacketFlow::Matching { pkt, addr, session } => flow@ == (PacketFlow::Matching {
                pkt: content(pkt),
                addr: addr@,
                session,
            }),
            PacketFlow::Resolving { pkt, acl_addr, mode, session } => flow@ == (
            PacketFlow::Resolving { pkt: content(pkt), acl_addr: acl_addr@, mode, session }),
            PacketFlow::Classifying { pkt, first, second, session } => flow@
                matches PacketFlow::Classifying { pkt: p, first: f, second: g, session: s } && p
                == content(pkt) && f == first && g == second && s == session,
            PacketFlow::Sending => flow@ is Sending,
            PacketFlow::Ended => flow@ is Ended,
        },
        match event {
            PacketEvent::Arrived(mode) => event@ matches PacketEvent::Arrived(m) && m == mode,
            PacketEvent::Incomplete => event@ is Incomplete,
            PacketEvent::AcceptFailed(e) => event@ matches PacketEvent::AcceptFailed(f) && f == e,
            PacketEvent::Accepted { pkt, addr, assoc_id } => event@ matches PacketEvent::Accepted {
                pkt: p,
                addr: a,
                assoc_id: i,
            } && p == content(pkt) && a == addr@ && i == assoc_id,
            PacketEvent::Locked => event@ is Locked,
            PacketEvent::SessionCreated(r) => event@ matches PacketEvent::SessionCreated(s) && s
                == r,
            PacketEvent::AclMatch(m) => event@ matches PacketEvent::AclMatch(n) && n == m,
            PacketEvent::Resolved(info) => event@ matches PacketEvent::Resolved(i) && i == info,
            PacketEvent::Classified { first, second } => event@ matches PacketEvent::Classified {
                first: f,
                second: g,
            } && f == first && g == second,
            PacketEvent::Sent(r) => event@ matches PacketEvent::Sent(s) && s == r,
            PacketEvent::SessionGone => event@ is SessionGone,
        },
{
}

/// What to do with a datagram is taken as it is.
pub proof fn datagrams_are_treated_as_told<E>(action: PacketAction<E>)
    ensures
        match action {
            PacketAction::Accept => action@ is Accept,
            PacketAction::LockSessions => action@ is LockSessions,
            PacketAction::CreateSession { assoc_id } => action@
                matches PacketAction::CreateSession { assoc_id: a } && a == assoc_id,
            PacketAction::MatchAcl { query, protocol } => action@ matches PacketAction::MatchAcl {
                query: q,
                protocol: p,
            } && q == query@ && p == protocol,
            PacketAction::Resolve(domain) => action@ matches PacketAction::Resolve(d) && d
                == domain@,
            PacketAction::Classify { first, second } => action@ matches PacketAction::Classify {
                first: f,
                second: g,
            } && f == first && g == second,
            PacketAction::Send { session, pkt, targets, usage } => action@
                matches PacketAction::Send { session: s, pkt: p, targets: t, usage: u } && s
                == session && p == content(pkt) && t == targets@ && u == usage,
            PacketAction::End(end) => action@ matches PacketAction::End(e) && e == end,
            PacketAction::Wait => action@ is Wait,
        },
{
}

/// What a listening session hears and does is taken as it is.
pub proof fn sessions_are_as_they_hear<E>(event: ListenEvent<E>, action: ListenAction)
    ensures
        match event {
            ListenEvent::Received { pkt, from } => event@ == (ListenEvent::<E, Seq<u8>>::Received {
                pkt: content(pkt),
                from,
            }),
            ListenEvent::RecvFailed(e) => event@ matches ListenEvent::RecvFailed(f) && f == e,
            ListenEvent::ParentClosed => event@ is ParentClosed,
            ListenEvent::IdleTimeout => event@ is IdleTimeout,
            ListenEvent::CloseRequested => event@ is CloseRequested,
        },
        match action {
            ListenAction::Relay { pkt, addr, assoc_id } => action@ == (ListenAction::Relay {
                pkt: content(pkt),
                addr: addr@,
                assoc_id,
            }),
            ListenAction::Resume => action@ is Resume,
            ListenAction::Close { signal } => action@ matches ListenAction::Close { signal: s } && s
                == signal,
            ListenAction::Stop => action@ is Stop,
        },
{
}

/// A datagram that is being sent is taken as it is.
pub proof fn sending_is_as_it_goes<E>(s: Sending<E>, action: SendAction<E>)
    ensures
        s@.pkt == content(s.pkt) && s@.to == s.to && s@.targets == s.targets@ && s@.next == s.next
            && s@.ipv6 == s.ipv6 && s@.last_err == s.last_err,
        match action {
            SendAction::ToV4(t) => action@ matches SendAction::ToV4(u) && u == t@,
            SendAction::ToV6(t) => action@ matches SendAction::ToV6(u) && u == t@,
            SendAction::Done(result) => action@ matches SendAction::Done(r) && r == result,
        },
{
}

} // verus!

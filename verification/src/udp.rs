//! Relaying a client's datagram to the target it names.
use bytes::Bytes;
use vstd::prelude::*;

use crate::addr::{normalize_v4_mapped, reached, SocketAddr};
use crate::connection::{
    acl_query_of, dropped, AclQuery, Config, Connection, ConnectionState, UdpRelayMode, Usage,
};
use crate::error::Error;
use crate::outbound::{
    outbound_for, resolve_decision, resolve_rule, OutboundHandler, Protocol, ResolveDecision,
};
use crate::packet::{content, length};
use crate::target::{
    acl_addr_of, address_to_acl_addr, candidates, udp_target_candidates, Addr, Address, DirectMode,
    ResolveInfo,
};

verus! {

/// How far a datagram from the client has come.
#[derive(Debug, PartialEq, Eq)]
pub enum PacketFlow<S = String, B = Bytes> {
    Start,
    Accepting,
    Locking { pkt: B, addr: Address<S>, assoc_id: u16 },
    Creating { pkt: B, addr: Address<S>, assoc_id: u16 },
    Matching { pkt: B, addr: Address<S>, session: u64 },
    Resolving { pkt: B, acl_addr: Addr<S>, mode: DirectMode, session: u64 },
    Classifying { pkt: B, first: Option<SocketAddr>, second: Option<SocketAddr>, session: u64 },
    Sending,
    Ended,
}

impl View for PacketFlow<String, Bytes> {
    type V = PacketFlow<Seq<char>, Seq<u8>>;

    open spec fn view(&self) -> PacketFlow<Seq<char>, Seq<u8>> {
        match self {
            PacketFlow::Start => PacketFlow::Start,
            PacketFlow::Accepting => PacketFlow::Accepting,
            PacketFlow::Locking { pkt, addr, assoc_id } => PacketFlow::Locking {
                pkt: content(*pkt),
                addr: addr@,
                assoc_id: *assoc_id,
            },
            PacketFlow::Creating { pkt, addr, assoc_id } => PacketFlow::Creating {
                pkt: content(*pkt),
                addr: addr@,
                assoc_id: *assoc_id,
            },
            PacketFlow::Matching { pkt, addr, session } => PacketFlow::Matching {
                pkt: content(*pkt),
                addr: addr@,
                session: *session,
            },
            PacketFlow::Resolving { pkt, acl_addr, mode, session } => PacketFlow::Resolving {
                pkt: content(*pkt),
                acl_addr: acl_addr@,
                mode: *mode,
                session: *session,
            },
            PacketFlow::Classifying { pkt, first, second, session } => PacketFlow::Classifying {
                pkt: content(*pkt),
                first: *first,
                second: *second,
                session: *session,
            },
            PacketFlow::Sending => PacketFlow::Sending,
            PacketFlow::Ended => PacketFlow::Ended,
        }
    }
}

/// What happened to a datagram from the client.
#[derive(Debug, PartialEq, Eq)]
pub enum PacketEvent<E, S = String, B = Bytes> {
    /// A fragment came in, in this mode.
    Arrived(UdpRelayMode),
    /// More fragments are needed.
    Incomplete,
    /// The fragment could not be taken in.
    AcceptFailed(E),
    /// The datagram is whole.
    Accepted { pkt: B, addr: Address<S>, assoc_id: u16 },
    /// No one else changes the sessions until the next event.
    Locked,
    /// Whether a session was created, and which.
    SessionCreated(Result<u64, Error<E>>),
    /// What the access rules matched.
    AclMatch(Option<OutboundHandler>),
    /// What the name resolved to; `None` if it did not.
    Resolved(Option<ResolveInfo>),
    /// Which of the two candidates are private addresses.
    Classified { first: bool, second: bool },
    /// How sending went.
    Sent(Result<(), Error<E>>),
    /// The session was no longer there to send.
    SessionGone,
}

impl<E> View for PacketEvent<E, String, Bytes> {
    type V = PacketEvent<E, Seq<char>, Seq<u8>>;

    open spec fn view(&self) -> PacketEvent<E, Seq<char>, Seq<u8>> {
        match self {
            PacketEvent::Arrived(mode) => PacketEvent::Arrived(*mode),
            PacketEvent::Incomplete => PacketEvent::Incomplete,
            PacketEvent::AcceptFailed(e) => PacketEvent::AcceptFailed(*e),
            PacketEvent::Accepted { pkt, addr, assoc_id } => PacketEvent::Accepted {
                pkt: content(*pkt),
                addr: addr@,
                assoc_id: *assoc_id,
            },
            PacketEvent::Locked => PacketEvent::Locked,
            PacketEvent::SessionCreated(r) => PacketEvent::SessionCreated(*r),
            PacketEvent::AclMatch(m) => PacketEvent::AclMatch(*m),
            PacketEvent::Resolved(info) => PacketEvent::Resolved(*info),
            PacketEvent::Classified { first, second } => PacketEvent::Classified {
                first: *first,
                second: *second,
            },
            PacketEvent::Sent(r) => PacketEvent::Sent(*r),
            PacketEvent::SessionGone => PacketEvent::SessionGone,
        }
    }
}

/// Why a datagram is dropped.
#[derive(Clone, Copy, Debug, PartialEq, Eq, Structural)]
pub enum DropReason {
    /// The access rules reject the target.
    Rejected,
    /// The outbound may not carry datagrams.
    UdpNotAllowed,
    /// The outbound is a proxy: sending from here would bypass it.
    Proxied,
    /// The name did not resolve.
    DnsFailed,
    /// Every target is a loopback or private address.
    Blocked,
}

/// How a datagram ends.
#[derive(Debug, PartialEq, Eq)]
pub enum PacketEnd<E> {
    /// It waits for more fragments.
    Incomplete,
    AcceptFailed(E),
    Dropped(DropReason),
    Failed(Error<E>),
    Delivered,
}

/// What to do with a datagram from the client.
#[derive(Debug, PartialEq, Eq)]
pub enum PacketAction<E, S = String, B = Bytes, T = Vec<SocketAddr>> {
    /// Take the fragment in.
    Accept,
    /// Keep everyone else from changing the sessions.
    LockSessions,
    /// Create a session for the association.
    CreateSession { assoc_id: u16 },
    /// Ask the access rules.
    MatchAcl { query: AclQuery<S>, protocol: Protocol },
    /// Resolve a name.
    Resolve(S),
    /// Find out which of these are private addresses.
    Classify { first: Option<SocketAddr>, second: Option<SocketAddr> },
    /// Put the usage on the account, and have the session send the datagram to the
    /// first target that takes it.
    Send { session: u64, pkt: B, targets: T, usage: Option<Usage> },
    /// Nothing more.
    End(PacketEnd<E>),
    /// Nothing for now.
    Wait,
}

/// An action, as contracts speak of it.
pub type PacketActionView<E> = PacketAction<E, Seq<char>, Seq<u8>, Seq<SocketAddr>>;

impl<E> View for PacketAction<E, String, Bytes, Vec<SocketAddr>> {
    type V = PacketActionView<E>;

    open spec fn view(&self) -> PacketActionView<E> {
        match self {
            PacketAction::Accept => PacketAction::Accept,
            PacketAction::LockSessions => PacketAction::LockSessions,
            PacketAction::CreateSession { assoc_id } => PacketAction::CreateSession {
                assoc_id: *assoc_id,
            },
            PacketAction::MatchAcl { query, protocol } => PacketAction::MatchAcl {
                query: query@,
                protocol: *protocol,
            },
            PacketAction::Resolve(domain) => PacketAction::Resolve(domain@),
            PacketAction::Classify { first, second } => PacketAction::Classify {
                first: *first,
                second: *second,
            },
            PacketAction::Send { session, pkt, targets, usage } => PacketAction::Send {
                session: *session,
                pkt: content(*pkt),
                targets: targets@,
                usage: *usage,
            },
            PacketAction::End(end) => PacketAction::End(*end),
            PacketAction::Wait => PacketAction::Wait,
        }
    }
}

/// A flow and an action, as contracts speak of them.
pub type PacketStep<E> = (PacketFlow<Seq<char>, Seq<u8>>, PacketActionView<E>);

/// The candidates that the settings do not refuse, in order. `private` tells of
/// each whether the address that it reaches is a private one.
pub open spec fn allowed(cfg: Config, c: Seq<Option<SocketAddr>>, private: Seq<bool>) -> Seq<
    SocketAddr,
>
    decreases c.len(),
{
    if c.len() == 0 {
        Seq::empty()
    } else {
        let init = allowed(cfg, c.drop_last(), private.drop_last());
        match c.last() {
            Some(t) if !dropped(cfg, t, private.last()) => init.push(t),
            _ => init,
        }
    }
}

/// The end of a datagram.
pub open spec fn ended<E>(end: PacketEnd<E>) -> PacketStep<E> {
    (PacketFlow::Ended, PacketAction::End(end))
}

/// How a datagram goes on once its session is known.
pub open spec fn packet_in_session<E>(
    conn: ConnectionState,
    pkt: Seq<u8>,
    addr: Address<Seq<char>>,
    session: u64,
) -> PacketStep<E> {
    if conn.cfg.acl {
        (
            PacketFlow::Matching { pkt, addr, session },
            PacketAction::MatchAcl { query: acl_query_of(addr), protocol: Protocol::UDP },
        )
    } else {
        packet_via(pkt, addr, session, outbound_for(None))
    }
}

/// How a datagram goes on once its outbound is known.
pub open spec fn packet_via<E>(
    pkt: Seq<u8>,
    addr: Address<Seq<char>>,
    session: u64,
    outbound: OutboundHandler,
) -> PacketStep<E> {
    if outbound is Reject {
        ended(PacketEnd::Dropped(DropReason::Rejected))
    } else if !outbound.carries_udp() {
        ended(PacketEnd::Dropped(DropReason::UdpNotAllowed))
    } else {
        match outbound.mode() {
            None => ended(PacketEnd::Dropped(DropReason::Proxied)),
            Some(mode) => match resolve_rule(outbound, addr) {
                ResolveDecision::Cache(domain) => (
                    PacketFlow::Resolving { pkt, acl_addr: acl_addr_of(addr), mode, session },
                    PacketAction::Resolve(domain),
                ),
                ResolveDecision::Skip => packet_to(pkt, acl_addr_of(addr), mode, session),
            },
        }
    }
}

/// How a datagram goes on once its target is resolved. Whether a candidate is refused
/// is asked of the address that it reaches.
pub open spec fn packet_to<E>(
    pkt: Seq<u8>,
    addr: Addr<Seq<char>>,
    mode: DirectMode,
    session: u64,
) -> PacketStep<E> {
    let c = candidates(Some(mode), addr);
    if c[0] is None && c[1] is None {
        ended(PacketEnd::Failed(Error::NoUsableTarget))
    } else {
        (
            PacketFlow::Classifying {
                pkt,
                first: reached(c[0]),
                second: reached(c[1]),
                session,
            },
            PacketAction::Classify { first: reached(c[0]), second: reached(c[1]) },
        )
    }
}

/// How a datagram goes on once its targets are classified.
pub open spec fn packet_out<E>(
    conn: ConnectionState,
    pkt: Seq<u8>,
    targets: Seq<SocketAddr>,
    session: u64,
) -> PacketStep<E> {
    if targets.len() == 0 {
        ended(PacketEnd::Dropped(DropReason::Blocked))
    } else {
        (
            PacketFlow::Sending,
            PacketAction::Send {
                session,
                pkt,
                targets,
                usage: conn.billed(true, Some(pkt.len() as usize), None),
            },
        )
    }
}

/// The connection once `event` has happened to a datagram in `flow`: a fragment
/// sets the mode, and a created session is entered unless there is one already.
pub open spec fn packet_conn<E>(
    conn: ConnectionState,
    flow: PacketFlow<Seq<char>, Seq<u8>>,
    event: PacketEvent<E, Seq<char>, Seq<u8>>,
) -> ConnectionState {
    match (flow, event) {
        (PacketFlow::Start, PacketEvent::Arrived(mode)) => ConnectionState {
            udp_relay_mode: Some(mode),
            ..conn
        },
        (
            PacketFlow::Creating { assoc_id, .. },
            PacketEvent::SessionCreated(Ok(session)),
        ) => if conn.udp_sessions.contains_key(assoc_id) {
            conn
        } else {
            conn.with_sessions(conn.udp_sessions.insert(assoc_id, session))
        },
        _ => conn,
    }
}

/// How a datagram goes on from `flow` when `event` happens. An event that the flow
/// does not wait for changes nothing.
pub open spec fn packet_next<E>(
    conn: ConnectionState,
    flow: PacketFlow<Seq<char>, Seq<u8>>,
    event: PacketEvent<E, Seq<char>, Seq<u8>>,
) -> PacketStep<E> {
    match (flow, event) {
        (PacketFlow::Start, PacketEvent::Arrived(_)) => (
            PacketFlow::Accepting,
            PacketAction::Accept,
        ),
        (PacketFlow::Accepting, PacketEvent::Incomplete) => ended(PacketEnd::Incomplete),
        (PacketFlow::Accepting, PacketEvent::AcceptFailed(e)) => ended(PacketEnd::AcceptFailed(e)),
        (
            PacketFlow::Accepting,
            PacketEvent::Accepted { pkt, addr, assoc_id },
        ) => match conn.udp_sessions.get(assoc_id) {
            Some(session) => packet_in_session(conn, pkt, addr, session),
            None => (
                PacketFlow::Locking { pkt, addr, assoc_id },
                PacketAction::LockSessions,
            ),
        },
        (
            PacketFlow::Locking { pkt, addr, assoc_id },
            PacketEvent::Locked,
        ) => match conn.udp_sessions.get(assoc_id) {
            Some(session) => packet_in_session(conn, pkt, addr, session),
            None => (
                PacketFlow::Creating { pkt, addr, assoc_id },
                PacketAction::CreateSession { assoc_id },
            ),
        },
        (
            PacketFlow::Creating { pkt, addr, assoc_id },
            PacketEvent::SessionCreated(Ok(session)),
        ) => packet_in_session(
            conn,
            pkt,
            addr,
            packet_conn(conn, flow, event).udp_sessions[assoc_id],
        ),
        (PacketFlow::Creating { .. }, PacketEvent::SessionCreated(Err(e))) => ended(
            PacketEnd::Failed(e),
        ),
        (PacketFlow::Matching { pkt, addr, session }, PacketEvent::AclMatch(matched)) => packet_via(
            pkt,
            addr,
            session,
            outbound_for(matched),
        ),
        (
            PacketFlow::Resolving { pkt, acl_addr, mode, session },
            PacketEvent::Resolved(Some(info)),
        ) => packet_to(pkt, Addr { resolve_info: Some(info), ..acl_addr }, mode, session),
        (PacketFlow::Resolving { .. }, PacketEvent::Resolved(None)) => ended(
            PacketEnd::Dropped(DropReason::DnsFailed),
        ),
        (
            PacketFlow::Classifying { pkt, first, second, session },
            PacketEvent::Classified { first: p, second: q },
        ) => packet_out(conn, pkt, allowed(conn.cfg, seq![first, second], seq![p, q]), session),
        (PacketFlow::Sending, PacketEvent::Sent(Ok(_))) => ended(PacketEnd::Delivered),
        (PacketFlow::Sending, PacketEvent::Sent(Err(e))) => ended(PacketEnd::Failed(e)),
        (PacketFlow::Sending, PacketEvent::SessionGone) => ended(
            PacketEnd::Failed(Error::SessionDropped),
        ),
        _ => (flow, PacketAction::Wait),
    }
}

fn reached_by(target: Option<SocketAddr>) -> (r: Option<SocketAddr>)
    ensures
        r == reached(target),
{
    match target {
        Some(t) => Some(normalize_v4_mapped(t)),
        None => None,
    }
}

fn resolved_packet<E>(pkt: Bytes, addr: Addr, mode: DirectMode, session: u64) -> (r: (
    PacketFlow,
    PacketAction<E>,
))
    ensures
        (r.0@, r.1@) == packet_to::<E>(content(pkt), addr@, mode, session),
{
    let c = udp_target_candidates(Some(mode), &addr);
    let first = reached_by(c[0]);
    let second = reached_by(c[1]);
    if first.is_none() && second.is_none() {
        (PacketFlow::Ended, PacketAction::End(PacketEnd::Failed(Error::NoUsableTarget)))
    } else {
        (
            PacketFlow::Classifying { pkt, first, second, session },
            PacketAction::Classify { first, second },
        )
    }
}

fn routed_packet<E>(pkt: Bytes, addr: Address, session: u64, outbound: OutboundHandler) -> (r: (
    PacketFlow,
    PacketAction<E>,
))
    ensures
        (r.0@, r.1@) == packet_via::<E>(content(pkt), addr@, session, outbound),
{
    if outbound.is_reject() {
        return (
            PacketFlow::Ended,
            PacketAction::End(PacketEnd::Dropped(DropReason::Rejected)),
        );
    }
    if !outbound.allows_udp() {
        return (
            PacketFlow::Ended,
            PacketAction::End(PacketEnd::Dropped(DropReason::UdpNotAllowed)),
        );
    }
    let mode = match outbound.direct_mode() {
        Some(mode) => mode,
        None => {
            return (
                PacketFlow::Ended,
                PacketAction::End(PacketEnd::Dropped(DropReason::Proxied)),
            );
        },
    };
    let acl_addr = address_to_acl_addr(&addr);
    match resolve_decision(&outbound, &addr) {
        ResolveDecision::Cache(domain) => (
            PacketFlow::Resolving { pkt, acl_addr, mode, session },
            PacketAction::Resolve(domain),
        ),
        ResolveDecision::Skip => resolved_packet(pkt, acl_addr, mode, session),
    }
}

impl Connection {
    fn packet_for<E>(&self, pkt: Bytes, addr: Address, session: u64) -> (r: (
        PacketFlow,
        PacketAction<E>,
    ))
        ensures
            (r.0@, r.1@) == packet_in_session::<E>(self@, content(pkt), addr@, session),
    {
        match self.acl_query(&addr) {
            Some(query) => (
                PacketFlow::Matching { pkt, addr, session },
                PacketAction::MatchAcl { query, protocol: Protocol::UDP },
            ),
            None => routed_packet(pkt, addr, session, Connection::get_outbound_handler(None)),
        }
    }

    /// The candidates to send to; `private` tells of each whether the address that it
    /// reaches is a private one. The filter applies to every candidate that sending
    /// might fall back to, so a fallback family cannot reach a host that the check
    /// of the preferred one would have blocked.
    pub fn send_targets(&self, candidates: [Option<SocketAddr>; 2], private: [bool; 2]) -> (r: Vec<
        SocketAddr,
    >)
        ensures
            r@ == allowed(self@.cfg, candidates@, private@),
    {
        let mut targets: Vec<SocketAddr> = Vec::new();
        for i in 0..2usize
            invariant
                targets@ == allowed(
                    self@.cfg,
                    candidates@.take(i as int),
                    private@.take(i as int),
                ),
        {
            proof {
                assert(candidates@.take(i + 1).drop_last() =~= candidates@.take(i as int));
                assert(private@.take(i + 1).drop_last() =~= private@.take(i as int));
            }
            if let Some(target) = candidates[i] {
                if !self.should_drop_address(&target, private[i]) {
                    targets.push(target);
                }
            }
        }
        assert(candidates@.take(2) =~= candidates@);
        assert(private@.take(2) =~= private@);
        targets
    }

    /// Take an event of a datagram from the client. The datagram goes to its
    /// association's session, which is created if there is none. It is sent only
    /// through a direct outbound: the sockets of a session are the server's own, and
    /// to send what a proxy should carry would bypass the proxy.
    pub fn handle_packet<E>(&mut self, flow: PacketFlow, event: PacketEvent<E>) -> (r: (
        PacketFlow,
        PacketAction<E>,
    ))
        ensures
            (r.0@, r.1@) == packet_next(old(self)@, flow@, event@),
            final(self)@ == packet_conn(old(self)@, flow@, event@),
    {
        match (flow, event) {
            (PacketFlow::Start, PacketEvent::Arrived(mode)) => {
                self.udp_relay_mode = Some(mode);
                (PacketFlow::Accepting, PacketAction::Accept)
            },
            (PacketFlow::Accepting, PacketEvent::Incomplete) => (
                PacketFlow::Ended,
                PacketAction::End(PacketEnd::Incomplete),
            ),
            (PacketFlow::Accepting, PacketEvent::AcceptFailed(e)) => (
                PacketFlow::Ended,
                PacketAction::End(PacketEnd::AcceptFailed(e)),
            ),
            (
                PacketFlow::Accepting,
                PacketEvent::Accepted { pkt, addr, assoc_id },
            ) => match self.session(assoc_id) {
                Some(session) => self.packet_for(pkt, addr, session),
                None => (
                    PacketFlow::Locking { pkt, addr, assoc_id },
                    PacketAction::LockSessions,
                ),
            },
            (
                PacketFlow::Locking { pkt, addr, assoc_id },
                PacketEvent::Locked,
            ) => match self.session(assoc_id) {
                Some(session) => self.packet_for(pkt, addr, session),
                None => (
                    PacketFlow::Creating { pkt, addr, assoc_id },
                    PacketAction::CreateSession { assoc_id },
                ),
            },
            (
                PacketFlow::Creating { pkt, addr, assoc_id },
                PacketEvent::SessionCreated(Ok(created)),
            ) => {
                let session = self.enter_session(assoc_id, created);
                self.packet_for(pkt, addr, session)
            },
            (PacketFlow::Creating { .. }, PacketEvent::SessionCreated(Err(e))) => (
                PacketFlow::Ended,
                PacketAction::End(PacketEnd::Failed(e)),
            ),
            (
                PacketFlow::Matching { pkt, addr, session },
                PacketEvent::AclMatch(matched),
            ) => routed_packet(pkt, addr, session, Connection::get_outbound_handler(matched)),
            (
                PacketFlow::Resolving { pkt, acl_addr, mode, session },
                PacketEvent::Resolved(Some(info)),
            ) => resolved_packet(pkt, acl_addr.with_resolve_info(info), mode, session),
            (PacketFlow::Resolving { .. }, PacketEvent::Resolved(None)) => (
                PacketFlow::Ended,
                PacketAction::End(PacketEnd::Dropped(DropReason::DnsFailed)),
            ),
            (
                PacketFlow::Classifying { pkt, first, second, session },
                PacketEvent::Classified { first: p, second: q },
            ) => {
                let c: [Option<SocketAddr>; 2] = [first, second];
                let private: [bool; 2] = [p, q];
                let targets = self.send_targets(c, private);
                proof {
                    assert(c@ =~= seq![first, second]);
                    assert(private@ =~= seq![p, q]);
                }
                if targets.len() == 0 {
                    return (
                        PacketFlow::Ended,
                        PacketAction::End(PacketEnd::Dropped(DropReason::Blocked)),
                    );
                }
                let usage = self.bill(true, Some(length(&pkt)), None);
                (PacketFlow::Sending, PacketAction::Send { session, pkt, targets, usage })
            },
            (PacketFlow::Sending, PacketEvent::Sent(Ok(()))) => (
                PacketFlow::Ended,
                PacketAction::End(PacketEnd::Delivered),
            ),
            (PacketFlow::Sending, PacketEvent::Sent(Err(e))) => (
                PacketFlow::Ended,
                PacketAction::End(PacketEnd::Failed(e)),
            ),
            (PacketFlow::Sending, PacketEvent::SessionGone) => (
                PacketFlow::Ended,
                PacketAction::End(PacketEnd::Failed(Error::SessionDropped)),
            ),
            (flow, _) => (flow, PacketAction::Wait),
        }
    }
}

} // verus!

//! What holds of every datagram from a client, whatever happens to it.
use vstd::prelude::*;

use crate::addr::{loopback, normalized, reached, socket_addr, v4_mapped, SocketAddr};
use crate::connection::{acl_query_of, dropped, Config, ConnectionState, UdpRelayMode};
use crate::outbound::{outbound_for, OutboundHandler, Protocol};
use crate::roundtrip::written_address_is_read_back;
use crate::send::{
    steps_after, the_datagram_goes_to_its_targets, tried, Network, SendAction, SendingView,
};
use crate::target::{acl_addr_of, candidates, Addr, Address, DirectMode};
use crate::udp::{
    allowed, packet_conn, packet_in_session, packet_next, packet_to, packet_via, DropReason,
    PacketAction, PacketActionView, PacketEnd, PacketEvent, PacketFlow, PacketStep,
};

verus! {

/// Of the candidates, exactly those that the settings do not refuse are sent to.
pub proof fn every_target_passes_the_filter(
    cfg: Config,
    c: Seq<Option<SocketAddr>>,
    private: Seq<bool>,
    t: SocketAddr,
)
    requires
        c.len() == private.len(),
    ensures
        allowed(cfg, c, private).contains(t) <==> exists|i: int|
            0 <= i < c.len() && #[trigger] c[i] == Some(t) && !dropped(cfg, t, private[i]),
    decreases c.len(),
{
    if c.len() > 0 {
        let n = c.len() - 1;
        let c0 = c.drop_last();
        let p0 = private.drop_last();
        let init = allowed(cfg, c0, p0);
        let all = allowed(cfg, c, private);
        every_target_passes_the_filter(cfg, c0, p0, t);
        if all.contains(t) {
            let k = choose|k: int| 0 <= k < all.len() && all[k] == t;
            if k < init.len() {
                assert(init[k] == t);
                assert(init.contains(t));
                let i = choose|i: int|
                    0 <= i < c0.len() && #[trigger] c0[i] == Some(t) && !dropped(cfg, t, p0[i]);
                assert(c[i] == Some(t));
            } else {
                assert(c[n] == Some(t));
            }
        }
        if exists|i: int|
            0 <= i < c.len() && #[trigger] c[i] == Some(t) && !dropped(cfg, t, private[i]) {
            let i = choose|i: int|
                0 <= i < c.len() && #[trigger] c[i] == Some(t) && !dropped(cfg, t, private[i]);
            if i < n {
                assert(c0[i] == Some(t) && !dropped(cfg, t, p0[i]));
                assert(init.contains(t));
                let k = choose|k: int| 0 <= k < init.len() && init[k] == t;
                assert(all[k] == t);
            } else {
                assert(all[all.len() - 1] == t);
            }
        }
    }
}

/// The preferred candidate, if it is sent to at all, is tried first.
pub proof fn preferred_target_is_tried_first(
    cfg: Config,
    first: SocketAddr,
    second: Option<SocketAddr>,
    private: Seq<bool>,
)
    requires
        private.len() == 2,
        !dropped(cfg, first, private[0]),
    ensures
        allowed(cfg, seq![Some(first), second], private)[0] == first,
{
    let c = seq![Some(first), second];
    reveal_with_fuel(allowed, 3);
    assert(c.drop_last() =~= seq![Some(first)]);
    assert(c.drop_last().drop_last() =~= Seq::empty());
}

/// The course of a datagram: after each event, with the connection as it then was,
/// the flow reached and the action taken.
pub open spec fn packet_course<E>(
    inputs: Seq<(ConnectionState, PacketEvent<E, Seq<char>, Seq<u8>>)>,
) -> PacketStep<E>
    decreases inputs.len(),
{
    if inputs.len() == 0 {
        (PacketFlow::Start, PacketAction::Wait)
    } else {
        packet_next(inputs.last().0, packet_course(inputs.drop_last()).0, inputs.last().1)
    }
}

/// An input that lets a datagram pass in `mode`: the access rules chose a direct
/// outbound of that mode that may carry datagrams, or its session became known while
/// no access rules are in force, and the mode is `Auto`.
pub open spec fn lets_pass<E>(
    input: (ConnectionState, PacketEvent<E, Seq<char>, Seq<u8>>),
    mode: DirectMode,
) -> bool {
    match input.1 {
        PacketEvent::AclMatch(matched) => outbound_for(matched) == (OutboundHandler::Direct {
            mode,
            udp: true,
        }),
        PacketEvent::Accepted { .. } | PacketEvent::Locked | PacketEvent::SessionCreated(
            Ok(_),
        ) => !input.0.cfg.acl && mode is Auto,
        _ => false,
    }
}

/// The input that completed the datagram `pkt` for `addr` in association `assoc_id`.
pub open spec fn completes<E>(
    input: (ConnectionState, PacketEvent<E, Seq<char>, Seq<u8>>),
    pkt: Seq<u8>,
    addr: Address<Seq<char>>,
    assoc_id: u16,
) -> bool {
    input.1 == (PacketEvent::<E, Seq<char>, Seq<u8>>::Accepted { pkt, addr, assoc_id })
}

/// An input at which `session` is the session of association `assoc_id`: it was found
/// there, or was just created for it.
pub open spec fn binds<E>(
    input: (ConnectionState, PacketEvent<E, Seq<char>, Seq<u8>>),
    assoc_id: u16,
    session: u64,
) -> bool {
    match input.0.udp_sessions.get(assoc_id) {
        Some(s) => s == session,
        None => input.1 matches PacketEvent::SessionCreated(Ok(s)) && s == session,
    }
}

/// An input that resolves the name in `addr`: from then on it is dialled as `a`.
pub open spec fn resolves<E>(
    input: (ConnectionState, PacketEvent<E, Seq<char>, Seq<u8>>),
    addr: Address<Seq<char>>,
    a: Addr<Seq<char>>,
) -> bool {
    input.1 matches PacketEvent::Resolved(Some(info)) && a == (Addr {
        resolve_info: Some(info),
        ..acl_addr_of(addr)
    })
}

/// A datagram to `addr` is dialled as `a`: as a name that one of `inputs` resolved, or
/// as the address itself.
pub open spec fn dialled_as<E>(
    inputs: Seq<(ConnectionState, PacketEvent<E, Seq<char>, Seq<u8>>)>,
    addr: Address<Seq<char>>,
    a: Addr<Seq<char>>,
) -> bool {
    if addr is DomainAddress {
        exists|k: int| 0 <= k < inputs.len() && #[trigger] resolves(inputs[k], addr, a)
    } else {
        a == acl_addr_of(addr)
    }
}

/// `t` is what one of the candidates for `a` reaches in `mode`.
pub open spec fn target_of(mode: DirectMode, a: Addr<Seq<char>>, t: SocketAddr) -> bool {
    let c = candidates(Some(mode), a);
    reached(c[0]) == Some(t) || reached(c[1]) == Some(t)
}

/// `t` is a target that a datagram to `addr` may have: the port is the one named, no
/// target is an IPv4-mapped address, and an address that was named is the target.
pub open spec fn belongs(addr: Address<Seq<char>>, t: SocketAddr) -> bool {
    &&& t.port_of() == acl_addr_of(addr).port
    &&& !v4_mapped(t)
    &&& addr matches Address::SocketAddress(sa) ==> t == normalized(
        socket_addr(sa.ip_of(), sa.port_of()),
    )
}

spec fn passed<E>(
    inputs: Seq<(ConnectionState, PacketEvent<E, Seq<char>, Seq<u8>>)>,
    mode: DirectMode,
) -> bool {
    exists|k: int| 0 <= k < inputs.len() && #[trigger] lets_pass(inputs[k], mode)
}

spec fn completed<E>(
    inputs: Seq<(ConnectionState, PacketEvent<E, Seq<char>, Seq<u8>>)>,
    pkt: Seq<u8>,
    addr: Address<Seq<char>>,
    assoc_id: u16,
) -> bool {
    exists|k: int| 0 <= k < inputs.len() && #[trigger] completes(inputs[k], pkt, addr, assoc_id)
}

spec fn bound<E>(inputs: Seq<(ConnectionState, PacketEvent<E, Seq<char>, Seq<u8>>)>, assoc_id: u16, session: u64) -> bool {
    exists|k: int| 0 <= k < inputs.len() && #[trigger] binds(inputs[k], assoc_id, session)
}

/// The datagram `pkt` for `addr` came in an association whose session is `session`.
spec fn origin<E>(
    inputs: Seq<(ConnectionState, PacketEvent<E, Seq<char>, Seq<u8>>)>,
    pkt: Seq<u8>,
    addr: Address<Seq<char>>,
    assoc_id: u16,
    session: u64,
) -> bool {
    completed(inputs, pkt, addr, assoc_id) && bound(inputs, assoc_id, session)
}

/// The datagram for `addr` may pass in `mode` and is dialled as `a`.
spec fn settled<E>(
    inputs: Seq<(ConnectionState, PacketEvent<E, Seq<char>, Seq<u8>>)>,
    addr: Address<Seq<char>>,
    mode: DirectMode,
    a: Addr<Seq<char>>,
) -> bool {
    passed(inputs, mode) && dialled_as(inputs, addr, a)
}

/// `first` and `second` are what the candidates for `a` reach in `mode`.
spec fn reaching(
    mode: DirectMode,
    a: Addr<Seq<char>>,
    first: Option<SocketAddr>,
    second: Option<SocketAddr>,
) -> bool {
    first == reached(candidates(Some(mode), a)[0]) && second == reached(
        candidates(Some(mode), a)[1],
    )
}

/// What holds of a datagram's flow after `inputs`.
spec fn on_course<E>(
    inputs: Seq<(ConnectionState, PacketEvent<E, Seq<char>, Seq<u8>>)>,
    flow: PacketFlow<Seq<char>, Seq<u8>>,
) -> bool {
    match flow {
        PacketFlow::Start | PacketFlow::Accepting | PacketFlow::Ended => true,
        PacketFlow::Locking { pkt, addr, assoc_id } => completed(inputs, pkt, addr, assoc_id),
        PacketFlow::Creating { pkt, addr, assoc_id } => completed(inputs, pkt, addr, assoc_id),
        PacketFlow::Matching { pkt, addr, session } => exists|assoc_id: u16| #[trigger]
            origin(inputs, pkt, addr, assoc_id, session),
        PacketFlow::Resolving { pkt, acl_addr: a, mode, session } => passed(inputs, mode)
            && exists|addr: Address<Seq<char>>, assoc_id: u16| #[trigger]
            origin(inputs, pkt, addr, assoc_id, session) && a == acl_addr_of(addr)
                && addr is DomainAddress,
        PacketFlow::Classifying { pkt, first, second, session } => exists|
            addr: Address<Seq<char>>,
            assoc_id: u16,
            mode: DirectMode,
            a: Addr<Seq<char>>,
        |
            #![trigger origin(inputs, pkt, addr, assoc_id, session), settled(inputs, addr, mode, a)]
            origin(inputs, pkt, addr, assoc_id, session) && settled(inputs, addr, mode, a)
                && reaching(mode, a, first, second),
        PacketFlow::Sending => exists|mode: DirectMode| #[trigger] passed(inputs, mode),
    }
}

proof fn lemma_longer<E>(inputs: Seq<(ConnectionState, PacketEvent<E, Seq<char>, Seq<u8>>)>)
    requires
        inputs.len() > 0,
    ensures
        forall|mode: DirectMode| passed(inputs.drop_last(), mode) ==> #[trigger] passed(inputs, mode),
        forall|addr: Address<Seq<char>>, mode: DirectMode, a: Addr<Seq<char>>|
            settled(inputs.drop_last(), addr, mode, a) ==> #[trigger] settled(
                inputs,
                addr,
                mode,
                a,
            ),
        forall|pkt: Seq<u8>, addr: Address<Seq<char>>, assoc_id: u16|
            completed(inputs.drop_last(), pkt, addr, assoc_id) ==> #[trigger] completed(
                inputs,
                pkt,
                addr,
                assoc_id,
            ),
        forall|pkt: Seq<u8>, addr: Address<Seq<char>>, assoc_id: u16, session: u64|
            origin(inputs.drop_last(), pkt, addr, assoc_id, session) ==> #[trigger] origin(
                inputs,
                pkt,
                addr,
                assoc_id,
                session,
            ),
{
    let before = inputs.drop_last();
    assert forall|mode: DirectMode| passed(before, mode) implies #[trigger] passed(
        inputs,
        mode,
    ) by {
        let k = choose|k: int| 0 <= k < before.len() && #[trigger] lets_pass(before[k], mode);
        assert(lets_pass(inputs[k], mode));
    }
    assert forall|addr: Address<Seq<char>>, mode: DirectMode, a: Addr<Seq<char>>|
        settled(before, addr, mode, a) implies #[trigger] settled(inputs, addr, mode, a) by {
        assert(passed(inputs, mode));
        if addr is DomainAddress {
            let k = choose|k: int| 0 <= k < before.len() && #[trigger] resolves(before[k], addr, a);
            assert(resolves(inputs[k], addr, a));
        }
    }
    assert forall|pkt: Seq<u8>, addr: Address<Seq<char>>, assoc_id: u16|
        completed(before, pkt, addr, assoc_id) implies #[trigger] completed(
        inputs,
        pkt,
        addr,
        assoc_id,
    ) by {
        let k = choose|k: int|
            0 <= k < before.len() && #[trigger] completes(before[k], pkt, addr, assoc_id);
        assert(completes(inputs[k], pkt, addr, assoc_id));
    }
    assert forall|pkt: Seq<u8>, addr: Address<Seq<char>>, assoc_id: u16, session: u64|
        origin(before, pkt, addr, assoc_id, session) implies #[trigger] origin(
        inputs,
        pkt,
        addr,
        assoc_id,
        session,
    ) by {
        assert(completed(inputs, pkt, addr, assoc_id));
        let k = choose|k: int| 0 <= k < before.len() && #[trigger] binds(before[k], assoc_id, session);
        assert(binds(inputs[k], assoc_id, session));
    }
}

proof fn lemma_candidates_belong<E>(
    inputs: Seq<(ConnectionState, PacketEvent<E, Seq<char>, Seq<u8>>)>,
    addr: Address<Seq<char>>,
    mode: DirectMode,
    a: Addr<Seq<char>>,
    t: SocketAddr,
)
    requires
        dialled_as(inputs, addr, a),
        target_of(mode, a, t),
    ensures
        belongs(addr, t),
{
    if let Address::SocketAddress(sa) = addr {
        written_address_is_read_back(sa.ip_of());
    }
}

/// A datagram for `addr` that is now dialled as `a` stays on course.
proof fn lemma_packet_to<E>(
    inputs: Seq<(ConnectionState, PacketEvent<E, Seq<char>, Seq<u8>>)>,
    pkt: Seq<u8>,
    addr: Address<Seq<char>>,
    a: Addr<Seq<char>>,
    mode: DirectMode,
    assoc_id: u16,
    session: u64,
)
    requires
        settled(inputs, addr, mode, a),
        origin(inputs, pkt, addr, assoc_id, session),
    ensures
        on_course(inputs, packet_to::<E>(pkt, a, mode, session).0),
{
    let flow = packet_to::<E>(pkt, a, mode, session).0;
    if flow is Classifying {
        assert(origin(inputs, flow->Classifying_pkt, addr, assoc_id, flow->Classifying_session)
            && settled(inputs, addr, mode, a) && reaching(
            mode,
            a,
            flow->Classifying_first,
            flow->Classifying_second,
        ));
    }
}

/// A datagram whose outbound is settled stays on course.
proof fn lemma_packet_via<E>(
    inputs: Seq<(ConnectionState, PacketEvent<E, Seq<char>, Seq<u8>>)>,
    pkt: Seq<u8>,
    addr: Address<Seq<char>>,
    assoc_id: u16,
    session: u64,
    outbound: OutboundHandler,
)
    requires
        outbound matches OutboundHandler::Direct { mode, udp: true } ==> passed(inputs, mode),
        origin(inputs, pkt, addr, assoc_id, session),
    ensures
        on_course(inputs, packet_via::<E>(pkt, addr, session, outbound).0),
{
    if let Some(mode) = outbound.mode() {
        if outbound.carries_udp() && !(addr is DomainAddress) {
            assert(settled(inputs, addr, mode, acl_addr_of(addr)));
            lemma_packet_to(inputs, pkt, addr, acl_addr_of(addr), mode, assoc_id, session);
        }
    }
    let flow = packet_via::<E>(pkt, addr, session, outbound).0;
    if flow is Resolving {
        assert(origin(inputs, flow->Resolving_pkt, addr, assoc_id, flow->Resolving_session));
    }
}

/// A datagram whose session has just become known stays on course.
proof fn lemma_packet_in_session<E>(
    inputs: Seq<(ConnectionState, PacketEvent<E, Seq<char>, Seq<u8>>)>,
    pkt: Seq<u8>,
    addr: Address<Seq<char>>,
    assoc_id: u16,
    session: u64,
)
    requires
        inputs.len() > 0,
        inputs.last().1 is Accepted || inputs.last().1 is Locked || inputs.last().1
            matches PacketEvent::SessionCreated(Ok(_)),
        completed(inputs, pkt, addr, assoc_id),
        binds(inputs.last(), assoc_id, session),
    ensures
        on_course(inputs, packet_in_session::<E>(inputs.last().0, pkt, addr, session).0),
{
    assert(binds(inputs[inputs.len() - 1], assoc_id, session));
    assert(bound(inputs, assoc_id, session));
    assert(origin(inputs, pkt, addr, assoc_id, session));
    if !inputs.last().0.cfg.acl {
        assert(lets_pass(inputs[inputs.len() - 1], DirectMode::Auto));
        lemma_packet_via(inputs, pkt, addr, assoc_id, session, outbound_for(None));
    } else {
        let flow = packet_in_session::<E>(inputs.last().0, pkt, addr, session).0;
        assert(origin(
            inputs,
            flow->Matching_pkt,
            flow->Matching_addr,
            assoc_id,
            flow->Matching_session,
        ));
    }
}

/// A flow that no event moves stays on course.
proof fn lemma_stays<E>(inputs: Seq<(ConnectionState, PacketEvent<E, Seq<char>, Seq<u8>>)>, flow: PacketFlow<Seq<char>, Seq<u8>>)
    requires
        inputs.len() > 0,
        on_course(inputs.drop_last(), flow),
    ensures
        on_course(inputs, flow),
{
    let before = inputs.drop_last();
    lemma_longer(inputs);
    match flow {
        PacketFlow::Locking { pkt, addr, assoc_id } => {
            assert(completed(inputs, pkt, addr, assoc_id));
        },
        PacketFlow::Creating { pkt, addr, assoc_id } => {
            assert(completed(inputs, pkt, addr, assoc_id));
        },
        PacketFlow::Matching { pkt, addr, session } => {
            let assoc_id = choose|assoc_id: u16| #[trigger]
                origin(before, pkt, addr, assoc_id, session);
            assert(origin(inputs, pkt, addr, assoc_id, session));
        },
        PacketFlow::Resolving { pkt, acl_addr: a, session, .. } => {
            let (addr, assoc_id) = choose|addr: Address<Seq<char>>, assoc_id: u16| #[trigger]
                origin(before, pkt, addr, assoc_id, session) && a == acl_addr_of(addr)
                    && addr is DomainAddress;
            assert(origin(inputs, pkt, addr, assoc_id, session));
        },
        PacketFlow::Classifying { pkt, first, second, session } => {
            let (addr, assoc_id, mode, a) = choose|
                addr: Address<Seq<char>>,
                assoc_id: u16,
                mode: DirectMode,
                a: Addr<Seq<char>>,
            |
                #![trigger origin(before, pkt, addr, assoc_id, session), settled(before, addr, mode, a)]
                origin(before, pkt, addr, assoc_id, session) && settled(before, addr, mode, a)
                    && reaching(mode, a, first, second);
            assert(origin(inputs, pkt, addr, assoc_id, session));
            assert(settled(inputs, addr, mode, a));
        },
        PacketFlow::Sending => {
            let mode = choose|mode: DirectMode| #[trigger] passed(before, mode);
            assert(passed(inputs, mode));
        },
        _ => {},
    }
}

proof fn lemma_on_course<E>(inputs: Seq<(ConnectionState, PacketEvent<E, Seq<char>, Seq<u8>>)>)
    ensures
        on_course(inputs, packet_course(inputs).0),
    decreases inputs.len(),
{
    if inputs.len() > 0 {
        let before = inputs.drop_last();
        let flow = packet_course(before).0;
        let (conn, event) = inputs.last();
        lemma_on_course(before);
        lemma_longer(inputs);
        lemma_stays(inputs, flow);
        match (flow, event) {
            (PacketFlow::Accepting, PacketEvent::Accepted { pkt, addr, assoc_id }) => {
                assert(completes(inputs[inputs.len() - 1], pkt, addr, assoc_id));
                assert(completed(inputs, pkt, addr, assoc_id));
                if let Some(session) = conn.udp_sessions.get(assoc_id) {
                    lemma_packet_in_session(inputs, pkt, addr, assoc_id, session);
                }
            },
            (PacketFlow::Locking { pkt, addr, assoc_id }, PacketEvent::Locked) => {
                if let Some(session) = conn.udp_sessions.get(assoc_id) {
                    lemma_packet_in_session(inputs, pkt, addr, assoc_id, session);
                }
            },
            (
                PacketFlow::Creating { pkt, addr, assoc_id },
                PacketEvent::SessionCreated(Ok(_)),
            ) => {
                let session = packet_conn(conn, flow, event).udp_sessions[assoc_id];
                lemma_packet_in_session(inputs, pkt, addr, assoc_id, session);
            },
            (PacketFlow::Matching { pkt, addr, session }, PacketEvent::AclMatch(matched)) => {
                let assoc_id = choose|assoc_id: u16| #[trigger]
                    origin(inputs, pkt, addr, assoc_id, session);
                let outbound = outbound_for(matched);
                if let OutboundHandler::Direct { mode, udp } = outbound {
                    if udp {
                        assert(lets_pass(inputs[inputs.len() - 1], mode));
                    }
                }
                lemma_packet_via(inputs, pkt, addr, assoc_id, session, outbound);
            },
            (
                PacketFlow::Resolving { pkt, acl_addr: a, mode, session },
                PacketEvent::Resolved(Some(info)),
            ) => {
                let (addr, assoc_id) = choose|addr: Address<Seq<char>>, assoc_id: u16| #[trigger]
                    origin(inputs, pkt, addr, assoc_id, session) && a == acl_addr_of(addr)
                        && addr is DomainAddress;
                let resolved = Addr { resolve_info: Some(info), ..a };
                assert(resolves(inputs[inputs.len() - 1], addr, resolved));
                assert(settled(inputs, addr, mode, resolved));
                lemma_packet_to(inputs, pkt, addr, resolved, mode, assoc_id, session);
            },
            (
                PacketFlow::Classifying { pkt, first, second, session },
                PacketEvent::Classified { .. },
            ) => {
                let (addr, assoc_id, mode, a) = choose|
                    addr: Address<Seq<char>>,
                    assoc_id: u16,
                    mode: DirectMode,
                    a: Addr<Seq<char>>,
                |
                    #![trigger origin(inputs, pkt, addr, assoc_id, session), settled(inputs, addr, mode, a)]
                    origin(inputs, pkt, addr, assoc_id, session) && settled(inputs, addr, mode, a)
                        && reaching(mode, a, first, second);
                assert(passed(inputs, mode));
            },
            _ => {},
        }
    }
}

/// Whatever happens, a datagram is sent only after the access rules, if there are
/// any, chose a direct outbound that may carry datagrams: never for a rejected
/// target, and never past a proxy.
pub proof fn datagrams_leave_only_directly<E>(inputs: Seq<(ConnectionState, PacketEvent<E, Seq<char>, Seq<u8>>)>)
    requires
        inputs.len() > 0,
        packet_course(inputs).1 is Send,
    ensures
        exists|k: int, mode: DirectMode|
            0 <= k < inputs.len() && #[trigger] lets_pass(inputs[k], mode),
{
    lemma_on_course(inputs);
    let mode = choose|mode: DirectMode| #[trigger] passed(inputs, mode);
    let k = choose|k: int| 0 <= k < inputs.len() && #[trigger] lets_pass(inputs[k], mode);
    assert(lets_pass(inputs[k], mode));
}

/// Whatever happens, what is sent is the datagram that the client completed, through
/// the session of its association, to at least one target. Each target is what a
/// candidate reaches, in the mode in which the datagram was let pass, of the address
/// that the client named, or of what its name was resolved to; it has the port that
/// the client named, and it is one that the settings do not refuse. The datagram is
/// put on the account of an authenticated user as one request.
pub proof fn what_is_sent_and_where<E>(
    inputs: Seq<(ConnectionState, PacketEvent<E, Seq<char>, Seq<u8>>)>,
)
    requires
        inputs.len() > 0,
    ensures
        packet_course(inputs).1 matches PacketAction::Send { pkt, targets, usage, session } ==> {
            &&& targets.len() > 0
            &&& usage == inputs.last().0.billed(true, Some(pkt.len() as usize), None)
            &&& exists|
                k: int,
                m: int,
                n: int,
                addr: Address<Seq<char>>,
                assoc_id: u16,
                mode: DirectMode,
                a: Addr<Seq<char>>,
            |
                #![trigger completes(inputs[k], pkt, addr, assoc_id), binds(inputs[m], assoc_id, session), lets_pass(inputs[n], mode), dialled_as(inputs, addr, a)]
                {
                    &&& 0 <= k < inputs.len() && completes(inputs[k], pkt, addr, assoc_id)
                    &&& 0 <= m < inputs.len() && binds(inputs[m], assoc_id, session)
                    &&& 0 <= n < inputs.len() && lets_pass(inputs[n], mode)
                    &&& dialled_as(inputs, addr, a)
                    &&& forall|i: int|
                        #![trigger targets[i]]
                        0 <= i < targets.len() ==> target_of(mode, a, targets[i]) && belongs(
                            addr,
                            targets[i],
                        )
                }
            &&& packet_course(inputs.drop_last()).0 matches PacketFlow::Classifying {
                first,
                second,
                ..
            }
            &&& inputs.last().1 matches PacketEvent::Classified { first: p, second: q }
            &&& forall|i: int|
                #![trigger targets[i]]
                0 <= i < targets.len() ==> {
                    ||| first == Some(targets[i]) && !dropped(inputs.last().0.cfg, targets[i], p)
                    ||| second == Some(targets[i]) && !dropped(inputs.last().0.cfg, targets[i], q)
                }
        },
{
    let before = inputs.drop_last();
    lemma_on_course(before);
    lemma_longer(inputs);
    if let PacketAction::Send { pkt, targets, session, .. } = packet_course(inputs).1 {
        let conn = inputs.last().0;
        match (packet_course(before).0, inputs.last().1) {
            (
                PacketFlow::Classifying { pkt: sent, first, second, session: through },
                PacketEvent::Classified { first: p, second: q },
            ) => {
                let c = seq![first, second];
                let private = seq![p, q];
                assert(targets == allowed(conn.cfg, c, private));
                let (addr, assoc_id, mode, a) = choose|
                    addr: Address<Seq<char>>,
                    assoc_id: u16,
                    mode: DirectMode,
                    a: Addr<Seq<char>>,
                |
                    #![trigger origin(before, sent, addr, assoc_id, through), settled(before, addr, mode, a)]
                    origin(before, sent, addr, assoc_id, through) && settled(before, addr, mode, a)
                        && reaching(mode, a, first, second);
                assert(origin(inputs, pkt, addr, assoc_id, session));
                assert(settled(inputs, addr, mode, a));
                let k = choose|k: int|
                    0 <= k < inputs.len() && #[trigger] completes(inputs[k], pkt, addr, assoc_id);
                let m = choose|m: int|
                    0 <= m < inputs.len() && #[trigger] binds(inputs[m], assoc_id, session);
                let n = choose|n: int| 0 <= n < inputs.len() && #[trigger] lets_pass(inputs[n], mode);
                assert forall|i: int| 0 <= i < targets.len() implies {
                    let t = #[trigger] targets[i];
                    &&& target_of(mode, a, t) && belongs(addr, t)
                    &&& (first == Some(t) && !dropped(conn.cfg, t, p)) || (second == Some(t)
                        && !dropped(conn.cfg, t, q))
                } by {
                    let t = targets[i];
                    every_target_passes_the_filter(conn.cfg, c, private, t);
                    assert(targets.contains(t));
                    let j = choose|j: int|
                        0 <= j < c.len() && #[trigger] c[j] == Some(t) && !dropped(
                            conn.cfg,
                            t,
                            private[j],
                        );
                    assert(j == 0 || j == 1);
                    lemma_candidates_belong(inputs, addr, mode, a, t);
                }
                assert(completes(inputs[k], pkt, addr, assoc_id) && binds(
                    inputs[m],
                    assoc_id,
                    session,
                ) && lets_pass(inputs[n], mode) && dialled_as(inputs, addr, a));
            },
            _ => {},
        }
    }
}

/// Whether a candidate is a private address is asked of the address that it reaches,
/// and the very addresses asked about are the ones that may be sent to.
pub proof fn privacy_is_asked_of_what_is_reached<E>(
    inputs: Seq<(ConnectionState, PacketEvent<E, Seq<char>, Seq<u8>>)>,
)
    ensures
        packet_course(inputs).1 matches PacketAction::Classify { first, second } ==> {
            &&& packet_course(inputs).0 matches PacketFlow::Classifying { first: f, second: s, .. }
            &&& first == f && second == s
            &&& first matches Some(t) ==> !v4_mapped(t)
            &&& second matches Some(t) ==> !v4_mapped(t)
        },
{
}

/// Whatever happens, what a session's sockets get when `send` is carried out, at any
/// step `k` and whatever the network answers, is the datagram that the client
/// completed, and no address that the settings refuse, by a fallback either: it is the
/// very address whose privacy was asked about, it passed the filter, and with loopback
/// targets refused it is no loopback address, however the client wrote it, and it is a
/// private one only where private targets are not refused.
pub proof fn nothing_refused_is_handed_to_a_socket<E>(
    inputs: Seq<(ConnectionState, PacketEvent<E, Seq<char>, Seq<u8>>)>,
    ipv6: bool,
    network: Network<E>,
    k: nat,
    s: SendingView<E>,
)
    requires
        inputs.len() > 0,
        packet_course(inputs).1 matches PacketAction::Send { pkt, targets, .. } && ({
            let step = steps_after(tried(pkt, targets, ipv6, 0, None), network, k);
            step == SendAction::ToV4(s) || step == SendAction::ToV6(s)
        }),
    ensures
        packet_course(inputs).1 matches PacketAction::Send { pkt, .. } && s.pkt == pkt,
        packet_course(inputs.drop_last()).0 matches PacketFlow::Classifying { first, second, .. }
            && inputs.last().1 matches PacketEvent::Classified { first: p, second: q } && ({
            ||| first == Some(s.to) && !dropped(inputs.last().0.cfg, s.to, p) && (p
                ==> !inputs.last().0.cfg.drop_private)
            ||| second == Some(s.to) && !dropped(inputs.last().0.cfg, s.to, q) && (q
                ==> !inputs.last().0.cfg.drop_private)
        }),
        inputs.last().0.cfg.drop_loopback ==> !loopback(s.to.ip_of()),
{
    what_is_sent_and_where(inputs);
    if let PacketAction::Send { pkt, targets, .. } = packet_course(inputs).1 {
        assert(targets.len() <= 2) by {
            reveal_with_fuel(allowed, 3);
        }
        the_datagram_goes_to_its_targets(pkt, targets, ipv6, network, k);
        let i = s.next - 1;
        assert(!v4_mapped(targets[i]));
        assert(s.to == targets[i]);
    }
}

/// How often the datagram is sent in the course of `inputs`.
pub open spec fn sends<E>(
    inputs: Seq<(ConnectionState, PacketEvent<E, Seq<char>, Seq<u8>>)>,
) -> nat
    decreases inputs.len(),
{
    if inputs.len() == 0 {
        0
    } else {
        sends(inputs.drop_last()) + (if packet_course(inputs).1 is Send {
            1nat
        } else {
            0nat
        })
    }
}

/// How often the datagram ends in the course of `inputs`.
pub open spec fn ends<E>(inputs: Seq<(ConnectionState, PacketEvent<E, Seq<char>, Seq<u8>>)>) -> nat
    decreases inputs.len(),
{
    if inputs.len() == 0 {
        0
    } else {
        ends(inputs.drop_last()) + (if packet_course(inputs).1 is End {
            1nat
        } else {
            0nat
        })
    }
}

/// A datagram is sent, and counted, at most once, and only before its end; it ends
/// once, and is over exactly from then on.
pub proof fn a_datagram_is_sent_and_ends_once<E>(
    inputs: Seq<(ConnectionState, PacketEvent<E, Seq<char>, Seq<u8>>)>,
)
    ensures
        sends(inputs) <= 1,
        sends(inputs) == 1 ==> packet_course(inputs).0 is Sending || packet_course(inputs).0 is Ended,
        packet_course(inputs).0 is Sending ==> sends(inputs) == 1,
        ends(inputs) == (if packet_course(inputs).0 is Ended {
            1nat
        } else {
            0nat
        }),
    decreases inputs.len(),
{
    if inputs.len() > 0 {
        a_datagram_is_sent_and_ends_once(inputs.drop_last());
    }
}

/// A datagram that the rules reject, that may not go by its outbound, that would go
/// by a proxy, whose name does not resolve or whose targets are all refused is
/// dropped.
pub proof fn what_is_dropped<E>(
    conn: ConnectionState,
    flow: PacketFlow<Seq<char>, Seq<u8>>,
    matched: OutboundHandler,
    private: (bool, bool),
)
    ensures
        flow is Matching ==> ({
            let end = packet_next(
                conn,
                flow,
                PacketEvent::<E, Seq<char>, Seq<u8>>::AclMatch(Some(matched)),
            ).1;
            &&& matched is Reject ==> end == dropping::<E>(DropReason::Rejected)
            &&& matched is Proxied && matched.carries_udp() ==> end == dropping::<E>(
                DropReason::Proxied,
            )
            &&& !(matched is Reject) && !matched.carries_udp() ==> end == dropping::<E>(
                DropReason::UdpNotAllowed,
            )
        }),
        flow is Resolving ==> packet_next(
            conn,
            flow,
            PacketEvent::<E, Seq<char>, Seq<u8>>::Resolved(None),
        ).1 == dropping::<E>(DropReason::DnsFailed),
        flow matches PacketFlow::Classifying { first, second, .. } ==> (
        allowed(conn.cfg, seq![first, second], seq![private.0, private.1]).len() == 0
            ==> packet_next(
            conn,
            flow,
            PacketEvent::<E, Seq<char>, Seq<u8>>::Classified {
                first: private.0,
                second: private.1,
            },
        ).1 == dropping::<E>(DropReason::Blocked)),
{
}

/// The end of a dropped datagram.
pub open spec fn dropping<E>(why: DropReason) -> PacketActionView<E> {
    PacketAction::End(PacketEnd::Dropped(why))
}

/// Handling a datagram never takes a session away from an association, nor gives it
/// another, never forgets the relay mode, and changes neither settings nor user.
pub proof fn datagrams_keep_sessions<E>(
    conn: ConnectionState,
    flow: PacketFlow<Seq<char>, Seq<u8>>,
    event: PacketEvent<E, Seq<char>, Seq<u8>>,
)
    ensures
        conn.udp_sessions.submap_of(packet_conn(conn, flow, event).udp_sessions),
        conn.udp_relay_mode is Some ==> packet_conn(conn, flow, event).udp_relay_mode is Some,
        packet_conn(conn, flow, event).cfg == conn.cfg,
        packet_conn(conn, flow, event).auth == conn.auth,
{
}

/// Once a datagram has arrived the relay mode is known, and so a connection with a
/// session always knows it: each step keeps this.
pub proof fn sessions_know_the_relay_mode<E>(
    conn: ConnectionState,
    flow: PacketFlow<Seq<char>, Seq<u8>>,
    event: PacketEvent<E, Seq<char>, Seq<u8>>,
)
    requires
        conn.wf(),
        !(flow is Start) ==> conn.udp_relay_mode is Some,
    ensures
        packet_conn(conn, flow, event).wf(),
        !(packet_next(conn, flow, event).0 is Start) ==> packet_conn(
            conn,
            flow,
            event,
        ).udp_relay_mode is Some,
{
}

/// Datagrams from outside go to the client in the mode in which its latest fragment
/// came.
pub proof fn a_fragment_sets_the_relay_mode<E>(conn: ConnectionState, mode: UdpRelayMode)
    ensures
        packet_conn(
            conn,
            PacketFlow::Start,
            PacketEvent::<E, Seq<char>, Seq<u8>>::Arrived(mode),
        ) == (ConnectionState { udp_relay_mode: Some(mode), ..conn }),
{
}

/// A datagram for an association that has a session goes on in that session, and none
/// is created.
pub proof fn a_session_is_reused<E>(
    conn: ConnectionState,
    pkt: Seq<u8>,
    addr: Address<Seq<char>>,
    assoc_id: u16,
)
    requires
        conn.udp_sessions.contains_key(assoc_id),
    ensures
        ({
            let event = PacketEvent::<E, Seq<char>, Seq<u8>>::Accepted { pkt, addr, assoc_id };
            &&& packet_next(conn, PacketFlow::Accepting, event) == packet_in_session::<E>(
                conn,
                pkt,
                addr,
                conn.udp_sessions[assoc_id],
            )
            &&& packet_conn(conn, PacketFlow::Accepting, event) == conn
        }),
{
}

/// The access rules are asked about the target of the datagram, and a resolver about
/// its name, and about nothing else.
pub proof fn only_the_datagrams_target_is_asked_about<E>(
    inputs: Seq<(ConnectionState, PacketEvent<E, Seq<char>, Seq<u8>>)>,
)
    requires
        inputs.len() > 0,
    ensures
        packet_course(inputs).1 matches PacketAction::MatchAcl { query, protocol } ==> {
            &&& protocol == Protocol::UDP
            &&& exists|k: int, pkt: Seq<u8>, addr: Address<Seq<char>>, assoc_id: u16|
                0 <= k < inputs.len() && #[trigger] completes(inputs[k], pkt, addr, assoc_id)
                    && query == acl_query_of(addr)
        },
        packet_course(inputs).1 matches PacketAction::Resolve(domain) ==> exists|
            k: int,
            pkt: Seq<u8>,
            port: u16,
            assoc_id: u16,
        |
            0 <= k < inputs.len() && #[trigger] completes(
                inputs[k],
                pkt,
                Address::DomainAddress(domain, port),
                assoc_id,
            ),
{
    lemma_on_course(inputs);
    let (flow, action) = packet_course(inputs);
    if let PacketAction::MatchAcl { query, .. } = action {
        match flow {
            PacketFlow::Matching { pkt, addr, session } => {
                let assoc_id = choose|assoc_id: u16| #[trigger]
                    origin(inputs, pkt, addr, assoc_id, session);
                let k = choose|k: int|
                    0 <= k < inputs.len() && #[trigger] completes(inputs[k], pkt, addr, assoc_id);
                assert(completes(inputs[k], pkt, addr, assoc_id) && query == acl_query_of(addr));
            },
            _ => {},
        }
    }
    if let PacketAction::Resolve(domain) = action {
        match flow {
            PacketFlow::Resolving { pkt, acl_addr: a, session, .. } => {
                let (addr, assoc_id) = choose|addr: Address<Seq<char>>, assoc_id: u16| #[trigger]
                    origin(inputs, pkt, addr, assoc_id, session) && a == acl_addr_of(addr)
                        && addr is DomainAddress;
                let k = choose|k: int|
                    0 <= k < inputs.len() && #[trigger] completes(inputs[k], pkt, addr, assoc_id);
                assert(addr == Address::DomainAddress(domain, addr->DomainAddress_1));
            },
            _ => {},
        }
    }
}

} // verus!

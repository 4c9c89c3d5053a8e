//! Relaying a stream to the target that a client asks for.
use vstd::prelude::*;

use crate::addr::{loopback, normalize_v4_mapped, normalized, v4_mapped, SocketAddr};
use crate::connection::{acl_query_of, dropped, AclQuery, Connection, ConnectionState, Usage};
use crate::outbound::{
    outbound_for, resolve_decision, resolve_rule, OutboundHandler, Protocol, ResolveDecision,
};
use crate::target::{acl_addr_of, address_to_acl_addr, Addr, Address, ResolveInfo};

verus! {

/// How far a request for a stream has come.
#[derive(Debug, PartialEq, Eq)]
pub enum ConnectFlow<S = String> {
    Start { addr: Address<S> },
    Matching { addr: Address<S> },
    Resolving { acl_addr: Addr<S>, outbound: OutboundHandler },
    Dialing { outbound: OutboundHandler },
    Inspecting,
    Checking { peer: SocketAddr },
    Copying,
    Closing { tx: usize, rx: usize, failed: bool },
    Shutting { tx: usize, rx: usize, failed: bool },
    Ended,
}

impl View for ConnectFlow<String> {
    type V = ConnectFlow<Seq<char>>;

    open spec fn view(&self) -> ConnectFlow<Seq<char>> {
        match self {
            ConnectFlow::Start { addr } => ConnectFlow::Start { addr: addr@ },
            ConnectFlow::Matching { addr } => ConnectFlow::Matching { addr: addr@ },
            ConnectFlow::Resolving { acl_addr, outbound } => ConnectFlow::Resolving {
                acl_addr: acl_addr@,
                outbound: *outbound,
            },
            ConnectFlow::Dialing { outbound } => ConnectFlow::Dialing { outbound: *outbound },
            ConnectFlow::Inspecting => ConnectFlow::Inspecting,
            ConnectFlow::Checking { peer } => ConnectFlow::Checking { peer: *peer },
            ConnectFlow::Copying => ConnectFlow::Copying,
            ConnectFlow::Closing { tx, rx, failed } => ConnectFlow::Closing {
                tx: *tx,
                rx: *rx,
                failed: *failed,
            },
            ConnectFlow::Shutting { tx, rx, failed } => ConnectFlow::Shutting {
                tx: *tx,
                rx: *rx,
                failed: *failed,
            },
            ConnectFlow::Ended => ConnectFlow::Ended,
        }
    }
}

/// What happened to a request for a stream.
#[derive(Clone, Copy, Debug, PartialEq, Eq, Structural)]
pub enum ConnectEvent {
    /// The request is to be served.
    Begin,
    /// What the access rules matched.
    AclMatch(Option<OutboundHandler>),
    /// What the name resolved to; `None` if it did not.
    Resolved(Option<ResolveInfo>),
    /// Whether dialling succeeded.
    Dialed(bool),
    /// The far end of the stream; `None` if it is not known.
    PeerKnown(Option<SocketAddr>),
    /// Whether the far end is a private address.
    PeerClassified(bool),
    /// Both directions have been copied, this many bytes, with or without an error.
    Copied { tx: usize, rx: usize, failed: bool },
    /// The client's stream is closed.
    ClientClosed,
    /// The target's stream is shut down.
    TargetShut,
}

/// Why a request is refused.
#[derive(Clone, Copy, Debug, PartialEq, Eq, Structural)]
pub enum Refusal {
    /// The access rules reject the target.
    Rejected,
    /// The name did not resolve.
    DnsFailed,
    /// The target is a loopback or private address.
    Blocked,
}

/// What to do for a request for a stream.
#[derive(Debug, PartialEq, Eq)]
pub enum ConnectAction<S = String> {
    /// Ask the access rules.
    MatchAcl { query: AclQuery<S>, protocol: Protocol },
    /// Resolve a name.
    Resolve(S),
    /// Dial the target through the outbound.
    Dial { addr: Addr<S>, outbound: OutboundHandler },
    /// Find out the far end of the stream.
    QueryPeer,
    /// Find out whether this, the far end, is a private address.
    ClassifyPeer(SocketAddr),
    /// Copy in both directions until either ends.
    Copy,
    /// Reset the client's stream. The request is over.
    Refuse(Refusal),
    /// Report that dialling failed. The request is over.
    Abandon,
    /// Reset the client's stream, or finish it.
    CloseClient { reset: bool },
    /// Shut the target's stream down.
    ShutTarget,
    /// Put the usage on the account, and report if copying failed. The request is over.
    Settle { usage: Option<Usage>, failed: bool },
    /// Nothing.
    Wait,
}

impl View for ConnectAction<String> {
    type V = ConnectAction<Seq<char>>;

    open spec fn view(&self) -> ConnectAction<Seq<char>> {
        match self {
            ConnectAction::MatchAcl { query, protocol } => ConnectAction::MatchAcl {
                query: query@,
                protocol: *protocol,
            },
            ConnectAction::Resolve(domain) => ConnectAction::Resolve(domain@),
            ConnectAction::Dial { addr, outbound } => ConnectAction::Dial {
                addr: addr@,
                outbound: *outbound,
            },
            ConnectAction::QueryPeer => ConnectAction::QueryPeer,
            ConnectAction::ClassifyPeer(peer) => ConnectAction::ClassifyPeer(*peer),
            ConnectAction::Copy => ConnectAction::Copy,
            ConnectAction::Refuse(why) => ConnectAction::Refuse(*why),
            ConnectAction::Abandon => ConnectAction::Abandon,
            ConnectAction::CloseClient { reset } => ConnectAction::CloseClient { reset: *reset },
            ConnectAction::ShutTarget => ConnectAction::ShutTarget,
            ConnectAction::Settle { usage, failed } => ConnectAction::Settle {
                usage: *usage,
                failed: *failed,
            },
            ConnectAction::Wait => ConnectAction::Wait,
        }
    }
}

/// A flow and an action, as contracts speak of them.
pub type ConnectStep = (ConnectFlow<Seq<char>>, ConnectAction<Seq<char>>);

/// How a request goes on once its outbound is known.
pub open spec fn connect_via(addr: Address<Seq<char>>, outbound: OutboundHandler) -> ConnectStep {
    if outbound is Reject {
        (ConnectFlow::Ended, ConnectAction::Refuse(Refusal::Rejected))
    } else {
        match resolve_rule(outbound, addr) {
            ResolveDecision::Cache(domain) => (
                ConnectFlow::Resolving { acl_addr: acl_addr_of(addr), outbound },
                ConnectAction::Resolve(domain),
            ),
            ResolveDecision::Skip => (
                ConnectFlow::Dialing { outbound },
                ConnectAction::Dial { addr: acl_addr_of(addr), outbound },
            ),
        }
    }
}

/// How a request goes on from `flow` when `event` happens. An event that the flow
/// does not wait for changes nothing.
pub open spec fn connect_next(
    conn: ConnectionState,
    flow: ConnectFlow<Seq<char>>,
    event: ConnectEvent,
) -> ConnectStep {
    match (flow, event) {
        (ConnectFlow::Start { addr }, ConnectEvent::Begin) => if conn.cfg.acl {
            (
                ConnectFlow::Matching { addr },
                ConnectAction::MatchAcl { query: acl_query_of(addr), protocol: Protocol::TCP },
            )
        } else {
            connect_via(addr, outbound_for(None))
        },
        (ConnectFlow::Matching { addr }, ConnectEvent::AclMatch(matched)) => connect_via(
            addr,
            outbound_for(matched),
        ),
        (ConnectFlow::Resolving { acl_addr, outbound }, ConnectEvent::Resolved(Some(info))) => (
            ConnectFlow::Dialing { outbound },
            ConnectAction::Dial { addr: Addr { resolve_info: Some(info), ..acl_addr }, outbound },
        ),
        (ConnectFlow::Resolving { .. }, ConnectEvent::Resolved(None)) => (
            ConnectFlow::Ended,
            ConnectAction::Refuse(Refusal::DnsFailed),
        ),
        (ConnectFlow::Dialing { .. }, ConnectEvent::Dialed(false)) => (
            ConnectFlow::Ended,
            ConnectAction::Abandon,
        ),
        (ConnectFlow::Dialing { outbound }, ConnectEvent::Dialed(true)) => if outbound is Direct {
            (ConnectFlow::Inspecting, ConnectAction::QueryPeer)
        } else {
            (ConnectFlow::Copying, ConnectAction::Copy)
        },
        (ConnectFlow::Inspecting, ConnectEvent::PeerKnown(Some(addr))) => (
            ConnectFlow::Checking { peer: normalized(addr) },
            ConnectAction::ClassifyPeer(normalized(addr)),
        ),
        (ConnectFlow::Inspecting, ConnectEvent::PeerKnown(None)) => (
            ConnectFlow::Copying,
            ConnectAction::Copy,
        ),
        (ConnectFlow::Checking { peer }, ConnectEvent::PeerClassified(private)) => if dropped(
            conn.cfg,
            peer,
            private,
        ) {
            (ConnectFlow::Ended, ConnectAction::Refuse(Refusal::Blocked))
        } else {
            (ConnectFlow::Copying, ConnectAction::Copy)
        },
        (ConnectFlow::Copying, ConnectEvent::Copied { tx, rx, failed }) => (
            ConnectFlow::Closing { tx, rx, failed },
            ConnectAction::CloseClient { reset: failed },
        ),
        (ConnectFlow::Closing { tx, rx, failed }, ConnectEvent::ClientClosed) => (
            ConnectFlow::Shutting { tx, rx, failed },
            ConnectAction::ShutTarget,
        ),
        (ConnectFlow::Shutting { tx, rx, failed }, ConnectEvent::TargetShut) => (
            ConnectFlow::Ended,
            ConnectAction::Settle { usage: conn.billed(true, Some(tx), Some(rx)), failed },
        ),
        _ => (flow, ConnectAction::Wait),
    }
}

fn connect_through(addr: Address, outbound: OutboundHandler) -> (r: (ConnectFlow, ConnectAction))
    ensures
        (r.0@, r.1@) == connect_via(addr@, outbound),
{
    if outbound.is_reject() {
        return (ConnectFlow::Ended, ConnectAction::Refuse(Refusal::Rejected));
    }
    let acl_addr = address_to_acl_addr(&addr);
    match resolve_decision(&outbound, &addr) {
        ResolveDecision::Cache(domain) => (
            ConnectFlow::Resolving { acl_addr, outbound },
            ConnectAction::Resolve(domain),
        ),
        ResolveDecision::Skip => (
            ConnectFlow::Dialing { outbound },
            ConnectAction::Dial { addr: acl_addr, outbound },
        ),
    }
}

impl Connection {
    /// Take an event of a request for a stream. Names are resolved before a direct
    /// outbound is dialled; a name that does not resolve is never dialled. The far
    /// end is checked for direct outbounds only: of a proxied stream it is the
    /// proxy, not the target.
    pub fn handle_connect(&self, flow: ConnectFlow, event: ConnectEvent) -> (r: (
        ConnectFlow,
        ConnectAction,
    ))
        ensures
            (r.0@, r.1@) == connect_next(self@, flow@, event),
    {
        match (flow, event) {
            (ConnectFlow::Start { addr }, ConnectEvent::Begin) => match self.acl_query(&addr) {
                Some(query) => (
                    ConnectFlow::Matching { addr },
                    ConnectAction::MatchAcl { query, protocol: Protocol::TCP },
                ),
                None => connect_through(addr, Connection::get_outbound_handler(None)),
            },
            (ConnectFlow::Matching { addr }, ConnectEvent::AclMatch(matched)) => connect_through(
                addr,
                Connection::get_outbound_handler(matched),
            ),
            (ConnectFlow::Resolving { acl_addr, outbound }, ConnectEvent::Resolved(Some(info))) => (
                ConnectFlow::Dialing { outbound },
                ConnectAction::Dial { addr: acl_addr.with_resolve_info(info), outbound },
            ),
            (ConnectFlow::Resolving { .. }, ConnectEvent::Resolved(None)) => (
                ConnectFlow::Ended,
                ConnectAction::Refuse(Refusal::DnsFailed),
            ),
            (ConnectFlow::Dialing { .. }, ConnectEvent::Dialed(false)) => (
                ConnectFlow::Ended,
                ConnectAction::Abandon,
            ),
            (ConnectFlow::Dialing { outbound }, ConnectEvent::Dialed(true)) => if outbound.is_direct() {
                (ConnectFlow::Inspecting, ConnectAction::QueryPeer)
            } else {
                (ConnectFlow::Copying, ConnectAction::Copy)
            },
            (ConnectFlow::Inspecting, ConnectEvent::PeerKnown(Some(addr))) => {
                let peer = normalize_v4_mapped(addr);
                (ConnectFlow::Checking { peer }, ConnectAction::ClassifyPeer(peer))
            },
            (
                ConnectFlow::Checking { peer },
                ConnectEvent::PeerClassified(private),
            ) => if self.should_drop_address(&peer, private) {
                (ConnectFlow::Ended, ConnectAction::Refuse(Refusal::Blocked))
            } else {
                (ConnectFlow::Copying, ConnectAction::Copy)
            },
            (ConnectFlow::Inspecting, ConnectEvent::PeerKnown(None)) => (
                ConnectFlow::Copying,
                ConnectAction::Copy,
            ),
            (ConnectFlow::Copying, ConnectEvent::Copied { tx, rx, failed }) => (
                ConnectFlow::Closing { tx, rx, failed },
                ConnectAction::CloseClient { reset: failed },
            ),
            (ConnectFlow::Closing { tx, rx, failed }, ConnectEvent::ClientClosed) => (
                ConnectFlow::Shutting { tx, rx, failed },
                ConnectAction::ShutTarget,
            ),
            (ConnectFlow::Shutting { tx, rx, failed }, ConnectEvent::TargetShut) => (
                ConnectFlow::Ended,
                ConnectAction::Settle { usage: self.bill(true, Some(tx), Some(rx)), failed },
            ),
            (flow, _) => (flow, ConnectAction::Wait),
        }
    }
}

/// The course of a request for a stream to `addr`: after each event, with the
/// connection as it then was, the flow reached and the action taken.
pub open spec fn connect_course(
    addr: Address<Seq<char>>,
    inputs: Seq<(ConnectionState, ConnectEvent)>,
) -> ConnectStep
    decreases inputs.len(),
{
    if inputs.len() == 0 {
        (ConnectFlow::Start { addr }, ConnectAction::Wait)
    } else {
        connect_next(
            inputs.last().0,
            connect_course(addr, inputs.drop_last()).0,
            inputs.last().1,
        )
    }
}

/// An input that settles the outbound: the access rules answer, or the request begins
/// while no access rules are in force.
pub open spec fn chooses(
    input: (ConnectionState, ConnectEvent),
    outbound: OutboundHandler,
) -> bool {
    match input.1 {
        ConnectEvent::AclMatch(matched) => outbound == outbound_for(matched),
        ConnectEvent::Begin => !input.0.cfg.acl && outbound == outbound_for(None),
        _ => false,
    }
}

spec fn chosen(inputs: Seq<(ConnectionState, ConnectEvent)>, outbound: OutboundHandler) -> bool {
    exists|k: int| 0 <= k < inputs.len() && #[trigger] chooses(inputs[k], outbound)
}

/// An input that tells the far end, at `addr` or at a mapped form of it.
pub open spec fn tells_peer(input: (ConnectionState, ConnectEvent), addr: SocketAddr) -> bool {
    input.1 matches ConnectEvent::PeerKnown(Some(a)) && normalized(a) == addr
}

spec fn told(inputs: Seq<(ConnectionState, ConnectEvent)>, addr: SocketAddr) -> bool {
    exists|k: int| 0 <= k < inputs.len() && #[trigger] tells_peer(inputs[k], addr)
}

/// What holds of a flow that serves a request for `addr`.
spec fn serves(
    addr: Address<Seq<char>>,
    inputs: Seq<(ConnectionState, ConnectEvent)>,
    flow: ConnectFlow<Seq<char>>,
) -> bool {
    match flow {
        ConnectFlow::Start { addr: a } => a == addr,
        ConnectFlow::Matching { addr: a } => a == addr,
        ConnectFlow::Resolving { acl_addr: a, outbound } => a == acl_addr_of(addr) && resolve_rule(
            outbound,
            addr,
        ) is Cache && chosen(inputs, outbound),
        ConnectFlow::Dialing { outbound } => !(outbound is Reject) && chosen(inputs, outbound),
        ConnectFlow::Checking { peer } => !v4_mapped(peer) && told(inputs, peer),
        _ => true,
    }
}

proof fn lemma_serves(addr: Address<Seq<char>>, inputs: Seq<(ConnectionState, ConnectEvent)>)
    ensures
        serves(addr, inputs, connect_course(addr, inputs).0),
    decreases inputs.len(),
{
    if inputs.len() > 0 {
        let before = inputs.drop_last();
        lemma_serves(addr, before);
        assert forall|outbound: OutboundHandler| chosen(before, outbound) implies #[trigger] chosen(
            inputs,
            outbound,
        ) by {
            let k = choose|k: int| 0 <= k < before.len() && #[trigger] chooses(before[k], outbound);
            assert(chooses(inputs[k], outbound));
        }
        assert forall|outbound: OutboundHandler|
            #[trigger] chooses(inputs.last(), outbound) implies chosen(inputs, outbound) by {
            assert(chooses(inputs[inputs.len() - 1], outbound));
        }
        assert forall|addr: SocketAddr| told(before, addr) implies #[trigger] told(
            inputs,
            addr,
        ) by {
            let k = choose|k: int| 0 <= k < before.len() && #[trigger] tells_peer(before[k], addr);
            assert(tells_peer(inputs[k], addr));
        }
        match inputs.last().1 {
            ConnectEvent::PeerKnown(Some(a)) => {
                assert(tells_peer(inputs[inputs.len() - 1], normalized(a)));
                assert(told(inputs, normalized(a)));
            },
            ConnectEvent::AclMatch(m) => {
                assert(chooses(inputs.last(), outbound_for(m)));
            },
            ConnectEvent::Begin => {
                assert(inputs.last().0.cfg.acl || chooses(inputs.last(), outbound_for(None)));
            },
            _ => {},
        }
    }
}

/// Whatever happens, only the host and port that were asked for are dialled, through
/// the outbound that was chosen, which is no rejecting one. A name is dialled directly
/// only once it has resolved, with what it resolved to.
pub proof fn only_the_resolved_target_is_dialled(
    addr: Address<Seq<char>>,
    inputs: Seq<(ConnectionState, ConnectEvent)>,
)
    requires
        inputs.len() > 0,
    ensures
        connect_course(addr, inputs).1 matches ConnectAction::Dial { addr: a, outbound } ==> {
            &&& a.host == acl_addr_of(addr).host
            &&& a.port == acl_addr_of(addr).port
            &&& !(outbound is Reject)
            &&& exists|k: int| 0 <= k < inputs.len() && #[trigger] chooses(inputs[k], outbound)
            &&& outbound is Direct && addr is DomainAddress ==> a.resolve_info is Some
                && inputs.last().1 == ConnectEvent::Resolved(a.resolve_info)
        },
{
    lemma_serves(addr, inputs.drop_last());
    lemma_serves(addr, inputs);
}

/// The access rules are asked about the target of the request, and a resolver about
/// its name, and about nothing else.
pub proof fn only_the_target_is_asked_about(
    addr: Address<Seq<char>>,
    inputs: Seq<(ConnectionState, ConnectEvent)>,
)
    requires
        inputs.len() > 0,
    ensures
        connect_course(addr, inputs).1 matches ConnectAction::MatchAcl { query, protocol } ==> query
            == acl_query_of(addr) && protocol == Protocol::TCP,
        connect_course(addr, inputs).1 matches ConnectAction::Resolve(domain) ==> addr matches
            Address::DomainAddress(d, _) && d == domain,
{
    lemma_serves(addr, inputs.drop_last());
}

/// A rejected target, an unresolved name and a blocked address are each answered
/// with a reset, and then nothing is done any more.
pub proof fn refusals(
    conn: ConnectionState,
    flow: ConnectFlow<Seq<char>>,
    event: ConnectEvent,
    later: ConnectionState,
    next: ConnectEvent,
)
    ensures
        flow is Matching && event == ConnectEvent::AclMatch(Some(OutboundHandler::Reject))
            ==> connect_next(conn, flow, event).1 == ConnectAction::<Seq<char>>::Refuse(
            Refusal::Rejected,
        ),
        flow is Resolving && event == ConnectEvent::Resolved(None) ==> connect_next(
            conn,
            flow,
            event,
        ).1 == ConnectAction::<Seq<char>>::Refuse(Refusal::DnsFailed),
        flow matches ConnectFlow::Checking { peer } ==> event matches ConnectEvent::PeerClassified(
            private,
        ) ==> dropped(conn.cfg, peer, private) ==> connect_next(conn, flow, event).1
            == ConnectAction::<Seq<char>>::Refuse(Refusal::Blocked),
        connect_next(conn, flow, event).1 is Refuse ==> connect_next(
            later,
            connect_next(conn, flow, event).0,
            next,
        ) == (ConnectFlow::<Seq<char>>::Ended, ConnectAction::<Seq<char>>::Wait),
{
}

/// Whatever happens, copying starts either on a stream through a proxy, or on a direct
/// stream whose far end is not known, or on one whose far end, told before and taken
/// as the address that is reached, is not one that the settings refuse: with loopback
/// targets refused it is no loopback address, in mapped form either, and it is a private
/// one only where private targets are not refused.
pub proof fn copying_starts_past_the_filter(
    addr: Address<Seq<char>>,
    inputs: Seq<(ConnectionState, ConnectEvent)>,
)
    requires
        inputs.len() > 0,
        connect_course(addr, inputs).1 is Copy,
    ensures
        match connect_course(addr, inputs.drop_last()).0 {
            ConnectFlow::Dialing { outbound } => outbound is Proxied,
            ConnectFlow::Inspecting => inputs.last().1 == ConnectEvent::PeerKnown(None),
            ConnectFlow::Checking { peer } => {
                &&& !v4_mapped(peer)
                &&& exists|k: int| 0 <= k < inputs.len() && #[trigger] tells_peer(inputs[k], peer)
                &&& inputs.last().1 matches ConnectEvent::PeerClassified(private)
                &&& !dropped(inputs.last().0.cfg, peer, private)
                &&& inputs.last().0.cfg.drop_loopback ==> !loopback(peer.ip_of())
                &&& private ==> !inputs.last().0.cfg.drop_private
            },
            _ => false,
        },
{
    let before = inputs.drop_last();
    lemma_serves(addr, before);
    if let ConnectFlow::Checking { peer } = connect_course(addr, before).0 {
        let k = choose|k: int| 0 <= k < before.len() && #[trigger] tells_peer(before[k], peer);
        assert(tells_peer(inputs[k], peer));
    }
}

/// Whether the far end of a stream is a private address is asked of the address that
/// is reached, which is never an IPv4-mapped one.
pub proof fn privacy_is_asked_of_the_peer_reached(
    conn: ConnectionState,
    flow: ConnectFlow<Seq<char>>,
    event: ConnectEvent,
)
    ensures
        connect_next(conn, flow, event).1 matches ConnectAction::ClassifyPeer(peer) ==> {
            &&& event matches ConnectEvent::PeerKnown(Some(a))
            &&& peer == normalized(a)
            &&& !v4_mapped(peer)
            &&& connect_next(conn, flow, event).0 == (ConnectFlow::Checking::<Seq<char>> { peer })
        },
{
}

/// Whether `action` ends a request.
pub open spec fn ends(action: ConnectAction<Seq<char>>) -> bool {
    action is Refuse || action is Abandon || action is Settle
}

/// How often the request is ended in the course of `inputs`.
pub open spec fn endings(
    addr: Address<Seq<char>>,
    inputs: Seq<(ConnectionState, ConnectEvent)>,
) -> nat
    decreases inputs.len(),
{
    if inputs.len() == 0 {
        0
    } else {
        endings(addr, inputs.drop_last()) + (if ends(connect_course(addr, inputs).1) {
            1nat
        } else {
            0nat
        })
    }
}

/// How often the client's stream is reset or finished in the course of `inputs`.
pub open spec fn closings(
    addr: Address<Seq<char>>,
    inputs: Seq<(ConnectionState, ConnectEvent)>,
) -> nat
    decreases inputs.len(),
{
    if inputs.len() == 0 {
        0
    } else {
        let action = connect_course(addr, inputs).1;
        closings(addr, inputs.drop_last()) + (if action is Refuse || action is CloseClient {
            1nat
        } else {
            0nat
        })
    }
}

/// A request is ended once, and is over exactly from then on, so its usage is counted
/// at most once.
pub proof fn a_request_ends_once(
    addr: Address<Seq<char>>,
    inputs: Seq<(ConnectionState, ConnectEvent)>,
)
    ensures
        endings(addr, inputs) == (if connect_course(addr, inputs).0 is Ended {
            1nat
        } else {
            0nat
        }),
    decreases inputs.len(),
{
    if inputs.len() > 0 {
        a_request_ends_once(addr, inputs.drop_last());
    }
}

/// The client's stream is reset or finished at most once, and only when nothing is to
/// be copied any more.
pub proof fn a_stream_is_closed_once(
    addr: Address<Seq<char>>,
    inputs: Seq<(ConnectionState, ConnectEvent)>,
)
    ensures
        closings(addr, inputs) <= 1,
        closings(addr, inputs) == 1 ==> ({
            let flow = connect_course(addr, inputs).0;
            flow is Closing || flow is Shutting || flow is Ended
        }),
        connect_course(addr, inputs).1 is Copy ==> closings(addr, inputs) == 0,
    decreases inputs.len(),
{
    if inputs.len() > 0 {
        a_stream_is_closed_once(addr, inputs.drop_last());
    }
}

/// After copying, the client's stream is reset exactly if copying failed and finished
/// otherwise, then the target's stream is shut down, and then the copied bytes go on
/// the account of the user, if there is one by then, as one request.
pub proof fn closing_and_settling(
    conn: ConnectionState,
    later: ConnectionState,
    last: ConnectionState,
    tx: usize,
    rx: usize,
    failed: bool,
)
    ensures
        ({
            let (closing, close) = connect_next(
                conn,
                ConnectFlow::Copying,
                ConnectEvent::Copied { tx, rx, failed },
            );
            let (shutting, shut) = connect_next(later, closing, ConnectEvent::ClientClosed);
            let (ended, settle) = connect_next(last, shutting, ConnectEvent::TargetShut);
            &&& close == (ConnectAction::CloseClient::<Seq<char>> { reset: failed })
            &&& shut == ConnectAction::<Seq<char>>::ShutTarget
            &&& settle == (ConnectAction::Settle::<Seq<char>> {
                usage: match last.auth {
                    Some(uid) => Some(
                        Usage { uid, request: true, tx: Some(tx), rx: Some(rx) },
                    ),
                    None => None,
                },
                failed,
            })
            &&& ended is Ended
        }),
{
}

} // verus!

//! A UDP session: the sockets of one association, and the loop that listens on them.
use bytes::Bytes;
use vstd::prelude::*;

use crate::addr::{normalize_v4_mapped, normalized, SocketAddr};
use crate::connection::{Config, ConnectionState, UdpRelayMode};
use crate::error::{Error, Family, SocketOp};
use crate::packet::{content, datagram, received};
use crate::send::{send_to_first, tried, SendAction};
use crate::target::Address;

verus! {

/// The UDP session of one association.
#[derive(Clone, Copy, Debug, PartialEq, Eq, Structural)]
pub struct UdpSession {
    pub assoc_id: u16,
    /// Whether it has an IPv6 socket besides the IPv4 one.
    pub ipv6: bool,
    /// Whether it has not yet been told to close.
    pub open: bool,
}

/// A session whose sockets are being set up: `done` steps have been performed.
#[derive(Clone, Copy, Debug, PartialEq, Eq, Structural)]
pub struct Setup {
    pub assoc_id: u16,
    pub ipv6: bool,
    pub done: usize,
}

/// Where setting up stands: a step to perform, a session, or a failure.
#[derive(Debug, PartialEq, Eq)]
pub enum SetupStep<E> {
    Perform(SocketOp, Setup),
    Ready(UdpSession),
    Failed(Error<E>),
}

/// The steps of setting up, in order.
pub open spec fn setup_plan(ipv6: bool) -> Seq<SocketOp> {
    let v4 = seq![
        SocketOp::Create(Family::V4),
        SocketOp::SetNonblocking(Family::V4),
        SocketOp::Bind(Family::V4),
        SocketOp::Register(Family::V4),
    ];
    if ipv6 {
        v4 + seq![
            SocketOp::Create(Family::V6),
            SocketOp::SetNonblocking(Family::V6),
            SocketOp::SetOnlyV6,
            SocketOp::Bind(Family::V6),
            SocketOp::Register(Family::V6),
        ]
    } else {
        v4
    }
}

/// The failure of step `op` with error `e`.
pub open spec fn setup_error<E>(op: SocketOp, e: E) -> Error<E> {
    match op {
        SocketOp::Register(_) => Error::Io(e),
        _ => Error::Socket(op, e),
    }
}

/// Setting up after `done` steps succeeded.
pub open spec fn setup_at<E>(assoc_id: u16, ipv6: bool, done: int) -> SetupStep<E> {
    if done < setup_plan(ipv6).len() {
        SetupStep::Perform(
            setup_plan(ipv6)[done],
            Setup { assoc_id, ipv6, done: done as usize },
        )
    } else {
        SetupStep::Ready(UdpSession { assoc_id, ipv6, open: true })
    }
}

/// Setting up after the step in hand turned out as `outcome`.
pub open spec fn setup_reply<E>(setup: Setup, outcome: Result<(), E>) -> SetupStep<E> {
    match outcome {
        Ok(_) => setup_at(setup.assoc_id, setup.ipv6, setup.done + 1),
        Err(e) => SetupStep::Failed(setup_error(setup_plan(setup.ipv6)[setup.done as int], e)),
    }
}

impl Setup {
    /// Some step is still to be performed.
    pub open spec fn wf(self) -> bool {
        self.done < setup_plan(self.ipv6).len()
    }

    fn op(&self) -> (r: SocketOp)
        requires
            self.wf(),
        ensures
            r == setup_plan(self.ipv6)[self.done as int],
    {
        match self.done {
            0 => SocketOp::Create(Family::V4),
            1 => SocketOp::SetNonblocking(Family::V4),
            2 => SocketOp::Bind(Family::V4),
            3 => SocketOp::Register(Family::V4),
            4 => SocketOp::Create(Family::V6),
            5 => SocketOp::SetNonblocking(Family::V6),
            6 => SocketOp::SetOnlyV6,
            7 => SocketOp::Bind(Family::V6),
            _ => SocketOp::Register(Family::V6),
        }
    }

    /// The step in hand succeeded or failed; what comes next.
    pub fn reply<E>(self, outcome: Result<(), E>) -> (r: SetupStep<E>)
        requires
            self.wf(),
        ensures
            r == setup_reply(self, outcome),
    {
        let op = self.op();
        match outcome {
            Err(e) => SetupStep::Failed(
                match op {
                    SocketOp::Register(_) => Error::Io(e),
                    _ => Error::Socket(op, e),
                },
            ),
            Ok(()) => {
                let total: usize = if self.ipv6 {
                    9
                } else {
                    4
                };
                assert(total == setup_plan(self.ipv6).len());
                if self.done + 1 < total {
                    let next = Setup { done: self.done + 1, ..self };
                    SetupStep::Perform(next.op(), next)
                } else {
                    SetupStep::Ready(
                        UdpSession { assoc_id: self.assoc_id, ipv6: self.ipv6, open: true },
                    )
                }
            },
        }
    }
}

/// What a listening session waits for.
#[derive(Debug, PartialEq, Eq)]
pub enum ListenEvent<E, B = Bytes> {
    /// A datagram came in.
    Received { pkt: B, from: SocketAddr },
    /// Listening failed.
    RecvFailed(E),
    /// The client's connection is gone.
    ParentClosed,
    /// Nothing came in for the configured time.
    IdleTimeout,
    /// The session was told to close.
    CloseRequested,
}

impl<E> View for ListenEvent<E, Bytes> {
    type V = ListenEvent<E, Seq<u8>>;

    open spec fn view(&self) -> ListenEvent<E, Seq<u8>> {
        match self {
            ListenEvent::Received { pkt, from } => ListenEvent::Received {
                pkt: content(*pkt),
                from: *from,
            },
            ListenEvent::RecvFailed(e) => ListenEvent::RecvFailed(*e),
            ListenEvent::ParentClosed => ListenEvent::ParentClosed,
            ListenEvent::IdleTimeout => ListenEvent::IdleTimeout,
            ListenEvent::CloseRequested => ListenEvent::CloseRequested,
        }
    }
}

/// What a listening session does.
#[derive(Debug, PartialEq, Eq)]
pub enum ListenAction<S = String, B = Bytes> {
    /// Start the idle time anew and relay the datagram to the client.
    Relay { pkt: B, addr: Address<S>, assoc_id: u16 },
    /// Start the idle time anew and listen on.
    Resume,
    /// Listen on, after telling the session to close if `signal` is set.
    Close { signal: bool },
    /// Stop listening, and retire the session.
    Stop,
}

impl View for ListenAction<String, Bytes> {
    type V = ListenAction<Seq<char>, Seq<u8>>;

    open spec fn view(&self) -> ListenAction<Seq<char>, Seq<u8>> {
        match self {
            ListenAction::Relay { pkt, addr, assoc_id } => ListenAction::Relay {
                pkt: content(*pkt),
                addr: addr@,
                assoc_id: *assoc_id,
            },
            ListenAction::Resume => ListenAction::Resume,
            ListenAction::Close { signal } => ListenAction::Close { signal: *signal },
            ListenAction::Stop => ListenAction::Stop,
        }
    }
}

impl UdpSession {
    /// The session after it was told to close.
    pub open spec fn closed(self) -> UdpSession {
        UdpSession { open: false, ..self }
    }

    /// The session after `event`.
    pub open spec fn after<E>(self, event: ListenEvent<E, Seq<u8>>) -> UdpSession {
        match event {
            ListenEvent::IdleTimeout => self.closed(),
            _ => self,
        }
    }

    /// What the session does on `event`.
    pub open spec fn response<E>(self, event: ListenEvent<E, Seq<u8>>) -> ListenAction<
        Seq<char>,
        Seq<u8>,
    > {
        match event {
            ListenEvent::Received { pkt, from } => ListenAction::Relay {
                pkt,
                addr: Address::SocketAddress(from),
                assoc_id: self.assoc_id,
            },
            ListenEvent::RecvFailed(_) => ListenAction::Resume,
            ListenEvent::ParentClosed => ListenAction::Stop,
            ListenEvent::IdleTimeout => ListenAction::Close { signal: self.open },
            ListenEvent::CloseRequested => ListenAction::Stop,
        }
    }

    /// Begin to set up a session.
    pub fn new<E>(cfg: &Config, assoc_id: u16) -> (r: SetupStep<E>)
        ensures
            r == setup_at::<E>(assoc_id, cfg.udp_relay_ipv6, 0),
    {
        let setup = Setup { assoc_id, ipv6: cfg.udp_relay_ipv6, done: 0 };
        SetupStep::Perform(setup.op(), setup)
    }

    /// Send a datagram to the first target that takes it, in preferred order.
    /// More than one target lets the caller express a family fallback (such as
    /// the `[v6, v4]` of `Prefer64`).
    pub fn send<E>(&self, pkt: Bytes, targets: Vec<SocketAddr>) -> (r: SendAction<E>)
        ensures
            r@ == tried::<E>(content(pkt), targets@, self.ipv6, 0, None),
    {
        send_to_first(self.ipv6, pkt, targets)
    }

    /// The buffer that a datagram is received into.
    pub fn recv_buffer(cfg: &Config) -> (r: Vec<u8>)
        ensures
            r@ == Seq::new(cfg.max_external_packet_size as nat, |i: int| 0u8),
    {
        let r = vec![0u8; cfg.max_external_packet_size];
        assert(r@ =~= Seq::new(cfg.max_external_packet_size as nat, |i: int| 0u8));
        r
    }

    /// The datagram of `n` bytes that came into `buf`, and whom it is from: an
    /// IPv4-mapped sender is an IPv4 one.
    pub fn recv(buf: Vec<u8>, n: usize, from: SocketAddr) -> (r: (Bytes, SocketAddr))
        ensures
            content(r.0) == (if n <= buf@.len() {
                buf@.take(n as int)
            } else {
                buf@
            }),
            r.1 == normalized(from),
            content(r.0) == received(buf@, n as int),
    {
        (datagram(buf, n), normalize_v4_mapped(from))
    }

    /// Take an event while listening.
    pub fn listen<E>(&mut self, event: ListenEvent<E>) -> (r: ListenAction)
        ensures
            *final(self) == old(self).after(event@),
            r@ == old(self).response(event@),
    {
        match event {
            ListenEvent::Received { pkt, from } => ListenAction::Relay {
                pkt,
                addr: Address::SocketAddress(from),
                assoc_id: self.assoc_id,
            },
            ListenEvent::RecvFailed(_) => ListenAction::Resume,
            ListenEvent::ParentClosed => ListenAction::Stop,
            ListenEvent::IdleTimeout => {
                let signal = self.close();
                ListenAction::Close { signal }
            },
            ListenEvent::CloseRequested => ListenAction::Stop,
        }
    }

    /// Tell the session to close. The result says whether the signal is to be
    /// sent: it is, unless it was before.
    pub fn close(&mut self) -> (r: bool)
        ensures
            r == old(self).open,
            *final(self) == old(self).closed(),
    {
        let r = self.open;
        self.open = false;
        r
    }
}

/// Setting up after `done` steps, where step `i` turns out as `system(i)`.
pub open spec fn set_up<E>(
    assoc_id: u16,
    ipv6: bool,
    done: int,
    system: spec_fn(int) -> Result<(), E>,
) -> SetupStep<E>
    decreases setup_plan(ipv6).len() - done,
    when 0 <= done
{
    match setup_at::<E>(assoc_id, ipv6, done) {
        SetupStep::Perform(_, setup) => match setup_reply(setup, system(done)) {
            SetupStep::Perform(_, next) => set_up(assoc_id, ipv6, next.done as int, system),
            end => end,
        },
        end => end,
    }
}

proof fn lemma_set_up_step<E>(
    assoc_id: u16,
    ipv6: bool,
    done: int,
    system: spec_fn(int) -> Result<(), E>,
)
    requires
        0 <= done < setup_plan(ipv6).len(),
    ensures
        set_up(assoc_id, ipv6, done, system) == (match system(done) {
            Ok(_) => set_up(assoc_id, ipv6, done + 1, system),
            Err(e) => SetupStep::Failed(setup_error(setup_plan(ipv6)[done], e)),
        }),
{
    assert(setup_plan(ipv6).len() <= 9);
    reveal_with_fuel(set_up, 2);
}

proof fn lemma_set_up<E>(
    assoc_id: u16,
    ipv6: bool,
    done: int,
    system: spec_fn(int) -> Result<(), E>,
    n: int,
)
    requires
        0 <= done <= n,
        n == setup_plan(ipv6).len(),
    ensures
        ({
            let end = set_up(assoc_id, ipv6, done, system);
            ||| end == SetupStep::<E>::Ready(UdpSession { assoc_id, ipv6, open: true }) && (forall|
                i: int,
            |
                done <= i < n ==> #[trigger] system(i) is Ok)
            ||| exists|k: int|
                #![trigger system(k)]
                done <= k < n && system(k) is Err && (forall|i: int|
                    done <= i < k ==> #[trigger] system(i) is Ok) && end == SetupStep::Failed(
                    setup_error(setup_plan(ipv6)[k], system(k)->Err_0),
                )
        }),
    decreases n - done,
{
    if done < n {
        lemma_set_up_step(assoc_id, ipv6, done, system);
        if system(done) is Ok {
            lemma_set_up(assoc_id, ipv6, done + 1, system, n);
        }
    }
}

/// A session comes about exactly if every step succeeds, and it is open and has
/// an IPv6 socket exactly if IPv6 relay is on.
pub proof fn session_needs_every_step<E>(
    assoc_id: u16,
    ipv6: bool,
    system: spec_fn(int) -> Result<(), E>,
)
    ensures
        set_up(assoc_id, ipv6, 0, system) is Ready <==> (forall|i: int|
            0 <= i < setup_plan(ipv6).len() ==> #[trigger] system(i) is Ok),
        set_up(assoc_id, ipv6, 0, system) matches SetupStep::Ready(s) ==> s == (UdpSession {
            assoc_id,
            ipv6,
            open: true,
        }),
{
    lemma_set_up(assoc_id, ipv6, 0, system, setup_plan(ipv6).len() as int);
}

/// The first step that fails ends the setting up, with its own failure.
pub proof fn first_failing_step_is_reported<E>(
    assoc_id: u16,
    ipv6: bool,
    system: spec_fn(int) -> Result<(), E>,
    k: int,
)
    requires
        0 <= k < setup_plan(ipv6).len(),
        system(k) is Err,
        forall|i: int| 0 <= i < k ==> #[trigger] system(i) is Ok,
    ensures
        set_up(assoc_id, ipv6, 0, system) == SetupStep::Failed(
            setup_error(setup_plan(ipv6)[k], system(k)->Err_0),
        ),
{
    lemma_set_up(assoc_id, ipv6, 0, system, setup_plan(ipv6).len() as int);
}

/// A socket is bound only once it is non-blocking, an IPv6 socket only once it
/// is IPv6-only, and without IPv6 relay nothing touches an IPv6 socket.
pub proof fn sockets_are_bound_ready(ipv6: bool, k: int)
    requires
        0 <= k < setup_plan(ipv6).len(),
    ensures
        setup_plan(ipv6)[k] matches SocketOp::Bind(f) ==> exists|i: int|
            0 <= i < k && #[trigger] setup_plan(ipv6)[i] == SocketOp::SetNonblocking(f),
        setup_plan(ipv6)[k] == SocketOp::Bind(Family::V6) ==> exists|i: int|
            0 <= i < k && #[trigger] setup_plan(ipv6)[i] == SocketOp::SetOnlyV6,
        !ipv6 ==> setup_plan(ipv6)[k].family() == Family::V4,
{
    let p = setup_plan(ipv6);
    assert(p[1] == SocketOp::SetNonblocking(Family::V4));
    if ipv6 {
        assert(p[5] == SocketOp::SetNonblocking(Family::V6));
        assert(p[6] == SocketOp::SetOnlyV6);
    }
}

/// What befalls a session: an event while it listens, or a call of `close`.
pub enum SessionInput<E> {
    Listen(ListenEvent<E, Seq<u8>>),
    Close,
}

impl UdpSession {
    /// The session after `input`.
    pub open spec fn next<E>(self, input: SessionInput<E>) -> UdpSession {
        match input {
            SessionInput::Listen(event) => self.after(event),
            SessionInput::Close => self.closed(),
        }
    }

    /// Whether the closing signal is given at `input`.
    pub open spec fn signals_at<E>(self, input: SessionInput<E>) -> bool {
        match input {
            SessionInput::Listen(event) => self.response(event) == (ListenAction::Close::<
                Seq<char>,
                Seq<u8>,
            > { signal: true }),
            SessionInput::Close => self.open,
        }
    }
}

/// The session after `inputs`.
pub open spec fn session_after<E>(s: UdpSession, inputs: Seq<SessionInput<E>>) -> UdpSession
    decreases inputs.len(),
{
    if inputs.len() == 0 {
        s
    } else {
        session_after(s, inputs.drop_last()).next(inputs.last())
    }
}

/// How many times the closing signal is given in the course of `inputs`.
pub open spec fn signals<E>(s: UdpSession, inputs: Seq<SessionInput<E>>) -> nat
    decreases inputs.len(),
{
    if inputs.len() == 0 {
        0
    } else {
        signals(s, inputs.drop_last()) + (if session_after(s, inputs.drop_last()).signals_at(
            inputs.last(),
        ) {
            1nat
        } else {
            0nat
        })
    }
}

/// However events and calls of `close` are mixed, an open session is given the closing
/// signal at most once, and exactly once if it is closed in the end; a closed session
/// is given none.
pub proof fn closed_at_most_once<E>(s: UdpSession, inputs: Seq<SessionInput<E>>)
    ensures
        signals(s, inputs) <= 1,
        signals(s, inputs) + (if session_after(s, inputs).open {
            1nat
        } else {
            0nat
        }) == (if s.open {
            1nat
        } else {
            0nat
        }),
    decreases inputs.len(),
{
    if inputs.len() > 0 {
        closed_at_most_once(s, inputs.drop_last());
    }
}

/// Listening stops exactly when the client's connection is gone or the session
/// was told to close; a failing socket or an idle time does not stop it.
pub proof fn what_stops_listening<E>(s: UdpSession, event: ListenEvent<E, Seq<u8>>)
    ensures
        s.response(event) is Stop <==> (event is ParentClosed || event is CloseRequested),
        s.response(event) is Close <==> event is IdleTimeout,
{
}

/// Every datagram that comes in, from a sender of either family, is relayed: its very
/// bytes, with the sender's address, for the session's own association.
pub proof fn whatever_comes_in_is_relayed<E>(s: UdpSession, pkt: Seq<u8>, from: SocketAddr)
    ensures
        s.response(ListenEvent::<E, Seq<u8>>::Received { pkt, from }) matches ListenAction::Relay {
            pkt: relayed,
            addr,
            assoc_id,
        } && relayed == pkt && addr == Address::<Seq<char>>::SocketAddress(from) && assoc_id
            == s.assoc_id,
{
}

/// Nothing but a datagram is relayed, only a failed receive is passed over, and the
/// closing signal is given on an idle time if it was not given before.
pub proof fn each_event_has_its_own_response<E>(s: UdpSession, event: ListenEvent<E, Seq<u8>>)
    ensures
        s.response(event) is Relay <==> event is Received,
        s.response(event) is Resume <==> event is RecvFailed,
        s.response(event) matches ListenAction::Close { signal } ==> signal == s.open,
{
}

/// A session stays the one of its association, with the sockets that it has. It stays
/// open until it is told to close or nothing came in for too long, and never opens again.
pub proof fn a_session_stays_what_it_is<E>(s: UdpSession, event: ListenEvent<E, Seq<u8>>)
    ensures
        s.after(event).assoc_id == s.assoc_id,
        s.after(event).ipv6 == s.ipv6,
        s.after(event).open <==> s.open && !(event is IdleTimeout),
        s.closed().assoc_id == s.assoc_id,
        s.closed().ipv6 == s.ipv6,
        !s.closed().open,
{
}

/// A socket is created, made non-blocking, bound and registered, in this order, and an
/// IPv6 socket is made IPv6-only before it is bound. Each step is taken once, the IPv4
/// socket comes first, and the IPv6 socket only where IPv6 relay is on.
pub proof fn sockets_are_set_up_in_order(ipv6: bool, f: Family, op: SocketOp, j: int, k: int)
    ensures
        setup_plan(ipv6).contains(op) <==> op.family() == Family::V4 || ipv6,
        0 <= j < k < setup_plan(ipv6).len() ==> {
            let (before, after) = (setup_plan(ipv6)[j], setup_plan(ipv6)[k]);
            &&& before != after
            &&& before.family() == Family::V6 ==> after.family() == Family::V6
            &&& before == SocketOp::SetNonblocking(f) ==> after != SocketOp::Create(f)
            &&& before == SocketOp::Bind(f) ==> after != SocketOp::Create(f) && after
                != SocketOp::SetNonblocking(f)
            &&& before == SocketOp::Bind(Family::V6) ==> after != SocketOp::SetOnlyV6
            &&& before == SocketOp::Register(f) ==> after.family() != f
            &&& before == SocketOp::SetOnlyV6 ==> after != SocketOp::Create(Family::V6) && after
                != SocketOp::SetNonblocking(Family::V6)
        },
{
    let p = setup_plan(ipv6);
    assert(p[0] == SocketOp::Create(Family::V4) && p[1] == SocketOp::SetNonblocking(Family::V4)
        && p[2] == SocketOp::Bind(Family::V4) && p[3] == SocketOp::Register(Family::V4));
    if ipv6 {
        assert(p[4] == SocketOp::Create(Family::V6) && p[5] == SocketOp::SetNonblocking(Family::V6)
            && p[6] == SocketOp::SetOnlyV6 && p[7] == SocketOp::Bind(Family::V6) && p[8]
            == SocketOp::Register(Family::V6));
    }
}

/// A step is about the socket of its own family.
pub proof fn a_step_has_its_family(f: Family)
    ensures
        SocketOp::Create(f).family() == f,
        SocketOp::SetNonblocking(f).family() == f,
        SocketOp::Bind(f).family() == f,
        SocketOp::Register(f).family() == f,
        SocketOp::SetOnlyV6.family() == Family::V6,
{
}

/// Setting up takes the planned steps one after the other, for the association it began
/// for. A step that fails ends it, with the error of the system, which is told with the
/// step unless that was to register. When the last one succeeds there is an open session
/// for that association, with an IPv6 socket exactly if IPv6 relay is on.
pub proof fn setting_up_takes_every_step<E>(assoc_id: u16, ipv6: bool, done: int, e: E)
    requires
        0 <= done < setup_plan(ipv6).len(),
    ensures
        setup_at::<E>(assoc_id, ipv6, done) matches SetupStep::Perform(op, setup) && ({
            &&& op == setup_plan(ipv6)[done]
            &&& setup.assoc_id == assoc_id && setup.ipv6 == ipv6 && setup.done == done
            &&& done + 1 < setup_plan(ipv6).len() ==> setup_reply::<E>(setup, Ok(())) == setup_at::<
                E,
            >(assoc_id, ipv6, done + 1)
            &&& done + 1 == setup_plan(ipv6).len() ==> (setup_reply::<E>(setup, Ok(()))
                matches SetupStep::Ready(s) && s.assoc_id == assoc_id && s.ipv6 == ipv6 && s.open)
            &&& setup_reply(setup, Err(e)) matches SetupStep::Failed(err)
            &&& op is Register ==> err == Error::Io(e)
            &&& !(op is Register) ==> err == Error::Socket(op, e)
        }),
{
    assert(setup_plan(ipv6).len() <= 9);
}

/// A datagram that comes back for an association reaches its client: every byte of it
/// that was received, in the mode of the client's latest fragment, as from the address
/// that sent it, for that association.
pub proof fn an_answer_reaches_the_client<E>(
    s: UdpSession,
    conn: ConnectionState,
    mode: UdpRelayMode,
    buf: Seq<u8>,
    n: nat,
    from: SocketAddr,
)
    requires
        n <= buf.len(),
        conn.udp_relay_mode == Some(mode),
    ensures
        ({
            let event = ListenEvent::<E, Seq<u8>>::Received {
                pkt: received(buf, n as int),
                from: normalized(from),
            };
            &&& s.response(event) matches ListenAction::Relay { pkt, addr, assoc_id }
            &&& conn.relayed(pkt, addr, assoc_id).mode == mode
            &&& conn.relayed(pkt, addr, assoc_id).pkt == buf.take(n as int)
            &&& conn.relayed(pkt, addr, assoc_id).addr == Address::<Seq<char>>::SocketAddress(
                normalized(from),
            )
            &&& conn.relayed(pkt, addr, assoc_id).assoc_id == s.assoc_id
        }),
{
}

} // verus!

//! A client's connection: its settings, its user, and its UDP sessions.
use std::collections::HashMap;

use bytes::Bytes;
use vstd::prelude::*;

use crate::addr::{loopback, normalize_v4_mapped, normalized, socket_addr, SocketAddr};
use crate::literal::{ip_of, ip_text};
use crate::outbound::{outbound_for, OutboundHandler};
use crate::packet::{content, length};
use crate::roundtrip::written_address_is_read_back;
use crate::target::{acl_addr_of, address_to_acl_addr, Address, DirectMode};

verus! {

broadcast use vstd::std_specs::hash::group_hash_axioms;

/// The settings that relaying depends on.
#[derive(Clone, Copy, Debug, PartialEq, Eq, Structural)]
pub struct Config {
    /// Whether access rules are in force.
    pub acl: bool,
    /// Refuse targets that are loopback addresses.
    pub drop_loopback: bool,
    /// Refuse targets that are private addresses.
    pub drop_private: bool,
    /// Relay datagrams over IPv6.
    pub udp_relay_ipv6: bool,
    /// The most bytes that are taken of a datagram from outside.
    pub max_external_packet_size: usize,
}

/// How datagrams travel between the server and the client.
#[derive(Clone, Copy, Debug, PartialEq, Eq, Structural)]
pub enum UdpRelayMode {
    Native,
    Quic,
}

/// What is put on a user's account: a request, bytes sent out, bytes brought in.
#[derive(Clone, Copy, Debug, PartialEq, Eq, Structural)]
pub struct Usage {
    pub uid: u64,
    pub request: bool,
    pub tx: Option<usize>,
    pub rx: Option<usize>,
}

/// A client's connection.
pub struct Connection {
    pub cfg: Config,
    /// The user, once authenticated.
    pub auth: Option<u64>,
    /// The mode of the latest datagram from the client.
    pub udp_relay_mode: Option<UdpRelayMode>,
    /// The session of each association in use.
    pub udp_sessions: HashMap<u16, u64>,
}

/// A connection as contracts speak of it.
#[verifier::ext_equal]
pub struct ConnectionState {
    pub cfg: Config,
    pub auth: Option<u64>,
    pub udp_relay_mode: Option<UdpRelayMode>,
    pub udp_sessions: Map<u16, u64>,
}

impl View for Connection {
    type V = ConnectionState;

    open spec fn view(&self) -> ConnectionState {
        ConnectionState {
            cfg: self.cfg,
            auth: self.auth,
            udp_relay_mode: self.udp_relay_mode,
            udp_sessions: self.udp_sessions@,
        }
    }
}

impl ConnectionState {
    /// A session is opened only after a datagram told the mode, so while there is
    /// a session the mode is known.
    pub open spec fn wf(self) -> bool {
        self.udp_sessions.dom() != Set::<u16>::empty() ==> self.udp_relay_mode is Some
    }

    /// What goes on the account of the user: nothing before authentication.
    pub open spec fn billed(
        self,
        request: bool,
        tx: Option<usize>,
        rx: Option<usize>,
    ) -> Option<Usage> {
        match self.auth {
            Some(uid) => Some(Usage { uid, request, tx, rx }),
            None => None,
        }
    }

    /// The same connection with `sessions` in use.
    pub open spec fn with_sessions(self, sessions: Map<u16, u64>) -> ConnectionState {
        ConnectionState { udp_sessions: sessions, ..self }
    }
}

impl ConnectionState {
    /// The connection once an association has no session any more.
    pub open spec fn without(self, assoc_id: u16) -> ConnectionState {
        self.with_sessions(self.udp_sessions.remove(assoc_id))
    }

    /// The connection once `session`, which served `assoc_id`, has ended: the
    /// association has no session any more, unless it is another one by now.
    pub open spec fn retired(self, assoc_id: u16, session: u64) -> ConnectionState {
        if self.udp_sessions.get(assoc_id) == Some(session) {
            self.without(assoc_id)
        } else {
            self
        }
    }
}

/// Whether a target is refused: one that reaches a loopback or a private address,
/// where the settings say so. `private` tells whether the address that it reaches is
/// a private one.
pub open spec fn dropped(cfg: Config, addr: SocketAddr, private: bool) -> bool {
    (cfg.drop_loopback && loopback(normalized(addr).ip_of())) || (cfg.drop_private && private)
}

/// What the access rules are asked about: a host and a port.
#[derive(Debug, PartialEq, Eq)]
pub struct AclQuery<S = String> {
    pub host: S,
    pub port: u16,
}

impl View for AclQuery<String> {
    type V = AclQuery<Seq<char>>;

    open spec fn view(&self) -> AclQuery<Seq<char>> {
        AclQuery { host: self.host@, port: self.port }
    }
}

/// The question about `addr`.
pub open spec fn acl_query_of(addr: Address<Seq<char>>) -> AclQuery<Seq<char>> {
    AclQuery { host: acl_addr_of(addr).host, port: acl_addr_of(addr).port }
}

/// A datagram on its way to the client.
#[derive(Debug, PartialEq, Eq)]
pub struct Relay<S = String, B = Bytes> {
    pub mode: UdpRelayMode,
    pub pkt: B,
    pub addr: Address<S>,
    pub assoc_id: u16,
    /// What is put on the user's account first.
    pub usage: Option<Usage>,
}

impl View for Relay<String, Bytes> {
    type V = Relay<Seq<char>, Seq<u8>>;

    open spec fn view(&self) -> Relay<Seq<char>, Seq<u8>> {
        Relay {
            mode: self.mode,
            pkt: content(self.pkt),
            addr: self.addr@,
            assoc_id: self.assoc_id,
            usage: self.usage,
        }
    }
}

impl ConnectionState {
    /// A datagram from outside on its way to the client.
    pub open spec fn relayed(
        self,
        pkt: Seq<u8>,
        addr: Address<Seq<char>>,
        assoc_id: u16,
    ) -> Relay<Seq<char>, Seq<u8>> {
        Relay {
            mode: self.udp_relay_mode->0,
            pkt,
            addr,
            assoc_id,
            usage: self.billed(false, None, Some(pkt.len() as usize)),
        }
    }
}

impl Connection {
    /// A connection on which nothing has happened yet.
    pub fn new(cfg: Config) -> (r: Connection)
        ensures
            r@ == (ConnectionState {
                cfg,
                auth: None,
                udp_relay_mode: None,
                udp_sessions: Map::empty(),
            }),
            r@.wf(),
    {
        Connection { cfg, auth: None, udp_relay_mode: None, udp_sessions: HashMap::new() }
    }

    /// Built-in safety: refuse loopback and private targets, if configured. An
    /// IPv4-mapped target counts as the IPv4 address that it reaches, and `private`
    /// tells whether that address is a private one.
    pub fn should_drop_address(&self, addr: &SocketAddr, private: bool) -> (r: bool)
        ensures
            r == dropped(self@.cfg, *addr, private),
    {
        if self.cfg.drop_loopback && normalize_v4_mapped(*addr).ip().is_loopback() {
            return true;
        }
        if self.cfg.drop_private && private {
            return true;
        }
        false
    }

    /// What to ask the access rules about `addr`, if there are any.
    pub fn acl_query(&self, addr: &Address) -> (r: Option<AclQuery>)
        ensures
            match r {
                Some(q) => self@.cfg.acl && q@ == acl_query_of(addr@),
                None => !self@.cfg.acl,
            },
    {
        if self.cfg.acl {
            let acl_addr = address_to_acl_addr(addr);
            Some(AclQuery { host: acl_addr.host, port: acl_addr.port })
        } else {
            None
        }
    }

    /// The outbound for a target, given what the access rules matched. Without a
    /// match, or without rules, it is direct.
    pub fn get_outbound_handler(matched: Option<OutboundHandler>) -> (r: OutboundHandler)
        ensures
            r == outbound_for(matched),
    {
        match matched {
            Some(handler) => handler,
            None => OutboundHandler::Direct { mode: DirectMode::Auto, udp: true },
        }
    }

    pub(crate) fn bill(&self, request: bool, tx: Option<usize>, rx: Option<usize>) -> (r: Option<
        Usage,
    >)
        ensures
            r == self@.billed(request, tx, rx),
    {
        match self.auth {
            Some(uid) => Some(Usage { uid, request, tx, rx }),
            None => None,
        }
    }

    /// The session of an association.
    pub fn session(&self, assoc_id: u16) -> (r: Option<u64>)
        ensures
            r == self@.udp_sessions.get(assoc_id),
    {
        match self.udp_sessions.get(&assoc_id) {
            Some(session) => Some(*session),
            None => None,
        }
    }

    /// Enter a new session for an association, unless it has one; the session
    /// that it has then.
    pub(crate) fn enter_session(&mut self, assoc_id: u16, session: u64) -> (r: u64)
        ensures
            r == (match old(self)@.udp_sessions.get(assoc_id) {
                Some(s) => s,
                None => session,
            }),
            final(self)@ == (if old(self)@.udp_sessions.contains_key(assoc_id) {
                old(self)@
            } else {
                old(self)@.with_sessions(old(self)@.udp_sessions.insert(assoc_id, session))
            }),
    {
        match self.session(assoc_id) {
            Some(s) => s,
            None => {
                self.udp_sessions.insert(assoc_id, session);
                session
            },
        }
    }

    /// The client is done with an association: forget its session, which is to be
    /// closed if it is still alive.
    pub fn handle_dissociate(&mut self, assoc_id: u16) -> (r: Option<u64>)
        ensures
            r == old(self)@.udp_sessions.get(assoc_id),
            final(self)@ == old(self)@.without(assoc_id),
            old(self)@.wf() ==> final(self)@.wf(),
    {
        let r = self.udp_sessions.remove(&assoc_id);
        proof {
            if r is None {
                assert(old(self)@.udp_sessions.remove(assoc_id) =~= old(self)@.udp_sessions);
            }
            lemma_fewer_sessions_wf(old(self)@, self@.udp_sessions);
        }
        r
    }

    /// A session has ended: forget it. Where the association has meanwhile been
    /// given a newer session, that one stays. Tells whether it was forgotten.
    pub fn retire_session(&mut self, assoc_id: u16, session: u64) -> (r: bool)
        ensures
            r == (old(self)@.udp_sessions.get(assoc_id) == Some(session)),
            final(self)@ == old(self)@.retired(assoc_id, session),
            old(self)@.wf() ==> final(self)@.wf(),
    {
        match self.session(assoc_id) {
            Some(s) => if s == session {
                self.udp_sessions.remove(&assoc_id);
                proof {
                    lemma_fewer_sessions_wf(old(self)@, self@.udp_sessions);
                }
                true
            } else {
                false
            },
            None => false,
        }
    }

    /// What to do with a datagram from outside: it goes to the client in the mode
    /// of the client's latest datagram, and its bytes go on the user's account.
    pub fn relay_packet(&self, pkt: Bytes, addr: Address, assoc_id: u16) -> (r: Relay)
        requires
            self@.udp_relay_mode is Some,
        ensures
            r@ == (Relay {
                mode: self@.udp_relay_mode->0,
                pkt: content(pkt),
                addr: addr@,
                assoc_id,
                usage: self@.billed(false, None, Some(content(pkt).len() as usize)),
            }),
            r@ == self@.relayed(content(pkt), addr@, assoc_id),
    {
        let usage = self.bill(false, None, Some(length(&pkt)));
        Relay { mode: self.udp_relay_mode.unwrap(), pkt, addr, assoc_id, usage }
    }
}

proof fn lemma_fewer_sessions_wf(conn: ConnectionState, sessions: Map<u16, u64>)
    requires
        sessions.dom().subset_of(conn.udp_sessions.dom()),
    ensures
        conn.wf() ==> conn.with_sessions(sessions).wf(),
{
    if conn.udp_sessions.dom() == Set::<u16>::empty() {
        assert(sessions.dom() =~= Set::<u16>::empty());
    }
}

/// An association that is used anew while its former session is still shutting down
/// keeps its new session.
pub proof fn a_newer_session_stays(
    conn: ConnectionState,
    assoc_id: u16,
    former: u64,
    newer: u64,
)
    requires
        conn.udp_sessions.get(assoc_id) == Some(newer),
        former != newer,
    ensures
        conn.retired(assoc_id, former) == conn,
{
}

/// A session that ends is no longer found, and it leaves the sessions of other
/// associations alone.
pub proof fn an_ended_session_is_forgotten(
    conn: ConnectionState,
    assoc_id: u16,
    session: u64,
    other: u16,
)
    ensures
        conn.retired(assoc_id, session).udp_sessions.get(assoc_id) != Some(session),
        other != assoc_id ==> conn.retired(assoc_id, session).udp_sessions.get(other)
            == conn.udp_sessions.get(other),
{
}

/// After a client gives an association up it has no session, other associations keep
/// theirs, and giving it up again, or its session's end, changes nothing.
pub proof fn a_dissociated_session_is_forgotten(
    conn: ConnectionState,
    assoc_id: u16,
    session: u64,
    other: u16,
)
    ensures
        conn.without(assoc_id).udp_sessions.get(assoc_id) is None,
        other != assoc_id ==> conn.without(assoc_id).udp_sessions.get(other)
            == conn.udp_sessions.get(other),
        conn.without(assoc_id).without(assoc_id) == conn.without(assoc_id),
        conn.without(assoc_id).retired(assoc_id, session) == conn.without(assoc_id),
{
    assert(conn.udp_sessions.remove(assoc_id).remove(assoc_id) =~= conn.udp_sessions.remove(
        assoc_id,
    ));
}

/// A target is refused for either reason by itself, whatever the other setting is:
/// because it reaches a private address while private targets are refused, or because
/// it reaches a loopback address while loopback targets are. It is refused for no other
/// reason.
pub proof fn each_reason_refuses_by_itself(cfg: Config, addr: SocketAddr, private: bool)
    ensures
        cfg.drop_private && private ==> dropped(cfg, addr, private),
        cfg.drop_loopback && loopback(normalized(addr).ip_of()) ==> dropped(cfg, addr, private),
        !cfg.drop_private && !cfg.drop_loopback ==> !dropped(cfg, addr, private),
        !cfg.drop_private && !loopback(normalized(addr).ip_of()) ==> !dropped(cfg, addr, private),
        !private && !cfg.drop_loopback ==> !dropped(cfg, addr, private),
        !private && !loopback(normalized(addr).ip_of()) ==> !dropped(cfg, addr, private),
{
}

/// To refuse more never lets a target through that was refused before, and a port does
/// not matter.
pub proof fn stricter_settings_refuse_more(
    cfg: Config,
    stricter: Config,
    addr: SocketAddr,
    port: u16,
    private: bool,
)
    requires
        cfg.drop_loopback ==> stricter.drop_loopback,
        cfg.drop_private ==> stricter.drop_private,
    ensures
        dropped(cfg, addr, private) ==> dropped(stricter, addr, private),
        dropped(cfg, socket_addr(addr.ip_of(), port), private) == dropped(cfg, addr, private),
{
}

/// Nothing goes on an account before a user is known; from then on what is counted
/// goes on the account of that user, as it was counted.
pub proof fn usage_goes_to_the_user(
    conn: ConnectionState,
    uid: u64,
    request: bool,
    tx: Option<usize>,
    rx: Option<usize>,
)
    ensures
        conn.auth is None ==> conn.billed(request, tx, rx) is None,
        conn.auth == Some(uid) ==> (conn.billed(request, tx, rx) matches Some(u) && u.uid == uid
            && u.request == request && u.tx == tx && u.rx == rx),
{
}

/// The end of an association or of a session changes the sessions in use alone; a
/// session that ends while it still serves its association leaves it without one.
pub proof fn ending_touches_sessions_only(conn: ConnectionState, assoc_id: u16, session: u64)
    ensures
        conn.without(assoc_id).cfg == conn.cfg,
        conn.without(assoc_id).auth == conn.auth,
        conn.without(assoc_id).udp_relay_mode == conn.udp_relay_mode,
        conn.retired(assoc_id, session).cfg == conn.cfg,
        conn.retired(assoc_id, session).auth == conn.auth,
        conn.retired(assoc_id, session).udp_relay_mode == conn.udp_relay_mode,
        conn.udp_sessions.get(assoc_id) == Some(session) ==> !conn.retired(
            assoc_id,
            session,
        ).udp_sessions.contains_key(assoc_id),
        conn.udp_sessions.get(assoc_id) != Some(session) ==> conn.retired(
            assoc_id,
            session,
        ).udp_sessions == conn.udp_sessions,
{
}

/// The access rules are asked about the name that a client names, or about the text of
/// the address that it names, from which the address can be read back; and about the
/// port that it names.
pub proof fn the_rules_are_asked_about_what_is_named(
    domain: Seq<char>,
    port: u16,
    sa: SocketAddr,
)
    ensures
        acl_query_of(Address::DomainAddress(domain, port)).host == domain,
        acl_query_of(Address::DomainAddress(domain, port)).port == port,
        acl_query_of(Address::SocketAddress(sa)).host == ip_text(sa.ip_of()),
        ip_of(acl_query_of(Address::SocketAddress(sa)).host) == Some(sa.ip_of()),
        acl_query_of(Address::SocketAddress(sa)).port == sa.port_of(),
        acl_query_of(Address::Absent).host.len() == 0,
        acl_query_of(Address::Absent).port == 0,
{
    written_address_is_read_back(sa.ip_of());
}

/// A datagram from outside goes to the client whole, in the mode of the client's latest
/// fragment, with its sender and for its association. Its bytes, and nothing else, are
/// counted as brought in, for a user that is known: it is no request.
pub proof fn an_answer_goes_back_as_it_came(
    conn: ConnectionState,
    mode: UdpRelayMode,
    pkt: Seq<u8>,
    addr: Address<Seq<char>>,
    assoc_id: u16,
)
    requires
        conn.udp_relay_mode == Some(mode),
    ensures
        ({
            let r = conn.relayed(pkt, addr, assoc_id);
            &&& r.mode == mode
            &&& r.pkt == pkt && r.addr == addr && r.assoc_id == assoc_id
            &&& conn.auth is None ==> r.usage is None
            &&& conn.auth matches Some(uid) ==> {
                &&& r.usage matches Some(u)
                &&& u.uid == uid && !u.request && u.tx is None
                &&& u.rx == Some(pkt.len() as usize)
            }
        }),
{
}

} // verus!

//! How a target is reached, as the access rules decide it.
use vstd::prelude::*;

use crate::target::{Address, DirectMode};

verus! {

#[derive(Clone, Copy, Debug, PartialEq, Eq, Structural)]
pub enum Protocol {
    TCP,
    UDP,
}

/// What the access rules chose for a target. `udp` says whether it may carry datagrams.
#[derive(Clone, Copy, Debug, PartialEq, Eq, Structural)]
pub enum OutboundHandler {
    Direct { mode: DirectMode, udp: bool },
    Proxied { udp: bool },
    Reject,
}

impl OutboundHandler {
    pub open spec fn carries_udp(self) -> bool {
        match self {
            OutboundHandler::Direct { udp, .. } => udp,
            OutboundHandler::Proxied { udp } => udp,
            OutboundHandler::Reject => false,
        }
    }

    pub open spec fn mode(self) -> Option<DirectMode> {
        match self {
            OutboundHandler::Direct { mode, .. } => Some(mode),
            _ => None,
        }
    }

    pub fn is_reject(&self) -> (r: bool)
        ensures
            r == (self is Reject),
    {
        matches!(self, OutboundHandler::Reject)
    }

    pub fn is_direct(&self) -> (r: bool)
        ensures
            r == (self is Direct),
    {
        matches!(self, OutboundHandler::Direct { .. })
    }

    pub fn allows_udp(&self) -> (r: bool)
        ensures
            r == self.carries_udp(),
    {
        match self {
            OutboundHandler::Direct { udp, .. } => *udp,
            OutboundHandler::Proxied { udp } => *udp,
            OutboundHandler::Reject => false,
        }
    }

    pub fn direct_mode(&self) -> (r: Option<DirectMode>)
        ensures
            r == self.mode(),
    {
        match self {
            OutboundHandler::Direct { mode, .. } => Some(*mode),
            _ => None,
        }
    }
}

/// The outbound for a target: what the rules matched, or else direct in `Auto` mode.
pub open spec fn outbound_for(matched: Option<OutboundHandler>) -> OutboundHandler {
    match matched {
        Some(handler) => handler,
        None => OutboundHandler::Direct { mode: DirectMode::Auto, udp: true },
    }
}

/// Whether a name is resolved before the outbound is used, and which.
#[derive(Debug, PartialEq, Eq)]
pub enum ResolveDecision<S = String> {
    Cache(S),
    Skip,
}

impl View for ResolveDecision<String> {
    type V = ResolveDecision<Seq<char>>;

    open spec fn view(&self) -> ResolveDecision<Seq<char>> {
        match self {
            ResolveDecision::Cache(domain) => ResolveDecision::Cache(domain@),
            ResolveDecision::Skip => ResolveDecision::Skip,
        }
    }
}

/// A domain reached directly is resolved beforehand; nothing else is.
pub open spec fn resolve_rule(outbound: OutboundHandler, addr: Address<Seq<char>>) -> ResolveDecision<
    Seq<char>,
> {
    match addr {
        Address::DomainAddress(domain, _) if outbound is Direct => ResolveDecision::Cache(domain),
        _ => ResolveDecision::Skip,
    }
}

/// Front-load name resolution for direct outbounds with domain targets, so that
/// the cache absorbs repeated lookups.
pub fn resolve_decision(outbound: &OutboundHandler, addr: &Address) -> (r: ResolveDecision)
    ensures
        r@ == resolve_rule(*outbound, addr@),
{
    match addr {
        Address::DomainAddress(domain, _) => if outbound.is_direct() {
            ResolveDecision::Cache(domain.clone())
        } else {
            ResolveDecision::Skip
        },
        _ => ResolveDecision::Skip,
    }
}

/// An outbound is what its making says: a direct one has its mode, a proxy has none,
/// and either carries datagrams exactly if it was made to. A rejecting one does neither.
pub proof fn an_outbound_is_what_it_was_made(mode: DirectMode, udp: bool)
    ensures
        (OutboundHandler::Direct { mode, udp }).mode() == Some(mode),
        (OutboundHandler::Direct { mode, udp }).carries_udp() == udp,
        (OutboundHandler::Proxied { udp }).mode() is None,
        (OutboundHandler::Proxied { udp }).carries_udp() == udp,
        OutboundHandler::Reject.mode() is None,
        !OutboundHandler::Reject.carries_udp(),
{
}

/// A match of the rules stands; without one the target is reached directly, by either
/// protocol, and in either family.
pub proof fn a_match_stands(handler: OutboundHandler)
    ensures
        outbound_for(Some(handler)) == handler,
        outbound_for(None) is Direct,
        outbound_for(None).carries_udp(),
        outbound_for(None).mode() == Some(DirectMode::Auto),
{
}

/// Every name that is reached directly is resolved beforehand, in whatever mode, and
/// that very name; nothing else is resolved.
pub proof fn direct_names_are_resolved(
    outbound: OutboundHandler,
    addr: Address<Seq<char>>,
    domain: Seq<char>,
    port: u16,
)
    ensures
        outbound is Direct ==> resolve_rule(outbound, Address::DomainAddress(domain, port))
            == ResolveDecision::Cache(domain),
        !(outbound is Direct) ==> resolve_rule(outbound, addr) is Skip,
        !(addr is DomainAddress) ==> resolve_rule(outbound, addr) is Skip,
{
}

} // verus!

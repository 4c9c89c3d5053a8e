//! What can go wrong while relaying datagrams. `E` is the error of a system call.
use vstd::prelude::*;

use crate::addr::{Ipv4Addr, Ipv6Addr, SocketAddr, SocketAddrV4, SocketAddrV6};

verus! {

#[derive(Clone, Copy, Debug, PartialEq, Eq, Structural)]
pub enum Family {
    V4,
    V6,
}

/// One step in setting up the sockets of a session.
#[derive(Clone, Copy, Debug, PartialEq, Eq, Structural)]
pub enum SocketOp {
    Create(Family),
    SetNonblocking(Family),
    SetOnlyV6,
    Bind(Family),
    /// Hand the bound socket to the event loop.
    Register(Family),
}

/// Port 0 at `0.0.0.0` or `::`: any free port on every interface.
pub open spec fn wildcard(family: Family) -> SocketAddr {
    match family {
        Family::V4 => SocketAddr::V4(
            SocketAddrV4 { ip: Ipv4Addr { a: 0, b: 0, c: 0, d: 0 }, port: 0 },
        ),
        Family::V6 => SocketAddr::V6(
            SocketAddrV6 {
                ip: Ipv6Addr { s0: 0, s1: 0, s2: 0, s3: 0, s4: 0, s5: 0, s6: 0, s7: 0 },
                port: 0,
                flowinfo: 0,
                scope_id: 0,
            },
        ),
    }
}

impl Family {
    /// The address that a session's socket of this family is bound to.
    pub fn bind_addr(&self) -> (r: SocketAddr)
        ensures
            r == wildcard(*self),
    {
        match self {
            Family::V4 => SocketAddr::V4(SocketAddrV4 { ip: Ipv4Addr::new(0, 0, 0, 0), port: 0 }),
            Family::V6 => SocketAddr::V6(
                SocketAddrV6 {
                    ip: Ipv6Addr::new(0, 0, 0, 0, 0, 0, 0, 0),
                    port: 0,
                    flowinfo: 0,
                    scope_id: 0,
                },
            ),
        }
    }
}

/// What is reported where `op` fails; nothing is added to a failing `Register`.
pub open spec fn failure_text(op: SocketOp) -> Option<Seq<char>> {
    match op {
        SocketOp::Create(Family::V4) => Some("failed to create UDP associate IPv4 socket"@),
        SocketOp::SetNonblocking(Family::V4) => Some(
            "failed setting UDP associate IPv4 socket as non-blocking"@,
        ),
        SocketOp::Bind(Family::V4) => Some("failed to bind UDP associate IPv4 socket"@),
        SocketOp::Create(Family::V6) => Some("failed to create UDP associate IPv6 socket"@),
        SocketOp::SetNonblocking(Family::V6) => Some(
            "failed setting UDP associate IPv6 socket as non-blocking"@,
        ),
        SocketOp::SetOnlyV6 => Some("failed setting UDP associate IPv6 socket as IPv6-only"@),
        SocketOp::Bind(Family::V6) => Some("failed to bind UDP associate IPv6 socket"@),
        SocketOp::Register(_) => None,
    }
}

impl SocketOp {
    /// The family of the socket that the step is about.
    pub open spec fn family(self) -> Family {
        match self {
            SocketOp::Create(f) => f,
            SocketOp::SetNonblocking(f) => f,
            SocketOp::SetOnlyV6 => Family::V6,
            SocketOp::Bind(f) => f,
            SocketOp::Register(f) => f,
        }
    }

    pub fn failure(&self) -> (r: Option<&'static str>)
        ensures
            match failure_text(*self) {
                Some(text) => r matches Some(s) && s@ == text,
                None => r is None,
            },
    {
        match self {
            SocketOp::Create(Family::V4) => Some("failed to create UDP associate IPv4 socket"),
            SocketOp::SetNonblocking(Family::V4) => Some(
                "failed setting UDP associate IPv4 socket as non-blocking",
            ),
            SocketOp::Bind(Family::V4) => Some("failed to bind UDP associate IPv4 socket"),
            SocketOp::Create(Family::V6) => Some("failed to create UDP associate IPv6 socket"),
            SocketOp::SetNonblocking(Family::V6) => Some(
                "failed setting UDP associate IPv6 socket as non-blocking",
            ),
            SocketOp::SetOnlyV6 => Some("failed setting UDP associate IPv6 socket as IPv6-only"),
            SocketOp::Bind(Family::V6) => Some("failed to bind UDP associate IPv6 socket"),
            SocketOp::Register(_) => None,
        }
    }
}

#[derive(Debug, PartialEq, Eq)]
pub enum Error<E> {
    /// A system call failed.
    Io(E),
    /// A step of setting up a session's sockets failed.
    Socket(SocketOp, E),
    /// A datagram was to be sent to an empty list of targets.
    NoTarget,
    /// An IPv6 target while IPv6 relay is disabled.
    UdpRelayIpv6Disabled(SocketAddr),
    /// The address has no target in the families that the outbound may use.
    NoUsableTarget,
    /// The session ended before the datagram could be sent.
    SessionDropped,
}

/// The fixed part of what is reported for an error, where it has one.
pub open spec fn context_text<E>(err: Error<E>) -> Option<Seq<char>> {
    match err {
        Error::Io(_) => None,
        Error::Socket(op, _) => failure_text(op),
        Error::NoTarget => Some("no UDP target address"@),
        Error::UdpRelayIpv6Disabled(_) => None,
        Error::NoUsableTarget => Some("no usable UDP target address"@),
        Error::SessionDropped => Some("UdpSession dropped already"@),
    }
}

/// The kind of an error that no system call gave.
#[derive(Clone, Copy, Debug, PartialEq, Eq, Structural)]
pub enum Kind {
    InvalidInput,
}

impl<E> Error<E> {
    /// What lies behind an error that reports a failed socket although no system call
    /// failed: an empty list of targets is an invalid input.
    pub fn cause(&self) -> (r: Option<(Kind, &'static str)>)
        ensures
            match self {
                Error::NoTarget => r matches Some((kind, text)) && kind == Kind::InvalidInput
                    && text@ == "empty target list"@,
                _ => r is None,
            },
    {
        match self {
            Error::NoTarget => Some((Kind::InvalidInput, "empty target list")),
            _ => None,
        }
    }

    pub fn context(&self) -> (r: Option<&'static str>)
        ensures
            match context_text(*self) {
                Some(text) => r matches Some(s) && s@ == text,
                None => r is None,
            },
    {
        match self {
            Error::Io(_) => None,
            Error::Socket(op, _) => op.failure(),
            Error::NoTarget => Some("no UDP target address"),
            Error::UdpRelayIpv6Disabled(_) => None,
            Error::NoUsableTarget => Some("no usable UDP target address"),
            Error::SessionDropped => Some("UdpSession dropped already"),
        }
    }
}

} // verus!

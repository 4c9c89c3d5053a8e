//! The relay logic of a TUIC server: what becomes of a client's request for a stream,
//! of a client's datagrams, and of the datagrams that come back for it.
//!
//! Nothing here touches a socket. Each step is a function from what is known and what
//! just happened to what is known next and what is to be done, and its contract says
//! exactly which.

pub mod addr;
pub mod connection;
pub mod datagram_laws;
pub mod error;
pub mod literal;
pub mod literal_laws;
pub mod outbound;
pub mod packet;
pub mod roundtrip;
pub mod send;
pub mod session;
pub mod target;
pub mod tcp;
pub mod tcp_laws;
pub mod udp;
pub mod udp_laws;
pub mod views;

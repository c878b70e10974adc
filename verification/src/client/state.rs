//! How far a client has come.

use crate::net::SocketAddr;
use vstd::prelude::*;

verus! {

/// How far a client has come.
#[derive(Clone, Copy, Debug, PartialEq, Eq, Structural)]
pub enum RakClientState {
    Unconnected,
    /// It asked the server at the address to open a session.
    Handshake1(SocketAddr),
    /// The server agreed, and was asked to open the session as agreed.
    Handshake2(SocketAddr),
    /// The session is open.
    HandshakeCompleted(SocketAddr),
}

} // verus!

//! What keeps a client from dealing with an input.

use crate::protocol::codec::RakCodecError;
use crate::session::RakSessionError;
use vstd::prelude::*;

verus! {

/// What keeps a client from dealing with an input.
#[derive(Clone, Copy, Debug, PartialEq, Eq, Structural)]
pub enum RakClientError {
    /// Connecting took too long, or too many attempts.
    ConnectionFailed,
    /// The server said, through the session, that it does not connect.
    ConnectionAttemptFailed,
    /// The server speaks another version of the protocol.
    IncompatibleProtocol,
    /// The server has a session with this address.
    AlreadyConnected,
    /// The server has as many sessions as it takes.
    NoFreeIncomingConnections,
    /// The server had a session with this address a moment ago.
    RecentlyConnected,
    /// The server wants the session to be secured.
    SecurityUnsupported,
    /// A packet cannot be read.
    Codec(RakCodecError),
    /// The protocol of the session failed.
    Session(RakSessionError),
    /// The time lies before the Unix epoch.
    Time,
}

} // verus!

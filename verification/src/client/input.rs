//! What a client is given.

use crate::net::SocketAddr;
use crate::session::{RakSessionInput, RakSessionInputView};
use crate::time::SystemTime;
use vstd::prelude::*;

verus! {

/// What a client is given.
#[derive(Debug)]
pub enum RakClientInput {
    /// Ask the server at an address who it is.
    Ping(SocketAddr, SystemTime),
    /// Connect to the server at an address.
    Connect(SocketAddr, SystemTime),
    /// Bytes that came from an address.
    Datagram(Vec<u8>, SocketAddr, SystemTime),
    /// Time has passed.
    Update(SystemTime),
    /// The session is over, or connecting is given up.
    Disconnect,
}

/// Where a client stands in an exchange with the protocol of its session.
#[derive(Clone, Copy, Debug, PartialEq, Eq, Structural)]
pub struct RakClientExchange {
    /// Whether the session has just been opened.
    pub opening: bool,
    /// Whether the server accepted the connection, once it said so.
    pub success: Option<bool>,
    /// When the exchange takes place.
    pub now: SystemTime,
}

/// What is to be done for the session, before the input that the client was given is dealt
/// with.
#[derive(Debug)]
pub enum RakClientStep {
    /// Nothing more.
    Done,
    /// Give the input to the protocol of the session, and tell the client what it returned.
    Handle(RakSessionInput, RakClientExchange),
    /// Ask the protocol of the session for an output, and tell the client what it is.
    Poll(RakClientExchange),
}

/// A step with its bytes as a sequence.
#[verifier::ext_equal]
pub enum RakClientStepView {
    Done,
    Handle(RakSessionInputView, RakClientExchange),
    Poll(RakClientExchange),
}

impl View for RakClientStep {
    type V = RakClientStepView;

    open spec fn view(&self) -> RakClientStepView {
        match self {
            RakClientStep::Done => RakClientStepView::Done,
            RakClientStep::Handle(input, exchange) => RakClientStepView::Handle(input@, *exchange),
            RakClientStep::Poll(exchange) => RakClientStepView::Poll(*exchange),
        }
    }
}

} // verus!

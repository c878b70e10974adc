//! What a server is given.

use crate::net::SocketAddr;
use crate::session::{RakSessionId, RakSessionInput, RakSessionInputView};
use crate::time::SystemTime;
use vstd::prelude::*;

verus! {

/// What a server is given.
#[derive(Debug)]
pub enum RakServerInput {
    /// Bytes that came from an address.
    Datagram(Vec<u8>, SocketAddr, SystemTime),
    SetMaxConnections(usize),
    SetMessage(Vec<u8>),
    /// A session is over.
    RemoveSession(RakSessionId, SystemTime),
    /// Time has passed.
    Update(SystemTime),
}

/// What is to be done for a session that is still to be connected, before the input that the
/// server was given is dealt with.
#[derive(Debug)]
pub enum RakServerStep {
    /// Nothing more.
    Done,
    /// Give the input to the protocol of the session with this address, and tell the server
    /// what it returned.
    Handle(SocketAddr, RakSessionInput),
    /// Ask the protocol of the session with this address for an output, and tell the server
    /// what it is.
    Poll(SocketAddr),
}

/// A step with its bytes as a sequence.
#[verifier::ext_equal]
pub enum RakServerStepView {
    Done,
    Handle(SocketAddr, RakSessionInputView),
    Poll(SocketAddr),
}

impl View for RakServerStep {
    type V = RakServerStepView;

    open spec fn view(&self) -> RakServerStepView {
        match self {
            RakServerStep::Done => RakServerStepView::Done,
            RakServerStep::Handle(addr, input) => RakServerStepView::Handle(*addr, input@),
            RakServerStep::Poll(addr) => RakServerStepView::Poll(*addr),
        }
    }
}

} // verus!

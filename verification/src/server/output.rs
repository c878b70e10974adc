//! What a server puts out.

use crate::net::SocketAddr;
use crate::session::{RakSession, RakSessionId};
use vstd::prelude::*;

verus! {

/// What a server puts out.
#[derive(Debug)]
pub enum RakServerOutput<P> {
    /// To be sent to an address.
    SocketDatagram(Vec<u8>, SocketAddr),
    /// To be given to a session.
    SessionDatagram(Vec<u8>, RakSessionId),
    /// A session is connected.
    SessionConnected(Box<RakSession<P>>),
}

/// An output with its bytes as a sequence.
#[verifier::ext_equal]
pub enum RakServerOutputView<P> {
    SocketDatagram(Seq<u8>, SocketAddr),
    SessionDatagram(Seq<u8>, RakSessionId),
    SessionConnected(RakSession<P>),
}

impl<P> View for RakServerOutput<P> {
    type V = RakServerOutputView<P>;

    open spec fn view(&self) -> RakServerOutputView<P> {
        match self {
            RakServerOutput::SocketDatagram(buf, addr) => RakServerOutputView::SocketDatagram(
                buf@,
                *addr,
            ),
            RakServerOutput::SessionDatagram(buf, id) => RakServerOutputView::SessionDatagram(
                buf@,
                *id,
            ),
            RakServerOutput::SessionConnected(session) => RakServerOutputView::SessionConnected(
                **session,
            ),
        }
    }
}

} // verus!

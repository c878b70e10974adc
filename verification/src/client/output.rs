//! What a client puts out.

use crate::net::SocketAddr;
use crate::session::RakSession;
use crate::time::{Duration, SystemTime};
use vstd::prelude::*;

verus! {

/// What a client puts out.
#[derive(Clone, Debug)]
pub enum RakClientOutput<P> {
    /// To be sent to an address.
    SocketDatagram(Vec<u8>, SocketAddr),
    /// To be given to the session.
    SessionDatagram(Vec<u8>),
    /// The session is connected.
    SessionConnected(Box<RakSession<P>>),
    /// Nothing is to be done for that long.
    Wait(Duration),
    /// A server told who it is, with the time at which it was asked.
    Pong(SocketAddr, Vec<u8>, SystemTime),
}

/// An output with its bytes as a sequence.
#[verifier::ext_equal]
pub enum RakClientOutputView<P> {
    SocketDatagram(Seq<u8>, SocketAddr),
    SessionDatagram(Seq<u8>),
    SessionConnected(RakSession<P>),
    Wait(Duration),
    Pong(SocketAddr, Seq<u8>, SystemTime),
}

impl<P> View for RakClientOutput<P> {
    type V = RakClientOutputView<P>;

    open spec fn view(&self) -> RakClientOutputView<P> {
        match self {
            RakClientOutput::SocketDatagram(buf, addr) => RakClientOutputView::SocketDatagram(
                buf@,
                *addr,
            ),
            RakClientOutput::SessionDatagram(buf) => RakClientOutputView::SessionDatagram(buf@),
            RakClientOutput::SessionConnected(session) => RakClientOutputView::SessionConnected(
                **session,
            ),
            RakClientOutput::Wait(d) => RakClientOutputView::Wait(*d),
            RakClientOutput::Pong(addr, message, time) => RakClientOutputView::Pong(
                *addr,
                message@,
                *time,
            ),
        }
    }
}

} // verus!

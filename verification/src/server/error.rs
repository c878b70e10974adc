//! What keeps a server from dealing with an input.

use crate::net::SocketAddr;
use crate::protocol::codec::RakCodecError;
use crate::session::RakSessionError;
use crate::util::addr_text::{addr_text, put_addr_text};
use vstd::prelude::*;
use vstd::string::StringExecFns;

verus! {

/// Why a connection is refused without an answer.
#[derive(Clone, Copy, Debug, PartialEq, Eq, Structural)]
pub enum RakRefusal {
    /// The peer means to reach another port than the server's.
    PortMismatch(SocketAddr),
    /// The peer wants a datagram size that the server does not agree to.
    InvalidMtu(SocketAddr),
}

impl RakRefusal {
    /// What is said of the refusal.
    pub open spec fn said(self) -> Seq<char> {
        match self {
            RakRefusal::PortMismatch(addr) => "refusing connection from "@ + addr_text(addr)
                + " due to port mismatch"@,
            RakRefusal::InvalidMtu(addr) => "refusing connection from "@ + addr_text(addr)
                + " due to invalid mtu size"@,
        }
    }

    /// Says what there is to say of the refusal.
    pub fn text(self) -> (text: String)
        ensures
            text@ == self.said(),
    {
        let mut text: String = String::from_str("refusing connection from ");
        match self {
            RakRefusal::PortMismatch(addr) => {
                put_addr_text(&mut text, addr);
                text.append(" due to port mismatch");
            },
            RakRefusal::InvalidMtu(addr) => {
                put_addr_text(&mut text, addr);
                text.append(" due to invalid mtu size");
            },
        }
        text
    }
}

/// What keeps a server from dealing with an input.
#[derive(Clone, Debug, PartialEq, Eq)]
pub enum RakServerError {
    /// A connection is refused without an answer, with what is said of it.
    RefusingConnection(String),
    /// A packet cannot be read or written.
    Codec(RakCodecError),
    /// The protocol of a session failed.
    Session(RakSessionError),
    /// The time lies before the Unix epoch.
    Time,
}

/// An error with its text as a sequence.
#[verifier::ext_equal]
pub enum RakServerErrorView {
    RefusingConnection(Seq<char>),
    Codec(RakCodecError),
    Session(RakSessionError),
    Time,
}

impl View for RakServerError {
    type V = RakServerErrorView;

    open spec fn view(&self) -> RakServerErrorView {
        match self {
            RakServerError::RefusingConnection(text) => RakServerErrorView::RefusingConnection(
                text@,
            ),
            RakServerError::Codec(e) => RakServerErrorView::Codec(*e),
            RakServerError::Session(e) => RakServerErrorView::Session(*e),
            RakServerError::Time => RakServerErrorView::Time,
        }
    }
}

/// A result with the text of its error as a sequence.
pub open spec fn plain<T>(r: Result<T, RakServerError>) -> Result<T, RakServerErrorView> {
    match r {
        Ok(t) => Ok(t),
        Err(e) => Err(e@),
    }
}

} // verus!

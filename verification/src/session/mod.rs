//! What a server and a client know of a session, and the inputs and outputs of its protocol.
//!
//! The protocol itself, which makes a stream of packets out of datagrams, is a value of a type
//! `P` that the session carries along. Nothing here looks inside of it: whoever runs it hands
//! it the inputs that a server or a client asks for, and hands back what it puts out.

pub mod congestion_controller;
pub mod rules;
pub mod state;

use crate::net::SocketAddr;
use crate::protocol::codec::RakCodecError;
use crate::session::state::RakSessionState;
use crate::time::{Duration, SystemTime};
use crate::types::priority::RakPriority;
use crate::types::reliability::RakReliability;
use vstd::prelude::*;

verus! {

/// The number of a session, given by the server that holds it.
#[derive(Clone, Copy, Debug, PartialEq, Eq, Hash, Structural)]
pub struct RakSessionId(pub u64);

/// The ordering channels of a session that asks for no other number.
pub const DEFAULT_ORDERING_CHANNELS: usize = 32;

/// A session.
#[derive(Clone, Debug)]
pub struct RakSession<P> {
    pub id: RakSessionId,
    /// Where the peer is.
    pub addr: SocketAddr,
    /// Who the client is.
    pub guid: u64,
    /// The agreed datagram size.
    pub mtu: u16,
    pub ordering_channels: usize,
    pub state: RakSessionState,
    /// The state of the protocol, once it has been started.
    pub protocol: Option<P>,
}

impl<P> RakSession<P> {
    /// A session that has not connected yet, its protocol not started.
    pub open spec fn opened(
        id: RakSessionId,
        addr: SocketAddr,
        guid: u64,
        mtu: u16,
        ordering_channels: usize,
    ) -> RakSession<P> {
        RakSession {
            id,
            addr,
            guid,
            mtu,
            ordering_channels,
            state: RakSessionState::Disconnected,
            protocol: None,
        }
    }

    /// Opens a session.
    pub fn new(
        id: RakSessionId,
        addr: SocketAddr,
        guid: u64,
        mtu: u16,
        ordering_channels: usize,
    ) -> (session: RakSession<P>)
        ensures
            session == Self::opened(id, addr, guid, mtu, ordering_channels),
    {
        RakSession {
            id,
            addr,
            guid,
            mtu,
            ordering_channels,
            state: RakSessionState::Disconnected,
            protocol: None,
        }
    }
}

/// Why a session is over.
#[derive(Clone, Copy, Debug, PartialEq, Eq, Hash, Structural)]
pub enum RakDisconnectReason {
    /// This end closed it.
    Closed,
    /// The other end closed it.
    ClosedByRemote,
    /// Nothing was heard of the other end for too long.
    TimedOut,
}

/// What a session cannot do.
#[derive(Clone, Copy, Debug, PartialEq, Eq, Structural)]
pub enum RakSessionError {
    /// There is no session any more.
    Closed,
    /// What came in cannot be read.
    Codec(RakCodecError),
}

/// What the protocol of a session is given.
#[derive(Debug)]
pub enum RakSessionInput {
    Datagram(Vec<u8>, SystemTime),
    Send(Vec<u8>, RakReliability, RakPriority, SystemTime),
    Disconnect(SystemTime),
    Update(SystemTime),
}

/// An input with its bytes as a sequence.
#[verifier::ext_equal]
pub enum RakSessionInputView {
    Datagram(Seq<u8>, SystemTime),
    Send(Seq<u8>, RakReliability, RakPriority, SystemTime),
    Disconnect(SystemTime),
    Update(SystemTime),
}

impl View for RakSessionInput {
    type V = RakSessionInputView;

    open spec fn view(&self) -> RakSessionInputView {
        match self {
            RakSessionInput::Datagram(buf, now) => RakSessionInputView::Datagram(buf@, *now),
            RakSessionInput::Send(buf, reliability, priority, now) => RakSessionInputView::Send(
                buf@,
                *reliability,
                *priority,
                *now,
            ),
            RakSessionInput::Disconnect(now) => RakSessionInputView::Disconnect(*now),
            RakSessionInput::Update(now) => RakSessionInputView::Update(*now),
        }
    }
}

/// What the protocol of a session puts out.
#[derive(Debug)]
pub enum RakSessionOutput {
    /// To be sent to the peer.
    Datagram(Vec<u8>, SocketAddr),
    /// Received from the peer.
    Packet(Vec<u8>),
    Disconnected(RakSessionId, RakDisconnectReason),
    /// Nothing is to be done for that long.
    Wait(Duration),
}

/// The datagrams among the outputs of a session, in order.
pub open spec fn datagrams(outputs: Seq<RakSessionOutput>) -> Seq<(Seq<u8>, SocketAddr)>
    decreases outputs.len(),
{
    if outputs.len() == 0 {
        seq![]
    } else {
        let before = datagrams(outputs.drop_last());
        match outputs.last() {
            RakSessionOutput::Datagram(buf, addr) => before.push((buf@, addr)),
            _ => before,
        }
    }
}

/// One output of a session's protocol, with the state that the protocol is in by then, and what
/// it returns to the input that the output leads to, where it leads to one.
pub struct RakTurn<P> {
    pub protocol: Option<P>,
    pub output: RakSessionOutput,
    pub result: Result<(), RakSessionError>,
}

/// The outputs of the turns.
pub open spec fn outputs_of<P>(turns: Seq<RakTurn<P>>) -> Seq<RakSessionOutput> {
    turns.map_values(|t: RakTurn<P>| t.output)
}

} // verus!

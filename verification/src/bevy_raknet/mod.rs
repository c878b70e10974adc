//! A server and a client that are updated once in every turn of a game, and queue what comes
//! in until it is asked for. What a whole update comes to is told by `client_update` and
//! `server_update`.

pub mod client;
pub mod client_rules;
pub mod client_update;
pub mod server;
pub mod server_rules;
pub mod server_update;

use crate::net::SocketAddr;
use vstd::prelude::*;

verus! {

/// The datagrams that a server or a client takes in at most in one turn.
pub const MAX_DATAGRAMS_PER_TICK: usize = 1024;

/// What came of reading a socket.
#[derive(Debug)]
pub enum RakReceived {
    /// Bytes from an address.
    Datagram(Vec<u8>, SocketAddr),
    /// Nothing is there to be read.
    Nothing,
    /// The socket could not be read.
    Failed,
}

/// How far an update has come.
#[derive(Clone, Copy, Debug, PartialEq, Eq, Structural)]
pub enum RakPhase {
    /// The socket is read that many times more, unless nothing is there to be read.
    Receiving(usize),
    /// A client sees what the passing of time asks for.
    Timing,
    /// The outputs are seen to.
    Polling,
    /// The sessions from that one on are updated.
    Updating(usize),
    Finished,
}

impl RakPhase {
    /// The phase after the socket was read, with `next` being what follows on receiving.
    pub open spec fn after_read(self, received: RakReceived, next: RakPhase) -> RakPhase {
        match self {
            RakPhase::Receiving(n) => match received {
                RakReceived::Nothing => next,
                _ => if n <= 1 {
                    next
                } else {
                    RakPhase::Receiving((n - 1) as usize)
                },
            },
            _ => self,
        }
    }

    /// Tells the phase after the socket was read, with `next` being what follows on receiving.
    fn read(self, received: &RakReceived, next: RakPhase) -> (phase: RakPhase)
        ensures
            phase == self.after_read(*received, next),
    {
        match self {
            RakPhase::Receiving(n) => match received {
                RakReceived::Nothing => next,
                _ => if n <= 1 {
                    next
                } else {
                    RakPhase::Receiving(n - 1)
                },
            },
            _ => self,
        }
    }
}

/// The phase after the socket was read once for each of `received`.
pub open spec fn after_reads(phase: RakPhase, received: Seq<RakReceived>, next: RakPhase) -> RakPhase
    decreases received.len(),
{
    if received.len() == 0 {
        phase
    } else {
        after_reads(phase, received.drop_last(), next).after_read(received.last(), next)
    }
}

/// The socket is read until nothing is there to be read, and no more often than there are
/// datagrams to be taken in at most.
pub proof fn reads_come_to_an_end(n: usize, received: Seq<RakReceived>, next: RakPhase)
    requires
        n > 0,
        !(next is Receiving),
        forall|i: int| 0 <= i < received.len() - 1 ==> !((#[trigger] received[i]) is Nothing),
    ensures
        after_reads(RakPhase::Receiving(n), received, next) == if received.len() >= n || (
        received.len() > 0 && received.last() is Nothing) {
            next
        } else {
            RakPhase::Receiving((n - received.len()) as usize)
        },
    decreases received.len(),
{
    if received.len() > 0 {
        let rest = received.drop_last();
        assert forall|i: int| 0 <= i < rest.len() - 1 implies !((#[trigger] rest[i]) is Nothing) by {
            assert(rest[i] == received[i]);
        }
        if rest.len() > 0 {
            assert(!(received[rest.len() - 1] is Nothing));
            assert(rest.last() == received[rest.len() - 1]);
        }
        reads_come_to_an_end(n, rest, next);
    }
}

} // verus!

//! What the whole of an exchange with the protocol of a session makes of a server.
//!
//! When a datagram is given to the protocol of a session that is to be connected, the protocol
//! is asked for outputs until it has none left, or the server has no use for more.

use crate::net::SocketAddr;
use crate::protocol::packets::connection::NewIncomingConnectionView;
use crate::server::error::RakServerErrorView;
use crate::server::input::RakServerStepView;
use crate::server::model::RakServerModel;
use crate::server::output::RakServerOutputView;
use crate::session::state::RakSessionState;
use crate::session::{
    datagrams, outputs_of, RakSession, RakSessionError, RakSessionOutput, RakTurn,
};
use crate::time::SystemTime;
use crate::util::packet_id;
use vstd::prelude::*;

verus! {

/// Whether an output of a session's protocol is the word of the client that it knows of the
/// connection.
pub open spec fn connects(output: RakSessionOutput) -> bool {
    &&& output matches RakSessionOutput::Packet(buf)
    &&& buf@.len() > 0
    &&& buf@[0] == packet_id::NEW_INCOMING_CONNECTION
    &&& NewIncomingConnectionView::parsed(buf@) is Ok
}

/// What a server puts out for the datagrams among the outputs of a session's protocol.
pub open spec fn replies<P>(outputs: Seq<RakSessionOutput>) -> Seq<RakServerOutputView<P>> {
    datagrams(outputs).map_values(
        |d: (Seq<u8>, SocketAddr)| RakServerOutputView::<P>::SocketDatagram(d.0, d.1),
    )
}

impl<P> RakServerModel<P> {
    /// What one turn of the protocol of the session at `addr` makes of the server, and what is
    /// to be done next.
    pub open spec fn turned(self, addr: SocketAddr, turn: RakTurn<P>, now: SystemTime) -> (
        RakServerModel<P>,
        Result<RakServerStepView, RakServerErrorView>,
    ) {
        match self.with_protocol(addr, turn.protocol).session_polled(
            addr,
            Some(turn.output),
            now,
        ) {
            (m, Ok(RakServerStepView::Handle(to, _))) => (
                m,
                Self::session_handled(to, turn.result),
            ),
            other => other,
        }
    }

    /// The same of several turns, one after the other, as long as more outputs are asked for.
    pub open spec fn run(self, addr: SocketAddr, turns: Seq<RakTurn<P>>, now: SystemTime) -> (
        RakServerModel<P>,
        Result<RakServerStepView, RakServerErrorView>,
    )
        decreases turns.len(),
    {
        if turns.len() == 0 {
            (self, Ok(RakServerStepView::Poll(addr)))
        } else {
            match self.run(addr, turns.drop_last(), now) {
                (m, Ok(RakServerStepView::Poll(_))) => m.turned(addr, turns.last(), now),
                other => other,
            }
        }
    }

    /// How many of the turns are taken.
    pub open spec fn heeded(self, addr: SocketAddr, turns: Seq<RakTurn<P>>, now: SystemTime) -> int
        decreases turns.len(),
    {
        if turns.len() == 0 {
            0
        } else {
            match self.run(addr, turns.drop_last(), now).1 {
                Ok(RakServerStepView::Poll(_)) => turns.len() as int,
                _ => self.heeded(addr, turns.drop_last(), now),
            }
        }
    }

    /// What an exchange makes of the server, and what it returns: the protocol returns `result`
    /// to the datagram, takes the turns, and has no more outputs in the state `last`.
    pub open spec fn exchanged(
        self,
        addr: SocketAddr,
        result: Result<(), RakSessionError>,
        turns: Seq<RakTurn<P>>,
        last: Option<P>,
        now: SystemTime,
    ) -> (RakServerModel<P>, Result<RakServerStepView, RakServerErrorView>) {
        match Self::session_handled(addr, result) {
            Ok(RakServerStepView::Poll(_)) => match self.run(addr, turns, now) {
                (m, Ok(RakServerStepView::Poll(_))) => m.with_protocol(addr, last).session_polled(
                    addr,
                    None,
                    now,
                ),
                other => other,
            },
            r => (self, r),
        }
    }
}

/// What a reply adds to the replies.
proof fn replies_grow<P>(turns: Seq<RakTurn<P>>)
    requires
        turns.len() > 0,
    ensures
        replies::<P>(outputs_of(turns)) == match turns.last().output {
            RakSessionOutput::Datagram(buf, addr) => replies::<P>(
                outputs_of(turns.drop_last()),
            ).push(RakServerOutputView::SocketDatagram(buf@, addr)),
            _ => replies::<P>(outputs_of(turns.drop_last())),
        },
{
    let outputs = outputs_of(turns);
    assert(outputs.drop_last() =~= outputs_of(turns.drop_last()));
    assert(outputs.last() == turns.last().output);
    if let RakSessionOutput::Datagram(buf, addr) = turns.last().output {
        assert(replies::<P>(outputs) =~= replies::<P>(outputs.drop_last()).push(
            RakServerOutputView::SocketDatagram(buf@, addr),
        ));
    }
}

/// What the turns make of the server, with all that they leave alone.
proof fn run_goes<P>(
    m: RakServerModel<P>,
    addr: SocketAddr,
    turns: Seq<RakTurn<P>>,
    now: SystemTime,
)
    requires
        m.pending.contains_key(addr),
    ensures
        ({
            let (after, r) = m.run(addr, turns, now);
            let n = m.heeded(addr, turns, now);
            let sent = replies::<P>(outputs_of(turns.take(n)));
            let session = m.pending[addr].1;
            &&& 0 <= n <= turns.len()
            &&& forall|i: int| 0 <= i < n - 1 ==> !connects((#[trigger] turns[i]).output)
            &&& after == RakServerModel { output: after.output, pending: after.pending, ..m }
            &&& match r {
                Ok(RakServerStepView::Poll(to)) => {
                    &&& to == addr
                    &&& n == turns.len()
                    &&& n > 0 ==> !connects(turns[n - 1].output)
                    &&& after.output == m.output + sent
                    &&& after.pending == m.pending.insert(
                        addr,
                        (
                            m.pending[addr].0,
                            RakSession { protocol: after.pending[addr].1.protocol, ..session },
                        ),
                    )
                },
                Ok(RakServerStepView::Done) => {
                    &&& n > 0
                    &&& connects(turns[n - 1].output)
                    &&& after.output == (m.output + sent).push(
                        RakServerOutputView::SessionConnected(
                            RakSession {
                                state: RakSessionState::Connected,
                                protocol: turns[n - 1].protocol,
                                ..session
                            },
                        ),
                    )
                    &&& after.pending == m.pending.remove(addr)
                },
                Ok(RakServerStepView::Handle(_, _)) => false,
                Err(_) => {
                    &&& n > 0
                    &&& !connects(turns[n - 1].output)
                    &&& after.output == m.output + sent
                    &&& after.pending == m.pending.insert(
                        addr,
                        (
                            m.pending[addr].0,
                            RakSession { protocol: turns[n - 1].protocol, ..session },
                        ),
                    )
                },
            }
        }),
    decreases turns.len(),
{
    let (after, r) = m.run(addr, turns, now);
    let n = m.heeded(addr, turns, now);
    if turns.len() == 0 {
        assert(turns.take(n) =~= turns);
        assert(m.output + replies::<P>(outputs_of(turns)) =~= m.output);
        assert(m.pending =~= m.pending.insert(addr, m.pending[addr]));
    } else {
        let rest = turns.drop_last();
        run_goes(m, addr, rest, now);
        let (earlier, step) = m.run(addr, rest, now);
        let k = m.heeded(addr, rest, now);
        assert forall|i: int| 0 <= i < rest.len() implies turns[i] == rest[i] by {}
        assert(rest.take(k) =~= turns.take(k));
        if let Ok(RakServerStepView::Poll(_)) = step {
            let turn = turns.last();
            assert(turns.take(n) =~= turns);
            assert(rest.take(k) =~= rest);
            replies_grow(turns);
            let sent = replies::<P>(outputs_of(rest));
            if let RakSessionOutput::Datagram(buf, to) = turn.output {
                assert(m.output + sent.push(RakServerOutputView::SocketDatagram(buf@, to))
                    =~= (m.output + sent).push(RakServerOutputView::SocketDatagram(buf@, to)));
            }
            let p = earlier.with_protocol(addr, turn.protocol);
            assert(p.pending =~= m.pending.insert(
                addr,
                (
                    m.pending[addr].0,
                    RakSession { protocol: turn.protocol, ..m.pending[addr].1 },
                ),
            ));
            assert(p.pending.remove(addr) =~= m.pending.remove(addr));
        }
    }
}

/// An exchange as a whole. Where the protocol takes the datagram, the server puts out the
/// datagrams among the outputs up to the one that ends the exchange, in order, and after them,
/// as its last output, the session, if that one is the word of the client that it knows of the
/// connection; it is then the first such word, and the session is no longer to be connected. So
/// a session is put out at most once, and at all only on that word. Nothing else changes but
/// the state of the protocol.
pub proof fn exchange_connects_at_most_once<P>(
    m: RakServerModel<P>,
    addr: SocketAddr,
    result: Result<(), RakSessionError>,
    turns: Seq<RakTurn<P>>,
    last: Option<P>,
    now: SystemTime,
)
    requires
        m.pending.contains_key(addr),
    ensures
        ({
            let (after, r) = m.exchanged(addr, result, turns, last, now);
            let n = m.heeded(addr, turns, now);
            let sent = m.output + replies::<P>(outputs_of(turns.take(n)));
            match result {
                Err(e) => {
                    &&& after == m
                    &&& r == Err::<RakServerStepView, RakServerErrorView>(RakServerErrorView::Session(e))
                },
                Ok(_) => {
                    &&& 0 <= n <= turns.len()
                    &&& forall|i: int| 0 <= i < n - 1 ==> !connects((#[trigger] turns[i]).output)
                    &&& after == RakServerModel {
                        output: after.output,
                        pending: after.pending,
                        ..m
                    }
                    &&& after.pending.remove(addr) == m.pending.remove(addr)
                    &&& !(r matches Ok(step) && !(step is Done))
                    &&& if n > 0 && connects(turns[n - 1].output) {
                        &&& r is Ok
                        &&& !after.pending.contains_key(addr)
                        &&& after.output == sent.push(
                            RakServerOutputView::SessionConnected(
                                RakSession {
                                    state: RakSessionState::Connected,
                                    protocol: turns[n - 1].protocol,
                                    ..m.pending[addr].1
                                },
                            ),
                        )
                    } else {
                        &&& r is Ok ==> n == turns.len()
                        &&& after.output == sent
                        &&& after.pending.contains_key(addr)
                        &&& after.pending[addr].0 == m.pending[addr].0
                        &&& after.pending[addr].1 == RakSession {
                            protocol: after.pending[addr].1.protocol,
                            ..m.pending[addr].1
                        }
                    }
                },
            }
        }),
{
    run_goes(m, addr, turns, now);
    let (after, r) = m.exchanged(addr, result, turns, last, now);
    if result is Ok {
        assert(after.pending.remove(addr) =~= m.pending.remove(addr));
    }
}

} // verus!

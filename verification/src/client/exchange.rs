//! What the whole of an exchange with the protocol of the session makes of a client.
//!
//! When a datagram is given to the protocol of a session that is to be connected, or the session
//! is opened, the protocol is asked for outputs until it has none left.

use crate::client::error::RakClientError;
use crate::client::input::{RakClientExchange, RakClientStepView};
use crate::client::model::RakClientModel;
use crate::client::output::RakClientOutputView;
use crate::net::SocketAddr;
use crate::session::state::RakSessionState;
use crate::session::{
    datagrams, outputs_of, RakSession, RakSessionError, RakSessionOutput, RakTurn,
};
use crate::util::packet_id;
use vstd::prelude::*;

verus! {

/// What a client puts out for the datagrams among the outputs of the session's protocol.
pub open spec fn requests<P>(outputs: Seq<RakSessionOutput>) -> Seq<RakClientOutputView<P>> {
    datagrams(outputs).map_values(
        |d: (Seq<u8>, SocketAddr)| RakClientOutputView::<P>::SocketDatagram(d.0, d.1),
    )
}

/// Whether the server accepted the connection, by what the last of the outputs says that says
/// so at all.
pub open spec fn verdict(outputs: Seq<RakSessionOutput>) -> Option<bool>
    decreases outputs.len(),
{
    if outputs.len() == 0 {
        None
    } else {
        match outputs.last() {
            RakSessionOutput::Packet(buf) => if buf@.len() > 0 && buf@[0]
                == packet_id::CONNECTION_REQUEST_ACCEPTED {
                Some(true)
            } else if buf@.len() > 0 && buf@[0] == packet_id::CONNECTION_ATTEMPT_FAILED {
                Some(false)
            } else {
                verdict(outputs.drop_last())
            },
            _ => verdict(outputs.drop_last()),
        }
    }
}

impl<P> RakClientModel<P> {
    /// What one turn of the protocol of the session makes of the client, and what is to be done
    /// next.
    pub open spec fn turned(self, exchange: RakClientExchange, turn: RakTurn<P>) -> (
        RakClientModel<P>,
        Result<RakClientStepView, RakClientError>,
    ) {
        match self.with_protocol(turn.protocol).session_polled(exchange, Some(turn.output)) {
            (m, Ok(RakClientStepView::Handle(_, exchange))) => m.session_handled(
                exchange,
                turn.result,
            ),
            other => other,
        }
    }

    /// The same of several turns, one after the other, as long as more outputs are asked for.
    pub open spec fn run(self, exchange: RakClientExchange, turns: Seq<RakTurn<P>>) -> (
        RakClientModel<P>,
        Result<RakClientStepView, RakClientError>,
    )
        decreases turns.len(),
    {
        if turns.len() == 0 {
            (self, Ok(RakClientStepView::Poll(exchange)))
        } else {
            match self.run(exchange, turns.drop_last()) {
                (m, Ok(RakClientStepView::Poll(exchange))) => m.turned(exchange, turns.last()),
                other => other,
            }
        }
    }

    /// How many of the turns are taken.
    pub open spec fn heeded(self, exchange: RakClientExchange, turns: Seq<RakTurn<P>>) -> int
        decreases turns.len(),
    {
        if turns.len() == 0 {
            0
        } else {
            match self.run(exchange, turns.drop_last()).1 {
                Ok(RakClientStepView::Poll(_)) => turns.len() as int,
                _ => self.heeded(exchange, turns.drop_last()),
            }
        }
    }

    /// What an exchange makes of the client, and what it returns: the protocol returns `result`
    /// to what it is given, takes the turns, and has no more outputs in the state `last`.
    pub open spec fn concluded(
        self,
        exchange: RakClientExchange,
        result: Result<(), RakSessionError>,
        turns: Seq<RakTurn<P>>,
        last: Option<P>,
    ) -> (RakClientModel<P>, Result<RakClientStepView, RakClientError>) {
        match self.session_handled(exchange, result) {
            (m, Ok(RakClientStepView::Poll(exchange))) => match m.run(exchange, turns) {
                (m, Ok(RakClientStepView::Poll(exchange))) => m.with_protocol(last).session_polled(
                    exchange,
                    None,
                ),
                other => other,
            },
            other => other,
        }
    }
}

/// What a request adds to the requests.
proof fn requests_grow<P>(turns: Seq<RakTurn<P>>)
    requires
        turns.len() > 0,
    ensures
        requests::<P>(outputs_of(turns)) == match turns.last().output {
            RakSessionOutput::Datagram(buf, addr) => requests::<P>(
                outputs_of(turns.drop_last()),
            ).push(RakClientOutputView::SocketDatagram(buf@, addr)),
            _ => requests::<P>(outputs_of(turns.drop_last())),
        },
        outputs_of(turns).drop_last() == outputs_of(turns.drop_last()),
        outputs_of(turns).last() == turns.last().output,
{
    let outputs = outputs_of(turns);
    assert(outputs.drop_last() =~= outputs_of(turns.drop_last()));
    assert(outputs.last() == turns.last().output);
    if let RakSessionOutput::Datagram(buf, addr) = turns.last().output {
        assert(requests::<P>(outputs) =~= requests::<P>(outputs.drop_last()).push(
            RakClientOutputView::SocketDatagram(buf@, addr),
        ));
    }
}

/// What the turns make of the client, with all that they leave alone.
proof fn run_goes<P>(
    m: RakClientModel<P>,
    session: RakSession<P>,
    exchange: RakClientExchange,
    turns: Seq<RakTurn<P>>,
)
    requires
        m.session == Some(session),
        exchange.success is None,
    ensures
        ({
            let (after, r) = m.run(exchange, turns);
            let n = m.heeded(exchange, turns);
            &&& 0 <= n <= turns.len()
            &&& after == RakClientModel { output: after.output, session: after.session, ..m }
            &&& after.output == m.output + requests::<P>(outputs_of(turns.take(n)))
            &&& after.session matches Some(s)
            &&& s == RakSession { state: s.state, protocol: s.protocol, ..session }
            &&& match r {
                Ok(RakClientStepView::Poll(next)) => {
                    &&& n == turns.len()
                    &&& next == RakClientExchange {
                        success: if exchange.opening {
                            None
                        } else {
                            verdict(outputs_of(turns))
                        },
                        ..exchange
                    }
                    &&& next.success == Some(true) ==> s.state is Connected
                    &&& exchange.opening ==> s.state == session.state
                },
                Ok(_) => false,
                Err(_) => n > 0 && !exchange.opening,
            }
        }),
    decreases turns.len(),
{
    let n = m.heeded(exchange, turns);
    if turns.len() == 0 {
        assert(turns.take(n) =~= turns);
        assert(m.output + requests::<P>(outputs_of(turns)) =~= m.output);
    } else {
        let rest = turns.drop_last();
        run_goes(m, session, exchange, rest);
        let (earlier, step) = m.run(exchange, rest);
        let k = m.heeded(exchange, rest);
        assert(rest.take(k) =~= turns.take(k));
        if let Ok(RakClientStepView::Poll(_)) = step {
            assert(turns.take(n) =~= turns);
            assert(rest.take(k) =~= rest);
            requests_grow(turns);
            let sent = requests::<P>(outputs_of(rest));
            if let RakSessionOutput::Datagram(buf, to) = turns.last().output {
                assert(m.output + sent.push(RakClientOutputView::SocketDatagram(buf@, to))
                    =~= (m.output + sent).push(RakClientOutputView::SocketDatagram(buf@, to)));
            }
        }
    }
}

/// An exchange as a whole. Where the protocol takes what it is given, the client puts out the
/// datagrams among the outputs, in order, up to one that it fails on, if it does. After all of
/// them it puts out the session, once, if the last word of the server was that it accepts the
/// connection, and lets go of it; if the last word was that it does not, it lets go of the
/// session and fails. While the session is opened, no word counts. Nothing else changes.
pub proof fn exchange_connects_at_most_once<P>(
    m: RakClientModel<P>,
    session: RakSession<P>,
    exchange: RakClientExchange,
    result: Result<(), RakSessionError>,
    turns: Seq<RakTurn<P>>,
    last: Option<P>,
)
    requires
        m.session == Some(session),
        exchange.success is None,
    ensures
        ({
            let (after, r) = m.concluded(exchange, result, turns, last);
            let n = m.heeded(exchange, turns);
            let sent = m.output + requests::<P>(outputs_of(turns.take(n)));
            let word = if exchange.opening {
                None::<bool>
            } else {
                verdict(outputs_of(turns))
            };
            match result {
                Err(e) => {
                    &&& after == if exchange.opening {
                        RakClientModel { session: None, ..m }
                    } else {
                        m
                    }
                    &&& r == Err::<RakClientStepView, RakClientError>(RakClientError::Session(e))
                },
                Ok(_) => {
                    &&& 0 <= n <= turns.len()
                    &&& after == RakClientModel {
                        output: after.output,
                        session: after.session,
                        ..m
                    }
                    &&& match m.run(exchange, turns).1 {
                        // The client fails on an output, and keeps the session.
                        Err(e) => {
                            &&& r == Err::<RakClientStepView, RakClientError>(e)
                            &&& !exchange.opening
                            &&& n > 0
                            &&& after.output == sent
                            &&& after.session is Some
                        },
                        Ok(_) => {
                            &&& n == turns.len()
                            &&& match word {
                                None => {
                                    &&& r == Ok::<RakClientStepView, RakClientError>(
                                        RakClientStepView::Done,
                                    )
                                    &&& after.output == sent
                                    &&& after.session matches Some(s)
                                    &&& s == RakSession {
                                        state: s.state,
                                        protocol: last,
                                        ..session
                                    }
                                },
                                Some(true) => {
                                    &&& r == Ok::<RakClientStepView, RakClientError>(
                                        RakClientStepView::Done,
                                    )
                                    &&& after.output == sent.push(
                                        RakClientOutputView::SessionConnected(
                                            RakSession {
                                                state: RakSessionState::Connected,
                                                protocol: last,
                                                ..session
                                            },
                                        ),
                                    )
                                    &&& after.session is None
                                },
                                Some(false) => {
                                    &&& r == Err::<RakClientStepView, RakClientError>(
                                        RakClientError::ConnectionAttemptFailed,
                                    )
                                    &&& after.output == sent
                                    &&& after.session is None
                                },
                            }
                        },
                    }
                },
            }
        }),
{
    run_goes(m, session, exchange, turns);
}

} // verus!

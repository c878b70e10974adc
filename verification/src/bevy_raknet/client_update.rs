//! What the whole of an update makes of a client.
//!
//! An update reads the socket, lets time pass, sees to the outputs of the inner client, and
//! updates the session, in that order.

use crate::bevy_raknet::client::{
    end, packets, RakClientActionView, RakClientEvent, RakClientTurn, RakClientUpdate,
    RakClientWork,
};
use crate::bevy_raknet::RakReceived;
use crate::client::input::{RakClientInput, RakClientStepView};
use crate::client::model::RakClientModel;
use crate::client::output::RakClientOutputView;
use crate::net::SocketAddr;
use crate::session::{RakSession, RakSessionError, RakSessionInput, RakSessionOutput, RakTurn};
use crate::time::SystemTime;
use vstd::prelude::*;

verus! {

/// What came of reading the socket, with what the protocol of a session that is to be connected
/// does where it is asked to: what it returns, the turns that it takes, and the state that it is
/// left in.
pub struct RakClientRead<P> {
    pub received: RakReceived,
    pub result: Result<(), RakSessionError>,
    pub turns: Seq<RakTurn<P>>,
    pub last: Option<P>,
}

/// The word of each session that is put out as connected.
pub open spec fn connections<P>(queue: Seq<RakClientOutputView<P>>) -> Seq<RakClientEvent>
    decreases queue.len(),
{
    if queue.len() == 0 {
        seq![]
    } else {
        let before = connections(queue.drop_last());
        match queue.last() {
            RakClientOutputView::SessionConnected(_) => before.push(RakClientEvent::Connected),
            _ => before,
        }
    }
}

/// The answers of servers among the outputs, in order.
pub open spec fn answers<P>(queue: Seq<RakClientOutputView<P>>) -> Seq<
    (SocketAddr, Seq<u8>, SystemTime),
>
    decreases queue.len(),
{
    if queue.len() == 0 {
        seq![]
    } else {
        let before = answers(queue.drop_last());
        match queue.last() {
            RakClientOutputView::Pong(addr, message, sent) => before.push((addr, message, sent)),
            _ => before,
        }
    }
}

/// The session that is put out last, or else the one that was there.
pub open spec fn last_session<P>(
    session: Option<RakSession<P>>,
    queue: Seq<RakClientOutputView<P>>,
) -> Option<RakSession<P>>
    decreases queue.len(),
{
    if queue.len() == 0 {
        session
    } else {
        match queue.last() {
            RakClientOutputView::SessionConnected(session) => Some(session),
            _ => last_session(session, queue.drop_last()),
        }
    }
}

/// Whether two sessions are the same but for the state of their protocol.
pub open spec fn same_session<P>(a: Option<RakSession<P>>, b: Option<RakSession<P>>) -> bool {
    match (a, b) {
        (Some(a), Some(b)) => a == RakSession { protocol: a.protocol, ..b },
        (None, None) => true,
        _ => false,
    }
}

impl<P> RakClientTurn<P> {
    /// The client after the socket was read once.
    pub open spec fn read(self, read: RakClientRead<P>, now: SystemTime) -> RakClientTurn<P> {
        match read.received {
            RakReceived::Datagram(buf, addr) => RakClientTurn {
                intl: match self.intl.received(buf@, addr, now) {
                    (m, Ok(RakClientStepView::Handle(_, exchange))) => m.concluded(
                        exchange,
                        read.result,
                        read.turns,
                        read.last,
                    ).0,
                    (m, _) => m,
                },
                ..self
            },
            _ => self,
        }
    }

    /// The client after the socket was read several times.
    pub open spec fn read_all(self, reads: Seq<RakClientRead<P>>, now: SystemTime) -> RakClientTurn<
        P,
    >
        decreases reads.len(),
    {
        if reads.len() == 0 {
            self
        } else {
            self.read_all(reads.drop_last(), now).read(reads.last(), now)
        }
    }

    /// The client after the passing of time was seen to.
    pub open spec fn passed(self, now: SystemTime) -> RakClientTurn<P> {
        RakClientTurn { intl: self.intl.timed(now).0, ..self }
    }

    /// The client after the first `n` outputs were seen to. Where one goes to the session, its
    /// protocol is in the state that `protocols` tells from then on.
    pub open spec fn seen_to(self, protocols: Seq<Option<P>>, n: nat, now: SystemTime) -> RakClientTurn<
        P,
    >
        decreases n,
    {
        if n == 0 {
            self
        } else {
            let earlier = self.seen_to(protocols, (n - 1) as nat, now);
            match earlier.action(now) {
                RakClientActionView::Forward(_) => earlier.taken().with_protocol(
                    protocols[n - 1],
                ),
                _ => earlier.taken(),
            }
        }
    }

    /// The client after its session, if it has one, was updated: the protocol puts out `outputs`
    /// and is in the state `last` from then on.
    pub open spec fn session_updated(
        self,
        outputs: Seq<RakSessionOutput>,
        last: Option<P>,
    ) -> RakClientTurn<P> {
        if self.session is Some {
            self.with_protocol(last).drained(outputs)
        } else {
            self
        }
    }

    /// The client after a whole update.
    pub open spec fn updated(
        self,
        reads: Seq<RakClientRead<P>>,
        protocols: Seq<Option<P>>,
        outputs: Seq<RakSessionOutput>,
        last: Option<P>,
        now: SystemTime,
    ) -> RakClientTurn<P> {
        let timed = self.read_all(reads, now).passed(now);
        timed.seen_to(protocols, timed.intl.output.len(), now).session_updated(outputs, last)
    }
}

/// Reading the socket concerns the inner client alone.
pub proof fn reading_keeps_the_queues<P>(
    c: RakClientTurn<P>,
    reads: Seq<RakClientRead<P>>,
    now: SystemTime,
)
    ensures
        c.read_all(reads, now) == (RakClientTurn { intl: c.read_all(reads, now).intl, ..c }),
    decreases reads.len(),
{
    if reads.len() > 0 {
        reading_keeps_the_queues(c, reads.drop_last(), now);
    }
}

/// The outputs are seen to one after the other, each as the next that is to be done, until none
/// is left; then the session is updated, if there is one. What is seen to of them by then is
/// told, answered and kept in order.
pub proof fn outputs_are_seen_to<P>(
    c: RakClientTurn<P>,
    protocols: Seq<Option<P>>,
    n: nat,
    update: RakClientUpdate,
    after: RakClientTurn<P>,
    next: RakClientUpdate,
    work: RakClientWork,
)
    requires
        n <= c.intl.output.len(),
        update.phase is Polling,
        c.seen_to(protocols, n, update.now).works(update, after, next, work),
    ensures
        ({
            let done = c.intl.output.take(n as int);
            let m = c.seen_to(protocols, n, update.now);
            &&& m.intl == RakClientModel { output: c.intl.output.skip(n as int), ..c.intl }
            &&& m.events == c.events + connections(done)
            &&& m.pongs == c.pongs + answers(done)
            &&& m.received == c.received
            &&& same_session(m.session, last_session(c.session, done))
            &&& if n < c.intl.output.len() {
                work is Act && after == m.taken() && next == update
            } else {
                &&& m.intl.output.len() == 0
                &&& after == m
                &&& next.phase is Finished
                &&& work == if last_session(c.session, c.intl.output) is Some {
                    RakClientWork::Update(RakSessionInput::Update(update.now))
                } else {
                    RakClientWork::Finish
                }
            }
        }),
{
    queue_is_taken(c, protocols, n, update.now);
    if n == c.intl.output.len() {
        assert(c.intl.output.take(n as int) =~= c.intl.output);
    }
}

/// What the first `n` outputs make of the client.
proof fn queue_is_taken<P>(c: RakClientTurn<P>, protocols: Seq<Option<P>>, n: nat, now: SystemTime)
    requires
        n <= c.intl.output.len(),
    ensures
        ({
            let done = c.intl.output.take(n as int);
            let m = c.seen_to(protocols, n, now);
            &&& m.intl == RakClientModel { output: c.intl.output.skip(n as int), ..c.intl }
            &&& m.events == c.events + connections(done)
            &&& m.pongs == c.pongs + answers(done)
            &&& m.received == c.received
            &&& same_session(m.session, last_session(c.session, done))
        }),
    decreases n,
{
    let queue = c.intl.output;
    let done = queue.take(n as int);
    if n == 0 {
        assert(queue.skip(0) =~= queue);
        assert(c.events + connections(done) =~= c.events);
        assert(c.pongs + answers(done) =~= c.pongs);
    } else {
        let k = (n - 1) as nat;
        queue_is_taken(c, protocols, k, now);
        let m = c.seen_to(protocols, k, now);
        let rest = queue.take(k as int);
        assert(done.drop_last() =~= rest);
        assert(done.last() == queue[k as int]);
        assert(m.intl.output[0] == queue[k as int]);
        assert(m.intl.output.drop_first() =~= queue.skip(n as int));
        match queue[k as int] {
            RakClientOutputView::SessionConnected(_) => {
                assert(c.events + connections(done) =~= m.events.push(RakClientEvent::Connected));
            },
            RakClientOutputView::Pong(addr, message, sent) => {
                assert(c.pongs + answers(done) =~= m.pongs.push((addr, message, sent)));
            },
            _ => {},
        }
    }
}

/// What a whole update comes to. All outputs that the inner client had once the socket was read
/// and time had passed are seen to. The client has told of every session that was put out as
/// connected, in order, has the answers of servers, in order, and has the session that was put
/// out last, or else the one that it had. Of that it has all packets, and if it says that it is
/// over, the client is without it, has told so last, and can connect again.
pub proof fn update_comes_to<P>(
    c: RakClientTurn<P>,
    reads: Seq<RakClientRead<P>>,
    protocols: Seq<Option<P>>,
    outputs: Seq<RakSessionOutput>,
    last: Option<P>,
    now: SystemTime,
)
    ensures
        ({
            let timed = c.read_all(reads, now).intl.timed(now).0;
            let queue = timed.output;
            let after = c.updated(reads, protocols, outputs, last, now);
            let session = last_session(c.session, queue);
            let polled = RakClientModel { output: Seq::empty(), ..timed };
            &&& after.intl.output.len() == 0
            &&& after.pongs == c.pongs + answers(queue)
            &&& match session {
                None => {
                    &&& after.intl == polled
                    &&& after.session is None
                    &&& after.received == c.received
                    &&& after.events == c.events + connections(queue)
                },
                Some(session) => {
                    &&& after.received == c.received + packets(outputs)
                    &&& match end(outputs) {
                        None => {
                            &&& after.intl == polled
                            &&& after.session == Some(RakSession { protocol: last, ..session })
                            &&& after.events == c.events + connections(queue)
                        },
                        Some(reason) => {
                            &&& after.intl == polled.handled(RakClientInput::Disconnect).0
                            &&& after.session is None
                            &&& after.events == (c.events + connections(queue)).push(
                                RakClientEvent::Disconnected { reason },
                            )
                        },
                    }
                },
            }
        }),
{
    reading_keeps_the_queues(c, reads, now);
    let timed = c.read_all(reads, now).passed(now);
    let queue = timed.intl.output;
    queue_is_taken(timed, protocols, queue.len(), now);
    assert(queue.take(queue.len() as int) =~= queue);
    assert(queue.skip(queue.len() as int) =~= Seq::empty());
}

} // verus!

//! What the whole of an update makes of a server.
//!
//! An update reads the socket, sees to the outputs of the inner server, updates every session,
//! and removes those that are over, in that order.

use crate::bevy_raknet::server::{
    disconnections, ends, packets, sessions_that_are_over_are_gone, RakServerActionView, RakServerEvent,
    RakServerState, RakServerUpdate, RakServerWork,
};
use crate::bevy_raknet::{RakPhase, RakReceived};
use crate::server::input::RakServerStepView;
use crate::server::model::RakServerModel;
use crate::server::output::RakServerOutputView;
use crate::session::{
    RakDisconnectReason, RakSession, RakSessionError, RakSessionId, RakSessionInput,
    RakSessionOutput, RakTurn,
};
use crate::time::SystemTime;
use crate::util::session_ids::lists_sessions;
use vstd::prelude::*;

verus! {

/// What came of reading the socket, with what the protocol of a session that is to be connected
/// does where it is asked to: what it returns, the turns that it takes, and the state that it is
/// left in.
pub struct RakServerRead<P> {
    pub received: RakReceived,
    pub result: Result<(), RakSessionError>,
    pub turns: Seq<RakTurn<P>>,
    pub last: Option<P>,
}

/// What a session does when it is updated: all that it puts out, and the state that its
/// protocol is left in.
pub struct RakSessionUpdate<P> {
    pub outputs: Seq<RakSessionOutput>,
    pub last: Option<P>,
}

/// The word of each session that is put out as connected, in order.
pub open spec fn connections<P>(queue: Seq<RakServerOutputView<P>>) -> Seq<RakServerEvent>
    decreases queue.len(),
{
    if queue.len() == 0 {
        seq![]
    } else {
        let before = connections(queue.drop_last());
        match queue.last() {
            RakServerOutputView::SessionConnected(session) => before.push(
                RakServerEvent::SessionConnected {
                    id: session.id,
                    addr: session.addr,
                    guid: session.guid,
                },
            ),
            _ => before,
        }
    }
}

/// The sessions with those that are put out as connected, in order.
pub open spec fn joined<P>(
    sessions: Map<u64, RakSession<P>>,
    queue: Seq<RakServerOutputView<P>>,
) -> Map<u64, RakSession<P>>
    decreases queue.len(),
{
    if queue.len() == 0 {
        sessions
    } else {
        let before = joined(sessions, queue.drop_last());
        match queue.last() {
            RakServerOutputView::SessionConnected(session) => before.insert(
                session.id.0,
                session,
            ),
            _ => before,
        }
    }
}

/// Whether two tables of sessions are the same but for the states of the protocols.
pub open spec fn same_sessions<P>(
    a: Map<u64, RakSession<P>>,
    b: Map<u64, RakSession<P>>,
) -> bool {
    &&& forall|k: u64| #[trigger] a.contains_key(k) == b.contains_key(k)
    &&& forall|k: u64| #[trigger]
        a.contains_key(k) ==> a[k] == (RakSession { protocol: a[k].protocol, ..b[k] })
}

/// The packets of all sessions, in the order in which they are updated.
pub open spec fn all_packets<P>(ids: Seq<RakSessionId>, updates: Seq<RakSessionUpdate<P>>) -> Seq<
    (RakSessionId, Seq<u8>),
>
    decreases ids.len(),
{
    if ids.len() == 0 {
        seq![]
    } else {
        all_packets(ids.drop_last(), updates) + packets(
            ids.last(),
            updates[ids.len() - 1].outputs,
        )
    }
}

/// The ends of sessions, in the order in which they are updated; `n` of them are.
pub open spec fn all_ends<P>(updates: Seq<RakSessionUpdate<P>>, n: nat) -> Seq<
    (RakSessionId, RakDisconnectReason),
>
    decreases n,
{
    if n == 0 {
        seq![]
    } else {
        all_ends(updates, (n - 1) as nat) + ends(updates[n - 1].outputs)
    }
}

/// Whether a session is among those that are over.
pub open spec fn is_among(over: Seq<(RakSessionId, RakDisconnectReason)>, k: u64) -> bool {
    exists|i: int| 0 <= i < over.len() && (#[trigger] over[i]).0.0 == k
}

impl<P> RakServerState<P> {
    /// The server after the socket was read once.
    pub open spec fn read(self, read: RakServerRead<P>, now: SystemTime) -> RakServerState<P> {
        match read.received {
            RakReceived::Datagram(buf, addr) => RakServerState {
                intl: match self.intl.received(buf@, addr, now) {
                    (m, Ok(RakServerStepView::Handle(to, _))) => m.exchanged(
                        to,
                        read.result,
                        read.turns,
                        read.last,
                        now,
                    ).0,
                    (m, _) => m,
                },
                ..self
            },
            _ => self,
        }
    }

    /// The server after the socket was read several times.
    pub open spec fn read_all(self, reads: Seq<RakServerRead<P>>, now: SystemTime) -> RakServerState<
        P,
    >
        decreases reads.len(),
    {
        if reads.len() == 0 {
            self
        } else {
            self.read_all(reads.drop_last(), now).read(reads.last(), now)
        }
    }

    /// The server after the first `n` outputs were seen to. Where one goes to a session, its
    /// protocol is in the state that `protocols` tells from then on.
    pub open spec fn seen_to(
        self,
        protocols: Seq<Option<P>>,
        n: nat,
        now: SystemTime,
    ) -> RakServerState<P>
        decreases n,
    {
        if n == 0 {
            self
        } else {
            let earlier = self.seen_to(protocols, (n - 1) as nat, now);
            match earlier.action(now) {
                RakServerActionView::Forward(id, _) => earlier.taken().with_protocol(
                    id,
                    protocols[n - 1],
                ),
                _ => earlier.taken(),
            }
        }
    }

    /// The server after the sessions `ids` were updated, before those that are over are removed.
    pub open spec fn drained_all(
        self,
        ids: Seq<RakSessionId>,
        updates: Seq<RakSessionUpdate<P>>,
    ) -> RakServerState<P>
        decreases ids.len(),
    {
        if ids.len() == 0 {
            self
        } else {
            let earlier = self.drained_all(ids.drop_last(), updates);
            let update = updates[ids.len() - 1];
            let m = earlier.with_protocol(ids.last(), update.last);
            RakServerState { received: m.received + packets(ids.last(), update.outputs), ..m }
        }
    }

    /// The server after a whole update, in which the sessions are updated in the order of `ids`.
    pub open spec fn updated(
        self,
        reads: Seq<RakServerRead<P>>,
        protocols: Seq<Option<P>>,
        ids: Seq<RakSessionId>,
        updates: Seq<RakSessionUpdate<P>>,
        now: SystemTime,
    ) -> RakServerState<P> {
        let read = self.read_all(reads, now);
        read.seen_to(protocols, read.intl.output.len(), now).drained_all(ids, updates).without_all(
            all_ends(updates, ids.len()),
            now,
        )
    }
}

/// Reading the socket concerns the inner server alone.
pub proof fn reading_keeps_the_queues<P>(
    s: RakServerState<P>,
    reads: Seq<RakServerRead<P>>,
    now: SystemTime,
)
    ensures
        s.read_all(reads, now) == (RakServerState { intl: s.read_all(reads, now).intl, ..s }),
    decreases reads.len(),
{
    if reads.len() > 0 {
        reading_keeps_the_queues(s, reads.drop_last(), now);
    }
}

/// What the first `n` outputs make of the server.
proof fn queue_is_taken<P>(s: RakServerState<P>, protocols: Seq<Option<P>>, n: nat, now: SystemTime)
    requires
        n <= s.intl.output.len(),
    ensures
        ({
            let done = s.intl.output.take(n as int);
            let m = s.seen_to(protocols, n, now);
            &&& m.intl == RakServerModel { output: s.intl.output.skip(n as int), ..s.intl }
            &&& m.events == s.events + connections(done)
            &&& m.received == s.received
            &&& same_sessions(m.sessions, joined(s.sessions, done))
        }),
    decreases n,
{
    let queue = s.intl.output;
    let done = queue.take(n as int);
    if n == 0 {
        assert(queue.skip(0) =~= queue);
        assert(s.events + connections(done) =~= s.events);
    } else {
        let k = (n - 1) as nat;
        queue_is_taken(s, protocols, k, now);
        let m = s.seen_to(protocols, k, now);
        assert(done.drop_last() =~= queue.take(k as int));
        assert(done.last() == queue[k as int]);
        assert(m.intl.output[0] == queue[k as int]);
        assert(m.intl.output.drop_first() =~= queue.skip(n as int));
        if let RakServerOutputView::SessionConnected(session) = queue[k as int] {
            assert(s.events + connections(done) =~= m.events.push(
                RakServerEvent::SessionConnected {
                    id: session.id,
                    addr: session.addr,
                    guid: session.guid,
                },
            ));
        }
    }
}

/// The outputs are seen to one after the other, each as the next that is to be done, until none
/// is left; then every session is updated, each once. What is seen to of them by then is told
/// and kept in order.
pub proof fn outputs_are_seen_to<P>(
    s: RakServerState<P>,
    protocols: Seq<Option<P>>,
    n: nat,
    update: RakServerUpdate,
    after: RakServerState<P>,
    next: RakServerUpdate,
    work: RakServerWork,
)
    requires
        n <= s.intl.output.len(),
        update.phase is Polling,
        s.seen_to(protocols, n, update.now).works(update, after, next, work),
    ensures
        ({
            let done = s.intl.output.take(n as int);
            let m = s.seen_to(protocols, n, update.now);
            &&& m.intl == RakServerModel { output: s.intl.output.skip(n as int), ..s.intl }
            &&& m.events == s.events + connections(done)
            &&& m.received == s.received
            &&& same_sessions(m.sessions, joined(s.sessions, done))
            &&& if n < s.intl.output.len() {
                work is Act && after == m.taken() && next == update
            } else {
                &&& m.intl.output.len() == 0
                &&& lists_sessions(next.ids@, joined(s.sessions, s.intl.output))
                &&& m.updates(update, next.ids@, 0, after, next, work)
            }
        }),
{
    queue_is_taken(s, protocols, n, update.now);
    let m = s.seen_to(protocols, n, update.now);
    if n == s.intl.output.len() {
        assert(s.intl.output.take(n as int) =~= s.intl.output);
        let all = joined(s.sessions, s.intl.output);
        assert forall|id: RakSessionId| #[trigger] next.ids@.contains(id) <==> all.contains_key(
            id.0,
        ) by {
            assert(m.sessions.contains_key(id.0) == all.contains_key(id.0));
        }
    }
}

/// The sessions are updated one after the other, each as the next that is to be done, and after
/// the last one those that are over are removed.
pub proof fn sessions_are_updated_in_turn<P>(
    s: RakServerState<P>,
    updates: Seq<RakSessionUpdate<P>>,
    i: nat,
    update: RakServerUpdate,
    after: RakServerState<P>,
    next: RakServerUpdate,
    work: RakServerWork,
)
    requires
        i <= update.ids@.len(),
        i <= usize::MAX,
        update.phase == RakPhase::Updating(i as usize),
        update.disconnected@ == all_ends(updates, i),
        s.drained_all(update.ids@.take(i as int), updates).works(update, after, next, work),
    ensures
        if i < update.ids@.len() {
            &&& work == RakServerWork::Update(
                update.ids@[i as int],
                RakSessionInput::Update(update.now),
            )
            &&& after == s.drained_all(update.ids@.take(i as int), updates)
            &&& next.phase == RakPhase::Updating((i + 1) as usize)
            &&& next.ids@ == update.ids@
            &&& next.disconnected@ == update.disconnected@
        } else {
            &&& work is Finish
            &&& after == s.drained_all(update.ids@, updates).without_all(
                all_ends(updates, update.ids@.len()),
                update.now,
            )
            &&& next.phase is Finished
        },
{
    if i == update.ids@.len() {
        assert(update.ids@.take(i as int) =~= update.ids@);
    }
}

/// What updating the sessions makes of the server.
proof fn sessions_are_drained<P>(
    s: RakServerState<P>,
    ids: Seq<RakSessionId>,
    updates: Seq<RakSessionUpdate<P>>,
)
    requires
        forall|i: int| 0 <= i < ids.len() ==> s.sessions.contains_key((#[trigger] ids[i]).0),
    ensures
        ({
            let m = s.drained_all(ids, updates);
            &&& m.intl == s.intl
            &&& m.events == s.events
            &&& m.received == s.received + all_packets(ids, updates)
            &&& same_sessions(m.sessions, s.sessions)
        }),
    decreases ids.len(),
{
    if ids.len() == 0 {
        assert(s.received + all_packets(ids, updates) =~= s.received);
    } else {
        let rest = ids.drop_last();
        assert forall|i: int| 0 <= i < rest.len() implies s.sessions.contains_key(
            (#[trigger] rest[i]).0,
        ) by {
            assert(rest[i] == ids[i]);
        }
        sessions_are_drained(s, rest, updates);
        let m = s.drained_all(rest, updates);
        assert(s.sessions.contains_key(ids[ids.len() - 1].0));
        assert(m.sessions.contains_key(ids.last().0));
        assert(s.drained_all(ids, updates).received =~= s.received + all_packets(ids, updates));
    }
}

/// What a whole update comes to. All outputs that the inner server had once the socket was read
/// are seen to, and every session that it has by then is updated once. The server has told of
/// every session that was put out as connected, in order, has the packets of all sessions, in the
/// order in which they were updated, and is without those that are over, of which it has told
/// last, in order; it has all others.
pub proof fn update_comes_to<P>(
    s: RakServerState<P>,
    reads: Seq<RakServerRead<P>>,
    protocols: Seq<Option<P>>,
    ids: Seq<RakSessionId>,
    updates: Seq<RakSessionUpdate<P>>,
    now: SystemTime,
)
    requires
        lists_sessions(ids, joined(s.sessions, s.read_all(reads, now).intl.output)),
        updates.len() == ids.len(),
    ensures
        ({
            let queue = s.read_all(reads, now).intl.output;
            let present = joined(s.sessions, queue);
            let over = all_ends(updates, ids.len());
            let after = s.updated(reads, protocols, ids, updates, now);
            &&& after.intl.output.len() == 0
            &&& after.received == s.received + all_packets(ids, updates)
            &&& after.events == s.events + connections(queue) + disconnections(over)
            &&& forall|i: int|
                0 <= i < over.len() ==> !after.sessions.contains_key((#[trigger] over[i]).0.0)
                    && !after.intl.session_addr.contains_key(over[i].0.0)
            &&& forall|k: u64|
                #![trigger after.sessions.contains_key(k)]
                !is_among(over, k) ==> (
                after.sessions.contains_key(k) == present.contains_key(k) && (
                present.contains_key(k) ==> after.sessions[k] == RakSession {
                    protocol: after.sessions[k].protocol,
                    ..present[k]
                }))
        }),
{
    reading_keeps_the_queues(s, reads, now);
    let read = s.read_all(reads, now);
    let queue = read.intl.output;
    let present = joined(s.sessions, queue);
    queue_is_taken(read, protocols, queue.len(), now);
    assert(queue.take(queue.len() as int) =~= queue);
    let seen = read.seen_to(protocols, queue.len(), now);
    assert forall|i: int| 0 <= i < ids.len() implies seen.sessions.contains_key(
        (#[trigger] ids[i]).0,
    ) by {
        assert(ids.contains(ids[i]));
        assert(present.contains_key(ids[i].0));
        assert(seen.sessions.contains_key(ids[i].0) == present.contains_key(ids[i].0));
    }
    sessions_are_drained(seen, ids, updates);
    let drained = seen.drained_all(ids, updates);
    let over = all_ends(updates, ids.len());
    sessions_that_are_over_are_gone(drained, over, now);
    let after = s.updated(reads, protocols, ids, updates, now);
    assert(after == drained.without_all(over, now));
    assert forall|k: u64|
        #![trigger after.sessions.contains_key(k)]
        !is_among(over, k) implies (
    after.sessions.contains_key(k) == present.contains_key(k) && (present.contains_key(k)
        ==> after.sessions[k] == RakSession {
        protocol: after.sessions[k].protocol,
        ..present[k]
    })) by {
        assert(after.sessions.contains_key(k) == drained.sessions.contains_key(k));
        assert(drained.sessions.contains_key(k) == seen.sessions.contains_key(k));
        assert(seen.sessions.contains_key(k) == present.contains_key(k));
    }
}

} // verus!

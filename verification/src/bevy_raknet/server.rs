//! A server that is updated once in every turn.
//!
//! The server decides; whoever owns its socket and runs the protocols of its sessions does what
//! it asks for: hands it what was received, gives each session the inputs that are meant for
//! it, and hands back what the sessions put out.

use crate::bevy_raknet::{RakPhase, RakReceived, MAX_DATAGRAMS_PER_TICK};
use crate::net::SocketAddr;
use crate::server::config::RakServerConfig;
use crate::server::error::{RakServerError, RakServerErrorView};
use crate::server::input::{RakServerInput, RakServerStep, RakServerStepView};
use crate::server::model::RakServerModel;
use crate::server::output::{RakServerOutput, RakServerOutputView};
use crate::server::RakServer as RakServerIntl;
use crate::session::{
    datagrams, RakDisconnectReason, RakSession, RakSessionError, RakSessionId, RakSessionInput,
    RakSessionInputView, RakSessionOutput,
};
use crate::time::SystemTime;
use crate::types::priority::RakPriority;
use crate::types::reliability::RakReliability;
use crate::util::session_ids::{lists_sessions, session_ids};
use std::collections::hash_map::Entry;
use std::collections::{HashMap, VecDeque};
use vstd::prelude::*;

verus! {

/// What has become of a session.
#[derive(Clone, Copy, Debug, PartialEq, Eq, Structural)]
pub enum RakServerEvent {
    SessionConnected { id: RakSessionId, addr: SocketAddr, guid: u64 },
    SessionDisconnected { id: RakSessionId, reason: RakDisconnectReason },
}

/// What is to be done about an output of the server.
#[derive(Debug)]
pub enum RakServerAction {
    /// Send the bytes to the address.
    SendTo(Vec<u8>, SocketAddr),
    /// Give the input to the session.
    Forward(RakSessionId, RakSessionInput),
    /// Make a note that there is no such session.
    Unknown(RakSessionId),
    /// Make a note that the session has connected.
    Connected(RakSessionId),
}

/// An action with its bytes as a sequence.
#[verifier::ext_equal]
pub enum RakServerActionView {
    SendTo(Seq<u8>, SocketAddr),
    Forward(RakSessionId, RakSessionInputView),
    Unknown(RakSessionId),
    Connected(RakSessionId),
}

impl View for RakServerAction {
    type V = RakServerActionView;

    open spec fn view(&self) -> RakServerActionView {
        match self {
            RakServerAction::SendTo(buf, addr) => RakServerActionView::SendTo(buf@, *addr),
            RakServerAction::Forward(id, input) => RakServerActionView::Forward(*id, input@),
            RakServerAction::Unknown(id) => RakServerActionView::Unknown(*id),
            RakServerAction::Connected(id) => RakServerActionView::Connected(*id),
        }
    }
}

/// An update of a server.
#[derive(Debug)]
pub struct RakServerUpdate {
    /// When it takes place.
    pub now: SystemTime,
    pub phase: RakPhase,
    /// The sessions that are updated.
    pub ids: Vec<RakSessionId>,
    /// The sessions that turned out to be over.
    pub disconnected: Vec<(RakSessionId, RakDisconnectReason)>,
}

/// What is to be done next in an update.
#[derive(Debug)]
pub enum RakServerWork {
    /// Read the socket, and tell what came of it.
    Receive,
    /// Do what an output of the server asks for.
    Act(RakServerAction),
    /// Give the input to the session, whatever it returns, and tell all that it puts out.
    Update(RakSessionId, RakSessionInput),
    /// Nothing more.
    Finish,
}

/// What a server is.
#[verifier::ext_equal]
pub struct RakServerState<P> {
    pub intl: RakServerModel<P>,
    /// The sessions that have connected, by number.
    pub sessions: Map<u64, RakSession<P>>,
    /// What was received and is still to be asked for, with the session that it came through.
    pub received: Seq<(RakSessionId, Seq<u8>)>,
    /// What has become of sessions and is still to be asked for.
    pub events: Seq<RakServerEvent>,
}

/// A server. Its view is what it is.
#[derive(Debug)]
pub struct RakServer<P> {
    intl: RakServerIntl<P>,
    sessions: HashMap<u64, RakSession<P>>,
    received: VecDeque<(RakSessionId, Vec<u8>)>,
    events: VecDeque<RakServerEvent>,
}

impl<P> View for RakServer<P> {
    type V = RakServerState<P>;

    closed spec fn view(&self) -> RakServerState<P> {
        RakServerState {
            intl: self.intl@,
            sessions: self.sessions@,
            received: plain_packets(self.received@),
            events: self.events@,
        }
    }
}

/// Received packets with their bytes as sequences.
pub open spec fn plain_packets(received: Seq<(RakSessionId, Vec<u8>)>) -> Seq<
    (RakSessionId, Seq<u8>),
> {
    received.map_values(|r: (RakSessionId, Vec<u8>)| (r.0, r.1@))
}

/// Datagrams to be sent with their bytes as sequences.
pub open spec fn plain_datagrams(sent: Seq<(Vec<u8>, SocketAddr)>) -> Seq<(Seq<u8>, SocketAddr)> {
    sent.map_values(|d: (Vec<u8>, SocketAddr)| (d.0@, d.1))
}

/// The packets among the outputs of a session, in order.
pub open spec fn packets(id: RakSessionId, outputs: Seq<RakSessionOutput>) -> Seq<
    (RakSessionId, Seq<u8>),
>
    decreases outputs.len(),
{
    if outputs.len() == 0 {
        seq![]
    } else {
        let before = packets(id, outputs.drop_last());
        match outputs.last() {
            RakSessionOutput::Packet(buf) => before.push((id, buf@)),
            _ => before,
        }
    }
}

/// The ends of sessions among the outputs of a session, in order.
pub open spec fn ends(outputs: Seq<RakSessionOutput>) -> Seq<(RakSessionId, RakDisconnectReason)>
    decreases outputs.len(),
{
    if outputs.len() == 0 {
        seq![]
    } else {
        let before = ends(outputs.drop_last());
        match outputs.last() {
            RakSessionOutput::Disconnected(id, reason) => before.push((id, reason)),
            _ => before,
        }
    }
}

impl<P> RakServerState<P> {
    /// What holds of a server at all times: each session stands under its own number.
    pub open spec fn inv(self) -> bool {
        &&& self.intl.inv()
        &&& forall|i: u64| #[trigger] self.sessions.contains_key(i) ==> self.sessions[i].id.0 == i
    }

    /// The server without a session that is over.
    pub open spec fn without(
        self,
        id: RakSessionId,
        reason: RakDisconnectReason,
        now: SystemTime,
    ) -> RakServerState<P> {
        RakServerState {
            intl: self.intl.removed(id, now),
            sessions: self.sessions.remove(id.0),
            events: self.events.push(RakServerEvent::SessionDisconnected { id, reason }),
            ..self
        }
    }

    /// The server without the sessions that are over, one after the other.
    pub open spec fn without_all(
        self,
        ids: Seq<(RakSessionId, RakDisconnectReason)>,
        now: SystemTime,
    ) -> RakServerState<P>
        decreases ids.len(),
    {
        if ids.len() == 0 {
            self
        } else {
            let (id, reason) = ids.last();
            self.without_all(ids.drop_last(), now).without(id, reason, now)
        }
    }

    /// What an output of the inner server makes of the server.
    pub open spec fn taken(self) -> RakServerState<P> {
        let rest = RakServerState {
            intl: RakServerModel { output: self.intl.output.drop_first(), ..self.intl },
            ..self
        };
        match self.intl.output[0] {
            RakServerOutputView::SessionConnected(session) => RakServerState {
                sessions: self.sessions.insert(session.id.0, session),
                events: self.events.push(
                    RakServerEvent::SessionConnected {
                        id: session.id,
                        addr: session.addr,
                        guid: session.guid,
                    },
                ),
                ..rest
            },
            _ => rest,
        }
    }

    /// What is to be done about it: bytes are sent, and a datagram is given to the session that
    /// it is for, if that has connected.
    pub open spec fn action(self, now: SystemTime) -> RakServerActionView {
        match self.intl.output[0] {
            RakServerOutputView::SocketDatagram(buf, addr) => RakServerActionView::SendTo(
                buf,
                addr,
            ),
            RakServerOutputView::SessionDatagram(buf, id) => if self.sessions.contains_key(id.0) {
                RakServerActionView::Forward(id, RakSessionInputView::Datagram(buf, now))
            } else {
                RakServerActionView::Unknown(id)
            },
            RakServerOutputView::SessionConnected(session) => RakServerActionView::Connected(
                session.id,
            ),
        }
    }

    /// What an update makes of the server once it is at the session `i` of `ids`: the session
    /// is updated, or, after the last one, those that are over are removed.
    pub open spec fn updates(
        self,
        update: RakServerUpdate,
        ids: Seq<RakSessionId>,
        i: int,
        after: RakServerState<P>,
        next: RakServerUpdate,
        work: RakServerWork,
    ) -> bool {
        &&& next.now == update.now
        &&& next.ids@ == ids
        &&& if i < ids.len() {
            &&& after == self
            &&& next.phase == RakPhase::Updating((i + 1) as usize)
            &&& next.disconnected@ == update.disconnected@
            &&& work == RakServerWork::Update(ids[i], RakSessionInput::Update(update.now))
        } else {
            &&& after == self.without_all(update.disconnected@, update.now)
            &&& next.phase is Finished
            &&& next.disconnected@.len() == 0
            &&& work is Finish
        }
    }

    /// The same once the socket was read: the outputs are seen to in order, and then the
    /// sessions, in no particular order.
    pub open spec fn polls(
        self,
        update: RakServerUpdate,
        after: RakServerState<P>,
        next: RakServerUpdate,
        work: RakServerWork,
    ) -> bool {
        if self.intl.output.len() > 0 {
            &&& after == self.taken()
            &&& next == update
            &&& work matches RakServerWork::Act(action)
            &&& action@ == self.action(update.now)
        } else {
            &&& lists_sessions(next.ids@, self.sessions)
            &&& self.updates(update, next.ids@, 0, after, next, work)
        }
    }

    /// What an update makes of the server, and what is to be done next.
    pub open spec fn works(
        self,
        update: RakServerUpdate,
        after: RakServerState<P>,
        next: RakServerUpdate,
        work: RakServerWork,
    ) -> bool {
        match update.phase {
            RakPhase::Receiving(_) => after == self && next == update && work is Receive,
            RakPhase::Polling => self.polls(update, after, next, work),
            RakPhase::Updating(i) => self.updates(
                update,
                update.ids@,
                i as int,
                after,
                next,
                work,
            ),
            _ => after == self && next == update && work is Finish,
        }
    }

    /// The server with the protocol of a session in another state.
    pub open spec fn with_protocol(self, id: RakSessionId, protocol: Option<P>) -> RakServerState<
        P,
    > {
        RakServerState {
            sessions: self.sessions.insert(
                id.0,
                RakSession { protocol, ..self.sessions[id.0] },
            ),
            ..self
        }
    }
}

impl<P> RakServer<P> {
    /// The parts of the server are in order, and what holds of a server at all times holds.
    pub closed spec fn wf(&self) -> bool {
        self.intl.wf() && self@.inv()
    }

    /// A server at `addr` that nothing has happened to.
    pub fn new(addr: SocketAddr, config: RakServerConfig) -> (server: RakServer<P>)
        ensures
            server.wf(),
            server@.intl == RakServerModel::<P>::created(config, addr),
            server@.sessions == Map::<u64, RakSession<P>>::empty(),
            server@.received == Seq::<(RakSessionId, Seq<u8>)>::empty(),
            server@.events == Seq::<RakServerEvent>::empty(),
    {
        broadcast use vstd::std_specs::hash::group_hash_axioms;

        let intl: RakServerIntl<P> = RakServerIntl::new(config, addr);
        proof {
            intl.wf_inv();
        }
        let server = RakServer {
            intl,
            sessions: HashMap::new(),
            received: VecDeque::new(),
            events: VecDeque::new(),
        };
        assert(server@.received =~= Seq::<(RakSessionId, Seq<u8>)>::empty());
        server
    }

    /// Gives an input to the inner server.
    fn tell(&mut self, msg: RakServerInput) -> (r: Result<RakServerStep, RakServerError>)
        requires
            old(self).wf(),
            old(self)@.intl.admits(msg),
        ensures
            final(self).wf(),
            final(self)@ == (RakServerState {
                intl: old(self)@.intl.handled(msg).0,
                ..old(self)@
            }),
            match r {
                Ok(step) => old(self)@.intl.handled(msg).1 == Ok::<
                    RakServerStepView,
                    RakServerErrorView,
                >(step@),
                Err(e) => old(self)@.intl.handled(msg).1 == Err::<
                    RakServerStepView,
                    RakServerErrorView,
                >(e@),
            },
    {
        let r = self.intl.handle(msg);
        proof {
            self.intl.wf_inv();
        }
        r
    }

    /// Sets what the server has to say of itself.
    pub fn set_message(&mut self, message: Vec<u8>)
        requires
            old(self).wf(),
        ensures
            final(self).wf(),
            final(self)@ == (RakServerState {
                intl: RakServerModel {
                    config: RakServerConfig { message, ..old(self)@.intl.config },
                    ..old(self)@.intl
                },
                ..old(self)@
            }),
    {
        let _ = self.tell(RakServerInput::SetMessage(message));
    }

    /// Sets the sessions that the server takes.
    pub fn set_max_connections(&mut self, n: usize)
        requires
            old(self).wf(),
        ensures
            final(self).wf(),
            final(self)@ == (RakServerState {
                intl: RakServerModel {
                    config: RakServerConfig { max_connections: n, ..old(self)@.intl.config },
                    ..old(self)@.intl
                },
                ..old(self)@
            }),
    {
        let _ = self.tell(RakServerInput::SetMaxConnections(n));
    }

    /// What a session is to be given so that it sends `buf`, if there is such a session.
    pub fn send(
        &self,
        id: RakSessionId,
        buf: Vec<u8>,
        reliability: RakReliability,
        priority: RakPriority,
        now: SystemTime,
    ) -> (r: Result<RakSessionInput, RakSessionError>)
        ensures
            match r {
                Ok(input) => self@.sessions.contains_key(id.0) && input
                    == RakSessionInput::Send(buf, reliability, priority, now),
                Err(e) => !self@.sessions.contains_key(id.0) && e == RakSessionError::Closed,
            },
    {
        broadcast use vstd::std_specs::hash::group_hash_axioms;

        if self.sessions.contains_key(&id.0) {
            Ok(RakSessionInput::Send(buf, reliability, priority, now))
        } else {
            Err(RakSessionError::Closed)
        }
    }

    /// The sessions that are to send `buf`, each with what it is to be given, in no particular
    /// order.
    pub fn broadcast(
        &self,
        buf: &Vec<u8>,
        reliability: RakReliability,
        priority: RakPriority,
        now: SystemTime,
    ) -> (inputs: Vec<(RakSessionId, RakSessionInput)>)
        ensures
            lists_sessions(
                inputs@.map_values(|i: (RakSessionId, RakSessionInput)| i.0),
                self@.sessions,
            ),
            forall|i: int|
                0 <= i < inputs@.len() ==> (#[trigger] inputs@[i]).1@ == RakSessionInputView::Send(
                    buf@,
                    reliability,
                    priority,
                    now,
                ),
    {
        let ids: Vec<RakSessionId> = session_ids(&self.sessions);
        let mut inputs: Vec<(RakSessionId, RakSessionInput)> = Vec::new();
        let mut i: usize = 0;
        while i < ids.len()
            invariant
                i <= ids@.len(),
                inputs@.len() == i,
                forall|j: int|
                    0 <= j < i ==> (#[trigger] inputs@[j]).0 == ids@[j] && inputs@[j].1@
                        == RakSessionInputView::Send(buf@, reliability, priority, now),
            decreases ids@.len() - i,
        {
            let bytes: Vec<u8> = buf.clone();
            assert(bytes@ =~= buf@);
            inputs.push((ids[i], RakSessionInput::Send(bytes, reliability, priority, now)));
            i = i + 1;
        }
        assert(inputs@.map_values(|i: (RakSessionId, RakSessionInput)| i.0) =~= ids@);
        inputs
    }

    /// The next packet that was received, with the session that it came through.
    pub fn recv(&mut self) -> (packet: Option<(RakSessionId, Vec<u8>)>)
        requires
            old(self).wf(),
        ensures
            final(self).wf(),
            match packet {
                Some((id, buf)) => old(self)@.received.len() > 0 && old(self)@.received[0] == (
                    id,
                    buf@,
                ) && final(self)@ == (RakServerState {
                    received: old(self)@.received.drop_first(),
                    ..old(self)@
                }),
                None => old(self)@.received.len() == 0 && final(self)@ == old(self)@,
            },
    {
        let ghost before = self@;
        let packet = self.received.pop_front();
        proof {
            if packet is Some {
                assert(self@.received =~= before.received.drop_first());
            } else {
                assert(self@.received =~= before.received);
            }
        }
        packet
    }

    /// What a session is to be given so that it ends, if there is such a session.
    pub fn disconnect(&self, id: RakSessionId, now: SystemTime) -> (input: Option<RakSessionInput>)
        ensures
            input == if self@.sessions.contains_key(id.0) {
                Some(RakSessionInput::Disconnect(now))
            } else {
                None::<RakSessionInput>
            },
    {
        broadcast use vstd::std_specs::hash::group_hash_axioms;

        if self.sessions.contains_key(&id.0) {
            Some(RakSessionInput::Disconnect(now))
        } else {
            None
        }
    }

    /// The sessions that have connected, in no particular order.
    pub fn sessions(&self) -> (ids: Vec<RakSessionId>)
        ensures
            lists_sessions(ids@, self@.sessions),
    {
        session_ids(&self.sessions)
    }

    /// A session that has connected.
    pub fn session(&self, id: RakSessionId) -> (session: Option<&RakSession<P>>)
        ensures
            match session {
                Some(session) => self@.sessions.contains_key(id.0) && *session
                    == self@.sessions[id.0],
                None => !self@.sessions.contains_key(id.0),
            },
    {
        broadcast use vstd::std_specs::hash::group_hash_axioms;

        self.sessions.get(&id.0)
    }

    /// The protocol of a session that has connected, to be run.
    pub fn protocol_mut(&mut self, id: RakSessionId) -> (protocol: Option<&mut Option<P>>)
        requires
            old(self).wf(),
        ensures
            final(self).wf(),
            match protocol {
                Some(protocol) => old(self)@.sessions.contains_key(id.0) && *protocol == old(
                    self,
                )@.sessions[id.0].protocol && final(self)@ == old(self)@.with_protocol(
                    id,
                    *final(protocol),
                ),
                None => !old(self)@.sessions.contains_key(id.0) && final(self)@ == old(self)@,
            },
    {
        broadcast use vstd::std_specs::hash::group_hash_axioms;

        match self.sessions.entry(id.0) {
            Entry::Occupied(entry) => Some(&mut entry.into_mut().protocol),
            Entry::Vacant(_) => None,
        }
    }

    /// The next thing that has become of a session.
    pub fn next_event(&mut self) -> (event: Option<RakServerEvent>)
        requires
            old(self).wf(),
        ensures
            final(self).wf(),
            match event {
                Some(event) => old(self)@.events.len() > 0 && old(self)@.events[0] == event
                    && final(self)@ == (RakServerState {
                    events: old(self)@.events.drop_first(),
                    ..old(self)@
                }),
                None => old(self)@.events.len() == 0 && final(self)@ == old(self)@,
            },
    {
        let ghost before = self@;
        let event = self.events.pop_front();
        proof {
            if event is Some {
                assert(self@.events =~= before.events.drop_first());
            } else {
                assert(self@.events =~= before.events);
            }
        }
        event
    }

    /// Takes in what a session put out. Returns what is to be sent, and adds to `disconnected`
    /// the sessions that are over; these are removed once all sessions are done with.
    pub fn drain(
        &mut self,
        id: RakSessionId,
        outputs: Vec<RakSessionOutput>,
        disconnected: &mut Vec<(RakSessionId, RakDisconnectReason)>,
    ) -> (sent: Vec<(Vec<u8>, SocketAddr)>)
        requires
            old(self).wf(),
        ensures
            final(self).wf(),
            final(self)@ == (RakServerState {
                received: old(self)@.received + packets(id, outputs@),
                ..old(self)@
            }),
            final(disconnected)@ == old(disconnected)@ + ends(outputs@),
            plain_datagrams(sent@) == datagrams(outputs@),
    {
        let ghost before = self@;
        let sent = drain_session(id, outputs, &mut self.received, disconnected);
        assert(self@ =~= RakServerState {
            received: before.received + packets(id, outputs@),
            ..before
        });
        sent
    }

    /// Removes the sessions that are over, and tells so.
    pub fn remove_sessions(
        &mut self,
        ids: Vec<(RakSessionId, RakDisconnectReason)>,
        now: SystemTime,
    )
        requires
            old(self).wf(),
        ensures
            final(self).wf(),
            final(self)@ == old(self)@.without_all(ids@, now),
    {
        broadcast use vstd::std_specs::hash::group_hash_axioms;

        let ghost before = self@;
        let mut i: usize = 0;
        while i < ids.len()
            invariant
                i <= ids@.len(),
                self.wf(),
                self@ == before.without_all(ids@.take(i as int), now),
            decreases ids@.len() - i,
        {
            let (id, reason) = ids[i];
            let ghost earlier = self@;
            self.sessions.remove(&id.0);
            assert(self@ =~= RakServerState {
                sessions: earlier.sessions.remove(id.0),
                ..earlier
            });
            let _ = self.tell(RakServerInput::RemoveSession(id, now));
            self.events.push_back(RakServerEvent::SessionDisconnected { id, reason });
            assert(self@ =~= earlier.without(id, reason, now));
            proof {
                let taken = ids@.take(i + 1);
                assert(taken.drop_last() =~= ids@.take(i as int));
                assert(taken.last() == (id, reason));
            }
            i = i + 1;
        }
        assert(ids@.take(i as int) =~= ids@);
    }

    /// Deals with bytes that came from `addr`, as far as the server can by itself.
    fn handle_datagram(&mut self, buf: Vec<u8>, addr: SocketAddr, now: SystemTime) -> (r:
        Result<RakServerStep, RakServerError>)
        requires
            old(self).wf(),
            old(self)@.intl.admits_datagram(buf@, addr, now),
        ensures
            final(self).wf(),
            final(self)@ == (RakServerState {
                intl: old(self)@.intl.received(buf@, addr, now).0,
                ..old(self)@
            }),
            match r {
                Ok(step) => old(self)@.intl.received(buf@, addr, now).1 == Ok::<
                    RakServerStepView,
                    RakServerErrorView,
                >(step@),
                Err(e) => old(self)@.intl.received(buf@, addr, now).1 == Err::<
                    RakServerStepView,
                    RakServerErrorView,
                >(e@),
            },
    {
        self.tell(RakServerInput::Datagram(buf, addr, now))
    }

    /// Begins an update: the socket is read first.
    pub fn update(&self, now: SystemTime) -> (update: RakServerUpdate)
        ensures
            update.now == now,
            update.phase == RakPhase::Receiving(MAX_DATAGRAMS_PER_TICK),
            update.disconnected@.len() == 0,
    {
        RakServerUpdate {
            now,
            phase: RakPhase::Receiving(MAX_DATAGRAMS_PER_TICK),
            ids: Vec::new(),
            disconnected: Vec::new(),
        }
    }

    /// Goes on with an update. Returns what is to be done next.
    pub fn work(&mut self, update: &mut RakServerUpdate) -> (work: RakServerWork)
        requires
            old(self).wf(),
        ensures
            final(self).wf(),
            old(self)@.works(*old(update), final(self)@, *final(update), work),
    {
        match update.phase {
            RakPhase::Receiving(_) => RakServerWork::Receive,
            RakPhase::Polling => {
                match self.poll(update.now) {
                    Some(action) => RakServerWork::Act(action),
                    None => {
                        update.ids = session_ids(&self.sessions);
                        self.work_on(update, 0)
                    },
                }
            },
            RakPhase::Updating(i) => self.work_on(update, i),
            _ => RakServerWork::Finish,
        }
    }

    /// Goes on with an update at the session `i`.
    fn work_on(&mut self, update: &mut RakServerUpdate, i: usize) -> (work: RakServerWork)
        requires
            old(self).wf(),
        ensures
            final(self).wf(),
            old(self)@.updates(
                *old(update),
                old(update).ids@,
                i as int,
                final(self)@,
                *final(update),
                work,
            ),
    {
        if i < update.ids.len() {
            update.phase = RakPhase::Updating(i + 1);
            RakServerWork::Update(update.ids[i], RakSessionInput::Update(update.now))
        } else {
            let mut disconnected: Vec<(RakSessionId, RakDisconnectReason)> = Vec::new();
            std::mem::swap(&mut disconnected, &mut update.disconnected);
            self.remove_sessions(disconnected, update.now);
            update.phase = RakPhase::Finished;
            RakServerWork::Finish
        }
    }

    /// Goes on with an update after the socket was read.
    pub fn received(&mut self, update: &mut RakServerUpdate, received: RakReceived) -> (r: Result<
        RakServerStep,
        RakServerError,
    >)
        requires
            old(self).wf(),
            received matches RakReceived::Datagram(buf, addr) ==> old(self)@.intl.admits_datagram(
                buf@,
                addr,
                old(update).now,
            ),
        ensures
            final(self).wf(),
            final(update).now == old(update).now,
            final(update).ids == old(update).ids,
            final(update).disconnected == old(update).disconnected,
            final(update).phase == old(update).phase.after_read(received, RakPhase::Polling),
            match received {
                RakReceived::Datagram(buf, addr) => {
                    let (intl, step) = old(self)@.intl.received(buf@, addr, old(update).now);
                    &&& final(self)@ == (RakServerState { intl, ..old(self)@ })
                    &&& match r {
                        Ok(s) => step == Ok::<RakServerStepView, RakServerErrorView>(s@),
                        Err(e) => step == Err::<RakServerStepView, RakServerErrorView>(e@),
                    }
                },
                _ => final(self)@ == old(self)@ && r matches Ok(RakServerStep::Done),
            },
    {
        update.phase = update.phase.read(&received, RakPhase::Polling);
        match received {
            RakReceived::Datagram(buf, addr) => self.handle_datagram(buf, addr, update.now),
            _ => Ok(RakServerStep::Done),
        }
    }

    /// Goes on with an update after a session was updated. Returns what is to be sent.
    pub fn updated(
        &mut self,
        update: &mut RakServerUpdate,
        id: RakSessionId,
        outputs: Vec<RakSessionOutput>,
    ) -> (sent: Vec<(Vec<u8>, SocketAddr)>)
        requires
            old(self).wf(),
        ensures
            final(self).wf(),
            final(self)@ == (RakServerState {
                received: old(self)@.received + packets(id, outputs@),
                ..old(self)@
            }),
            final(update).now == old(update).now,
            final(update).ids == old(update).ids,
            final(update).phase == old(update).phase,
            final(update).disconnected@ == old(update).disconnected@ + ends(outputs@),
            plain_datagrams(sent@) == datagrams(outputs@),
    {
        self.drain(id, outputs, &mut update.disconnected)
    }

    /// The sessions with what each is to be given at the end, in no particular order.
    pub fn farewells(&self, now: SystemTime) -> (inputs: Vec<(RakSessionId, RakSessionInput)>)
        ensures
            lists_sessions(
                inputs@.map_values(|i: (RakSessionId, RakSessionInput)| i.0),
                self@.sessions,
            ),
            forall|i: int|
                0 <= i < inputs@.len() ==> (#[trigger] inputs@[i]).1 == RakSessionInput::Disconnect(
                    now,
                ),
    {
        let ids: Vec<RakSessionId> = session_ids(&self.sessions);
        let mut inputs: Vec<(RakSessionId, RakSessionInput)> = Vec::new();
        let mut i: usize = 0;
        while i < ids.len()
            invariant
                i <= ids@.len(),
                inputs@.len() == i,
                forall|j: int|
                    0 <= j < i ==> (#[trigger] inputs@[j]).0 == ids@[j] && inputs@[j].1
                        == RakSessionInput::Disconnect(now),
            decreases ids@.len() - i,
        {
            inputs.push((ids[i], RakSessionInput::Disconnect(now)));
            i = i + 1;
        }
        assert(inputs@.map_values(|i: (RakSessionId, RakSessionInput)| i.0) =~= ids@);
        inputs
    }

    /// Whether the server can tell the numbers that it computes for a datagram.
    pub fn admits_datagram(&self, buf: &[u8], addr: SocketAddr, now: SystemTime) -> (b: bool)
        requires
            self.wf(),
        ensures
            b == self@.intl.admits_datagram(buf@, addr, now),
    {
        self.intl.admits_datagram(buf, addr, now)
    }

    /// Goes on after the protocol of the session at `addr` was given an input.
    pub fn session_handled(&self, addr: SocketAddr, result: Result<(), RakSessionError>) -> (r:
        Result<RakServerStep, RakServerError>)
        ensures
            match r {
                Ok(step) => RakServerModel::<P>::session_handled(addr, result) == Ok::<
                    RakServerStepView,
                    RakServerErrorView,
                >(step@),
                Err(e) => RakServerModel::<P>::session_handled(addr, result) == Err::<
                    RakServerStepView,
                    RakServerErrorView,
                >(e@),
            },
    {
        self.intl.session_handled(addr, result)
    }

    /// Goes on after the protocol of the session at `addr` was asked for an output.
    pub fn session_polled(
        &mut self,
        addr: SocketAddr,
        output: Option<RakSessionOutput>,
        now: SystemTime,
    ) -> (r: Result<RakServerStep, RakServerError>)
        requires
            old(self).wf(),
        ensures
            final(self).wf(),
            final(self)@ == (RakServerState {
                intl: old(self)@.intl.session_polled(addr, output, now).0,
                ..old(self)@
            }),
            match r {
                Ok(step) => old(self)@.intl.session_polled(addr, output, now).1 == Ok::<
                    RakServerStepView,
                    RakServerErrorView,
                >(step@),
                Err(e) => old(self)@.intl.session_polled(addr, output, now).1 == Err::<
                    RakServerStepView,
                    RakServerErrorView,
                >(e@),
            },
    {
        let r = self.intl.session_polled(addr, output, now);
        proof {
            self.intl.wf_inv();
        }
        r
    }

    /// The session at `addr`, if it is still to be connected.
    pub fn pending(&self, addr: SocketAddr) -> (session: Option<&RakSession<P>>)
        requires
            self.wf(),
        ensures
            match session {
                Some(session) => self@.intl.pending.contains_key(addr) && *session
                    == self@.intl.pending[addr].1,
                None => !self@.intl.pending.contains_key(addr),
            },
    {
        self.intl.pending(addr)
    }

    /// The protocol of the session at `addr`, if that is still to be connected, to be run.
    pub fn pending_protocol_mut(&mut self, addr: SocketAddr) -> (protocol: Option<&mut Option<P>>)
        requires
            old(self).wf(),
        ensures
            final(self).wf(),
            match protocol {
                Some(protocol) => old(self)@.intl.pending.contains_key(addr) && *protocol == old(
                    self,
                )@.intl.pending[addr].1.protocol && final(self)@ == (RakServerState {
                    intl: old(self)@.intl.with_protocol(addr, *final(protocol)),
                    ..old(self)@
                }),
                None => !old(self)@.intl.pending.contains_key(addr) && final(self)@ == old(self)@,
            },
    {
        self.intl.protocol_mut(addr)
    }

    /// Takes in the next output of the inner server. Returns what is to be done about it.
    fn poll(&mut self, now: SystemTime) -> (action: Option<RakServerAction>)
        requires
            old(self).wf(),
        ensures
            final(self).wf(),
            match action {
                Some(action) => old(self)@.intl.output.len() > 0 && action@ == old(self)@.action(
                    now,
                ) && final(self)@ == old(self)@.taken(),
                None => old(self)@.intl.output.len() == 0 && final(self)@ == old(self)@,
            },
    {
        broadcast use vstd::std_specs::hash::group_hash_axioms;

        let ghost before = self@;
        let output = self.intl.poll();
        proof {
            self.intl.wf_inv();
        }
        match output {
            None => None,
            Some(RakServerOutput::SocketDatagram(buf, addr)) => Some(
                RakServerAction::SendTo(buf, addr),
            ),
            Some(RakServerOutput::SessionDatagram(buf, id)) => {
                if self.sessions.contains_key(&id.0) {
                    Some(RakServerAction::Forward(id, RakSessionInput::Datagram(buf, now)))
                } else {
                    Some(RakServerAction::Unknown(id))
                }
            },
            Some(RakServerOutput::SessionConnected(session)) => {
                let id: RakSessionId = session.id;
                self.events.push_back(
                    RakServerEvent::SessionConnected {
                        id,
                        addr: session.addr,
                        guid: session.guid,
                    },
                );
                self.sessions.insert(id.0, *session);
                assert(self@ =~= before.taken());
                Some(RakServerAction::Connected(id))
            },
        }
    }
}

/// Sorts what a session put out: packets go to `received`, ends of sessions to `disconnected`,
/// and what is to be sent is returned.
fn drain_session(
    id: RakSessionId,
    outputs: Vec<RakSessionOutput>,
    received: &mut VecDeque<(RakSessionId, Vec<u8>)>,
    disconnected: &mut Vec<(RakSessionId, RakDisconnectReason)>,
) -> (sent: Vec<(Vec<u8>, SocketAddr)>)
    ensures
        plain_packets(final(received)@) == plain_packets(old(received)@) + packets(id, outputs@),
        final(disconnected)@ == old(disconnected)@ + ends(outputs@),
        plain_datagrams(sent@) == datagrams(outputs@),
{
    let ghost all = outputs@;
    let mut sent: Vec<(Vec<u8>, SocketAddr)> = Vec::new();
    assert(plain_packets(received@) =~= plain_packets(old(received)@) + packets(
        id,
        all.take(0),
    ));
    assert(disconnected@ =~= old(disconnected)@ + ends(all.take(0)));
    assert(plain_datagrams(sent@) =~= datagrams(all.take(0)));
    for output in it: outputs
        invariant
            it.seq() == all,
            plain_packets(received@) == plain_packets(old(received)@) + packets(
                id,
                all.take(it.index()),
            ),
            disconnected@ == old(disconnected)@ + ends(all.take(it.index())),
            plain_datagrams(sent@) == datagrams(all.take(it.index())),
    {
        let ghost taken = all.take(it.index() + 1);
        assert(taken.drop_last() =~= all.take(it.index()));
        assert(taken.last() == output);
        match output {
            RakSessionOutput::Datagram(buf, addr) => {
                let ghost earlier = sent@;
                sent.push((buf, addr));
                assert(plain_datagrams(sent@) =~= plain_datagrams(earlier).push((buf@, addr)));
            },
            RakSessionOutput::Packet(buf) => {
                let ghost earlier = received@;
                received.push_back((id, buf));
                assert(plain_packets(received@) =~= plain_packets(earlier).push((id, buf@)));
            },
            RakSessionOutput::Disconnected(id, reason) => {
                disconnected.push((id, reason));
            },
            RakSessionOutput::Wait(_) => {},
        }
    }
    assert(all.take(all.len() as int) =~= all);
    sent
}

/// The word of each session that is over.
pub open spec fn disconnections(ids: Seq<(RakSessionId, RakDisconnectReason)>) -> Seq<
    RakServerEvent,
> {
    ids.map_values(
        |e: (RakSessionId, RakDisconnectReason)|
            RakServerEvent::SessionDisconnected { id: e.0, reason: e.1 },
    )
}

/// Sessions that are over are gone, each with one word of why, in order; the others stay as
/// they are, and nothing that was received is lost.
pub proof fn sessions_that_are_over_are_gone<P>(
    s: RakServerState<P>,
    ids: Seq<(RakSessionId, RakDisconnectReason)>,
    now: SystemTime,
)
    ensures
        ({
            let after = s.without_all(ids, now);
            &&& forall|i: int|
                0 <= i < ids.len() ==> !after.sessions.contains_key((#[trigger] ids[i]).0.0)
                    && !after.intl.session_addr.contains_key(ids[i].0.0)
            &&& forall|k: u64|
                #![trigger after.sessions.contains_key(k)]
                (forall|i: int| 0 <= i < ids.len() ==> (#[trigger] ids[i]).0.0 != k) ==> (
                after.sessions.contains_key(k) == s.sessions.contains_key(k) && (
                s.sessions.contains_key(k) ==> after.sessions[k] == s.sessions[k]))
            &&& after.events == s.events + disconnections(ids)
            &&& after.received == s.received
            &&& after.intl.output == s.intl.output
        }),
    decreases ids.len(),
{
    let after = s.without_all(ids, now);
    if ids.len() == 0 {
        assert(after.events =~= s.events + disconnections(ids));
    } else {
        let rest = ids.drop_last();
        let (id, reason) = ids.last();
        let earlier = s.without_all(rest, now);
        sessions_that_are_over_are_gone(s, rest, now);
        assert(disconnections(ids) =~= disconnections(rest).push(
            RakServerEvent::SessionDisconnected { id, reason },
        ));
        assert(after.events =~= s.events + disconnections(ids));
        assert forall|i: int| 0 <= i < ids.len() implies !after.sessions.contains_key(
            (#[trigger] ids[i]).0.0,
        ) && !after.intl.session_addr.contains_key(ids[i].0.0) by {
            if i < rest.len() {
                assert(rest[i] == ids[i]);
            }
        }
        assert forall|k: u64|
            #![trigger after.sessions.contains_key(k)]
            (forall|i: int| 0 <= i < ids.len() ==> (#[trigger] ids[i]).0.0 != k) implies (
        after.sessions.contains_key(k) == s.sessions.contains_key(k) && (s.sessions.contains_key(k)
            ==> after.sessions[k] == s.sessions[k])) by {
            assert(ids[ids.len() - 1].0.0 != k);
            assert forall|i: int| 0 <= i < rest.len() implies (#[trigger] rest[i]).0.0 != k by {
                assert(rest[i] == ids[i]);
            }
            assert(earlier.sessions.contains_key(k) == s.sessions.contains_key(k));
        }
    }
}

/// A session that the inner server puts out as connected can be sent to from then on, and is
/// told of once.
pub proof fn connected_session_is_told<P>(s: RakServerState<P>, session: RakSession<P>)
    requires
        s.intl.output.len() > 0,
        s.intl.output[0] == RakServerOutputView::SessionConnected(session),
    ensures
        s.taken().sessions.contains_key(session.id.0),
        s.taken().sessions[session.id.0] == session,
        s.taken().events == s.events.push(
            RakServerEvent::SessionConnected {
                id: session.id,
                addr: session.addr,
                guid: session.guid,
            },
        ),
        s.taken().intl.output == s.intl.output.drop_first(),
{
}

} // verus!

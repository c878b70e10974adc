//! What the task of a server does with each thing that happens.
//!
//! The sessions that have connected run as tasks of their own; the server's task holds a
//! handle of type `H` to each, by which it is reached.

use crate::net::SocketAddr;
use crate::raknet_tokio::server::msg::RakServerMsg;
use crate::server::config::RakServerConfig;
use crate::server::error::{RakServerError, RakServerErrorView};
use crate::server::input::{RakServerInput, RakServerStep, RakServerStepView};
use crate::server::model::RakServerModel;
use crate::server::output::{RakServerOutput, RakServerOutputView};
use crate::server::RakServer;
use crate::session::{
    RakSession, RakSessionError, RakSessionId, RakSessionInput, RakSessionInputView,
    RakSessionOutput,
};
use crate::time::SystemTime;
use crate::util::session_ids::{lists_sessions, session_ids};
use std::collections::HashMap;
use vstd::prelude::*;

verus! {

/// What happens to a server's task.
#[derive(Debug)]
pub enum RakTaskEvent<P> {
    /// Time has passed.
    Tick(SystemTime),
    /// Bytes came from an address.
    Received(Vec<u8>, SocketAddr, SystemTime),
    /// A session has bytes to send to an address.
    Sending(Vec<u8>, SocketAddr),
    /// A session is over.
    Disconnected(RakSessionId, SystemTime),
    /// The owner has something to say.
    Message(RakServerMsg<P>, SystemTime),
}

/// What is to be done about it, before the outputs are seen to.
#[derive(Debug)]
pub enum RakTaskStep<P> {
    /// Take the step for the server, or make a note of what kept it from dealing with a
    /// datagram.
    Serve(Result<RakServerStep, RakServerError>),
    /// Send the bytes to the address.
    SendTo(Vec<u8>, SocketAddr),
    /// Run the session, and hand it to whoever asked for it to be taken over.
    Adopted(Box<RakSession<P>>),
    /// Give the input to the sessions, and end the task.
    Stop(Vec<RakSessionId>, RakSessionInput),
}

/// What is to be done about an output of the server.
#[derive(Debug)]
pub enum RakTaskAction<P> {
    /// Send the bytes to the address.
    SendTo(Vec<u8>, SocketAddr),
    /// Give the input to the session.
    Forward(RakSessionId, RakSessionInput),
    /// Make a note that there is no such session.
    Unknown(RakSessionId),
    /// Run the session, and hand it to the owner.
    Connected(Box<RakSession<P>>),
}

/// What a server's task is.
#[verifier::ext_equal]
pub struct RakTaskModel<P, H> {
    pub server: RakServerModel<P>,
    /// The handles of the sessions that run, by number.
    pub sessions: Map<u64, H>,
}

/// A server's task. Its view is what it is.
#[derive(Debug)]
pub struct RakServerTask<P, H> {
    server: RakServer<P>,
    sessions: HashMap<u64, H>,
}

impl<P, H> View for RakServerTask<P, H> {
    type V = RakTaskModel<P, H>;

    closed spec fn view(&self) -> RakTaskModel<P, H> {
        RakTaskModel { server: self.server@, sessions: self.sessions@ }
    }
}

/// What the server is told of what happens to its task; nothing of what concerns it not.
pub open spec fn told<P>(event: RakTaskEvent<P>) -> Option<RakServerInput> {
    match event {
        RakTaskEvent::Tick(now) => Some(RakServerInput::Update(now)),
        RakTaskEvent::Received(buf, addr, now) => Some(RakServerInput::Datagram(buf, addr, now)),
        RakTaskEvent::Sending(_, _) => None,
        RakTaskEvent::Disconnected(id, now) => Some(RakServerInput::RemoveSession(id, now)),
        RakTaskEvent::Message(msg, _) => match msg {
            RakServerMsg::SetMessage(message) => Some(RakServerInput::SetMessage(message)),
            RakServerMsg::SetMaxConnections(n) => Some(RakServerInput::SetMaxConnections(n)),
            _ => None,
        },
    }
}

impl<P, H> RakTaskModel<P, H> {
    /// Whether the numbers that the server computes for an event can be told.
    pub open spec fn admits(self, event: RakTaskEvent<P>) -> bool {
        match event {
            RakTaskEvent::Message(RakServerMsg::AdoptSession(_), _) => self.server.next_id
                < u64::MAX,
            _ => match told(event) {
                Some(input) => self.server.admits(input),
                None => true,
            },
        }
    }

    /// The sessions that are left after an event.
    pub open spec fn sessions_after(self, event: RakTaskEvent<P>) -> Map<u64, H> {
        match event {
            RakTaskEvent::Disconnected(id, _) => self.sessions.remove(id.0),
            _ => self.sessions,
        }
    }

    /// What an event makes of the task, and what is to be done: what concerns the server it is
    /// told, what a session sends is sent on, a session that is taken over is handed out
    /// at once, past the outputs that wait, and at the end every session is told.
    pub open spec fn happens(
        self,
        event: RakTaskEvent<P>,
        after: RakTaskModel<P, H>,
        step: RakTaskStep<P>,
    ) -> bool {
        match event {
            RakTaskEvent::Sending(buf, addr) => after == self && step == RakTaskStep::<P>::SendTo(
                buf,
                addr,
            ),
            RakTaskEvent::Message(RakServerMsg::AdoptSession(session), _) => {
                &&& after == RakTaskModel { server: self.server.taken_over(*session), ..self }
                &&& step matches RakTaskStep::Adopted(out)
                &&& *out == self.server.renumbered(*session)
            },
            RakTaskEvent::Message(RakServerMsg::Stop, now) => after == self && (step
                matches RakTaskStep::Stop(list, input) && lists_sessions(list@, self.sessions)
                && input@ == RakSessionInputView::Disconnect(now)),
            _ => {
                let (server, r) = self.server.handled(told(event)->0);
                &&& after == RakTaskModel::<P, H> { server, sessions: self.sessions_after(event) }
                &&& step matches RakTaskStep::Serve(s)
                &&& match s {
                    Ok(s) => r == Ok::<RakServerStepView, RakServerErrorView>(s@),
                    Err(e) => r == Err::<RakServerStepView, RakServerErrorView>(e@),
                }
            },
        }
    }

    /// Whether `action` is what is to be done about the output: bytes are sent, a datagram is
    /// given to the session that it is for if that runs, and a session that has connected is
    /// run.
    pub open spec fn acts(
        self,
        output: RakServerOutputView<P>,
        now: SystemTime,
        action: RakTaskAction<P>,
    ) -> bool {
        match output {
            RakServerOutputView::SocketDatagram(buf, addr) => action matches RakTaskAction::SendTo(
                bytes,
                to,
            ) && bytes@ == buf && to == addr,
            RakServerOutputView::SessionDatagram(buf, id) => if self.sessions.contains_key(id.0) {
                action matches RakTaskAction::Forward(to, input) && to == id && input@
                    == RakSessionInputView::Datagram(buf, now)
            } else {
                action matches RakTaskAction::Unknown(to) && to == id
            },
            RakServerOutputView::SessionConnected(session) => action
                matches RakTaskAction::Connected(out) && *out == session,
        }
    }
}

impl<P, H> RakServerTask<P, H> {
    /// The parts of the task are in order.
    pub closed spec fn wf(&self) -> bool {
        self.server.wf()
    }

    /// The task of a server at `addr` that nothing has happened to.
    pub fn new(config: RakServerConfig, addr: SocketAddr) -> (task: RakServerTask<P, H>)
        ensures
            task.wf(),
            task@.server == RakServerModel::<P>::created(config, addr),
            task@.sessions == Map::<u64, H>::empty(),
    {
        broadcast use vstd::std_specs::hash::group_hash_axioms;

        RakServerTask { server: RakServer::new(config, addr), sessions: HashMap::new() }
    }

    /// Deals with an event, as far as the task can by itself.
    pub fn handle(&mut self, event: RakTaskEvent<P>) -> (step: RakTaskStep<P>)
        requires
            old(self).wf(),
            old(self)@.admits(event),
        ensures
            final(self).wf(),
            old(self)@.happens(event, final(self)@, step),
    {
        broadcast use vstd::std_specs::hash::group_hash_axioms;

        match event {
            RakTaskEvent::Tick(now) => RakTaskStep::Serve(
                self.server.handle(RakServerInput::Update(now)),
            ),
            RakTaskEvent::Received(buf, addr, now) => RakTaskStep::Serve(
                self.server.handle(RakServerInput::Datagram(buf, addr, now)),
            ),
            RakTaskEvent::Sending(buf, addr) => RakTaskStep::SendTo(buf, addr),
            RakTaskEvent::Disconnected(id, now) => {
                let r = self.server.handle(RakServerInput::RemoveSession(id, now));
                self.sessions.remove(&id.0);
                RakTaskStep::Serve(r)
            },
            RakTaskEvent::Message(msg, now) => match msg {
                RakServerMsg::SetMessage(message) => RakTaskStep::Serve(
                    self.server.handle(RakServerInput::SetMessage(message)),
                ),
                RakServerMsg::SetMaxConnections(n) => RakTaskStep::Serve(
                    self.server.handle(RakServerInput::SetMaxConnections(n)),
                ),
                RakServerMsg::AdoptSession(session) => RakTaskStep::Adopted(
                    Box::new(self.server.take_over(*session)),
                ),
                RakServerMsg::Stop => RakTaskStep::Stop(
                    session_ids(&self.sessions),
                    RakSessionInput::Disconnect(now),
                ),
            },
        }
    }

    /// Goes on after the protocol of the session at `addr` was given an input.
    pub fn session_handled(&self, addr: SocketAddr, result: Result<(), RakSessionError>) -> (r:
        Result<RakServerStep, RakServerError>)
        ensures
            match r {
                Ok(step) => RakServerModel::<P>::session_handled(addr, result) == Ok::<
                    RakServerStepView,
                    RakServerErrorView,
                >(step@),
                Err(e) => RakServerModel::<P>::session_handled(addr, result) == Err::<
                    RakServerStepView,
                    RakServerErrorView,
                >(e@),
            },
    {
        self.server.session_handled(addr, result)
    }

    /// Goes on after the protocol of the session at `addr` was asked for an output.
    pub fn session_polled(
        &mut self,
        addr: SocketAddr,
        output: Option<RakSessionOutput>,
        now: SystemTime,
    ) -> (r: Result<RakServerStep, RakServerError>)
        requires
            old(self).wf(),
        ensures
            final(self).wf(),
            final(self)@ == (RakTaskModel {
                server: old(self)@.server.session_polled(addr, output, now).0,
                ..old(self)@
            }),
            match r {
                Ok(step) => old(self)@.server.session_polled(addr, output, now).1 == Ok::<
                    RakServerStepView,
                    RakServerErrorView,
                >(step@),
                Err(e) => old(self)@.server.session_polled(addr, output, now).1 == Err::<
                    RakServerStepView,
                    RakServerErrorView,
                >(e@),
            },
    {
        self.server.session_polled(addr, output, now)
    }

    /// The session at `addr`, if it is still to be connected.
    pub fn pending(&self, addr: SocketAddr) -> (session: Option<&RakSession<P>>)
        requires
            self.wf(),
        ensures
            match session {
                Some(session) => self@.server.pending.contains_key(addr) && *session
                    == self@.server.pending[addr].1,
                None => !self@.server.pending.contains_key(addr),
            },
    {
        self.server.pending(addr)
    }

    /// The protocol of the session at `addr`, if that is still to be connected, to be run.
    pub fn protocol_mut(&mut self, addr: SocketAddr) -> (protocol: Option<&mut Option<P>>)
        requires
            old(self).wf(),
        ensures
            final(self).wf(),
            match protocol {
                Some(protocol) => old(self)@.server.pending.contains_key(addr) && *protocol == old(
                    self,
                )@.server.pending[addr].1.protocol && final(self)@ == (RakTaskModel {
                    server: old(self)@.server.with_protocol(addr, *final(protocol)),
                    ..old(self)@
                }),
                None => !old(self)@.server.pending.contains_key(addr) && final(self)@ == old(self)@,
            },
    {
        self.server.protocol_mut(addr)
    }

    /// What is to be done about the next output of the server.
    pub fn poll(&mut self, now: SystemTime) -> (action: Option<RakTaskAction<P>>)
        requires
            old(self).wf(),
        ensures
            final(self).wf(),
            match action {
                Some(action) => old(self)@.server.output.len() > 0 && old(self)@.acts(
                    old(self)@.server.output[0],
                    now,
                    action,
                ) && final(self)@ == (RakTaskModel {
                    server: RakServerModel {
                        output: old(self)@.server.output.drop_first(),
                        ..old(self)@.server
                    },
                    ..old(self)@
                }),
                None => old(self)@.server.output.len() == 0 && final(self)@ == old(self)@,
            },
    {
        broadcast use vstd::std_specs::hash::group_hash_axioms;

        match self.server.poll() {
            None => None,
            Some(RakServerOutput::SocketDatagram(buf, addr)) => Some(
                RakTaskAction::SendTo(buf, addr),
            ),
            Some(RakServerOutput::SessionDatagram(buf, id)) => {
                if self.sessions.contains_key(&id.0) {
                    Some(RakTaskAction::Forward(id, RakSessionInput::Datagram(buf, now)))
                } else {
                    Some(RakTaskAction::Unknown(id))
                }
            },
            Some(RakServerOutput::SessionConnected(session)) => Some(
                RakTaskAction::Connected(session),
            ),
        }
    }

    /// Remembers the handle of a session that runs from now on.
    pub fn spawned(&mut self, id: RakSessionId, handle: H)
        requires
            old(self).wf(),
        ensures
            final(self).wf(),
            final(self)@ == (RakTaskModel {
                sessions: old(self)@.sessions.insert(id.0, handle),
                ..old(self)@
            }),
    {
        broadcast use vstd::std_specs::hash::group_hash_axioms;

        self.sessions.insert(id.0, handle);
    }

    /// The handle of a session.
    pub fn session(&self, id: RakSessionId) -> (handle: Option<&H>)
        ensures
            match handle {
                Some(handle) => self@.sessions.contains_key(id.0) && *handle
                    == self@.sessions[id.0],
                None => !self@.sessions.contains_key(id.0),
            },
    {
        broadcast use vstd::std_specs::hash::group_hash_axioms;

        self.sessions.get(&id.0)
    }

    /// Whether `handle` can tell the numbers that the server computes for an event.
    pub fn admits(&self, event: &RakTaskEvent<P>) -> (b: bool)
        requires
            self.wf(),
        ensures
            b == self@.admits(*event),
    {
        match event {
            RakTaskEvent::Received(buf, addr, now) => self.server.admits_datagram(
                buf.as_slice(),
                *addr,
                *now,
            ),
            RakTaskEvent::Message(RakServerMsg::AdoptSession(_), _) => self.server.can_adopt(),
            _ => true,
        }
    }
}

/// A session that is taken over is handed to whoever asked, with all of it as it came but for a
/// number of its own, whatever waits to be polled; nothing of it is polled, and nothing that
/// waits is lost.
pub proof fn adopted_session_is_handed_out<P, H>(
    task: RakTaskModel<P, H>,
    session: Box<RakSession<P>>,
    now: SystemTime,
    after: RakTaskModel<P, H>,
    step: RakTaskStep<P>,
)
    requires
        task.happens(
            RakTaskEvent::Message(RakServerMsg::AdoptSession(session), now),
            after,
            step,
        ),
    ensures
        step matches RakTaskStep::Adopted(out) && *out == (RakSession {
            id: RakSessionId(task.server.next_id),
            ..*session
        }),
        after.server.output == task.server.output,
        after.server.session_map.contains_key(session.addr),
        after.server.session_map[session.addr] == RakSessionId(task.server.next_id),
        after.sessions == task.sessions,
{
}

/// A session that is over is forgotten by the server and by its task, and its address is
/// turned away for a while.
pub proof fn session_that_is_over_is_forgotten<P, H>(
    task: RakTaskModel<P, H>,
    id: RakSessionId,
    now: SystemTime,
    after: RakTaskModel<P, H>,
    step: RakTaskStep<P>,
)
    requires
        task.happens(RakTaskEvent::Disconnected(id, now), after, step),
        task.server.session_addr.contains_key(id.0),
    ensures
        !after.sessions.contains_key(id.0),
        !after.server.session_addr.contains_key(id.0),
        !after.server.session_map.contains_key(task.server.session_addr[id.0]),
        after.server.recently_disconnected(task.server.session_addr[id.0], now),
        forall|k: u64|
            #![trigger after.sessions.contains_key(k)]
            k != id.0 ==> after.sessions.contains_key(k) == task.sessions.contains_key(k),
{
}

} // verus!

//! A client that is updated once in every turn.
//!
//! The client decides; whoever owns its socket and runs the protocol of its session does what
//! it asks for: hands it what was received, gives the session the inputs that are meant for
//! it, and hands back what the session puts out.

use crate::bevy_raknet::server::plain_datagrams;
use crate::bevy_raknet::{RakPhase, RakReceived, MAX_DATAGRAMS_PER_TICK};
use crate::client::config::RakClientConfig;
use crate::client::error::RakClientError;
use crate::client::input::{
    RakClientExchange, RakClientInput, RakClientStep, RakClientStepView,
};
use crate::client::model::RakClientModel;
use crate::client::output::{RakClientOutput, RakClientOutputView};
use crate::client::state::RakClientState;
use crate::client::RakClient as RakClientIntl;
use crate::net::SocketAddr;
use crate::session::{
    datagrams, RakDisconnectReason, RakSession, RakSessionError, RakSessionInput, RakSessionInputView,
    RakSessionOutput,
};
use crate::time::SystemTime;
use crate::types::priority::RakPriority;
use crate::types::reliability::RakReliability;
use std::collections::VecDeque;
use vstd::prelude::*;

verus! {

/// What has become of the session.
#[derive(Clone, Copy, Debug, PartialEq, Eq, Structural)]
pub enum RakClientEvent {
    Connected,
    Disconnected { reason: RakDisconnectReason },
}

/// What is to be done about an output of the client.
#[derive(Debug)]
pub enum RakClientAction {
    /// Send the bytes to the address.
    SendTo(Vec<u8>, SocketAddr),
    /// Give the input to the session.
    Forward(RakSessionInput),
    /// Make a note that the session has connected.
    Connected,
    /// Nothing.
    Nothing,
}

/// An action with its bytes as a sequence.
#[verifier::ext_equal]
pub enum RakClientActionView {
    SendTo(Seq<u8>, SocketAddr),
    Forward(RakSessionInputView),
    Connected,
    Nothing,
}

impl View for RakClientAction {
    type V = RakClientActionView;

    open spec fn view(&self) -> RakClientActionView {
        match self {
            RakClientAction::SendTo(buf, addr) => RakClientActionView::SendTo(buf@, *addr),
            RakClientAction::Forward(input) => RakClientActionView::Forward(input@),
            RakClientAction::Connected => RakClientActionView::Connected,
            RakClientAction::Nothing => RakClientActionView::Nothing,
        }
    }
}

/// An update of a client.
#[derive(Clone, Copy, Debug, PartialEq, Eq, Structural)]
pub struct RakClientUpdate {
    /// When it takes place.
    pub now: SystemTime,
    pub phase: RakPhase,
}

/// What is to be done next in an update.
#[derive(Debug)]
pub enum RakClientWork {
    /// Read the socket, and tell what came of it.
    Receive,
    /// Make a note of what kept the client from dealing with the passing of time, if anything
    /// did.
    Timed(Result<(), RakClientError>),
    /// Do what an output of the client asks for.
    Act(RakClientAction),
    /// Give the input to the session, whatever it returns, and tell all that it puts out.
    Update(RakSessionInput),
    /// Nothing more.
    Finish,
}

/// What a client is.
#[verifier::ext_equal]
pub struct RakClientTurn<P> {
    pub intl: RakClientModel<P>,
    /// The session, once it has connected.
    pub session: Option<RakSession<P>>,
    /// What was received and is still to be asked for.
    pub received: Seq<Seq<u8>>,
    /// The answers of servers that are still to be asked for.
    pub pongs: Seq<(SocketAddr, Seq<u8>, SystemTime)>,
    /// What has become of the session and is still to be asked for.
    pub events: Seq<RakClientEvent>,
}

/// A client. Its view is what it is.
#[derive(Debug)]
pub struct RakClient<P> {
    intl: RakClientIntl<P>,
    session: Option<RakSession<P>>,
    received: VecDeque<Vec<u8>>,
    pongs: VecDeque<(SocketAddr, Vec<u8>, SystemTime)>,
    events: VecDeque<RakClientEvent>,
}

/// Received packets as sequences.
pub open spec fn plain_received(received: Seq<Vec<u8>>) -> Seq<Seq<u8>> {
    received.map_values(|buf: Vec<u8>| buf@)
}

/// Answers of servers with their bytes as sequences.
pub open spec fn plain_pongs(pongs: Seq<(SocketAddr, Vec<u8>, SystemTime)>) -> Seq<
    (SocketAddr, Seq<u8>, SystemTime),
> {
    pongs.map_values(|p: (SocketAddr, Vec<u8>, SystemTime)| (p.0, p.1@, p.2))
}

impl<P> View for RakClient<P> {
    type V = RakClientTurn<P>;

    closed spec fn view(&self) -> RakClientTurn<P> {
        RakClientTurn {
            intl: self.intl@,
            session: self.session,
            received: plain_received(self.received@),
            pongs: plain_pongs(self.pongs@),
            events: self.events@,
        }
    }
}

/// The packets among the outputs of the session, in order.
pub open spec fn packets(outputs: Seq<RakSessionOutput>) -> Seq<Seq<u8>>
    decreases outputs.len(),
{
    if outputs.len() == 0 {
        seq![]
    } else {
        let before = packets(outputs.drop_last());
        match outputs.last() {
            RakSessionOutput::Packet(buf) => before.push(buf@),
            _ => before,
        }
    }
}

/// Why the session is over, if an output says so: what the last one that does says.
pub open spec fn end(outputs: Seq<RakSessionOutput>) -> Option<RakDisconnectReason>
    decreases outputs.len(),
{
    if outputs.len() == 0 {
        None
    } else {
        match outputs.last() {
            RakSessionOutput::Disconnected(_, reason) => Some(reason),
            _ => end(outputs.drop_last()),
        }
    }
}

impl<P> RakClientTurn<P> {
    /// The client without its session, which is over; it can connect again.
    pub open spec fn ended(self, reason: RakDisconnectReason) -> RakClientTurn<P> {
        RakClientTurn {
            intl: self.intl.handled(RakClientInput::Disconnect).0,
            session: None,
            events: self.events.push(RakClientEvent::Disconnected { reason }),
            ..self
        }
    }

    /// The client after what the session put out was taken in.
    pub open spec fn drained(self, outputs: Seq<RakSessionOutput>) -> RakClientTurn<P> {
        let m = RakClientTurn { received: self.received + packets(outputs), ..self };
        match end(outputs) {
            Some(reason) => m.ended(reason),
            None => m,
        }
    }

    /// What an output of the inner client makes of the client.
    pub open spec fn taken(self) -> RakClientTurn<P> {
        let rest = RakClientTurn {
            intl: RakClientModel { output: self.intl.output.drop_first(), ..self.intl },
            ..self
        };
        match self.intl.output[0] {
            RakClientOutputView::SessionConnected(session) => RakClientTurn {
                session: Some(session),
                events: self.events.push(RakClientEvent::Connected),
                ..rest
            },
            RakClientOutputView::Pong(addr, message, sent) => RakClientTurn {
                pongs: self.pongs.push((addr, message, sent)),
                ..rest
            },
            _ => rest,
        }
    }

    /// What is to be done about it: bytes are sent, and a datagram is given to the session, if
    /// there is one.
    pub open spec fn action(self, now: SystemTime) -> RakClientActionView {
        match self.intl.output[0] {
            RakClientOutputView::SocketDatagram(buf, addr) => RakClientActionView::SendTo(
                buf,
                addr,
            ),
            RakClientOutputView::SessionDatagram(buf) => if self.session is Some {
                RakClientActionView::Forward(RakSessionInputView::Datagram(buf, now))
            } else {
                RakClientActionView::Nothing
            },
            RakClientOutputView::SessionConnected(_) => RakClientActionView::Connected,
            RakClientOutputView::Wait(_) => RakClientActionView::Nothing,
            RakClientOutputView::Pong(_, _, _) => RakClientActionView::Nothing,
        }
    }

    /// What an update makes of the client, and what is to be done next: the socket is read,
    /// time passes, the outputs are seen to in order, and then the session is updated.
    pub open spec fn works(
        self,
        update: RakClientUpdate,
        after: RakClientTurn<P>,
        next: RakClientUpdate,
        work: RakClientWork,
    ) -> bool {
        let now = update.now;
        match update.phase {
            RakPhase::Receiving(_) => after == self && next == update && work is Receive,
            RakPhase::Timing => {
                &&& after == RakClientTurn { intl: self.intl.timed(now).0, ..self }
                &&& next == RakClientUpdate { phase: RakPhase::Polling, ..update }
                &&& work == RakClientWork::Timed(self.intl.timed(now).1)
            },
            RakPhase::Polling => if self.intl.output.len() > 0 {
                &&& after == self.taken()
                &&& next == update
                &&& work matches RakClientWork::Act(action)
                &&& action@ == self.action(now)
            } else {
                &&& after == self
                &&& next == RakClientUpdate { phase: RakPhase::Finished, ..update }
                &&& work == if self.session is Some {
                    RakClientWork::Update(RakSessionInput::Update(now))
                } else {
                    RakClientWork::Finish
                }
            },
            _ => after == self && next == update && work is Finish,
        }
    }

    /// The client with the protocol of its session in another state.
    pub open spec fn with_protocol(self, protocol: Option<P>) -> RakClientTurn<P> {
        match self.session {
            Some(session) => RakClientTurn {
                session: Some(RakSession { protocol, ..session }),
                ..self
            },
            None => self,
        }
    }
}

impl<P> RakClient<P> {
    /// What holds of a client at all times.
    pub open spec fn wf(&self) -> bool {
        self@.intl.inv()
    }

    /// A client that nothing has happened to, made at `now`.
    pub fn new(config: RakClientConfig, now: SystemTime) -> (client: RakClient<P>)
        ensures
            client.wf(),
            client@.intl == RakClientModel::<P>::created(config, now),
            client@.session is None,
            client@.received == Seq::<Seq<u8>>::empty(),
            client@.pongs == Seq::<(SocketAddr, Seq<u8>, SystemTime)>::empty(),
            client@.events == Seq::<RakClientEvent>::empty(),
    {
        let client = RakClient {
            intl: RakClientIntl::new(config, now),
            session: None,
            received: VecDeque::new(),
            pongs: VecDeque::new(),
            events: VecDeque::new(),
        };
        assert(client@.received =~= Seq::<Seq<u8>>::empty());
        assert(client@.pongs =~= Seq::<(SocketAddr, Seq<u8>, SystemTime)>::empty());
        client
    }

    /// Gives an input to the inner client.
    fn tell(&mut self, msg: RakClientInput) -> (r: Result<RakClientStep, RakClientError>)
        requires
            old(self).wf(),
            old(self)@.intl.admits(msg),
        ensures
            final(self).wf(),
            final(self)@ == (RakClientTurn {
                intl: old(self)@.intl.handled(msg).0,
                ..old(self)@
            }),
            match r {
                Ok(step) => old(self)@.intl.handled(msg).1 == Ok::<
                    RakClientStepView,
                    RakClientError,
                >(step@),
                Err(e) => old(self)@.intl.handled(msg).1 == Err::<
                    RakClientStepView,
                    RakClientError,
                >(e),
            },
    {
        self.intl.handle(msg)
    }

    /// Connects to the server at `addr`.
    pub fn connect(&mut self, addr: SocketAddr, now: SystemTime)
        requires
            old(self).wf(),
            old(self)@.intl.admits(RakClientInput::Connect(addr, now)),
        ensures
            final(self).wf(),
            final(self)@ == (RakClientTurn {
                intl: old(self)@.intl.connects(addr, now).0,
                ..old(self)@
            }),
    {
        let _ = self.tell(RakClientInput::Connect(addr, now));
    }

    /// Asks the server at `addr` who it is.
    pub fn ping(&mut self, addr: SocketAddr, now: SystemTime)
        requires
            old(self).wf(),
        ensures
            final(self).wf(),
            final(self)@ == (RakClientTurn {
                intl: old(self)@.intl.pings(addr, now).0,
                ..old(self)@
            }),
    {
        let _ = self.tell(RakClientInput::Ping(addr, now));
    }

    /// Whether there is a session.
    pub fn is_connected(&self) -> (b: bool)
        ensures
            b == (self@.session is Some),
    {
        self.session.is_some()
    }

    /// The session.
    pub fn session(&self) -> (session: Option<&RakSession<P>>)
        ensures
            match session {
                Some(session) => self@.session == Some(*session),
                None => self@.session is None,
            },
    {
        self.session.as_ref()
    }

    /// The protocol of the session, to be run.
    pub fn protocol_mut(&mut self) -> (protocol: Option<&mut Option<P>>)
        requires
            old(self).wf(),
        ensures
            final(self).wf(),
            match protocol {
                Some(protocol) => (old(self)@.session matches Some(session) && *protocol
                    == session.protocol) && final(self)@ == old(self)@.with_protocol(
                    *final(protocol),
                ),
                None => old(self)@.session is None && final(self)@ == old(self)@,
            },
    {
        match self.session.as_mut() {
            Some(session) => Some(&mut session.protocol),
            None => None,
        }
    }

    /// What the session is to be given so that it sends `buf`, if there is one.
    pub fn send(
        &self,
        buf: Vec<u8>,
        reliability: RakReliability,
        priority: RakPriority,
        now: SystemTime,
    ) -> (r: Result<RakSessionInput, RakSessionError>)
        ensures
            r == if self@.session is Some {
                Ok::<RakSessionInput, RakSessionError>(
                    RakSessionInput::Send(buf, reliability, priority, now),
                )
            } else {
                Err::<RakSessionInput, RakSessionError>(RakSessionError::Closed)
            },
    {
        if self.session.is_some() {
            Ok(RakSessionInput::Send(buf, reliability, priority, now))
        } else {
            Err(RakSessionError::Closed)
        }
    }

    /// The next packet that was received.
    pub fn recv(&mut self) -> (packet: Option<Vec<u8>>)
        requires
            old(self).wf(),
        ensures
            final(self).wf(),
            match packet {
                Some(buf) => old(self)@.received.len() > 0 && old(self)@.received[0] == buf@
                    && final(self)@ == (RakClientTurn {
                    received: old(self)@.received.drop_first(),
                    ..old(self)@
                }),
                None => old(self)@.received.len() == 0 && final(self)@ == old(self)@,
            },
    {
        let ghost before = self@;
        let packet = self.received.pop_front();
        proof {
            if packet is Some {
                assert(self@.received =~= before.received.drop_first());
            } else {
                assert(self@.received =~= before.received);
            }
        }
        packet
    }

    /// The next answer of a server, with its address and the time at which it was asked.
    pub fn recv_pong(&mut self) -> (pong: Option<(SocketAddr, Vec<u8>, SystemTime)>)
        requires
            old(self).wf(),
        ensures
            final(self).wf(),
            match pong {
                Some((addr, message, sent)) => old(self)@.pongs.len() > 0 && old(self)@.pongs[0]
                    == (addr, message@, sent) && final(self)@ == (RakClientTurn {
                    pongs: old(self)@.pongs.drop_first(),
                    ..old(self)@
                }),
                None => old(self)@.pongs.len() == 0 && final(self)@ == old(self)@,
            },
    {
        let ghost before = self@;
        let pong = self.pongs.pop_front();
        proof {
            if pong is Some {
                assert(self@.pongs =~= before.pongs.drop_first());
            } else {
                assert(self@.pongs =~= before.pongs);
            }
        }
        pong
    }

    /// What the session is to be given so that it ends, if there is one.
    pub fn disconnect(&self, now: SystemTime) -> (input: Option<RakSessionInput>)
        ensures
            input == if self@.session is Some {
                Some(RakSessionInput::Disconnect(now))
            } else {
                None::<RakSessionInput>
            },
    {
        if self.session.is_some() {
            Some(RakSessionInput::Disconnect(now))
        } else {
            None
        }
    }

    /// The next thing that has become of the session.
    pub fn next_event(&mut self) -> (event: Option<RakClientEvent>)
        requires
            old(self).wf(),
        ensures
            final(self).wf(),
            match event {
                Some(event) => old(self)@.events.len() > 0 && old(self)@.events[0] == event
                    && final(self)@ == (RakClientTurn {
                    events: old(self)@.events.drop_first(),
                    ..old(self)@
                }),
                None => old(self)@.events.len() == 0 && final(self)@ == old(self)@,
            },
    {
        let ghost before = self@;
        let event = self.events.pop_front();
        proof {
            if event is Some {
                assert(self@.events =~= before.events.drop_first());
            } else {
                assert(self@.events =~= before.events);
            }
        }
        event
    }

    /// Takes in what the session put out, and lets go of the session if it is over. Returns
    /// what is to be sent.
    pub fn drain(&mut self, outputs: Vec<RakSessionOutput>) -> (sent: Vec<(Vec<u8>, SocketAddr)>)
        requires
            old(self).wf(),
        ensures
            final(self).wf(),
            final(self)@ == old(self)@.drained(outputs@),
            plain_datagrams(sent@) == datagrams(outputs@),
    {
        let ghost before = self@;
        let (sent, disconnected) = drain_session(outputs, &mut self.received);
        assert(self@ =~= RakClientTurn {
            received: before.received + packets(outputs@),
            ..before
        });
        if let Some(reason) = disconnected {
            self.session = None;
            let _ = self.tell(RakClientInput::Disconnect);
            self.events.push_back(RakClientEvent::Disconnected { reason });
            assert(self@ =~= before.drained(outputs@));
        }
        sent
    }

    /// Deals with bytes that came from `addr`, as far as the client can by itself.
    fn handle_datagram(&mut self, buf: Vec<u8>, addr: SocketAddr, now: SystemTime) -> (r:
        Result<RakClientStep, RakClientError>)
        requires
            old(self).wf(),
        ensures
            final(self).wf(),
            final(self)@ == (RakClientTurn {
                intl: old(self)@.intl.received(buf@, addr, now).0,
                ..old(self)@
            }),
            match r {
                Ok(step) => old(self)@.intl.received(buf@, addr, now).1 == Ok::<
                    RakClientStepView,
                    RakClientError,
                >(step@),
                Err(e) => old(self)@.intl.received(buf@, addr, now).1 == Err::<
                    RakClientStepView,
                    RakClientError,
                >(e),
            },
    {
        self.tell(RakClientInput::Datagram(buf, addr, now))
    }

    /// Deals with the passing of time.
    fn handle_update(&mut self, now: SystemTime) -> (r: Result<(), RakClientError>)
        requires
            old(self).wf(),
            old(self)@.intl.admits_time(now),
        ensures
            final(self).wf(),
            final(self)@ == (RakClientTurn {
                intl: old(self)@.intl.timed(now).0,
                ..old(self)@
            }),
            r == old(self)@.intl.timed(now).1,
    {
        match self.tell(RakClientInput::Update(now)) {
            Ok(_) => Ok(()),
            Err(e) => Err(e),
        }
    }

    /// Begins an update: the socket is read first.
    pub fn update(&self, now: SystemTime) -> (update: RakClientUpdate)
        ensures
            update.now == now,
            update.phase == RakPhase::Receiving(MAX_DATAGRAMS_PER_TICK),
    {
        RakClientUpdate { now, phase: RakPhase::Receiving(MAX_DATAGRAMS_PER_TICK) }
    }

    /// Goes on with an update. Returns what is to be done next.
    pub fn work(&mut self, update: &mut RakClientUpdate) -> (work: RakClientWork)
        requires
            old(self).wf(),
            old(update).phase is Timing ==> old(self)@.intl.admits_time(old(update).now),
        ensures
            final(self).wf(),
            old(self)@.works(*old(update), final(self)@, *final(update), work),
    {
        match update.phase {
            RakPhase::Receiving(_) => RakClientWork::Receive,
            RakPhase::Timing => {
                update.phase = RakPhase::Polling;
                RakClientWork::Timed(self.handle_update(update.now))
            },
            RakPhase::Polling => match self.poll(update.now) {
                Some(action) => RakClientWork::Act(action),
                None => {
                    update.phase = RakPhase::Finished;
                    if self.session.is_some() {
                        RakClientWork::Update(RakSessionInput::Update(update.now))
                    } else {
                        RakClientWork::Finish
                    }
                },
            },
            _ => RakClientWork::Finish,
        }
    }

    /// Goes on with an update after the socket was read.
    pub fn received(&mut self, update: &mut RakClientUpdate, received: RakReceived) -> (r: Result<
        RakClientStep,
        RakClientError,
    >)
        requires
            old(self).wf(),
        ensures
            final(self).wf(),
            final(update).now == old(update).now,
            final(update).phase == old(update).phase.after_read(received, RakPhase::Timing),
            match received {
                RakReceived::Datagram(buf, addr) => {
                    let (intl, step) = old(self)@.intl.received(buf@, addr, old(update).now);
                    &&& final(self)@ == (RakClientTurn { intl, ..old(self)@ })
                    &&& match r {
                        Ok(s) => step == Ok::<RakClientStepView, RakClientError>(s@),
                        Err(e) => step == Err::<RakClientStepView, RakClientError>(e),
                    }
                },
                _ => final(self)@ == old(self)@ && r matches Ok(RakClientStep::Done),
            },
    {
        update.phase = update.phase.read(&received, RakPhase::Timing);
        match received {
            RakReceived::Datagram(buf, addr) => self.handle_datagram(buf, addr, update.now),
            _ => Ok(RakClientStep::Done),
        }
    }

    /// Whether the client can tell the moments and sizes that it computes for an input.
    pub fn admits(&self, msg: &RakClientInput) -> (b: bool)
        ensures
            b == self@.intl.admits(*msg),
    {
        self.intl.admits(msg)
    }

    /// Goes on after the protocol of the session that is to be connected was given an input.
    pub fn session_handled(
        &mut self,
        exchange: RakClientExchange,
        result: Result<(), RakSessionError>,
    ) -> (r: Result<RakClientStep, RakClientError>)
        requires
            old(self).wf(),
        ensures
            final(self).wf(),
            final(self)@ == (RakClientTurn {
                intl: old(self)@.intl.session_handled(exchange, result).0,
                ..old(self)@
            }),
            match r {
                Ok(step) => old(self)@.intl.session_handled(exchange, result).1 == Ok::<
                    RakClientStepView,
                    RakClientError,
                >(step@),
                Err(e) => old(self)@.intl.session_handled(exchange, result).1 == Err::<
                    RakClientStepView,
                    RakClientError,
                >(e),
            },
    {
        self.intl.session_handled(exchange, result)
    }

    /// Goes on after the protocol of the session that is to be connected was asked for an
    /// output.
    pub fn session_polled(
        &mut self,
        exchange: RakClientExchange,
        output: Option<RakSessionOutput>,
    ) -> (r: Result<RakClientStep, RakClientError>)
        requires
            old(self).wf(),
        ensures
            final(self).wf(),
            final(self)@ == (RakClientTurn {
                intl: old(self)@.intl.session_polled(exchange, output).0,
                ..old(self)@
            }),
            match r {
                Ok(step) => old(self)@.intl.session_polled(exchange, output).1 == Ok::<
                    RakClientStepView,
                    RakClientError,
                >(step@),
                Err(e) => old(self)@.intl.session_polled(exchange, output).1 == Err::<
                    RakClientStepView,
                    RakClientError,
                >(e),
            },
    {
        self.intl.session_polled(exchange, output)
    }

    /// The session that is to be connected.
    pub fn pending(&self) -> (session: Option<&RakSession<P>>)
        ensures
            match session {
                Some(session) => self@.intl.session == Some(*session),
                None => self@.intl.session is None,
            },
    {
        self.intl.session()
    }

    /// The protocol of the session that is to be connected, to be run.
    pub fn pending_protocol_mut(&mut self) -> (protocol: Option<&mut Option<P>>)
        requires
            old(self).wf(),
        ensures
            final(self).wf(),
            match protocol {
                Some(protocol) => (old(self)@.intl.session matches Some(session) && *protocol
                    == session.protocol) && final(self)@ == (RakClientTurn {
                    intl: old(self)@.intl.with_protocol(*final(protocol)),
                    ..old(self)@
                }),
                None => old(self)@.intl.session is None && final(self)@ == old(self)@,
            },
    {
        self.intl.protocol_mut()
    }

    /// Takes in the next output of the inner client. Returns what is to be done about it.
    fn poll(&mut self, now: SystemTime) -> (action: Option<RakClientAction>)
        requires
            old(self).wf(),
        ensures
            final(self).wf(),
            match action {
                Some(action) => old(self)@.intl.output.len() > 0 && action@ == old(self)@.action(
                    now,
                ) && final(self)@ == old(self)@.taken(),
                None => old(self)@.intl.output.len() == 0 && final(self)@ == old(self)@,
            },
    {
        let ghost before = self@;
        match self.intl.poll() {
            None => None,
            Some(RakClientOutput::SocketDatagram(buf, addr)) => Some(
                RakClientAction::SendTo(buf, addr),
            ),
            Some(RakClientOutput::SessionDatagram(buf)) => {
                if self.session.is_some() {
                    Some(RakClientAction::Forward(RakSessionInput::Datagram(buf, now)))
                } else {
                    Some(RakClientAction::Nothing)
                }
            },
            Some(RakClientOutput::SessionConnected(session)) => {
                self.session = Some(*session);
                self.events.push_back(RakClientEvent::Connected);
                assert(self@ =~= before.taken());
                Some(RakClientAction::Connected)
            },
            Some(RakClientOutput::Wait(_)) => Some(RakClientAction::Nothing),
            Some(RakClientOutput::Pong(addr, message, sent)) => {
                self.pongs.push_back((addr, message, sent));
                assert(self@.pongs =~= before.pongs.push((addr, message@, sent)));
                assert(self@ =~= before.taken());
                Some(RakClientAction::Nothing)
            },
        }
    }
}

/// Sorts what the session put out: packets go to `received`, and what is to be sent is
/// returned, with why the session is over if it is.
fn drain_session(outputs: Vec<RakSessionOutput>, received: &mut VecDeque<Vec<u8>>) -> (r: (
    Vec<(Vec<u8>, SocketAddr)>,
    Option<RakDisconnectReason>,
))
    ensures
        plain_received(final(received)@) == plain_received(old(received)@) + packets(outputs@),
        plain_datagrams(r.0@) == datagrams(outputs@),
        r.1 == end(outputs@),
{
    let ghost all = outputs@;
    let mut sent: Vec<(Vec<u8>, SocketAddr)> = Vec::new();
    let mut disconnected: Option<RakDisconnectReason> = None;
    assert(plain_received(received@) =~= plain_received(old(received)@) + packets(all.take(0)));
    assert(plain_datagrams(sent@) =~= datagrams(all.take(0)));
    for output in it: outputs
        invariant
            it.seq() == all,
            plain_received(received@) == plain_received(old(received)@) + packets(
                all.take(it.index()),
            ),
            plain_datagrams(sent@) == datagrams(all.take(it.index())),
            disconnected == end(all.take(it.index())),
    {
        let ghost taken = all.take(it.index() + 1);
        assert(taken.drop_last() =~= all.take(it.index()));
        assert(taken.last() == output);
        match output {
            RakSessionOutput::Datagram(buf, addr) => {
                let ghost earlier = sent@;
                sent.push((buf, addr));
                assert(plain_datagrams(sent@) =~= plain_datagrams(earlier).push((buf@, addr)));
            },
            RakSessionOutput::Packet(buf) => {
                let ghost earlier = received@;
                received.push_back(buf);
                assert(plain_received(received@) =~= plain_received(earlier).push(buf@));
            },
            RakSessionOutput::Disconnected(_, reason) => {
                disconnected = Some(reason);
            },
            RakSessionOutput::Wait(_) => {},
        }
    }
    assert(all.take(all.len() as int) =~= all);
    (sent, disconnected)
}

/// When a session says that it is over the client is not connected any more, tells so once with
/// the reason, keeps what was received, and can connect again.
pub proof fn end_of_session_is_told<P>(
    c: RakClientTurn<P>,
    outputs: Seq<RakSessionOutput>,
    remote: SocketAddr,
    now: SystemTime,
)
    requires
        end(outputs) is Some,
    ensures
        ({
            let after = c.drained(outputs);
            &&& after.session is None
            &&& after.events == c.events.push(
                RakClientEvent::Disconnected { reason: end(outputs)->0 },
            )
            &&& after.received == c.received + packets(outputs)
            &&& after.intl.state == RakClientState::Unconnected
            &&& after.intl.connects(remote, now).0.state == RakClientState::Handshake1(remote)
        }),
{
}

/// While a session does not say that it is over, it stays.
pub proof fn session_stays<P>(c: RakClientTurn<P>, outputs: Seq<RakSessionOutput>)
    requires
        forall|i: int|
            0 <= i < outputs.len() ==> !((#[trigger] outputs[i]) is Disconnected),
    ensures
        c.drained(outputs) == (RakClientTurn { received: c.received + packets(outputs), ..c }),
{
    no_end(outputs);
}

/// Outputs none of which says that the session is over do not tell why.
proof fn no_end(outputs: Seq<RakSessionOutput>)
    requires
        forall|i: int|
            0 <= i < outputs.len() ==> !((#[trigger] outputs[i]) is Disconnected),
    ensures
        end(outputs) is None,
    decreases outputs.len(),
{
    if outputs.len() > 0 {
        let rest = outputs.drop_last();
        assert forall|i: int| 0 <= i < rest.len() implies !((#[trigger] rest[i]) is Disconnected) by {
            assert(rest[i] == outputs[i]);
        }
        no_end(rest);
        assert(!(outputs[outputs.len() - 1] is Disconnected));
    }
}

/// What the inner client puts out as connected is the session from then on, and is told of
/// once.
pub proof fn connected_session_is_told<P>(c: RakClientTurn<P>, session: RakSession<P>)
    requires
        c.intl.output.len() > 0,
        c.intl.output[0] == RakClientOutputView::SessionConnected(session),
    ensures
        c.taken().session == Some(session),
        c.taken().events == c.events.push(RakClientEvent::Connected),
        c.taken().intl.output == c.intl.output.drop_first(),
{
}

} // verus!

//! The client's side of connecting: it asks servers who they are, and agrees with one on a
//! session.
//!
//! A client does no input or output of its own. It is given inputs, and polled for outputs.

pub mod config;
pub mod error;
pub mod exchange;
pub mod input;
pub mod laws;
pub mod model;
pub mod output;
pub mod rules;
pub mod state;

use crate::client::config::RakClientConfig;
use crate::client::error::RakClientError;
use crate::client::input::{
    RakClientExchange, RakClientInput, RakClientStep, RakClientStepView,
};
use crate::client::model::{clamped, timestamp, unspecified, RakClientModel};
use crate::client::output::RakClientOutput;
use crate::client::state::RakClientState;
use crate::net::{SocketAddr, SocketAddrV4};
use crate::protocol::packets::connection::{
    ConnectionRequest, ConnectionRequestAccepted, ConnectionRequestAcceptedView,
    NewIncomingConnection,
};
use crate::protocol::packets::open_connection::{
    OpenConnectionReply1, OpenConnectionReply2, OpenConnectionRequest1, OpenConnectionRequest2,
};
use crate::protocol::packets::ping::{UnconnectedPing, UnconnectedPong};
use crate::session::state::RakSessionState;
use crate::session::{
    RakSession, RakSessionError, RakSessionId, RakSessionInput, RakSessionOutput,
    DEFAULT_ORDERING_CHANNELS,
};
use crate::time::{truncate_u64, Duration, SystemTime};
use crate::types::priority::RakPriority;
use crate::types::reliability::RakReliability;
use crate::util::{constants, packet_id};
use std::collections::VecDeque;
use vstd::prelude::*;

verus! {

/// A client. Its view is what it is; what each input makes of it is told there.
#[derive(Clone, Debug)]
pub struct RakClient<P> {
    config: RakClientConfig,
    state: RakClientState,
    attempts: usize,
    mtu: u16,
    cookie: Option<i32>,
    session: Option<RakSession<P>>,
    connect_started: SystemTime,
    last_attempt: SystemTime,
    output: VecDeque<RakClientOutput<P>>,
}

impl<P> View for RakClient<P> {
    type V = RakClientModel<P>;

    closed spec fn view(&self) -> RakClientModel<P> {
        RakClientModel {
            config: self.config,
            state: self.state,
            attempts: self.attempts,
            mtu: self.mtu,
            cookie: self.cookie,
            session: self.session,
            connect_started: self.connect_started,
            last_attempt: self.last_attempt,
            output: self.output@.map_values(|o: RakClientOutput<P>| o@),
        }
    }
}

/// `x` within the limits `min` and `max`.
fn clamp(x: u16, min: u16, max: u16) -> (y: u16)
    requires
        min <= max,
    ensures
        y == clamped(x, min, max),
{
    if x < min {
        min
    } else if x > max {
        max
    } else {
        x
    }
}

/// The milliseconds of a packet's timestamp, unless the time lies before the Unix epoch.
fn timestamp_at(now: SystemTime) -> (r: Result<u64, RakClientError>)
    ensures
        match r {
            Ok(t) => now@ >= 0 && t == timestamp(now),
            Err(e) => now@ < 0 && e == RakClientError::Time,
        },
{
    match now.duration_since(SystemTime::unix_epoch()) {
        Ok(d) => Ok(truncate_u64(d.as_millis())),
        Err(_) => Err(RakClientError::Time),
    }
}

impl<P> RakClient<P> {
    /// What holds of a client at all times.
    pub open spec fn wf(&self) -> bool {
        self@.inv()
    }

    /// A client that nothing has happened to, made at `now`.
    pub fn new(config: RakClientConfig, now: SystemTime) -> (client: RakClient<P>)
        ensures
            client.wf(),
            client@ == RakClientModel::<P>::created(config, now),
    {
        let client = RakClient {
            config,
            state: RakClientState::Unconnected,
            attempts: 0,
            mtu: 0,
            cookie: None,
            session: None,
            connect_started: now,
            last_attempt: now,
            output: VecDeque::new(),
        };
        assert(client@ =~= RakClientModel::<P>::created(config, now));
        client
    }

    /// Puts out `output`.
    fn push(&mut self, output: RakClientOutput<P>)
        ensures
            final(self)@ == old(self)@.put_out(output@),
    {
        self.output.push_back(output);
        assert(self@ =~= old(self)@.put_out(output@));
    }

    /// Asks the server at `addr` who it is.
    fn handle_ping(&mut self, addr: SocketAddr, now: SystemTime) -> (r: Result<(), RakClientError>)
        ensures
            (final(self)@, r) == old(self)@.pings(addr, now),
    {
        match self.state {
            RakClientState::Unconnected => {},
            _ => {
                return Ok(());
            },
        }
        let timestamp: u64 = match timestamp_at(now) {
            Ok(t) => t,
            Err(e) => {
                return Err(e);
            },
        };
        let ping = UnconnectedPing { timestamp, client: self.config.guid };
        let mut buf: Vec<u8> = Vec::new();
        ping.serialize(&mut buf);
        assert(buf@ =~= ping.bytes());
        self.push(RakClientOutput::SocketDatagram(buf, addr));
        Ok(())
    }

    /// Begins to connect to the server at `remote`.
    fn handle_connect(&mut self, remote: SocketAddr, now: SystemTime) -> (r: Result<
        (),
        RakClientError,
    >)
        requires
            old(self)@.state == RakClientState::Unconnected ==> old(self)@.connecting(
                remote,
                now,
            ).admits_time(now),
        ensures
            (final(self)@, r) == old(self)@.connects(remote, now),
    {
        match self.state {
            RakClientState::Unconnected => {},
            _ => {
                return Ok(());
            },
        }
        let ghost before = self@;
        self.state = RakClientState::Handshake1(remote);
        self.attempts = 0;
        self.connect_started = now;
        self.last_attempt = match now.checked_sub(self.config.conn_attempt_interval) {
            Some(t) => t,
            None => now,
        };
        assert(self@ =~= before.connecting(remote, now));
        self.handle_timeout(now)
    }

    /// Deals with the passing of time.
    fn handle_timeout(&mut self, now: SystemTime) -> (r: Result<(), RakClientError>)
        requires
            old(self)@.admits_time(now),
        ensures
            (final(self)@, r) == old(self)@.timed(now),
    {
        if let RakClientState::Unconnected = self.state {
            self.push(RakClientOutput::Wait(self.config.conn_attempt_interval));
            return Ok(());
        }
        let deadline: SystemTime = self.connect_started.after(self.config.conn_attempt_timeout);
        if now.reached(deadline) {
            return Err(RakClientError::ConnectionFailed);
        }
        let ghost before = self@;
        if now.reached(self.last_attempt.after(self.config.conn_attempt_interval)) {
            if self.attempts < self.config.conn_attempt_max {
                match self.state {
                    RakClientState::Handshake1(addr) => {
                        self.send_open_connection_request_1(addr);
                        self.attempts = self.attempts + 1;
                        self.last_attempt = now;
                        assert(self@ =~= before.attempts_again(now));
                    },
                    RakClientState::Handshake2(addr) => {
                        self.send_open_connection_request_2(addr);
                        self.attempts = self.attempts + 1;
                        self.last_attempt = now;
                        assert(self@ =~= before.attempts_again(now));
                    },
                    _ => {},
                }
            } else {
                return Err(RakClientError::ConnectionFailed);
            }
        }
        let next_attempt: SystemTime = self.last_attempt.after(self.config.conn_attempt_interval);
        let next: SystemTime = if deadline.reached(next_attempt) {
            next_attempt
        } else {
            deadline
        };
        let duration: Duration = next.since(now);
        self.push(RakClientOutput::Wait(duration));
        Ok(())
    }

    /// Sends the first request.
    fn send_open_connection_request_1(&mut self, addr: SocketAddr)
        requires
            old(self)@.config.min_mtu_size <= old(self)@.config.max_mtu_size,
        ensures
            final(self)@ == old(self)@.sends_request_1(addr),
    {
        let last: usize = constants::MTU_SIZES.len() - 1;
        let index: usize = if self.attempts < last {
            self.attempts
        } else {
            last
        };
        let mtu: u16 = clamp(
            constants::MTU_SIZES[last - index],
            self.config.min_mtu_size,
            self.config.max_mtu_size,
        );
        let request = OpenConnectionRequest1 { protocol: self.config.protocol, mtu };
        let mut buf: Vec<u8> = Vec::new();
        request.serialize(&mut buf);
        assert(buf@ =~= request.bytes());
        self.push(RakClientOutput::SocketDatagram(buf, addr));
    }

    /// Deals with the answer to the first request.
    fn handle_open_connection_reply_1(&mut self, buf: &[u8], addr: SocketAddr) -> (r: Result<
        (),
        RakClientError,
    >)
        ensures
            (final(self)@, r) == old(self)@.replied_1(buf@, addr),
    {
        let reply = match OpenConnectionReply1::deserialize(buf) {
            Ok(reply) => reply,
            Err(e) => {
                return Err(RakClientError::Codec(e));
            },
        };
        self.mtu = reply.mtu;
        self.cookie = reply.cookie;
        self.state = RakClientState::Handshake2(addr);
        self.send_open_connection_request_2(addr);
        Ok(())
    }

    /// Sends the second request.
    fn send_open_connection_request_2(&mut self, addr: SocketAddr)
        ensures
            final(self)@ == old(self)@.sends_request_2(addr),
    {
        let request = OpenConnectionRequest2 {
            cookie: self.cookie,
            addr,
            mtu: self.mtu,
            client: self.config.guid,
        };
        let mut buf: Vec<u8> = Vec::new();
        request.serialize(&mut buf);
        assert(buf@ =~= request.bytes());
        self.push(RakClientOutput::SocketDatagram(buf, addr));
    }

    /// Deals with the answer to the second request: opens the session, and asks through it to
    /// be connected.
    fn handle_open_connection_reply_2(
        &mut self,
        buf: &[u8],
        addr: SocketAddr,
        now: SystemTime,
    ) -> (r: Result<RakClientStep, RakClientError>)
        ensures
            final(self)@ == old(self)@.replied_2(buf@, addr, now).0,
            match r {
                Ok(step) => old(self)@.replied_2(buf@, addr, now).1 == Ok::<
                    RakClientStepView,
                    RakClientError,
                >(step@),
                Err(e) => old(self)@.replied_2(buf@, addr, now).1 == Err::<
                    RakClientStepView,
                    RakClientError,
                >(e),
            },
    {
        let reply = match OpenConnectionReply2::deserialize(buf) {
            Ok(reply) => reply,
            Err(e) => {
                return Err(RakClientError::Codec(e));
            },
        };
        if reply.security {
            return Err(RakClientError::SecurityUnsupported);
        }
        self.mtu = reply.mtu;
        self.state = RakClientState::HandshakeCompleted(addr);
        let client_timestamp: u64 = match timestamp_at(now) {
            Ok(t) => t,
            Err(e) => {
                return Err(e);
            },
        };
        let request = ConnectionRequest {
            security: false,
            client_timestamp,
            client_guid: self.config.guid,
        };
        let mut buf: Vec<u8> = Vec::new();
        request.serialize(&mut buf);
        assert(buf@ =~= request.bytes());
        let session = RakSession::new(
            RakSessionId(0),
            addr,
            self.config.guid,
            self.mtu,
            DEFAULT_ORDERING_CHANNELS,
        );
        self.session = Some(session);
        let input = RakSessionInput::Send(
            buf,
            RakReliability::ReliableOrdered,
            RakPriority::Immediate,
            now,
        );
        Ok(RakClientStep::Handle(input, RakClientExchange { opening: true, success: None, now }))
    }

    /// Deals with a datagram from the server during the handshake.
    fn handle_handshake(&mut self, buf: &[u8], remote: SocketAddr, now: SystemTime) -> (r: Result<
        RakClientStep,
        RakClientError,
    >)
        ensures
            final(self)@ == old(self)@.handshake(buf@, remote, now).0,
            match r {
                Ok(step) => old(self)@.handshake(buf@, remote, now).1 == Ok::<
                    RakClientStepView,
                    RakClientError,
                >(step@),
                Err(e) => old(self)@.handshake(buf@, remote, now).1 == Err::<
                    RakClientStepView,
                    RakClientError,
                >(e),
            },
    {
        if buf.len() == 0 {
            return Ok(RakClientStep::Done);
        }
        let b: u8 = buf[0];
        if b == packet_id::OPEN_CONNECTION_REPLY_1 {
            match self.handle_open_connection_reply_1(buf, remote) {
                Ok(_) => Ok(RakClientStep::Done),
                Err(e) => Err(e),
            }
        } else if b == packet_id::OPEN_CONNECTION_REPLY_2 {
            self.handle_open_connection_reply_2(buf, remote, now)
        } else if b == packet_id::INCOMPATIBLE_PROTOCOL {
            Err(RakClientError::IncompatibleProtocol)
        } else if b == packet_id::ALREADY_CONNECTED {
            Err(RakClientError::AlreadyConnected)
        } else if b == packet_id::NO_FREE_INCOMING_CONNECTIONS {
            Err(RakClientError::NoFreeIncomingConnections)
        } else if b == packet_id::IP_RECENTLY_CONNECTED {
            Err(RakClientError::RecentlyConnected)
        } else {
            Ok(RakClientStep::Done)
        }
    }

    /// Deals with a datagram while not connected.
    fn handle_pong(&mut self, buf: &[u8], addr: SocketAddr) -> (r: Result<(), RakClientError>)
        ensures
            (final(self)@, r) == old(self)@.ponged(buf@, addr),
    {
        if buf.len() > 0 && buf[0] == packet_id::UNCONNECTED_PONG {
            match UnconnectedPong::deserialize(buf) {
                Err(e) => Err(RakClientError::Codec(e)),
                Ok(pong) => {
                    let sent: SystemTime = SystemTime::unix_epoch().after(
                        Duration::from_millis(pong.timestamp),
                    );
                    self.push(RakClientOutput::Pong(addr, pong.message, sent));
                    Ok(())
                },
            }
        } else {
            Ok(())
        }
    }

    /// Deals with a datagram.
    fn handle_datagram(&mut self, buf: Vec<u8>, addr: SocketAddr, now: SystemTime) -> (r: Result<
        RakClientStep,
        RakClientError,
    >)
        ensures
            final(self)@ == old(self)@.received(buf@, addr, now).0,
            match r {
                Ok(step) => old(self)@.received(buf@, addr, now).1 == Ok::<
                    RakClientStepView,
                    RakClientError,
                >(step@),
                Err(e) => old(self)@.received(buf@, addr, now).1 == Err::<
                    RakClientStepView,
                    RakClientError,
                >(e),
            },
    {
        match self.state {
            RakClientState::HandshakeCompleted(remote) => {
                if remote != addr {
                    return Ok(RakClientStep::Done);
                }
                if self.session.is_some() {
                    let exchange = RakClientExchange { opening: false, success: None, now };
                    Ok(RakClientStep::Handle(RakSessionInput::Datagram(buf, now), exchange))
                } else {
                    self.push(RakClientOutput::SessionDatagram(buf));
                    Ok(RakClientStep::Done)
                }
            },
            RakClientState::Unconnected => match self.handle_pong(buf.as_slice(), addr) {
                Ok(_) => Ok(RakClientStep::Done),
                Err(e) => Err(e),
            },
            RakClientState::Handshake1(remote) | RakClientState::Handshake2(remote) => {
                if remote != addr {
                    return Ok(RakClientStep::Done);
                }
                self.handle_handshake(buf.as_slice(), remote, now)
            },
        }
    }

    /// Deals with an input, as far as the client can by itself. What is to be done for its
    /// session is returned; the input is dealt with when that is done.
    pub fn handle(&mut self, msg: RakClientInput) -> (r: Result<RakClientStep, RakClientError>)
        requires
            old(self).wf(),
            old(self)@.admits(msg),
        ensures
            final(self).wf(),
            final(self)@ == old(self)@.handled(msg).0,
            match r {
                Ok(step) => old(self)@.handled(msg).1 == Ok::<RakClientStepView, RakClientError>(
                    step@,
                ),
                Err(e) => old(self)@.handled(msg).1 == Err::<RakClientStepView, RakClientError>(e),
            },
    {
        match msg {
            RakClientInput::Ping(addr, now) => match self.handle_ping(addr, now) {
                Ok(_) => Ok(RakClientStep::Done),
                Err(e) => Err(e),
            },
            RakClientInput::Connect(remote, now) => match self.handle_connect(remote, now) {
                Ok(_) => Ok(RakClientStep::Done),
                Err(e) => Err(e),
            },
            RakClientInput::Datagram(buf, addr, now) => self.handle_datagram(buf, addr, now),
            RakClientInput::Update(now) => match self.handle_timeout(now) {
                Ok(_) => Ok(RakClientStep::Done),
                Err(e) => Err(e),
            },
            RakClientInput::Disconnect => {
                self.state = RakClientState::Unconnected;
                self.session = None;
                Ok(RakClientStep::Done)
            },
        }
    }

    /// Goes on after the protocol of the session was given an input.
    pub fn session_handled(
        &mut self,
        exchange: RakClientExchange,
        result: Result<(), RakSessionError>,
    ) -> (r: Result<RakClientStep, RakClientError>)
        requires
            old(self).wf(),
        ensures
            final(self).wf(),
            final(self)@ == old(self)@.session_handled(exchange, result).0,
            match r {
                Ok(step) => old(self)@.session_handled(exchange, result).1 == Ok::<
                    RakClientStepView,
                    RakClientError,
                >(step@),
                Err(e) => old(self)@.session_handled(exchange, result).1 == Err::<
                    RakClientStepView,
                    RakClientError,
                >(e),
            },
    {
        match result {
            Ok(_) => Ok(RakClientStep::Poll(exchange)),
            Err(e) => {
                if exchange.opening {
                    self.session = None;
                }
                Err(RakClientError::Session(e))
            },
        }
    }

    /// Deals with the acceptance of the connection: marks the session as connected, and
    /// returns what is to be sent through it.
    fn handle_connection_request_accepted(
        session: &mut RakSession<P>,
        buf: &[u8],
        now: SystemTime,
    ) -> (r: Result<RakSessionInput, RakClientError>)
        ensures
            match ConnectionRequestAcceptedView::parsed(buf@) {
                Err(c) => r == Err::<RakSessionInput, RakClientError>(RakClientError::Codec(c))
                    && *final(session) == *old(session),
                Ok(accepted) => *final(session) == (RakSession {
                    state: RakSessionState::Connected,
                    ..*old(session)
                }) && match r {
                    Ok(input) => now@ >= 0 && input@ == crate::session::RakSessionInputView::Send(
                        RakClientModel::<P>::incoming(old(session).addr, accepted, now).bytes(),
                        RakReliability::ReliableOrdered,
                        RakPriority::Immediate,
                        now,
                    ),
                    Err(e) => now@ < 0 && e == RakClientError::Time,
                },
            },
    {
        let accepted = match ConnectionRequestAccepted::deserialize(buf) {
            Ok(accepted) => accepted,
            Err(e) => {
                return Err(RakClientError::Codec(e));
            },
        };
        session.state = RakSessionState::Connected;
        let server_timestamp: u64 = match timestamp_at(now) {
            Ok(t) => t,
            Err(e) => {
                return Err(e);
            },
        };
        let none: SocketAddr = SocketAddr::V4(SocketAddrV4 { ip: 0, port: 0 });
        let mut internal_addresses: Vec<SocketAddr> = Vec::new();
        let mut i: usize = 0;
        while i < 10
            invariant
                i <= 10,
                none == unspecified(),
                internal_addresses@ == Seq::new(i as nat, |j: int| unspecified()),
            decreases 10 - i,
        {
            internal_addresses.push(none);
            i = i + 1;
            assert(internal_addresses@ =~= Seq::new(i as nat, |j: int| unspecified()));
        }
        let incoming = NewIncomingConnection {
            server_address: session.addr,
            internal_addresses,
            incoming_timestamp: accepted.timestamp,
            server_timestamp,
        };
        let mut buf: Vec<u8> = Vec::new();
        incoming.serialize(&mut buf);
        assert(incoming@ =~= RakClientModel::<P>::incoming(session.addr, accepted@, now));
        assert(buf@ =~= incoming@.bytes());
        Ok(RakSessionInput::Send(buf, RakReliability::ReliableOrdered, RakPriority::Immediate, now))
    }

    /// Goes on after the protocol of the session was asked for an output.
    pub fn session_polled(
        &mut self,
        exchange: RakClientExchange,
        output: Option<RakSessionOutput>,
    ) -> (r: Result<RakClientStep, RakClientError>)
        requires
            old(self).wf(),
        ensures
            final(self).wf(),
            final(self)@ == old(self)@.session_polled(exchange, output).0,
            match r {
                Ok(step) => old(self)@.session_polled(exchange, output).1 == Ok::<
                    RakClientStepView,
                    RakClientError,
                >(step@),
                Err(e) => old(self)@.session_polled(exchange, output).1 == Err::<
                    RakClientStepView,
                    RakClientError,
                >(e),
            },
    {
        let ghost before = self@;
        match self.session.take() {
            None => {
                assert(self@ =~= before);
                Ok(RakClientStep::Done)
            },
            Some(mut session) => match output {
                None => match exchange.success {
                    None => {
                        self.session = Some(session);
                        assert(self@ =~= before);
                        Ok(RakClientStep::Done)
                    },
                    Some(true) => {
                        self.push(RakClientOutput::SessionConnected(Box::new(session)));
                        Ok(RakClientStep::Done)
                    },
                    Some(false) => Err(RakClientError::ConnectionAttemptFailed),
                },
                Some(RakSessionOutput::Datagram(buf, addr)) => {
                    self.session = Some(session);
                    assert(self@ =~= before);
                    self.push(RakClientOutput::SocketDatagram(buf, addr));
                    Ok(RakClientStep::Poll(exchange))
                },
                Some(RakSessionOutput::Packet(buf)) => {
                    if exchange.opening || buf.len() == 0 {
                        self.session = Some(session);
                        assert(self@ =~= before);
                        Ok(RakClientStep::Poll(exchange))
                    } else if buf[0] == packet_id::CONNECTION_REQUEST_ACCEPTED {
                        let sent = Self::handle_connection_request_accepted(
                            &mut session,
                            buf.as_slice(),
                            exchange.now,
                        );
                        self.session = Some(session);
                        match sent {
                            Ok(input) => Ok(
                                RakClientStep::Handle(
                                    input,
                                    RakClientExchange { success: Some(true), ..exchange },
                                ),
                            ),
                            Err(e) => {
                                assert(self@ =~= before.accepted(
                                    before.session->0,
                                    buf@,
                                    exchange,
                                ).0);
                                Err(e)
                            },
                        }
                    } else if buf[0] == packet_id::CONNECTION_ATTEMPT_FAILED {
                        self.session = Some(session);
                        assert(self@ =~= before);
                        Ok(
                            RakClientStep::Handle(
                                RakSessionInput::Disconnect(exchange.now),
                                RakClientExchange { success: Some(false), ..exchange },
                            ),
                        )
                    } else {
                        self.session = Some(session);
                        assert(self@ =~= before);
                        Ok(RakClientStep::Poll(exchange))
                    }
                },
                Some(_) => {
                    self.session = Some(session);
                    assert(self@ =~= before);
                    Ok(RakClientStep::Poll(exchange))
                },
            },
        }
    }

    /// The next output, in the order in which they were put out.
    pub fn poll(&mut self) -> (output: Option<RakClientOutput<P>>)
        requires
            old(self).wf(),
        ensures
            final(self).wf(),
            match output {
                Some(output) => old(self)@.output.len() > 0 && output@ == old(self)@.output[0]
                    && final(self)@ == (RakClientModel {
                    output: old(self)@.output.drop_first(),
                    ..old(self)@
                }),
                None => old(self)@.output.len() == 0 && final(self)@ == old(self)@,
            },
    {
        let ghost before = self@;
        let output = self.output.pop_front();
        proof {
            if output is Some {
                assert(self@.output =~= before.output.drop_first());
            } else {
                assert(self@.output =~= before.output);
            }
        }
        output
    }

    /// How far the client has come.
    pub fn state(&self) -> (state: RakClientState)
        ensures
            state == self@.state,
    {
        self.state
    }

    /// The session, until it is connected.
    pub fn session(&self) -> (session: Option<&RakSession<P>>)
        ensures
            match session {
                Some(session) => self@.session == Some(*session),
                None => self@.session is None,
            },
    {
        self.session.as_ref()
    }

    /// The protocol of the session, until that is connected, to be run.
    pub fn protocol_mut(&mut self) -> (protocol: Option<&mut Option<P>>)
        requires
            old(self).wf(),
        ensures
            final(self).wf(),
            match protocol {
                Some(protocol) => (old(self)@.session matches Some(session) && *protocol
                    == session.protocol) && final(self)@ == old(self)@.with_protocol(
                    *final(protocol),
                ),
                None => old(self)@.session is None && final(self)@ == old(self)@,
            },
    {
        match self.session.as_mut() {
            Some(session) => Some(&mut session.protocol),
            None => None,
        }
    }

    /// Whether `handle` can tell the moments and sizes that it computes for an input.
    pub fn admits(&self, msg: &RakClientInput) -> (b: bool)
        ensures
            b == self@.admits(*msg),
    {
        match msg {
            RakClientInput::Connect(_, now) => match self.state {
                RakClientState::Unconnected => {
                    let last: SystemTime = match now.checked_sub(
                        self.config.conn_attempt_interval,
                    ) {
                        Some(t) => t,
                        None => *now,
                    };
                    self.admits_time(true, *now, last, 0, *now)
                },
                _ => true,
            },
            RakClientInput::Update(now) => match self.state {
                RakClientState::Unconnected => true,
                RakClientState::Handshake1(_) => self.admits_time(
                    true,
                    self.connect_started,
                    self.last_attempt,
                    self.attempts,
                    *now,
                ),
                RakClientState::Handshake2(_) => self.admits_time(
                    false,
                    self.connect_started,
                    self.last_attempt,
                    self.attempts,
                    *now,
                ),
                RakClientState::HandshakeCompleted(_) => self.connect_started.has_after(
                    self.config.conn_attempt_timeout,
                ) && (now.reached(
                    self.connect_started.after(self.config.conn_attempt_timeout),
                ) || self.last_attempt.has_after(self.config.conn_attempt_interval)),
            },
            _ => true,
        }
    }

    /// The same as time passes during the handshake.
    fn admits_time(
        &self,
        first: bool,
        started: SystemTime,
        last: SystemTime,
        attempts: usize,
        now: SystemTime,
    ) -> (b: bool)
        ensures
            forall|m: RakClientModel<P>|
                m.config == self@.config && m.connect_started == started && m.last_attempt == last
                    && m.attempts == attempts && (if first {
                    m.state is Handshake1
                } else {
                    m.state is Handshake2
                }) ==> b == #[trigger] m.admits_time(now),
    {
        let config = &self.config;
        started.has_after(config.conn_attempt_timeout) && (now.reached(
            started.after(config.conn_attempt_timeout),
        ) || (last.has_after(config.conn_attempt_interval) && (!now.reached(
            last.after(config.conn_attempt_interval),
        ) || attempts >= config.conn_attempt_max || (now.has_after(config.conn_attempt_interval)
            && (!first || config.min_mtu_size <= config.max_mtu_size)))))
    }
}

} // verus!

//! What a client is, and what each input makes of it.

use crate::client::config::RakClientConfig;
use crate::client::error::RakClientError;
use crate::client::input::{RakClientExchange, RakClientInput, RakClientStepView};
use crate::client::output::RakClientOutputView;
use crate::client::state::RakClientState;
use crate::net::{SocketAddr, SocketAddrV4};
use crate::protocol::packets::connection::{
    ConnectionRequest, ConnectionRequestAcceptedView, NewIncomingConnectionView,
};
use crate::protocol::packets::open_connection::{
    OpenConnectionReply1, OpenConnectionReply2, OpenConnectionRequest1, OpenConnectionRequest2,
};
use crate::protocol::packets::ping::{UnconnectedPing, UnconnectedPongView};
use crate::session::state::RakSessionState;
use crate::session::{
    RakSession, RakSessionError, RakSessionId, RakSessionInputView, RakSessionOutput,
    DEFAULT_ORDERING_CHANNELS,
};
use crate::time::{low_u64, Duration, SystemTime};
use crate::types::priority::RakPriority;
use crate::types::reliability::RakReliability;
use crate::util::{constants, packet_id};
use vstd::prelude::*;

verus! {

/// What a client is.
#[verifier::ext_equal]
pub struct RakClientModel<P> {
    pub config: RakClientConfig,
    pub state: RakClientState,
    /// How often the server was asked since connecting began.
    pub attempts: usize,
    /// The datagram size that the server agreed to, and the cookie that it gave.
    pub mtu: u16,
    pub cookie: Option<i32>,
    /// The session, until it is connected.
    pub session: Option<RakSession<P>>,
    pub connect_started: SystemTime,
    pub last_attempt: SystemTime,
    /// What is still to be polled.
    pub output: Seq<RakClientOutputView<P>>,
}

/// The milliseconds of a packet's timestamp for the moment `now`.
pub open spec fn timestamp(now: SystemTime) -> u64 {
    low_u64(now@ / 1_000_000)
}

/// `x` within the limits `min` and `max`.
pub open spec fn clamped(x: u16, min: u16, max: u16) -> u16 {
    if x < min {
        min
    } else if x > max {
        max
    } else {
        x
    }
}

/// The datagram size that the attempt after `attempts` others tries: the largest at first, a
/// smaller one each time, the smallest from then on.
pub open spec fn tried_mtu(config: RakClientConfig, attempts: usize) -> u16 {
    let last = constants::MTU_SIZES@.len() - 1;
    let index = if attempts < last {
        attempts as int
    } else {
        last
    };
    clamped(constants::MTU_SIZES@[last - index], config.min_mtu_size, config.max_mtu_size)
}

/// The address that stands for none.
pub open spec fn unspecified() -> SocketAddr {
    SocketAddr::V4(SocketAddrV4 { ip: 0, port: 0 })
}

impl<P> RakClientModel<P> {
    /// What holds of a client at all times: it has a session only once the handshake is over,
    /// and then with the server that it was with.
    pub open spec fn inv(self) -> bool {
        self.session matches Some(session) ==> self.state == RakClientState::HandshakeCompleted(
            session.addr,
        )
    }

    /// A client that nothing has happened to.
    pub open spec fn created(config: RakClientConfig, now: SystemTime) -> RakClientModel<P> {
        RakClientModel {
            config,
            state: RakClientState::Unconnected,
            attempts: 0,
            mtu: 0,
            cookie: None,
            session: None,
            connect_started: now,
            last_attempt: now,
            output: Seq::empty(),
        }
    }

    /// The client with one more output.
    pub open spec fn put_out(self, output: RakClientOutputView<P>) -> RakClientModel<P> {
        RakClientModel { output: self.output.push(output), ..self }
    }

    /// The client with one more packet to send.
    pub open spec fn sends(self, bytes: Seq<u8>, addr: SocketAddr) -> RakClientModel<P> {
        self.put_out(RakClientOutputView::SocketDatagram(bytes, addr))
    }

    /// What asking who a server is makes of the client: only one that is not connected asks.
    pub open spec fn pings(self, addr: SocketAddr, now: SystemTime) -> (RakClientModel<P>, Result<
        (),
        RakClientError,
    >) {
        if self.state != RakClientState::Unconnected {
            (self, Ok(()))
        } else if now@ < 0 {
            (self, Err(RakClientError::Time))
        } else {
            let ping = UnconnectedPing { timestamp: timestamp(now), client: self.config.guid };
            (self.sends(ping.bytes(), addr), Ok(()))
        }
    }

    /// The client with its first request sent.
    pub open spec fn sends_request_1(self, addr: SocketAddr) -> RakClientModel<P> {
        let request = OpenConnectionRequest1 {
            protocol: self.config.protocol,
            mtu: tried_mtu(self.config, self.attempts),
        };
        self.sends(request.bytes(), addr)
    }

    /// The client with its second request sent.
    pub open spec fn sends_request_2(self, addr: SocketAddr) -> RakClientModel<P> {
        let request = OpenConnectionRequest2 {
            cookie: self.cookie,
            addr,
            mtu: self.mtu,
            client: self.config.guid,
        };
        self.sends(request.bytes(), addr)
    }

    /// When connecting has taken too long.
    pub open spec fn deadline(self) -> int {
        self.connect_started@ + self.config.conn_attempt_timeout@
    }

    /// When the server is to be asked again.
    pub open spec fn next_attempt(self) -> int {
        self.last_attempt@ + self.config.conn_attempt_interval@
    }

    /// The client with the request of its handshake sent once more.
    pub open spec fn attempts_again(self, now: SystemTime) -> RakClientModel<P> {
        match self.state {
            RakClientState::Handshake1(addr) => RakClientModel {
                attempts: (self.attempts + 1) as usize,
                last_attempt: now,
                ..self.sends_request_1(addr)
            },
            RakClientState::Handshake2(addr) => RakClientModel {
                attempts: (self.attempts + 1) as usize,
                last_attempt: now,
                ..self.sends_request_2(addr)
            },
            _ => self,
        }
    }

    /// The client with a wait put out, until the next attempt or the deadline.
    pub open spec fn waits(self, now: SystemTime) -> RakClientModel<P> {
        let next = if self.next_attempt() <= self.deadline() {
            self.next_attempt()
        } else {
            self.deadline()
        };
        let nanos = if next >= now@ {
            next - now@
        } else {
            0
        };
        self.put_out(RakClientOutputView::Wait(Duration { nanos: nanos as u128 }))
    }

    /// What the passing of time makes of the client.
    pub open spec fn timed(self, now: SystemTime) -> (RakClientModel<P>, Result<
        (),
        RakClientError,
    >) {
        if self.state == RakClientState::Unconnected {
            (self.put_out(RakClientOutputView::Wait(self.config.conn_attempt_interval)), Ok(()))
        } else if now@ >= self.deadline() {
            (self, Err(RakClientError::ConnectionFailed))
        } else if now@ < self.next_attempt() {
            (self.waits(now), Ok(()))
        } else if self.attempts < self.config.conn_attempt_max {
            (self.attempts_again(now).waits(now), Ok(()))
        } else {
            (self, Err(RakClientError::ConnectionFailed))
        }
    }

    /// The client as it begins to connect, so that the first attempt is due at once.
    pub open spec fn connecting(self, remote: SocketAddr, now: SystemTime) -> RakClientModel<P> {
        let due = now@ - self.config.conn_attempt_interval@;
        RakClientModel {
            state: RakClientState::Handshake1(remote),
            attempts: 0,
            connect_started: now,
            last_attempt: if due >= i128::MIN {
                SystemTime { nanos: due as i128 }
            } else {
                now
            },
            ..self
        }
    }

    /// What connecting makes of the client: only one that is not connected does.
    pub open spec fn connects(self, remote: SocketAddr, now: SystemTime) -> (
        RakClientModel<P>,
        Result<(), RakClientError>,
    ) {
        if self.state != RakClientState::Unconnected {
            (self, Ok(()))
        } else {
            self.connecting(remote, now).timed(now)
        }
    }

    /// What the answer to the first request makes of the client.
    pub open spec fn replied_1(self, buf: Seq<u8>, addr: SocketAddr) -> (RakClientModel<P>, Result<
        (),
        RakClientError,
    >) {
        match OpenConnectionReply1::parsed(buf) {
            Err(e) => (self, Err(RakClientError::Codec(e))),
            Ok(reply) => (
                RakClientModel {
                    mtu: reply.mtu,
                    cookie: reply.cookie,
                    state: RakClientState::Handshake2(addr),
                    ..self
                }.sends_request_2(addr),
                Ok(()),
            ),
        }
    }

    /// What the answer to the second request makes of the client, and what is to be done: the
    /// session is opened, and asks to be connected.
    pub open spec fn replied_2(self, buf: Seq<u8>, addr: SocketAddr, now: SystemTime) -> (
        RakClientModel<P>,
        Result<RakClientStepView, RakClientError>,
    ) {
        match OpenConnectionReply2::parsed(buf) {
            Err(e) => (self, Err(RakClientError::Codec(e))),
            Ok(reply) => if reply.security {
                (self, Err(RakClientError::SecurityUnsupported))
            } else {
                let m = RakClientModel {
                    mtu: reply.mtu,
                    state: RakClientState::HandshakeCompleted(addr),
                    ..self
                };
                if now@ < 0 {
                    (m, Err(RakClientError::Time))
                } else {
                    let session = RakSession::opened(
                        RakSessionId(0),
                        addr,
                        self.config.guid,
                        reply.mtu,
                        DEFAULT_ORDERING_CHANNELS,
                    );
                    let request = ConnectionRequest {
                        security: false,
                        client_timestamp: timestamp(now),
                        client_guid: self.config.guid,
                    };
                    let input = RakSessionInputView::Send(
                        request.bytes(),
                        RakReliability::ReliableOrdered,
                        RakPriority::Immediate,
                        now,
                    );
                    let exchange = RakClientExchange { opening: true, success: None, now };
                    (
                        RakClientModel { session: Some(session), ..m },
                        Ok(RakClientStepView::Handle(input, exchange)),
                    )
                }
            },
        }
    }

    /// What a datagram from the server makes of the client during the handshake.
    pub open spec fn handshake(self, buf: Seq<u8>, remote: SocketAddr, now: SystemTime) -> (
        RakClientModel<P>,
        Result<RakClientStepView, RakClientError>,
    ) {
        if buf.len() == 0 {
            (self, Ok(RakClientStepView::Done))
        } else if buf[0] == packet_id::OPEN_CONNECTION_REPLY_1 {
            match self.replied_1(buf, remote) {
                (m, Ok(_)) => (m, Ok(RakClientStepView::Done)),
                (m, Err(e)) => (m, Err(e)),
            }
        } else if buf[0] == packet_id::OPEN_CONNECTION_REPLY_2 {
            self.replied_2(buf, remote, now)
        } else if buf[0] == packet_id::INCOMPATIBLE_PROTOCOL {
            (self, Err(RakClientError::IncompatibleProtocol))
        } else if buf[0] == packet_id::ALREADY_CONNECTED {
            (self, Err(RakClientError::AlreadyConnected))
        } else if buf[0] == packet_id::NO_FREE_INCOMING_CONNECTIONS {
            (self, Err(RakClientError::NoFreeIncomingConnections))
        } else if buf[0] == packet_id::IP_RECENTLY_CONNECTED {
            (self, Err(RakClientError::RecentlyConnected))
        } else {
            (self, Ok(RakClientStepView::Done))
        }
    }

    /// What a datagram makes of a client that is not connected: a pong is put out.
    pub open spec fn ponged(self, buf: Seq<u8>, addr: SocketAddr) -> (RakClientModel<P>, Result<
        (),
        RakClientError,
    >) {
        if buf.len() > 0 && buf[0] == packet_id::UNCONNECTED_PONG {
            match UnconnectedPongView::parsed(buf) {
                Err(e) => (self, Err(RakClientError::Codec(e))),
                Ok(pong) => {
                    let sent = SystemTime { nanos: (pong.timestamp * 1_000_000) as i128 };
                    (self.put_out(RakClientOutputView::Pong(addr, pong.message, sent)), Ok(()))
                },
            }
        } else {
            (self, Ok(()))
        }
    }

    /// What a datagram makes of the client, and what is to be done. Once a server is chosen,
    /// datagrams from elsewhere are dropped.
    pub open spec fn received(self, buf: Seq<u8>, addr: SocketAddr, now: SystemTime) -> (
        RakClientModel<P>,
        Result<RakClientStepView, RakClientError>,
    ) {
        match self.state {
            RakClientState::Unconnected => match self.ponged(buf, addr) {
                (m, Ok(_)) => (m, Ok(RakClientStepView::Done)),
                (m, Err(e)) => (m, Err(e)),
            },
            RakClientState::Handshake1(remote) => if remote != addr {
                (self, Ok(RakClientStepView::Done))
            } else {
                self.handshake(buf, remote, now)
            },
            RakClientState::Handshake2(remote) => if remote != addr {
                (self, Ok(RakClientStepView::Done))
            } else {
                self.handshake(buf, remote, now)
            },
            RakClientState::HandshakeCompleted(remote) => if remote != addr {
                (self, Ok(RakClientStepView::Done))
            } else if self.session is Some {
                let exchange = RakClientExchange { opening: false, success: None, now };
                (
                    self,
                    Ok(
                        RakClientStepView::Handle(
                            RakSessionInputView::Datagram(buf, now),
                            exchange,
                        ),
                    ),
                )
            } else {
                (
                    self.put_out(RakClientOutputView::SessionDatagram(buf)),
                    Ok(RakClientStepView::Done),
                )
            },
        }
    }

    /// What an input makes of the client, and what is to be done.
    pub open spec fn handled(self, msg: RakClientInput) -> (RakClientModel<P>, Result<
        RakClientStepView,
        RakClientError,
    >) {
        match msg {
            RakClientInput::Ping(addr, now) => match self.pings(addr, now) {
                (m, Ok(_)) => (m, Ok(RakClientStepView::Done)),
                (m, Err(e)) => (m, Err(e)),
            },
            RakClientInput::Connect(remote, now) => match self.connects(remote, now) {
                (m, Ok(_)) => (m, Ok(RakClientStepView::Done)),
                (m, Err(e)) => (m, Err(e)),
            },
            RakClientInput::Datagram(buf, addr, now) => self.received(buf@, addr, now),
            RakClientInput::Update(now) => match self.timed(now) {
                (m, Ok(_)) => (m, Ok(RakClientStepView::Done)),
                (m, Err(e)) => (m, Err(e)),
            },
            RakClientInput::Disconnect => (
                RakClientModel { state: RakClientState::Unconnected, session: None, ..self },
                Ok(RakClientStepView::Done),
            ),
        }
    }

    /// What follows from what the protocol of the session returned. A session whose protocol
    /// fails at once is not kept.
    pub open spec fn session_handled(
        self,
        exchange: RakClientExchange,
        result: Result<(), RakSessionError>,
    ) -> (RakClientModel<P>, Result<RakClientStepView, RakClientError>) {
        match result {
            Ok(_) => (self, Ok(RakClientStepView::Poll(exchange))),
            Err(e) => (
                if exchange.opening {
                    RakClientModel { session: None, ..self }
                } else {
                    self
                },
                Err(RakClientError::Session(e)),
            ),
        }
    }

    /// The packet by which the client tells the server that it knows of the connection.
    pub open spec fn incoming(
        addr: SocketAddr,
        accepted: ConnectionRequestAcceptedView,
        now: SystemTime,
    ) -> NewIncomingConnectionView {
        NewIncomingConnectionView {
            server_address: addr,
            internal_addresses: Seq::new(10, |i: int| unspecified()),
            incoming_timestamp: accepted.timestamp,
            server_timestamp: timestamp(now),
        }
    }

    /// What the acceptance of the connection makes of the client, and what is to be done.
    pub open spec fn accepted(
        self,
        session: RakSession<P>,
        buf: Seq<u8>,
        exchange: RakClientExchange,
    ) -> (RakClientModel<P>, Result<RakClientStepView, RakClientError>) {
        match ConnectionRequestAcceptedView::parsed(buf) {
            Err(e) => (self, Err(RakClientError::Codec(e))),
            Ok(accepted) => {
                let connected = RakSession { state: RakSessionState::Connected, ..session };
                let m = RakClientModel { session: Some(connected), ..self };
                if exchange.now@ < 0 {
                    (m, Err(RakClientError::Time))
                } else {
                    let input = RakSessionInputView::Send(
                        Self::incoming(session.addr, accepted, exchange.now).bytes(),
                        RakReliability::ReliableOrdered,
                        RakPriority::Immediate,
                        exchange.now,
                    );
                    (
                        m,
                        Ok(
                            RakClientStepView::Handle(
                                input,
                                RakClientExchange { success: Some(true), ..exchange },
                            ),
                        ),
                    )
                }
            },
        }
    }

    /// What a packet through the session makes of the client, and what is to be done.
    pub open spec fn packet_received(
        self,
        session: RakSession<P>,
        buf: Seq<u8>,
        exchange: RakClientExchange,
    ) -> (RakClientModel<P>, Result<RakClientStepView, RakClientError>) {
        if buf.len() == 0 {
            (self, Ok(RakClientStepView::Poll(exchange)))
        } else if buf[0] == packet_id::CONNECTION_REQUEST_ACCEPTED {
            self.accepted(session, buf, exchange)
        } else if buf[0] == packet_id::CONNECTION_ATTEMPT_FAILED {
            (
                self,
                Ok(
                    RakClientStepView::Handle(
                        RakSessionInputView::Disconnect(exchange.now),
                        RakClientExchange { success: Some(false), ..exchange },
                    ),
                ),
            )
        } else {
            (self, Ok(RakClientStepView::Poll(exchange)))
        }
    }

    /// The end of an exchange: the session is put out if the server accepted the connection,
    /// and dropped if it said that it does not.
    pub open spec fn exchanged(self, session: RakSession<P>, exchange: RakClientExchange) -> (
        RakClientModel<P>,
        Result<RakClientStepView, RakClientError>,
    ) {
        let m = RakClientModel { session: None, ..self };
        match exchange.success {
            None => (self, Ok(RakClientStepView::Done)),
            Some(true) => (
                m.put_out(RakClientOutputView::SessionConnected(session)),
                Ok(RakClientStepView::Done),
            ),
            Some(false) => (m, Err(RakClientError::ConnectionAttemptFailed)),
        }
    }

    /// What an output of the protocol of the session makes of the client, and what is to be
    /// done. While the session is opened, only datagrams matter.
    pub open spec fn session_polled(
        self,
        exchange: RakClientExchange,
        output: Option<RakSessionOutput>,
    ) -> (RakClientModel<P>, Result<RakClientStepView, RakClientError>) {
        match self.session {
            None => (self, Ok(RakClientStepView::Done)),
            Some(session) => match output {
                None => self.exchanged(session, exchange),
                Some(RakSessionOutput::Datagram(buf, addr)) => (
                    self.sends(buf@, addr),
                    Ok(RakClientStepView::Poll(exchange)),
                ),
                Some(RakSessionOutput::Packet(buf)) => if exchange.opening {
                    (self, Ok(RakClientStepView::Poll(exchange)))
                } else {
                    self.packet_received(session, buf@, exchange)
                },
                Some(_) => (self, Ok(RakClientStepView::Poll(exchange))),
            },
        }
    }

    /// The client with the protocol of its session in another state.
    pub open spec fn with_protocol(self, protocol: Option<P>) -> RakClientModel<P> {
        match self.session {
            Some(session) => RakClientModel {
                session: Some(RakSession { protocol, ..session }),
                ..self
            },
            None => self,
        }
    }

    /// Whether the moments that the client computes as time passes can be told, and the limits
    /// on the datagram size have something between them where one is tried.
    pub open spec fn admits_time(self, now: SystemTime) -> bool {
        self.state == RakClientState::Unconnected || (self.deadline() <= i128::MAX && (now@
            >= self.deadline() || (self.next_attempt() <= i128::MAX && (now@ < self.next_attempt()
            || self.attempts >= self.config.conn_attempt_max
            || self.state is HandshakeCompleted || (now@ + self.config.conn_attempt_interval@
            <= i128::MAX && (self.state is Handshake1 ==> self.config.min_mtu_size
            <= self.config.max_mtu_size))))))
    }

    /// The same for any input.
    pub open spec fn admits(self, msg: RakClientInput) -> bool {
        match msg {
            RakClientInput::Connect(remote, now) => self.state == RakClientState::Unconnected
                ==> self.connecting(remote, now).admits_time(now),
            RakClientInput::Update(now) => self.admits_time(now),
            _ => true,
        }
    }
}

} // verus!

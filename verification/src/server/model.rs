//! What a server is, and what each input makes of it.

use crate::net::SocketAddr;
use crate::protocol::packets::connection::{
    ConnectionRequest, ConnectionRequestAcceptedView, NewIncomingConnectionView,
};
use crate::protocol::packets::open_connection::{
    OpenConnectionReply1, OpenConnectionReply2, OpenConnectionRequest1, OpenConnectionRequest2,
};
use crate::protocol::packets::ping::{UnconnectedPing, UnconnectedPongView};
use crate::protocol::packets::refusal::{
    AlreadyConnected, IncompatibleProtocol, IpRecentlyConnected, NoFreeIncomingConnections,
};
use crate::protocol::codec::RakCodecError;
use crate::server::config::RakServerConfig;
use crate::server::error::{RakRefusal, RakServerErrorView};
use crate::server::input::{RakServerInput, RakServerStepView};
use crate::server::output::RakServerOutputView;
use crate::session::state::RakSessionState;
use crate::session::{
    RakSession, RakSessionError, RakSessionId, RakSessionInputView, RakSessionOutput,
};
use crate::time::{elapsed, low_u64, SystemTime};
use crate::types::priority::RakPriority;
use crate::types::reliability::RakReliability;
use crate::util::socket_addr::overhead;
use crate::util::{constants, flags, packet_id};
use vstd::prelude::*;

verus! {

/// How long a peer that lost its connection is turned away, in nanoseconds.
pub const RECENTLY_CONNECTED_COOLDOWN: u128 = 5_000_000_000;

/// How long offline packets are counted together, in nanoseconds.
pub const OFFLINE_RATE_LIMIT_WINDOW: u128 = 1_000_000_000;

/// How long a session may take to connect, in nanoseconds.
pub const PENDING_CONNECTION_TIMEOUT: u128 = 10_000_000_000;

/// What a server is.
#[verifier::ext_equal]
pub struct RakServerModel<P> {
    pub addr: SocketAddr,
    pub config: RakServerConfig,
    /// The number of the next session.
    pub next_id: u64,
    /// The session of each address.
    pub session_map: Map<SocketAddr, RakSessionId>,
    /// The address of each session, by its number.
    pub session_addr: Map<u64, SocketAddr>,
    /// The sessions that are still to be connected, with the time at which each was opened.
    pub pending: Map<SocketAddr, (SystemTime, RakSession<P>)>,
    /// When each address lost its session.
    pub recent: Map<SocketAddr, SystemTime>,
    /// When the offline packets that are counted began to come.
    pub window: SystemTime,
    /// How many came since, in all and from each address.
    pub total: i32,
    pub per_ip: Map<SocketAddr, i32>,
    /// What is still to be polled.
    pub output: Seq<RakServerOutputView<P>>,
}

/// The answer to the first request of a client: no version in common, turned away for a while,
/// or agreed to.
pub enum RakAnswer1 {
    Incompatible,
    Recent,
    Agreed,
}

/// The answer to the second request of a client: none, a session is there already, no session
/// is free, or agreed to.
pub enum RakAnswer2 {
    Refused(RakRefusal),
    Connected,
    Full,
    Agreed,
}

impl<P> RakServerModel<P> {
    /// What holds of a server at all times: the session of an address has that address, every
    /// number given to a session lies below the next one, a session that is to be connected
    /// counts as the session of its address, and no address sent more offline packets than
    /// all did.
    pub open spec fn inv(self) -> bool {
        &&& self.session_map.dom().finite()
        &&& forall|a: SocketAddr| #[trigger]
            self.session_map.contains_key(a) ==> self.session_addr.contains_key(
                self.session_map[a].0,
            ) && self.session_addr[self.session_map[a].0] == a
        &&& forall|i: u64| #[trigger] self.session_addr.contains_key(i) ==> i < self.next_id
        &&& forall|a: SocketAddr| #[trigger]
            self.pending.contains_key(a) ==> self.session_map.contains_key(a)
                && self.pending[a].1.addr == a && self.pending[a].1.id.0 < self.next_id
        &&& self.total >= 0
        &&& forall|a: SocketAddr| #[trigger]
            self.per_ip.contains_key(a) ==> 0 <= self.per_ip[a] <= self.total
    }

    /// Whether the server knows the same of its sessions from both sides: the session of an
    /// address is the one whose address that is, and a session that is to be connected goes by
    /// the number that its address has.
    pub open spec fn paired(self) -> bool {
        &&& forall|a: SocketAddr| #[trigger]
            self.session_map.contains_key(a) ==> self.session_addr.contains_key(
                self.session_map[a].0,
            ) && self.session_addr[self.session_map[a].0] == a
        &&& forall|i: u64| #[trigger]
            self.session_addr.contains_key(i) ==> self.session_map.contains_key(
                self.session_addr[i],
            ) && self.session_map[self.session_addr[i]].0 == i
        &&& forall|a: SocketAddr| #[trigger]
            self.pending.contains_key(a) ==> self.session_map.contains_key(a)
                && self.pending[a].1.id == self.session_map[a]
    }

    /// A server at `addr` that nothing has happened to.
    pub open spec fn created(config: RakServerConfig, addr: SocketAddr) -> RakServerModel<P> {
        RakServerModel {
            addr,
            config,
            next_id: 0,
            session_map: Map::empty(),
            session_addr: Map::empty(),
            pending: Map::empty(),
            recent: Map::empty(),
            window: SystemTime { nanos: 0 },
            total: 0,
            per_ip: Map::empty(),
            output: Seq::empty(),
        }
    }

    /// The server with one more output.
    pub open spec fn put_out(self, output: RakServerOutputView<P>) -> RakServerModel<P> {
        RakServerModel { output: self.output.push(output), ..self }
    }

    /// The server with one more packet to send.
    pub open spec fn answered(self, bytes: Seq<u8>, addr: SocketAddr) -> RakServerModel<P> {
        self.put_out(RakServerOutputView::SocketDatagram(bytes, addr))
    }

    /// The server with its counts set back where the time to count together is over.
    pub open spec fn windowed(self, now: SystemTime) -> RakServerModel<P> {
        if elapsed(now, self.window) >= OFFLINE_RATE_LIMIT_WINDOW {
            RakServerModel { window: now, total: 0, per_ip: Map::empty(), ..self }
        } else {
            self
        }
    }

    /// The offline packets counted from `addr`.
    pub open spec fn count(self, addr: SocketAddr) -> int {
        if self.per_ip.contains_key(addr) {
            self.per_ip[addr] as int
        } else {
            0
        }
    }

    /// Whether an offline packet from `addr` is one too many, in all or from there.
    pub open spec fn rate_limits(self, addr: SocketAddr, now: SystemTime) -> bool {
        let m = self.windowed(now);
        m.total + 1 > m.config.total_packet_limit || m.count(addr) + 1 > m.config.packet_limit
    }

    /// The server with an offline packet from `addr` counted: in all, and from there unless it
    /// is one too many in all.
    pub open spec fn counted(self, addr: SocketAddr, now: SystemTime) -> RakServerModel<P> {
        let m = self.windowed(now);
        RakServerModel {
            total: (m.total + 1) as i32,
            per_ip: if m.total + 1 > m.config.total_packet_limit {
                m.per_ip
            } else {
                m.per_ip.insert(addr, (m.count(addr) + 1) as i32)
            },
            ..m
        }
    }

    /// What a ping makes of the server: it is answered with its own timestamp, and who the
    /// server is.
    pub open spec fn pinged(self, buf: Seq<u8>, addr: SocketAddr) -> (RakServerModel<P>, Result<
        (),
        RakServerErrorView,
    >) {
        match UnconnectedPing::parsed(buf) {
            Err(e) => (self, Err(RakServerErrorView::Codec(e))),
            Ok(ping) => if self.config.message@.len() > u16::MAX {
                (self, Err(RakServerErrorView::Codec(RakCodecError::TooLong)))
            } else {
                let pong = UnconnectedPongView {
                    timestamp: ping.timestamp,
                    guid: self.config.guid,
                    message: self.config.message@,
                };
                (self.answered(pong.bytes(), addr), Ok(()))
            },
        }
    }

    /// Whether the address lost its session less than the cooldown ago.
    pub open spec fn recently_disconnected(self, addr: SocketAddr, now: SystemTime) -> bool {
        self.recent.contains_key(addr) && elapsed(now, self.recent[addr])
            < RECENTLY_CONNECTED_COOLDOWN
    }

    /// The answer to a first request.
    pub open spec fn answer_1(
        self,
        request: OpenConnectionRequest1,
        addr: SocketAddr,
        now: SystemTime,
    ) -> RakAnswer1 {
        if !self.config.protocols@.contains(request.protocol) {
            RakAnswer1::Incompatible
        } else if self.recently_disconnected(addr, now) {
            RakAnswer1::Recent
        } else {
            RakAnswer1::Agreed
        }
    }

    /// What a first request took on the wire: its own bytes and the headers before them.
    pub open spec fn wire_size(request: OpenConnectionRequest1, addr: SocketAddr) -> int {
        request.mtu + constants::UDP_HEADER_SIZE + overhead(addr)
    }

    /// The datagram size that the server agrees to: what the request took on the wire, within
    /// the server's limits.
    pub open spec fn agreed_mtu(self, request: OpenConnectionRequest1, addr: SocketAddr) -> u16 {
        let size = Self::wire_size(request, addr);
        if size < self.config.min_mtu_size {
            self.config.min_mtu_size
        } else if size > self.config.max_mtu_size {
            self.config.max_mtu_size
        } else {
            size as u16
        }
    }

    /// What a first request makes of the server.
    pub open spec fn requested_1(
        self,
        buf: Seq<u8>,
        addr: SocketAddr,
        now: SystemTime,
    ) -> (RakServerModel<P>, Result<(), RakServerErrorView>) {
        let guid = self.config.guid;
        match OpenConnectionRequest1::parsed(buf) {
            Err(e) => (self, Err(RakServerErrorView::Codec(e))),
            Ok(request) => {
                let bytes = match self.answer_1(request, addr, now) {
                    RakAnswer1::Incompatible => IncompatibleProtocol {
                        protocol: constants::PROTOCOL,
                        guid,
                    }.bytes(),
                    RakAnswer1::Recent => IpRecentlyConnected { guid }.bytes(),
                    RakAnswer1::Agreed => OpenConnectionReply1 {
                        guid,
                        cookie: None,
                        mtu: self.agreed_mtu(request, addr),
                    }.bytes(),
                };
                (self.answered(bytes, addr), Ok(()))
            },
        }
    }

    /// The answer to a second request.
    pub open spec fn answer_2(self, request: OpenConnectionRequest2, addr: SocketAddr) -> RakAnswer2 {
        if request.addr.port_of() != self.addr.port_of() {
            RakAnswer2::Refused(RakRefusal::PortMismatch(addr))
        } else if !(self.config.min_mtu_size <= request.mtu <= self.config.max_mtu_size) {
            RakAnswer2::Refused(RakRefusal::InvalidMtu(addr))
        } else if self.session_map.contains_key(addr) {
            RakAnswer2::Connected
        } else if self.session_map.dom().len() >= self.config.max_connections {
            RakAnswer2::Full
        } else {
            RakAnswer2::Agreed
        }
    }

    /// The server with a session opened for `addr`, under the next number, that is to be
    /// connected.
    pub open spec fn opened(
        self,
        request: OpenConnectionRequest2,
        addr: SocketAddr,
        now: SystemTime,
    ) -> RakServerModel<P> {
        let id = RakSessionId(self.next_id);
        let session = RakSession::opened(
            id,
            addr,
            request.client,
            request.mtu,
            self.config.max_ordering_channels,
        );
        RakServerModel {
            next_id: (self.next_id + 1) as u64,
            session_map: self.session_map.insert(addr, id),
            session_addr: self.session_addr.insert(id.0, addr),
            pending: self.pending.insert(addr, (now, session)),
            ..self
        }
    }

    /// What a second request makes of the server.
    pub open spec fn requested_2(
        self,
        buf: Seq<u8>,
        addr: SocketAddr,
        now: SystemTime,
    ) -> (RakServerModel<P>, Result<(), RakServerErrorView>) {
        let guid = self.config.guid;
        match OpenConnectionRequest2::parsed(buf) {
            Err(e) => (self, Err(RakServerErrorView::Codec(e))),
            Ok(request) => match self.answer_2(request, addr) {
                RakAnswer2::Refused(refusal) => (
                    self,
                    Err(RakServerErrorView::RefusingConnection(refusal.said())),
                ),
                RakAnswer2::Connected => (
                    self.answered(AlreadyConnected { guid }.bytes(), addr),
                    Ok(()),
                ),
                RakAnswer2::Full => (
                    self.answered(NoFreeIncomingConnections { guid }.bytes(), addr),
                    Ok(()),
                ),
                RakAnswer2::Agreed => {
                    let reply = OpenConnectionReply2 {
                        guid,
                        addr,
                        mtu: request.mtu,
                        security: false,
                    };
                    (self.answered(reply.bytes(), addr).opened(request, addr, now), Ok(()))
                },
            },
        }
    }

    /// What an offline packet makes of the server, once it is counted.
    pub open spec fn offline_packet(
        self,
        buf: Seq<u8>,
        addr: SocketAddr,
        now: SystemTime,
    ) -> (RakServerModel<P>, Result<(), RakServerErrorView>) {
        if buf.len() == 0 {
            (self, Ok(()))
        } else if buf[0] == packet_id::UNCONNECTED_PING {
            self.pinged(buf, addr)
        } else if buf[0] == packet_id::OPEN_CONNECTION_REQUEST_1 {
            self.requested_1(buf, addr, now)
        } else if buf[0] == packet_id::OPEN_CONNECTION_REQUEST_2 {
            self.requested_2(buf, addr, now)
        } else {
            (self, Ok(()))
        }
    }

    /// What a datagram outside of any session makes of the server.
    pub open spec fn offline(
        self,
        buf: Seq<u8>,
        addr: SocketAddr,
        now: SystemTime,
    ) -> (RakServerModel<P>, Result<(), RakServerErrorView>) {
        if self.rate_limits(addr, now) {
            (self.counted(addr, now), Ok(()))
        } else {
            self.counted(addr, now).offline_packet(buf, addr, now)
        }
    }

    /// What a datagram of a session makes of the server, and what is to be done: one for a
    /// session that is to be connected goes to its protocol, one for a connected session is
    /// put out, and one from anywhere else is dropped.
    pub open spec fn online(
        self,
        buf: Seq<u8>,
        addr: SocketAddr,
        now: SystemTime,
    ) -> (RakServerModel<P>, RakServerStepView) {
        if self.pending.contains_key(addr) {
            (
                self,
                RakServerStepView::Handle(addr, RakSessionInputView::Datagram(buf, now)),
            )
        } else if self.session_map.contains_key(addr) {
            (
                self.put_out(
                    RakServerOutputView::SessionDatagram(buf, self.session_map[addr]),
                ),
                RakServerStepView::Done,
            )
        } else {
            (self, RakServerStepView::Done)
        }
    }

    /// What a datagram makes of the server, and what is to be done.
    pub open spec fn received(
        self,
        buf: Seq<u8>,
        addr: SocketAddr,
        now: SystemTime,
    ) -> (RakServerModel<P>, Result<RakServerStepView, RakServerErrorView>) {
        if buf.len() == 0 {
            (self, Ok(RakServerStepView::Done))
        } else if buf[0] < flags::VALID {
            match self.offline(buf, addr, now) {
                (m, Ok(_)) => (m, Ok(RakServerStepView::Done)),
                (m, Err(e)) => (m, Err(e)),
            }
        } else {
            let (m, step) = self.online(buf, addr, now);
            (m, Ok(step))
        }
    }

    /// The server without the session `id`, whose address is from then on turned away for a
    /// while; addresses that were turned away for that long are forgotten.
    pub open spec fn removed(self, id: RakSessionId, now: SystemTime) -> RakServerModel<P> {
        let m = if self.session_addr.contains_key(id.0) {
            let addr = self.session_addr[id.0];
            RakServerModel {
                session_addr: self.session_addr.remove(id.0),
                session_map: self.session_map.remove(addr),
                pending: self.pending.remove(addr),
                recent: self.recent.insert(addr, now),
                ..self
            }
        } else {
            self
        };
        RakServerModel {
            recent: Map::new(
                |a: SocketAddr| m.recently_disconnected(a, now),
                |a: SocketAddr| m.recent[a],
            ),
            ..m
        }
    }

    /// Whether a session opened for `addr` has taken too long to connect.
    pub open spec fn stale(self, addr: SocketAddr, now: SystemTime) -> bool {
        self.pending.contains_key(addr) && elapsed(now, self.pending[addr].0)
            >= PENDING_CONNECTION_TIMEOUT
    }

    /// The server without the sessions that took too long to connect.
    pub open spec fn evicted(self, now: SystemTime) -> RakServerModel<P> {
        RakServerModel {
            pending: Map::new(
                |a: SocketAddr| self.pending.contains_key(a) && !self.stale(a, now),
                |a: SocketAddr| self.pending[a],
            ),
            session_map: Map::new(
                |a: SocketAddr| self.session_map.contains_key(a) && !self.stale(a, now),
                |a: SocketAddr| self.session_map[a],
            ),
            session_addr: Map::new(
                |i: u64|
                    self.session_addr.contains_key(i) && !(self.stale(self.session_addr[i], now)
                        && self.session_map[self.session_addr[i]].0 == i),
                |i: u64| self.session_addr[i],
            ),
            ..self
        }
    }

    /// What an input makes of the server, and what is to be done.
    pub open spec fn handled(self, msg: RakServerInput) -> (RakServerModel<P>, Result<
        RakServerStepView,
        RakServerErrorView,
    >) {
        match msg {
            RakServerInput::Datagram(buf, addr, now) => self.received(buf@, addr, now),
            RakServerInput::SetMaxConnections(n) => (
                RakServerModel {
                    config: RakServerConfig { max_connections: n, ..self.config },
                    ..self
                },
                Ok(RakServerStepView::Done),
            ),
            RakServerInput::SetMessage(message) => (
                RakServerModel { config: RakServerConfig { message, ..self.config }, ..self },
                Ok(RakServerStepView::Done),
            ),
            RakServerInput::RemoveSession(id, now) => (
                self.removed(id, now),
                Ok(RakServerStepView::Done),
            ),
            RakServerInput::Update(now) => (self.evicted(now), Ok(RakServerStepView::Done)),
        }
    }

    /// What follows from what the protocol of the session at `addr` returned.
    pub open spec fn session_handled(addr: SocketAddr, result: Result<(), RakSessionError>) -> Result<
        RakServerStepView,
        RakServerErrorView,
    > {
        match result {
            Ok(_) => Ok(RakServerStepView::Poll(addr)),
            Err(e) => Err(RakServerErrorView::Session(e)),
        }
    }

    /// What a request to connect is answered through the session.
    pub open spec fn connection_requested(
        buf: Seq<u8>,
        addr: SocketAddr,
        now: SystemTime,
    ) -> Result<RakSessionInputView, RakServerErrorView> {
        match ConnectionRequest::parsed(buf) {
            Err(e) => Err(RakServerErrorView::Codec(e)),
            Ok(request) => if now@ < 0 {
                Err(RakServerErrorView::Time)
            } else {
                let accepted = ConnectionRequestAcceptedView {
                    client_address: addr,
                    system_index: 0,
                    system_addresses: Seq::empty(),
                    request_timestamp: request.client_timestamp,
                    timestamp: low_u64(now@ / 1_000_000),
                };
                Ok(
                    RakSessionInputView::Send(
                        accepted.bytes(),
                        RakReliability::ReliableOrdered,
                        RakPriority::Immediate,
                        now,
                    ),
                )
            },
        }
    }

    /// The server with the session of `addr` connected.
    pub open spec fn connected(self, addr: SocketAddr) -> RakServerModel<P> {
        let session = RakSession { state: RakSessionState::Connected, ..self.pending[addr].1 };
        RakServerModel {
            pending: self.pending.remove(addr),
            ..self.put_out(RakServerOutputView::SessionConnected(session))
        }
    }

    /// What a packet through the session of `addr` makes of the server, and what is to be done.
    pub open spec fn packet_received(
        self,
        buf: Seq<u8>,
        addr: SocketAddr,
        now: SystemTime,
    ) -> (RakServerModel<P>, Result<RakServerStepView, RakServerErrorView>) {
        if buf.len() == 0 {
            (self, Ok(RakServerStepView::Poll(addr)))
        } else if buf[0] == packet_id::CONNECTION_REQUEST {
            match Self::connection_requested(buf, addr, now) {
                Err(e) => (self, Err(e)),
                Ok(input) => (self, Ok(RakServerStepView::Handle(addr, input))),
            }
        } else if buf[0] == packet_id::NEW_INCOMING_CONNECTION {
            match NewIncomingConnectionView::parsed(buf) {
                Err(e) => (self, Err(RakServerErrorView::Codec(e))),
                Ok(_) => (self.connected(addr), Ok(RakServerStepView::Done)),
            }
        } else {
            (self, Ok(RakServerStepView::Poll(addr)))
        }
    }

    /// What an output of the protocol of the session at `addr` makes of the server, and what
    /// is to be done.
    pub open spec fn session_polled(
        self,
        addr: SocketAddr,
        output: Option<RakSessionOutput>,
        now: SystemTime,
    ) -> (RakServerModel<P>, Result<RakServerStepView, RakServerErrorView>) {
        if !self.pending.contains_key(addr) {
            (self, Ok(RakServerStepView::Done))
        } else {
            match output {
                None => (self, Ok(RakServerStepView::Done)),
                Some(RakSessionOutput::Datagram(buf, to)) => (
                    self.answered(buf@, to),
                    Ok(RakServerStepView::Poll(addr)),
                ),
                Some(RakSessionOutput::Packet(buf)) => self.packet_received(buf@, addr, now),
                Some(_) => (self, Ok(RakServerStepView::Poll(addr))),
            }
        }
    }

    /// The server with the protocol of the session at `addr` in another state.
    pub open spec fn with_protocol(self, addr: SocketAddr, protocol: Option<P>) -> RakServerModel<
        P,
    > {
        let (created, session) = self.pending[addr];
        RakServerModel {
            pending: self.pending.insert(addr, (created, RakSession { protocol, ..session })),
            ..self
        }
    }

    /// A session of another server under the next number of this one.
    pub open spec fn renumbered(self, session: RakSession<P>) -> RakSession<P> {
        RakSession { id: RakSessionId(self.next_id), ..session }
    }

    /// The server with a session of another server, under the next number.
    pub open spec fn taken_over(self, session: RakSession<P>) -> RakServerModel<P> {
        let id = RakSessionId(self.next_id);
        RakServerModel {
            next_id: (self.next_id + 1) as u64,
            session_map: self.session_map.insert(session.addr, id),
            session_addr: self.session_addr.insert(id.0, session.addr),
            ..self
        }
    }

    /// The same with the session put out as connected.
    pub open spec fn adopted(self, session: RakSession<P>) -> RakServerModel<P> {
        self.taken_over(session).put_out(
            RakServerOutputView::SessionConnected(self.renumbered(session)),
        )
    }

    /// Whether the numbers that the server computes for an input can be told: the count of
    /// offline packets, the size of a request on the wire with limits that have something
    /// between them, and the number of the next session.
    pub open spec fn admits(self, msg: RakServerInput) -> bool {
        match msg {
            RakServerInput::Datagram(buf, addr, now) => self.admits_datagram(buf@, addr, now),
            _ => true,
        }
    }

    /// The same for a datagram.
    pub open spec fn admits_datagram(
        self,
        buf: Seq<u8>,
        addr: SocketAddr,
        now: SystemTime,
    ) -> bool {
        let m = self.windowed(now);
        buf.len() == 0 || buf[0] >= flags::VALID || (m.total < i32::MAX && (self.rate_limits(
            addr,
            now,
        ) || m.admits_packet(buf, addr, now)))
    }

    /// The same for an offline packet that is not one too many.
    pub open spec fn admits_packet(self, buf: Seq<u8>, addr: SocketAddr, now: SystemTime) -> bool {
        &&& buf[0] == packet_id::OPEN_CONNECTION_REQUEST_1 ==> (OpenConnectionRequest1::parsed(
            buf,
        ) matches Ok(request) ==> (self.answer_1(request, addr, now) is Agreed ==> Self::wire_size(
            request,
            addr,
        ) <= u16::MAX && self.config.min_mtu_size <= self.config.max_mtu_size))
        &&& buf[0] == packet_id::OPEN_CONNECTION_REQUEST_2 ==> (OpenConnectionRequest2::parsed(
            buf,
        ) matches Ok(request) ==> (self.answer_2(request, addr) is Agreed ==> self.next_id
            < u64::MAX))
    }
}

} // verus!

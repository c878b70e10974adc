//! The server's side of connecting: it answers pings, agrees on sessions with clients, and
//! sorts datagrams by session.
//!
//! A server does no input or output of its own. It is given inputs, and polled for outputs.

pub mod config;
pub mod error;
pub mod exchange;
pub mod input;
pub mod laws;
pub mod limits;
pub mod model;
pub mod output;
pub mod rules;

use crate::net::SocketAddr;
use crate::protocol::codec::put_bytes;
use crate::protocol::packets::connection::{
    ConnectionRequest, ConnectionRequestAccepted, NewIncomingConnection, NewIncomingConnectionView,
};
use crate::protocol::packets::open_connection::{
    OpenConnectionReply1, OpenConnectionReply2, OpenConnectionRequest1, OpenConnectionRequest2,
};
use crate::protocol::packets::ping::{UnconnectedPing, UnconnectedPong};
use crate::protocol::packets::refusal::{
    AlreadyConnected, IncompatibleProtocol, IpRecentlyConnected, NoFreeIncomingConnections,
};
use crate::server::config::RakServerConfig;
use crate::server::error::{plain, RakRefusal, RakServerError, RakServerErrorView};
use crate::server::input::{RakServerInput, RakServerStep, RakServerStepView};
use crate::server::model::{
    RakServerModel, OFFLINE_RATE_LIMIT_WINDOW, PENDING_CONNECTION_TIMEOUT,
    RECENTLY_CONNECTED_COOLDOWN,
};
use crate::server::output::RakServerOutput;
use crate::session::state::RakSessionState;
use crate::session::{
    RakSession, RakSessionError, RakSessionId, RakSessionInput, RakSessionInputView,
    RakSessionOutput,
};
use crate::time::{truncate_u64, SystemTime};
use crate::types::priority::RakPriority;
use crate::types::reliability::RakReliability;
use crate::util::addr_map::AddrMap;
use crate::util::socket_addr::get_overhead;
use crate::util::{constants, flags, packet_id};
use std::collections::{HashMap, VecDeque};
use vstd::prelude::*;

verus! {

broadcast use vstd::std_specs::hash::group_hash_axioms;

/// A server. Its view is what it is; what each input makes of it is told there.
#[derive(Debug)]
pub struct RakServer<P> {
    addr: SocketAddr,
    config: RakServerConfig,
    session_id: RakSessionId,
    session_map: AddrMap<RakSessionId>,
    session_addr: HashMap<u64, SocketAddr>,
    session_temp: AddrMap<(SystemTime, RakSession<P>)>,
    recently_disconnected: AddrMap<SystemTime>,
    offline_window: SystemTime,
    offline_total: i32,
    offline_per_ip: AddrMap<i32>,
    output: VecDeque<RakServerOutput<P>>,
}

impl<P> View for RakServer<P> {
    type V = RakServerModel<P>;

    closed spec fn view(&self) -> RakServerModel<P> {
        RakServerModel {
            addr: self.addr,
            config: self.config,
            next_id: self.session_id.0,
            session_map: self.session_map@,
            session_addr: self.session_addr@,
            pending: self.session_temp@,
            recent: self.recently_disconnected@,
            window: self.offline_window,
            total: self.offline_total,
            per_ip: self.offline_per_ip@,
            output: self.output@.map_values(|o: RakServerOutput<P>| o@),
        }
    }
}

/// Whether `bytes` holds `x`.
fn has_byte(bytes: &Vec<u8>, x: u8) -> (b: bool)
    ensures
        b == bytes@.contains(x),
{
    let mut i: usize = 0;
    while i < bytes.len()
        invariant
            i <= bytes@.len(),
            forall|j: int| 0 <= j < i ==> bytes@[j] != x,
        decreases bytes@.len() - i,
    {
        if bytes[i] == x {
            return true;
        }
        i = i + 1;
    }
    false
}

impl<P> RakServer<P> {
    /// The parts of the server are in order, and what holds of a server at all times holds.
    pub closed spec fn wf(&self) -> bool {
        &&& self.session_map.wf()
        &&& self.session_temp.wf()
        &&& self.recently_disconnected.wf()
        &&& self.offline_per_ip.wf()
        &&& self@.inv()
    }

    /// What holds of a server at all times.
    pub proof fn wf_inv(&self)
        requires
            self.wf(),
        ensures
            self@.inv(),
    {
    }

    /// A server at `addr` that nothing has happened to.
    pub fn new(config: RakServerConfig, addr: SocketAddr) -> (server: RakServer<P>)
        ensures
            server.wf(),
            server@ == RakServerModel::<P>::created(config, addr),
    {
        let server = RakServer {
            addr,
            config,
            session_id: RakSessionId(0),
            session_map: AddrMap::new(),
            session_addr: HashMap::new(),
            session_temp: AddrMap::new(),
            recently_disconnected: AddrMap::new(),
            offline_window: SystemTime::unix_epoch(),
            offline_total: 0,
            offline_per_ip: AddrMap::new(),
            output: VecDeque::new(),
        };
        assert(server@ =~= RakServerModel::<P>::created(config, addr));
        server
    }

    /// Puts out `output`.
    fn push(&mut self, output: RakServerOutput<P>)
        requires
            old(self).wf(),
        ensures
            final(self).wf(),
            final(self)@ == old(self)@.put_out(output@),
            final(self).config == old(self).config,
    {
        self.output.push_back(output);
        assert(self@ =~= old(self)@.put_out(output@));
    }

    /// Takes over a session of another server, which goes on where it stands instead of
    /// connecting anew.
    ///
    /// The session gets a number of this server, since each server counts for itself, and is
    /// polled as any session that connects.
    pub fn adopt(&mut self, session: RakSession<P>)
        requires
            old(self).wf(),
            old(self)@.next_id < u64::MAX,
        ensures
            final(self).wf(),
            final(self)@ == old(self)@.adopted(session),
    {
        let session = self.take_over(session);
        self.push(RakServerOutput::SessionConnected(Box::new(session)));
    }

    /// Takes over a session of another server as `adopt` does, and hands it out at once
    /// instead of having it polled.
    pub fn take_over(&mut self, session: RakSession<P>) -> (taken: RakSession<P>)
        requires
            old(self).wf(),
            old(self)@.next_id < u64::MAX,
        ensures
            final(self).wf(),
            final(self)@ == old(self)@.taken_over(session),
            taken == old(self)@.renumbered(session),
    {
        let ghost before = self@;
        let id: RakSessionId = self.session_id;
        self.session_id = RakSessionId(id.0 + 1);
        let addr: SocketAddr = session.addr;
        let mut session = session;
        session.id = id;
        self.session_map.insert(addr, id);
        self.session_addr.insert(id.0, addr);
        assert(self@ =~= before.taken_over(session));
        session
    }

    /// Counts an offline packet from `addr`, and tells whether it is one too many.
    fn rate_limited(&mut self, addr: SocketAddr, now: SystemTime) -> (limited: bool)
        requires
            old(self).wf(),
            old(self)@.windowed(now).total < i32::MAX,
        ensures
            final(self).wf(),
            final(self)@ == old(self)@.counted(addr, now),
            limited == old(self)@.rate_limits(addr, now),
    {
        let ghost before = self@;
        if now.since(self.offline_window).nanos >= OFFLINE_RATE_LIMIT_WINDOW {
            self.offline_window = now;
            self.offline_total = 0;
            self.offline_per_ip.clear();
        }
        assert(self@ =~= before.windowed(now));
        let ghost m = self@;
        self.offline_total = self.offline_total + 1;
        if self.offline_total > self.config.total_packet_limit {
            assert(self@ =~= before.counted(addr, now));
            return true;
        }
        let count: i32 = match self.offline_per_ip.get(addr) {
            Some(count) => *count + 1,
            None => 1,
        };
        self.offline_per_ip.insert(addr, count);
        assert(self@ =~= before.counted(addr, now));
        count > self.config.packet_limit
    }

    /// The server `m` without the sessions of the addresses in `gone`.
    closed spec fn without(m: RakServerModel<P>, gone: Seq<SocketAddr>) -> RakServerModel<P> {
        RakServerModel {
            pending: Map::new(
                |a: SocketAddr| m.pending.contains_key(a) && !gone.contains(a),
                |a: SocketAddr| m.pending[a],
            ),
            session_map: Map::new(
                |a: SocketAddr| m.session_map.contains_key(a) && !gone.contains(a),
                |a: SocketAddr| m.session_map[a],
            ),
            session_addr: Map::new(
                |i: u64|
                    m.session_addr.contains_key(i) && !(gone.contains(m.session_addr[i])
                        && m.session_map.contains_key(m.session_addr[i])
                        && m.session_map[m.session_addr[i]].0 == i),
                |i: u64| m.session_addr[i],
            ),
            ..m
        }
    }

    /// Drops the sessions of the addresses in `gone`.
    fn drop_sessions(&mut self, gone: &Vec<SocketAddr>)
        requires
            old(self).wf(),
        ensures
            final(self).wf(),
            final(self)@ == Self::without(old(self)@, gone@),
    {
        let ghost before = self@;
        let mut i: usize = 0;
        assert(self@ =~= Self::without(before, gone@.take(0)));
        while i < gone.len()
            invariant
                self.wf(),
                before.inv(),
                i <= gone@.len(),
                self@ == Self::without(before, gone@.take(i as int)),
            decreases gone@.len() - i,
        {
            let ghost m = self@;
            let ghost earlier = gone@.take(i as int);
            let addr: SocketAddr = gone[i];
            self.session_temp.remove(addr);
            if let Some(id) = self.session_map.remove(addr) {
                self.session_addr.remove(&id.0);
            }
            i = i + 1;
            proof {
                let later = gone@.take(i as int);
                assert(later =~= earlier.push(addr));
                assert forall|a: SocketAddr| #[trigger]
                    later.contains(a) == (earlier.contains(a) || a == addr) by {
                    if earlier.contains(a) {
                        let j = earlier.index_of(a);
                        assert(later[j] == a);
                    }
                    assert(later[earlier.len() as int] == addr);
                }
                let expected = Self::without(before, later);
                assert(self@.pending =~= expected.pending);
                assert(self@.session_map =~= expected.session_map);
                assert(self@.session_addr =~= expected.session_addr);
                self.session_map.keys_are_domain();
                assert(self@ =~= expected);
            }
        }
        assert(gone@.take(i as int) =~= gone@);
    }

    /// Drops the sessions that took too long to connect.
    fn evict_stale_temp_sessions(&mut self, now: SystemTime)
        requires
            old(self).wf(),
        ensures
            final(self).wf(),
            final(self)@ == old(self)@.evicted(now),
    {
        let ghost before = self@;
        let mut stale: Vec<SocketAddr> = Vec::new();
        let n: usize = self.session_temp.len();
        let mut i: usize = 0;
        while i < n
            invariant
                self.wf(),
                self@ == before,
                i <= n,
                n == self.session_temp.keys().len(),
                forall|j: int|
                    0 <= j < stale@.len() ==> before.stale(#[trigger] stale@[j], now),
                forall|j: int|
                    0 <= j < i && before.stale(#[trigger] self.session_temp.keys()[j], now)
                        ==> stale@.contains(self.session_temp.keys()[j]),
            decreases n - i,
        {
            let (addr, entry) = self.session_temp.entry(i);
            let ghost earlier = stale@;
            if now.since(entry.0).nanos >= PENDING_CONNECTION_TIMEOUT {
                stale.push(addr);
                assert(stale@[earlier.len() as int] == addr);
            }
            assert forall|a: SocketAddr| earlier.contains(a) implies stale@.contains(a) by {
                let j = earlier.index_of(a);
                assert(stale@[j] == a);
            }
            i = i + 1;
        }
        assert forall|a: SocketAddr| before.stale(a, now) implies #[trigger] stale@.contains(a) by {
            self.session_temp.keys_are_domain();
            assert(self.session_temp.keys().to_set().contains(a));
            let j = self.session_temp.keys().index_of(a);
            assert(self.session_temp.keys()[j] == a);
        }
        self.drop_sessions(&stale);
        proof {
            let after = self@;
            let expected = before.evicted(now);
            assert(after.pending =~= expected.pending);
            assert(after.session_map =~= expected.session_map);
            assert(after.session_addr =~= expected.session_addr);
            assert(after =~= expected);
        }
    }

    /// Forgets the addresses that have been turned away for long enough.
    fn forget_disconnected(&mut self, now: SystemTime)
        requires
            old(self).wf(),
        ensures
            final(self).wf(),
            final(self)@ == (RakServerModel {
                recent: Map::new(
                    |a: SocketAddr| old(self)@.recently_disconnected(a, now),
                    |a: SocketAddr| old(self)@.recent[a],
                ),
                ..old(self)@
            }),
    {
        let ghost before = self@;
        let n: usize = self.recently_disconnected.len();
        let mut kept: AddrMap<SystemTime> = AddrMap::new();
        let mut i: usize = 0;
        while i < n
            invariant
                self.wf(),
                self@ == before,
                kept.wf(),
                i <= n,
                n == self.recently_disconnected.keys().len(),
                forall|a: SocketAddr| #[trigger]
                    kept@.contains_key(a) ==> before.recently_disconnected(a, now) && kept@[a]
                        == before.recent[a],
                forall|j: int|
                    0 <= j < i && before.recently_disconnected(
                        #[trigger] self.recently_disconnected.keys()[j],
                        now,
                    ) ==> kept@.contains_key(self.recently_disconnected.keys()[j]),
            decreases n - i,
        {
            let (addr, at) = self.recently_disconnected.entry(i);
            if now.since(*at).nanos < RECENTLY_CONNECTED_COOLDOWN {
                kept.insert(addr, *at);
            }
            i = i + 1;
        }
        proof {
            assert forall|a: SocketAddr| before.recently_disconnected(a, now) implies #[trigger]
                kept@.contains_key(a) by {
                self.recently_disconnected.keys_are_domain();
                assert(self.recently_disconnected.keys().to_set().contains(a));
                let j = self.recently_disconnected.keys().index_of(a);
                assert(self.recently_disconnected.keys()[j] == a);
            }
            assert(kept@ =~= Map::new(
                |a: SocketAddr| before.recently_disconnected(a, now),
                |a: SocketAddr| before.recent[a],
            ));
        }
        self.recently_disconnected = kept;
        assert(self@ =~= (RakServerModel { recent: kept@, ..before }));
    }

    /// Removes the session `id`.
    fn remove_session(&mut self, id: RakSessionId, now: SystemTime)
        requires
            old(self).wf(),
        ensures
            final(self).wf(),
            final(self)@ == old(self)@.removed(id, now),
    {
        let ghost before = self@;
        if let Some(addr) = self.session_addr.remove(&id.0) {
            self.session_map.remove(addr);
            self.session_temp.remove(addr);
            self.recently_disconnected.insert(addr, now);
            proof {
                self.session_map.keys_are_domain();
                assert(self@ =~= (RakServerModel {
                    session_addr: before.session_addr.remove(id.0),
                    session_map: before.session_map.remove(addr),
                    pending: before.pending.remove(addr),
                    recent: before.recent.insert(addr, now),
                    ..before
                }));
            }
        } else {
            assert(self@ =~= before);
        }
        self.forget_disconnected(now);
        assert(self@ =~= before.removed(id, now));
    }

    /// Answers a ping.
    fn handle_unconnected_ping(&mut self, buf: &[u8], addr: SocketAddr) -> (r: Result<
        (),
        RakServerError,
    >)
        requires
            old(self).wf(),
        ensures
            final(self).wf(),
            (final(self)@, plain(r)) == old(self)@.pinged(buf@, addr),
    {
        let ping = match UnconnectedPing::deserialize(buf) {
            Ok(ping) => ping,
            Err(e) => {
                return Err(RakServerError::Codec(e));
            },
        };
        let mut message: Vec<u8> = Vec::new();
        put_bytes(&mut message, self.config.message.as_slice());
        assert(message@ =~= self.config.message@);
        let pong = UnconnectedPong { timestamp: ping.timestamp, guid: self.config.guid, message };
        let mut buf: Vec<u8> = Vec::new();
        if let Err(e) = pong.serialize(&mut buf) {
            return Err(RakServerError::Codec(e));
        }
        assert(buf@ =~= pong@.bytes());
        self.push(RakServerOutput::SocketDatagram(buf, addr));
        Ok(())
    }

    /// Answers the first request of a client.
    fn handle_open_connection_request_1(
        &mut self,
        buf: &[u8],
        addr: SocketAddr,
        now: SystemTime,
    ) -> (r: Result<(), RakServerError>)
        requires
            old(self).wf(),
            OpenConnectionRequest1::parsed(buf@) matches Ok(request) ==> (old(self)@.answer_1(
                request,
                addr,
                now,
            ) is Agreed ==> RakServerModel::<P>::wire_size(request, addr) <= u16::MAX && old(
                self,
            )@.config.min_mtu_size <= old(self)@.config.max_mtu_size),
        ensures
            final(self).wf(),
            (final(self)@, plain(r)) == old(self)@.requested_1(buf@, addr, now),
    {
        let request = match OpenConnectionRequest1::deserialize(buf) {
            Ok(request) => request,
            Err(e) => {
                return Err(RakServerError::Codec(e));
            },
        };
        let guid: u64 = self.config.guid;
        let mut buf: Vec<u8> = Vec::new();
        if !has_byte(&self.config.protocols, request.protocol) {
            let incompatible = IncompatibleProtocol { protocol: constants::PROTOCOL, guid };
            incompatible.serialize(&mut buf);
            assert(buf@ =~= incompatible.bytes());
            self.push(RakServerOutput::SocketDatagram(buf, addr));
            return Ok(());
        }
        if let Some(disconnected_at) = self.recently_disconnected.get(addr) {
            if now.since(*disconnected_at).nanos < RECENTLY_CONNECTED_COOLDOWN {
                let recent = IpRecentlyConnected { guid };
                recent.serialize(&mut buf);
                assert(buf@ =~= recent.bytes());
                self.push(RakServerOutput::SocketDatagram(buf, addr));
                return Ok(());
            }
        }
        let size: u16 = request.mtu + constants::UDP_HEADER_SIZE + get_overhead(&addr);
        let mtu: u16 = if size < self.config.min_mtu_size {
            self.config.min_mtu_size
        } else if size > self.config.max_mtu_size {
            self.config.max_mtu_size
        } else {
            size
        };
        let reply = OpenConnectionReply1 { guid, cookie: None, mtu };
        reply.serialize(&mut buf);
        assert(buf@ =~= reply.bytes());
        self.push(RakServerOutput::SocketDatagram(buf, addr));
        Ok(())
    }

    /// Answers the second request of a client, and opens a session where it agrees.
    fn handle_open_connection_request_2(
        &mut self,
        buf: &[u8],
        addr: SocketAddr,
        now: SystemTime,
    ) -> (r: Result<(), RakServerError>)
        requires
            old(self).wf(),
            OpenConnectionRequest2::parsed(buf@) matches Ok(request) ==> (old(self)@.answer_2(
                request,
                addr,
            ) is Agreed ==> old(self)@.next_id < u64::MAX),
        ensures
            final(self).wf(),
            (final(self)@, plain(r)) == old(self)@.requested_2(buf@, addr, now),
    {
        let ghost before = self@;
        let request = match OpenConnectionRequest2::deserialize(buf) {
            Ok(request) => request,
            Err(e) => {
                return Err(RakServerError::Codec(e));
            },
        };
        if request.addr.port() != self.addr.port() {
            return Err(
                RakServerError::RefusingConnection(RakRefusal::PortMismatch(addr).text()),
            );
        }
        let mtu: u16 = request.mtu;
        if !(self.config.min_mtu_size <= mtu && mtu <= self.config.max_mtu_size) {
            return Err(
                RakServerError::RefusingConnection(RakRefusal::InvalidMtu(addr).text()),
            );
        }
        let guid: u64 = self.config.guid;
        let mut buf: Vec<u8> = Vec::new();
        if self.session_map.contains_key(addr) {
            let already = AlreadyConnected { guid };
            already.serialize(&mut buf);
            assert(buf@ =~= already.bytes());
            self.push(RakServerOutput::SocketDatagram(buf, addr));
            return Ok(());
        }
        if self.session_map.len() >= self.config.max_connections {
            let full = NoFreeIncomingConnections { guid };
            full.serialize(&mut buf);
            assert(buf@ =~= full.bytes());
            self.push(RakServerOutput::SocketDatagram(buf, addr));
            return Ok(());
        }
        let reply = OpenConnectionReply2 { guid, addr, mtu, security: false };
        reply.serialize(&mut buf);
        assert(buf@ =~= reply.bytes());
        self.push(RakServerOutput::SocketDatagram(buf, addr));
        let ghost answered = self@;
        let id: RakSessionId = self.session_id;
        self.session_id = RakSessionId(id.0 + 1);
        self.session_map.insert(addr, id);
        self.session_addr.insert(id.0, addr);
        let session = RakSession::new(
            id,
            addr,
            request.client,
            request.mtu,
            self.config.max_ordering_channels,
        );
        self.session_temp.insert(addr, (now, session));
        proof {
            self.session_map.keys_are_domain();
            assert(self@ =~= answered.opened(request, addr, now));
        }
        Ok(())
    }

    /// Deals with a datagram outside of any session.
    fn handle_offline_datagram(&mut self, buf: &[u8], addr: SocketAddr, now: SystemTime) -> (r:
        Result<(), RakServerError>)
        requires
            old(self).wf(),
            buf@.len() > 0,
            old(self)@.windowed(now).total < i32::MAX,
            old(self)@.rate_limits(addr, now) || old(self)@.windowed(now).admits_packet(
                buf@,
                addr,
                now,
            ),
        ensures
            final(self).wf(),
            (final(self)@, plain(r)) == old(self)@.offline(buf@, addr, now),
    {
        if self.rate_limited(addr, now) {
            return Ok(());
        }
        let id: u8 = buf[0];
        if id == packet_id::UNCONNECTED_PING {
            self.handle_unconnected_ping(buf, addr)
        } else if id == packet_id::OPEN_CONNECTION_REQUEST_1 {
            self.handle_open_connection_request_1(buf, addr, now)
        } else if id == packet_id::OPEN_CONNECTION_REQUEST_2 {
            self.handle_open_connection_request_2(buf, addr, now)
        } else {
            Ok(())
        }
    }

    /// Deals with a datagram of a session.
    fn handle_online_datagram(&mut self, buf: Vec<u8>, addr: SocketAddr, now: SystemTime) -> (step:
        RakServerStep)
        requires
            old(self).wf(),
        ensures
            final(self).wf(),
            (final(self)@, step@) == old(self)@.online(buf@, addr, now),
    {
        if self.session_temp.contains_key(addr) {
            return RakServerStep::Handle(addr, RakSessionInput::Datagram(buf, now));
        }
        if let Some(id) = self.session_map.get(addr) {
            let id: RakSessionId = *id;
            self.push(RakServerOutput::SessionDatagram(buf, id));
        }
        RakServerStep::Done
    }

    /// Deals with an input, as far as the server can by itself. What is to be done for a
    /// session that is still to be connected is returned; the input is dealt with when that
    /// is done.
    pub fn handle(&mut self, msg: RakServerInput) -> (r: Result<RakServerStep, RakServerError>)
        requires
            old(self).wf(),
            old(self)@.admits(msg),
        ensures
            final(self).wf(),
            final(self)@ == old(self)@.handled(msg).0,
            match r {
                Ok(step) => old(self)@.handled(msg).1 == Ok::<RakServerStepView, RakServerErrorView>(
                    step@,
                ),
                Err(e) => old(self)@.handled(msg).1 == Err::<RakServerStepView, RakServerErrorView>(e@),
            },
    {
        match msg {
            RakServerInput::Datagram(buf, addr, now) => {
                if buf.len() == 0 {
                    return Ok(RakServerStep::Done);
                }
                if flags::is_valid(buf[0]) {
                    Ok(self.handle_online_datagram(buf, addr, now))
                } else {
                    match self.handle_offline_datagram(buf.as_slice(), addr, now) {
                        Ok(_) => Ok(RakServerStep::Done),
                        Err(e) => Err(e),
                    }
                }
            },
            RakServerInput::SetMaxConnections(n) => {
                self.config.max_connections = n;
                Ok(RakServerStep::Done)
            },
            RakServerInput::SetMessage(message) => {
                self.config.message = message;
                Ok(RakServerStep::Done)
            },
            RakServerInput::RemoveSession(id, now) => {
                self.remove_session(id, now);
                Ok(RakServerStep::Done)
            },
            RakServerInput::Update(now) => {
                self.evict_stale_temp_sessions(now);
                Ok(RakServerStep::Done)
            },
        }
    }

    /// Goes on after the protocol of the session at `addr` was given an input.
    pub fn session_handled(&self, addr: SocketAddr, result: Result<(), RakSessionError>) -> (r:
        Result<RakServerStep, RakServerError>)
        ensures
            match r {
                Ok(step) => RakServerModel::<P>::session_handled(addr, result) == Ok::<
                    RakServerStepView,
                    RakServerErrorView,
                >(step@),
                Err(e) => RakServerModel::<P>::session_handled(addr, result) == Err::<
                    RakServerStepView,
                    RakServerErrorView,
                >(e@),
            },
    {
        match result {
            Ok(_) => Ok(RakServerStep::Poll(addr)),
            Err(e) => Err(RakServerError::Session(e)),
        }
    }

    /// What a request to connect is answered through its session.
    fn handle_connection_request(buf: &[u8], addr: SocketAddr, now: SystemTime) -> (r: Result<
        RakSessionInput,
        RakServerError,
    >)
        ensures
            match r {
                Ok(input) => RakServerModel::<P>::connection_requested(buf@, addr, now) == Ok::<
                    RakSessionInputView,
                    RakServerErrorView,
                >(input@),
                Err(e) => RakServerModel::<P>::connection_requested(buf@, addr, now) == Err::<
                    RakSessionInputView,
                    RakServerErrorView,
                >(e@),
            },
    {
        let request = match ConnectionRequest::deserialize(buf) {
            Ok(request) => request,
            Err(e) => {
                return Err(RakServerError::Codec(e));
            },
        };
        let timestamp: u64 = match now.duration_since(SystemTime::unix_epoch()) {
            Ok(d) => truncate_u64(d.as_millis()),
            Err(_) => {
                return Err(RakServerError::Time);
            },
        };
        let accepted = ConnectionRequestAccepted {
            client_address: addr,
            system_index: 0,
            system_addresses: Vec::new(),
            request_timestamp: request.client_timestamp,
            timestamp,
        };
        let mut buf: Vec<u8> = Vec::new();
        accepted.serialize(&mut buf);
        assert(buf@ =~= accepted@.bytes());
        Ok(RakSessionInput::Send(buf, RakReliability::ReliableOrdered, RakPriority::Immediate, now))
    }

    /// Marks a session as connected, once its client says that it knows.
    fn handle_new_incoming_connection(session: &mut RakSession<P>, buf: &[u8]) -> (r: Result<
        (),
        RakServerError,
    >)
        ensures
            match r {
                Ok(_) => NewIncomingConnectionView::parsed(buf@) is Ok && *final(session) == (
                RakSession { state: RakSessionState::Connected, ..*old(session) }),
                Err(e) => (NewIncomingConnectionView::parsed(buf@) matches Err(c) && e
                    == RakServerError::Codec(c)) && *final(session) == *old(session),
            },
    {
        match NewIncomingConnection::deserialize(buf) {
            Ok(_) => {
                session.state = RakSessionState::Connected;
                Ok(())
            },
            Err(e) => Err(RakServerError::Codec(e)),
        }
    }

    /// Goes on after the protocol of the session at `addr` was asked for an output.
    pub fn session_polled(
        &mut self,
        addr: SocketAddr,
        output: Option<RakSessionOutput>,
        now: SystemTime,
    ) -> (r: Result<RakServerStep, RakServerError>)
        requires
            old(self).wf(),
        ensures
            final(self).wf(),
            final(self)@ == old(self)@.session_polled(addr, output, now).0,
            match r {
                Ok(step) => old(self)@.session_polled(addr, output, now).1 == Ok::<
                    RakServerStepView,
                    RakServerErrorView,
                >(step@),
                Err(e) => old(self)@.session_polled(addr, output, now).1 == Err::<
                    RakServerStepView,
                    RakServerErrorView,
                >(e@),
            },
    {
        if !self.session_temp.contains_key(addr) {
            return Ok(RakServerStep::Done);
        }
        match output {
            None => Ok(RakServerStep::Done),
            Some(RakSessionOutput::Datagram(buf, to)) => {
                self.push(RakServerOutput::SocketDatagram(buf, to));
                Ok(RakServerStep::Poll(addr))
            },
            Some(RakSessionOutput::Packet(buf)) => {
                if buf.len() == 0 {
                    return Ok(RakServerStep::Poll(addr));
                }
                if buf[0] == packet_id::CONNECTION_REQUEST {
                    match Self::handle_connection_request(buf.as_slice(), addr, now) {
                        Ok(input) => Ok(RakServerStep::Handle(addr, input)),
                        Err(e) => Err(e),
                    }
                } else if buf[0] == packet_id::NEW_INCOMING_CONNECTION {
                    let ghost before = self@;
                    match self.session_temp.remove(addr) {
                        Some((created, mut session)) => {
                            match Self::handle_new_incoming_connection(
                                &mut session,
                                buf.as_slice(),
                            ) {
                                Ok(_) => {
                                    self.push(
                                        RakServerOutput::SessionConnected(Box::new(session)),
                                    );
                                    assert(self@ =~= before.connected(addr));
                                    Ok(RakServerStep::Done)
                                },
                                Err(e) => {
                                    self.session_temp.insert(addr, (created, session));
                                    assert(self@.pending =~= before.pending);
                                    assert(self@ =~= before);
                                    Err(e)
                                },
                            }
                        },
                        None => Ok(RakServerStep::Done),
                    }
                } else {
                    Ok(RakServerStep::Poll(addr))
                }
            },
            Some(_) => Ok(RakServerStep::Poll(addr)),
        }
    }

    /// The next output, in the order in which they were put out.
    pub fn poll(&mut self) -> (output: Option<RakServerOutput<P>>)
        requires
            old(self).wf(),
        ensures
            final(self).wf(),
            match output {
                Some(output) => old(self)@.output.len() > 0 && output@ == old(self)@.output[0]
                    && final(self)@ == (RakServerModel {
                    output: old(self)@.output.drop_first(),
                    ..old(self)@
                }),
                None => old(self)@.output.len() == 0 && final(self)@ == old(self)@,
            },
    {
        let ghost before = self@;
        let output = self.output.pop_front();
        proof {
            if output is Some {
                assert(self@.output =~= before.output.drop_first());
            } else {
                assert(self@.output =~= before.output);
            }
        }
        output
    }

    /// The session of `addr`.
    pub fn session_id(&self, addr: SocketAddr) -> (id: Option<RakSessionId>)
        requires
            self.wf(),
        ensures
            match id {
                Some(id) => self@.session_map.contains_key(addr) && id == self@.session_map[addr],
                None => !self@.session_map.contains_key(addr),
            },
    {
        match self.session_map.get(addr) {
            Some(id) => Some(*id),
            None => None,
        }
    }

    /// The session at `addr`, if it is still to be connected.
    pub fn pending(&self, addr: SocketAddr) -> (session: Option<&RakSession<P>>)
        requires
            self.wf(),
        ensures
            match session {
                Some(session) => self@.pending.contains_key(addr) && *session
                    == self@.pending[addr].1,
                None => !self@.pending.contains_key(addr),
            },
    {
        match self.session_temp.get(addr) {
            Some(entry) => Some(&entry.1),
            None => None,
        }
    }

    /// The protocol of the session at `addr`, if that is still to be connected, to be run.
    pub fn protocol_mut(&mut self, addr: SocketAddr) -> (protocol: Option<&mut Option<P>>)
        requires
            old(self).wf(),
        ensures
            final(self).wf(),
            match protocol {
                Some(protocol) => old(self)@.pending.contains_key(addr) && *protocol == old(
                    self,
                )@.pending[addr].1.protocol && final(self)@ == old(self)@.with_protocol(
                    addr,
                    *final(protocol),
                ),
                None => !old(self)@.pending.contains_key(addr) && final(self)@ == old(self)@,
            },
    {
        match self.session_temp.get_mut(addr) {
            Some(entry) => Some(&mut entry.1.protocol),
            None => None,
        }
    }

    /// Whether `handle` can tell the numbers that it computes for an input.
    pub fn admits(&self, msg: &RakServerInput) -> (b: bool)
        requires
            self.wf(),
        ensures
            b == self@.admits(*msg),
    {
        match msg {
            RakServerInput::Datagram(buf, addr, now) => self.admits_datagram(
                buf.as_slice(),
                *addr,
                *now,
            ),
            _ => true,
        }
    }

    /// Whether there is a number left for a session of another server.
    pub fn can_adopt(&self) -> (b: bool)
        ensures
            b == (self@.next_id < u64::MAX),
    {
        self.session_id.0 < u64::MAX
    }

    /// Whether `handle` can tell the numbers that it computes for a datagram.
    pub fn admits_datagram(&self, buf: &[u8], addr: SocketAddr, now: SystemTime) -> (b: bool)
        requires
            self.wf(),
        ensures
            b == self@.admits_datagram(buf@, addr, now),
    {
        if buf.len() == 0 || flags::is_valid(buf[0]) {
            return true;
        }
        let over: bool = now.since(self.offline_window).nanos >= OFFLINE_RATE_LIMIT_WINDOW;
        let total: i32 = if over {
            0
        } else {
            self.offline_total
        };
        if total == i32::MAX {
            return false;
        }
        let count: i32 = if over {
            0
        } else {
            match self.offline_per_ip.get(addr) {
                Some(count) => *count,
                None => 0,
            }
        };
        assert(count <= total) by {
            assert(!over && self@.per_ip.contains_key(addr) ==> count == self@.per_ip[addr]);
        }
        if total + 1 > self.config.total_packet_limit || count + 1 > self.config.packet_limit {
            return true;
        }
        self.admits_packet(buf, addr, now)
    }

    /// The same for an offline packet that is not one too many.
    fn admits_packet(&self, buf: &[u8], addr: SocketAddr, now: SystemTime) -> (b: bool)
        requires
            self.wf(),
            buf@.len() > 0,
        ensures
            b == self@.windowed(now).admits_packet(buf@, addr, now),
    {
        if buf[0] == packet_id::OPEN_CONNECTION_REQUEST_1 {
            match OpenConnectionRequest1::deserialize(buf) {
                Err(_) => true,
                Ok(request) => {
                    if !has_byte(&self.config.protocols, request.protocol) {
                        return true;
                    }
                    if let Some(at) = self.recently_disconnected.get(addr) {
                        if now.since(*at).nanos < RECENTLY_CONNECTED_COOLDOWN {
                            return true;
                        }
                    }
                    request.mtu as u32 + constants::UDP_HEADER_SIZE as u32 + get_overhead(
                        &addr,
                    ) as u32 <= 0xffff && self.config.min_mtu_size <= self.config.max_mtu_size
                },
            }
        } else if buf[0] == packet_id::OPEN_CONNECTION_REQUEST_2 {
            match OpenConnectionRequest2::deserialize(buf) {
                Err(_) => true,
                Ok(request) => request.addr.port() != self.addr.port() || request.mtu
                    < self.config.min_mtu_size || request.mtu > self.config.max_mtu_size
                    || self.session_map.contains_key(addr) || self.session_map.len()
                    >= self.config.max_connections || self.session_id.0 < u64::MAX,
            }
        } else {
            true
        }
    }
}

} // verus!

//! What a server is for: what comes of each input, told by the bytes that came, the settings,
//! the clock and what was answered before.

use crate::net::SocketAddr;
use crate::protocol::codec::RakCodecError;
use crate::protocol::packets::connection::{
    ConnectionRequest, ConnectionRequestAcceptedView, NewIncomingConnectionView,
};
use crate::protocol::packets::open_connection::{
    OpenConnectionReply1, OpenConnectionReply2, OpenConnectionRequest1, OpenConnectionRequest2,
};
use crate::protocol::packets::ping::{UnconnectedPing, UnconnectedPongView};
use crate::protocol::packets::refusal::{
    AlreadyConnected, IncompatibleProtocol, IpRecentlyConnected, NoFreeIncomingConnections,
};
use crate::server::config::RakServerConfig;
use crate::server::error::{RakRefusal, RakServerError, RakServerErrorView};
use crate::server::input::{RakServerInput, RakServerStep, RakServerStepView};
use crate::server::laws::plain_result;
use crate::server::model::RakServerModel;
use crate::server::output::{RakServerOutput, RakServerOutputView};
use crate::server::RakServer;
use crate::session::state::RakSessionState;
use crate::session::{
    RakSession, RakSessionError, RakSessionId, RakSessionInputView, RakSessionOutput,
};
use crate::time::SystemTime;
use crate::types::priority::RakPriority;
use crate::types::reliability::RakReliability;
use crate::util::addr_text::addr_text;
use vstd::prelude::*;

verus! {

/// Whether a second has gone by since the offline packets that are counted began to come.
pub open spec fn second_is_over<P>(m: RakServerModel<P>, now: SystemTime) -> bool {
    now@ - m.window@ >= 1_000_000_000
}

/// How many offline packets came in all in the second that `now` lies in.
pub open spec fn came_in_all<P>(m: RakServerModel<P>, now: SystemTime) -> int {
    if second_is_over(m, now) {
        0
    } else {
        m.total as int
    }
}

/// How many offline packets came from `addr` in the second that `now` lies in.
pub open spec fn came_from<P>(m: RakServerModel<P>, addr: SocketAddr, now: SystemTime) -> int {
    if second_is_over(m, now) || !m.per_ip.contains_key(addr) {
        0
    } else {
        m.per_ip[addr] as int
    }
}

/// Whether one more offline packet from `addr` stays within both limits.
pub open spec fn within_limits<P>(m: RakServerModel<P>, addr: SocketAddr, now: SystemTime) -> bool {
    came_in_all(m, now) < m.config.total_packet_limit && came_from(m, addr, now)
        < m.config.packet_limit
}

/// Whether the bytes are those of an offline packet.
pub open spec fn is_offline(buf: Seq<u8>) -> bool {
    buf.len() > 0 && buf[0] < 0x80
}

/// Whether nothing has changed but the counts of offline packets.
pub open spec fn only_counts<P>(m: RakServerModel<P>, after: RakServerModel<P>) -> bool {
    after == RakServerModel {
        window: after.window,
        total: after.total,
        per_ip: after.per_ip,
        ..m
    }
}

/// Whether nothing has changed but the counts of offline packets and that `bytes` is sent to
/// `addr`.
pub open spec fn only_sends<P>(
    m: RakServerModel<P>,
    after: RakServerModel<P>,
    bytes: Seq<u8>,
    addr: SocketAddr,
) -> bool {
    after == RakServerModel {
        window: after.window,
        total: after.total,
        per_ip: after.per_ip,
        output: m.output.push(RakServerOutputView::SocketDatagram(bytes, addr)),
        ..m
    }
}

/// The result of an input that is dealt with at once.
pub open spec fn done() -> Result<RakServerStepView, RakServerErrorView> {
    Ok(RakServerStepView::Done)
}

/// A server begins with no sessions, nothing counted, nobody turned away and nothing to say.
pub proof fn servers_begin_empty<P>(config: RakServerConfig, addr: SocketAddr)
    ensures
        ({
            let m = RakServerModel::<P>::created(config, addr);
            &&& m.config == config
            &&& m.addr == addr
            &&& m.next_id == 0
            &&& forall|a: SocketAddr|
                !m.session_map.contains_key(a) && !m.pending.contains_key(a)
                    && !m.recent.contains_key(a) && !#[trigger] m.per_ip.contains_key(a)
            &&& forall|i: u64| !#[trigger] m.session_addr.contains_key(i)
            &&& m.window@ == 0
            &&& m.total == 0
            &&& m.output.len() == 0
        }),
{
}

/// Every offline packet is counted in the second that it comes in: in all, and from its address
/// as long as the limit for all is not passed. A second that is over ends at the packet that
/// comes after it, which is the first of the next.
pub proof fn offline_packets_are_counted<P>(
    m: RakServerModel<P>,
    buf: Vec<u8>,
    addr: SocketAddr,
    now: SystemTime,
)
    requires
        m.inv(),
        is_offline(buf@),
        m.admits(RakServerInput::Datagram(buf, addr, now)),
    ensures
        ({
            let after = m.handled(RakServerInput::Datagram(buf, addr, now)).0;
            &&& second_is_over(m, now) ==> after.window == now
            &&& !second_is_over(m, now) ==> after.window == m.window
            &&& after.total == came_in_all(m, now) + 1
            &&& after.total <= m.config.total_packet_limit ==> after.per_ip.contains_key(addr)
                && after.per_ip[addr] == came_from(m, addr, now) + 1
            &&& after.total > m.config.total_packet_limit ==> came_from(
                after,
                addr,
                after.window,
            ) == came_from(m, addr, now)
            &&& forall|a: SocketAddr|
                a != addr ==> #[trigger] came_from(after, a, after.window) == came_from(m, a, now)
            &&& after.config == m.config
            &&& after.recent == m.recent
            &&& after.addr == m.addr
        }),
{
    let after = m.handled(RakServerInput::Datagram(buf, addr, now)).0;
    assert(after.window == m.counted(addr, now).window);
    assert forall|a: SocketAddr| a != addr implies #[trigger] came_from(after, a, after.window)
        == came_from(m, a, now) by {
        assert(after.per_ip.contains_key(a) == m.windowed(now).per_ip.contains_key(a));
    }
}

/// A packet of a session is not counted.
pub proof fn session_packets_are_not_counted<P>(
    m: RakServerModel<P>,
    buf: Vec<u8>,
    addr: SocketAddr,
    now: SystemTime,
)
    requires
        !is_offline(buf@),
    ensures
        ({
            let after = m.handled(RakServerInput::Datagram(buf, addr, now)).0;
            after.total == m.total && after.per_ip == m.per_ip && after.window == m.window
        }),
{
}

/// An offline packet beyond a limit is not answered, opens nothing, and is no error.
pub proof fn beyond_the_limits_nothing_happens<P>(
    m: RakServerModel<P>,
    buf: Vec<u8>,
    addr: SocketAddr,
    now: SystemTime,
)
    requires
        is_offline(buf@),
        !within_limits(m, addr, now),
    ensures
        only_counts(m, m.handled(RakServerInput::Datagram(buf, addr, now)).0),
        m.handled(RakServerInput::Datagram(buf, addr, now)).1 == done(),
{
}

/// No bytes at all change nothing.
pub proof fn empty_datagrams_are_nothing<P>(
    m: RakServerModel<P>,
    buf: Vec<u8>,
    addr: SocketAddr,
    now: SystemTime,
)
    requires
        buf@.len() == 0,
    ensures
        m.handled(RakServerInput::Datagram(buf, addr, now)) == (m, done()),
{
}

/// An offline packet that is neither a ping nor a request of the handshake is not answered.
pub proof fn other_packets_are_not_answered<P>(
    m: RakServerModel<P>,
    buf: Vec<u8>,
    addr: SocketAddr,
    now: SystemTime,
)
    requires
        is_offline(buf@),
        buf@[0] != 0x01 && buf@[0] != 0x05 && buf@[0] != 0x07,
    ensures
        only_counts(m, m.handled(RakServerInput::Datagram(buf, addr, now)).0),
        m.handled(RakServerInput::Datagram(buf, addr, now)).1 == done(),
{
}

/// A ping within the limits is answered with its own timestamp, who the server is, and what it
/// has to say; one that cannot be read, or answered in a packet, is an error.
pub proof fn pings_are_answered<P>(
    m: RakServerModel<P>,
    buf: Vec<u8>,
    addr: SocketAddr,
    now: SystemTime,
)
    requires
        buf@.len() > 0,
        buf@[0] == 0x01,
        within_limits(m, addr, now),
    ensures
        ({
            let (after, r) = m.handled(RakServerInput::Datagram(buf, addr, now));
            match UnconnectedPing::parsed(buf@) {
                Err(e) => only_counts(m, after) && r == Err::<
                    RakServerStepView,
                    RakServerErrorView,
                >(RakServerErrorView::Codec(e)),
                Ok(ping) => if m.config.message@.len() > 0xffff {
                    only_counts(m, after) && r == Err::<RakServerStepView, RakServerErrorView>(
                        RakServerErrorView::Codec(RakCodecError::TooLong),
                    )
                } else {
                    &&& r == done()
                    &&& only_sends(
                        m,
                        after,
                        (UnconnectedPongView {
                            timestamp: ping.timestamp,
                            guid: m.config.guid,
                            message: m.config.message@,
                        }).bytes(),
                        addr,
                    )
                },
            }
        }),
{
}

/// A ping that can be read and answered is answered if and only if it is within the limits.
pub proof fn pings_are_answered_if_within<P>(
    m: RakServerModel<P>,
    buf: Vec<u8>,
    addr: SocketAddr,
    now: SystemTime,
)
    requires
        buf@.len() > 0,
        buf@[0] == 0x01,
        UnconnectedPing::parsed(buf@) is Ok,
        m.config.message@.len() <= 0xffff,
    ensures
        m.handled(RakServerInput::Datagram(buf, addr, now)).0.output.len() == m.output.len()
            + if within_limits(m, addr, now) {
            1int
        } else {
            0int
        },
{
}

/// Whether the address lost its session less than five seconds before `now`.
pub open spec fn lost_lately<P>(m: RakServerModel<P>, addr: SocketAddr, now: SystemTime) -> bool {
    m.recent.contains_key(addr) && now@ - m.recent[addr]@ < 5_000_000_000
}

/// The bytes that a first request took on the wire with the headers of UDP and IP.
pub open spec fn taken_on_the_wire(request: OpenConnectionRequest1, addr: SocketAddr) -> int {
    request.mtu + 8 + match addr {
        SocketAddr::V4(_) => 20int,
        SocketAddr::V6(_) => 40int,
    }
}

/// A first request within the limits that can be read gets one answer. Where the server does not
/// speak the client's version, that is the word that they are incompatible. Where the address
/// lost its session less than five seconds ago, it is the word of that. Otherwise the server
/// agrees, on the size that the request took on the wire or the nearest one within its limits,
/// without a cookie. Nothing is opened, and what cannot be read is an error without an answer.
pub proof fn first_requests_are_answered<P>(
    m: RakServerModel<P>,
    buf: Vec<u8>,
    addr: SocketAddr,
    now: SystemTime,
    mtu: u16,
)
    requires
        m.admits(RakServerInput::Datagram(buf, addr, now)),
        buf@.len() > 0,
        buf@[0] == 0x05,
        within_limits(m, addr, now),
    ensures
        ({
            let (after, r) = m.handled(RakServerInput::Datagram(buf, addr, now));
            let guid = m.config.guid;
            match OpenConnectionRequest1::parsed(buf@) {
                Err(e) => only_counts(m, after) && r == Err::<
                    RakServerStepView,
                    RakServerErrorView,
                >(RakServerErrorView::Codec(e)),
                Ok(request) => {
                    let size = taken_on_the_wire(request, addr);
                    &&& r == done()
                    &&& !m.config.protocols@.contains(request.protocol) ==> only_sends(
                        m,
                        after,
                        (IncompatibleProtocol { protocol: 11, guid }).bytes(),
                        addr,
                    )
                    &&& m.config.protocols@.contains(request.protocol) && lost_lately(m, addr, now)
                        ==> only_sends(m, after, (IpRecentlyConnected { guid }).bytes(), addr)
                    &&& m.config.protocols@.contains(request.protocol) && !lost_lately(
                        m,
                        addr,
                        now,
                    ) ==> {
                        &&& m.config.min_mtu_size <= m.config.max_mtu_size
                        &&& mtu == size && m.config.min_mtu_size <= mtu <= m.config.max_mtu_size
                            ==> only_sends(
                            m,
                            after,
                            (OpenConnectionReply1 { guid, cookie: None, mtu }).bytes(),
                            addr,
                        )
                        &&& size < m.config.min_mtu_size ==> only_sends(
                            m,
                            after,
                            (OpenConnectionReply1 {
                                guid,
                                cookie: None,
                                mtu: m.config.min_mtu_size,
                            }).bytes(),
                            addr,
                        )
                        &&& size > m.config.max_mtu_size ==> only_sends(
                            m,
                            after,
                            (OpenConnectionReply1 {
                                guid,
                                cookie: None,
                                mtu: m.config.max_mtu_size,
                            }).bytes(),
                            addr,
                        )
                    }
                },
            }
        }),
{
}

/// A server agrees to a first request only in a version that it speaks: whatever it is sent by
/// way of one, an answer that begins as an agreement is put out only if its settings name the
/// version.
pub proof fn agreement_needs_a_version_in_common<P>(
    m: RakServerModel<P>,
    buf: Vec<u8>,
    addr: SocketAddr,
    now: SystemTime,
)
    requires
        m.admits(RakServerInput::Datagram(buf, addr, now)),
        buf@.len() > 0,
        buf@[0] == 0x05,
    ensures
        ({
            let after = m.handled(RakServerInput::Datagram(buf, addr, now)).0;
            (after.output != m.output && (after.output.last() matches
                RakServerOutputView::SocketDatagram(bytes, _) && bytes[0] == 0x06)) ==> (
            OpenConnectionRequest1::parsed(buf@) matches Ok(request)
                && m.config.protocols@.contains(request.protocol))
        }),
{
    let guid = m.config.guid;
    assert((IncompatibleProtocol { protocol: 11, guid }).bytes()[0] == 0x19);
}

/// A second request within the limits that can be read. One for another port than the server's,
/// or with a size outside of its limits, is an error that says so, without an answer. One from
/// an address with a session is told so; one that finds as many sessions as the server takes is
/// told that. Any other one opens a session at once, under the next number, with the client's
/// own number and size, and is told so; the session is to be connected from then on.
pub proof fn second_requests_are_answered<P>(
    m: RakServerModel<P>,
    buf: Vec<u8>,
    addr: SocketAddr,
    now: SystemTime,
    request: OpenConnectionRequest2,
)
    requires
        m.admits(RakServerInput::Datagram(buf, addr, now)),
        buf@.len() > 0,
        buf@[0] == 0x07,
        within_limits(m, addr, now),
        OpenConnectionRequest2::parsed(buf@) == Ok::<OpenConnectionRequest2, RakCodecError>(request),
    ensures
        ({
            let (after, r) = m.handled(RakServerInput::Datagram(buf, addr, now));
            let guid = m.config.guid;
            let from = "refusing connection from "@ + addr_text(addr);
            let fits = m.config.min_mtu_size <= request.mtu <= m.config.max_mtu_size;
            let id = RakSessionId(m.next_id);
            let reply = OpenConnectionReply2 { guid, addr, mtu: request.mtu, security: false };
            if port(request.addr) != port(m.addr) {
                only_counts(m, after) && r == Err::<RakServerStepView, RakServerErrorView>(
                    RakServerErrorView::RefusingConnection(from + " due to port mismatch"@),
                )
            } else if !fits {
                only_counts(m, after) && r == Err::<RakServerStepView, RakServerErrorView>(
                    RakServerErrorView::RefusingConnection(from + " due to invalid mtu size"@),
                )
            } else if m.session_map.contains_key(addr) {
                r == done() && only_sends(m, after, (AlreadyConnected { guid }).bytes(), addr)
            } else if m.session_map.dom().len() >= m.config.max_connections {
                r == done() && only_sends(
                    m,
                    after,
                    (NoFreeIncomingConnections { guid }).bytes(),
                    addr,
                )
            } else {
                &&& r == done()
                &&& after == RakServerModel {
                    window: after.window,
                    total: after.total,
                    per_ip: after.per_ip,
                    output: m.output.push(
                        RakServerOutputView::SocketDatagram(reply.bytes(), addr),
                    ),
                    next_id: after.next_id,
                    session_map: m.session_map.insert(addr, id),
                    session_addr: m.session_addr.insert(m.next_id, addr),
                    pending: m.pending.insert(
                        addr,
                        (
                            now,
                            RakSession {
                                id,
                                addr,
                                guid: request.client,
                                mtu: request.mtu,
                                ordering_channels: m.config.max_ordering_channels,
                                state: RakSessionState::Disconnected,
                                protocol: None,
                            },
                        ),
                    ),
                    ..m
                }
                &&& after.next_id == m.next_id + 1
            }
        }),
{
}

/// The port of an address.
pub open spec fn port(addr: SocketAddr) -> u16 {
    match addr {
        SocketAddr::V4(v4) => v4.port,
        SocketAddr::V6(v6) => v6.port,
    }
}

/// A second request that cannot be read is an error, without an answer.
pub proof fn unreadable_second_requests_are_errors<P>(
    m: RakServerModel<P>,
    buf: Vec<u8>,
    addr: SocketAddr,
    now: SystemTime,
    e: RakCodecError,
)
    requires
        buf@.len() > 0,
        buf@[0] == 0x07,
        within_limits(m, addr, now),
        OpenConnectionRequest2::parsed(buf@) == Err::<OpenConnectionRequest2, RakCodecError>(e),
    ensures
        only_counts(m, m.handled(RakServerInput::Datagram(buf, addr, now)).0),
        m.handled(RakServerInput::Datagram(buf, addr, now)).1 == Err::<
            RakServerStepView,
            RakServerErrorView,
        >(RakServerErrorView::Codec(e)),
{
}

/// A packet of a session goes, byte for byte, to the protocol of a session that is to be
/// connected at its address, or else to the session that its address has; it is dropped where
/// there is none.
pub proof fn session_packets_find_their_session<P>(
    m: RakServerModel<P>,
    buf: Vec<u8>,
    addr: SocketAddr,
    now: SystemTime,
)
    requires
        buf@.len() > 0,
        buf@[0] >= 0x80,
    ensures
        ({
            let (after, r) = m.handled(RakServerInput::Datagram(buf, addr, now));
            if m.pending.contains_key(addr) {
                after == m && r == Ok::<RakServerStepView, RakServerErrorView>(
                    RakServerStepView::Handle(addr, RakSessionInputView::Datagram(buf@, now)),
                )
            } else if m.session_map.contains_key(addr) {
                r == done() && after == RakServerModel {
                    output: m.output.push(
                        RakServerOutputView::SessionDatagram(buf@, m.session_map[addr]),
                    ),
                    ..m
                }
            } else {
                after == m && r == done()
            }
        }),
{
}

/// The settings are what they were set to, and nothing else changes.
pub proof fn settings_are_set<P>(m: RakServerModel<P>, n: usize, message: Vec<u8>)
    ensures
        m.handled(RakServerInput::SetMaxConnections(n)) == (
            RakServerModel {
                config: RakServerConfig { max_connections: n, ..m.config },
                ..m
            },
            done(),
        ),
        m.handled(RakServerInput::SetMessage(message)) == (
            RakServerModel { config: RakServerConfig { message, ..m.config }, ..m },
            done(),
        ),
{
}

/// A session that is over is gone from everywhere, and its address is turned away from `now` on.
/// Whoever lost a session five seconds before `now` or earlier is turned away no more, and all
/// others who lost one still are. A session that is not there changes nothing but that.
pub proof fn removal_forgets_the_session<P>(
    m: RakServerModel<P>,
    id: RakSessionId,
    now: SystemTime,
)
    ensures
        ({
            let (after, r) = m.handled(RakServerInput::RemoveSession(id, now));
            let addr = m.session_addr[id.0];
            let known = m.session_addr.contains_key(id.0);
            &&& r == done()
            &&& after == RakServerModel {
                session_addr: after.session_addr,
                session_map: after.session_map,
                pending: after.pending,
                recent: after.recent,
                ..m
            }
            &&& known ==> after.session_addr == m.session_addr.remove(id.0) && after.session_map
                == m.session_map.remove(addr) && after.pending == m.pending.remove(addr)
            &&& !known ==> after.session_addr == m.session_addr && after.session_map
                == m.session_map && after.pending == m.pending
            &&& known ==> after.recent.contains_key(addr) && after.recent[addr] == now
            &&& forall|a: SocketAddr|
                #![trigger after.recent.contains_key(a)]
                !(known && a == addr) ==> (after.recent.contains_key(a) <==> lost_lately(m, a, now))
                    && (after.recent.contains_key(a) ==> after.recent[a] == m.recent[a])
        }),
{
}

/// As time passes, exactly the sessions that have been waiting to be connected for ten seconds
/// or more are gone, from their addresses too; all else stays, and nothing is said.
pub proof fn waiting_is_limited<P>(m: RakServerModel<P>, now: SystemTime)
    requires
        m.inv(),
    ensures
        ({
            let (after, r) = m.handled(RakServerInput::Update(now));
            &&& r == done()
            &&& after == RakServerModel {
                session_addr: after.session_addr,
                session_map: after.session_map,
                pending: after.pending,
                ..m
            }
            &&& forall|a: SocketAddr|
                #![trigger after.pending.contains_key(a)]
                (after.pending.contains_key(a) <==> m.pending.contains_key(a) && now@
                    - m.pending[a].0@ < 10_000_000_000) && (after.pending.contains_key(a)
                    ==> after.pending[a] == m.pending[a])
            &&& forall|a: SocketAddr|
                #![trigger after.session_map.contains_key(a)]
                (after.session_map.contains_key(a) <==> m.session_map.contains_key(a) && !(
                m.pending.contains_key(a) && now@ - m.pending[a].0@ >= 10_000_000_000)) && (
                after.session_map.contains_key(a) ==> after.session_map[a] == m.session_map[a])
            &&& forall|i: u64|
                #![trigger after.session_addr.contains_key(i)]
                (after.session_addr.contains_key(i) ==> m.session_addr.contains_key(i)
                    && after.session_addr[i] == m.session_addr[i]) && (m.session_addr.contains_key(
                    i,
                ) && !after.session_addr.contains_key(i) ==> !after.session_map.contains_key(
                    m.session_addr[i],
                ) && m.session_map[m.session_addr[i]].0 == i)
            &&& forall|a: SocketAddr|
                #![trigger m.session_map.contains_key(a)]
                m.session_map.contains_key(a) && !after.session_map.contains_key(a)
                    ==> !after.session_addr.contains_key(m.session_map[a].0)
        }),
{
    let after = m.handled(RakServerInput::Update(now)).0;
    assert forall|a: SocketAddr|
        #![trigger m.session_map.contains_key(a)]
        m.session_map.contains_key(a) && !after.session_map.contains_key(
            a,
        ) implies !after.session_addr.contains_key(m.session_map[a].0) by {
        assert(m.session_addr[m.session_map[a].0] == a);
    }
}

/// What the protocol of a pending session returned is passed on: an error as an error of the
/// session, and otherwise the protocol is asked for outputs.
pub proof fn protocols_are_asked_after_an_input<P>(addr: SocketAddr, e: RakSessionError)
    ensures
        RakServerModel::<P>::session_handled(addr, Ok(())) == Ok::<
            RakServerStepView,
            RakServerErrorView,
        >(RakServerStepView::Poll(addr)),
        RakServerModel::<P>::session_handled(addr, Err(e)) == Err::<
            RakServerStepView,
            RakServerErrorView,
        >(RakServerErrorView::Session(e)),
{
}

/// What comes of an output of a pending session's protocol. A datagram is sent as it is. A
/// request to connect is answered through the session, reliably, in order and at once, with the
/// timestamp of the request and the time in milliseconds; it is an error before the Unix epoch.
/// The word of the client that it knows of the connection ends the wait: the session is put out,
/// connected and otherwise as it was. Nothing else matters, and nothing does at an address
/// without a pending session.
pub proof fn session_outputs_are_seen_to<P>(
    m: RakServerModel<P>,
    addr: SocketAddr,
    output: RakSessionOutput,
    now: SystemTime,
    millis: u64,
)
    ensures
        ({
            let (after, r) = m.session_polled(addr, Some(output), now);
            let more = Ok::<RakServerStepView, RakServerErrorView>(RakServerStepView::Poll(addr));
            if !m.pending.contains_key(addr) {
                after == m && r == done()
            } else {
                match output {
                    RakSessionOutput::Datagram(buf, to) => r == more && after == RakServerModel {
                        output: m.output.push(RakServerOutputView::SocketDatagram(buf@, to)),
                        ..m
                    },
                    RakSessionOutput::Packet(buf) => if buf@.len() > 0 && buf@[0] == 0x09 {
                        &&& after == m
                        &&& match ConnectionRequest::parsed(buf@) {
                            Err(e) => r == Err::<RakServerStepView, RakServerErrorView>(
                                RakServerErrorView::Codec(e),
                            ),
                            Ok(request) => if now@ < 0 {
                                r == Err::<RakServerStepView, RakServerErrorView>(
                                    RakServerErrorView::Time,
                                )
                            } else {
                                &&& r matches Ok(RakServerStepView::Handle(to, input))
                                &&& to == addr
                                &&& millis * 1_000_000 <= now@ < (millis + 1) * 1_000_000
                                    ==> input == RakSessionInputView::Send(
                                        (ConnectionRequestAcceptedView {
                                            client_address: addr,
                                            system_index: 0,
                                            system_addresses: Seq::empty(),
                                            request_timestamp: request.client_timestamp,
                                            timestamp: millis,
                                        }).bytes(),
                                        RakReliability::ReliableOrdered,
                                        RakPriority::Immediate,
                                        now,
                                    )
                            },
                        }
                    } else if buf@.len() > 0 && buf@[0] == 0x13 {
                        match NewIncomingConnectionView::parsed(buf@) {
                            Err(e) => after == m && r == Err::<
                                RakServerStepView,
                                RakServerErrorView,
                            >(RakServerErrorView::Codec(e)),
                            Ok(_) => r == done() && after == RakServerModel {
                                pending: m.pending.remove(addr),
                                output: m.output.push(
                                    RakServerOutputView::SessionConnected(
                                        RakSession {
                                            state: RakSessionState::Connected,
                                            ..m.pending[addr].1
                                        },
                                    ),
                                ),
                                ..m
                            },
                        }
                    } else {
                        after == m && r == more
                    },
                    _ => after == m && r == more,
                }
            }
        }),
{
}

/// When the protocol of a pending session has no more outputs, that is all.
pub proof fn exchanges_end_without_outputs<P>(m: RakServerModel<P>, addr: SocketAddr, now: SystemTime)
    ensures
        m.session_polled(addr, None, now) == (m, done()),
{
}

/// Running the protocol of a pending session changes the state of the protocol alone.
pub proof fn protocols_run_by_themselves<P>(
    m: RakServerModel<P>,
    addr: SocketAddr,
    protocol: Option<P>,
)
    requires
        m.pending.contains_key(addr),
    ensures
        ({
            let after = m.with_protocol(addr, protocol);
            &&& after == RakServerModel { pending: after.pending, ..m }
            &&& after.pending.dom() == m.pending.dom()
            &&& forall|a: SocketAddr|
                #![trigger after.pending[a]]
                m.pending.contains_key(a) && a != addr ==> after.pending[a] == m.pending[a]
            &&& after.pending[addr].0 == m.pending[addr].0
            &&& after.pending[addr].1.protocol == protocol
            &&& after.pending[addr].1 == RakSession { protocol, ..m.pending[addr].1 }
        }),
{
    let after = m.with_protocol(addr, protocol);
    assert(after.pending.dom() =~= m.pending.dom());
}

/// A session of another server goes on under the next number, reached at its address, with all
/// else of it as it was. `adopt` puts it out as connected; `take_over` hands it out.
pub proof fn other_servers_sessions_go_on<P>(m: RakServerModel<P>, session: RakSession<P>)
    requires
        m.next_id < u64::MAX,
    ensures
        ({
            let adopted = m.adopted(session);
            let taken = m.taken_over(session);
            let out = RakSession { id: RakSessionId(m.next_id), ..session };
            &&& m.renumbered(session) == out
            &&& adopted.output == m.output.push(RakServerOutputView::SessionConnected(out))
            &&& adopted == RakServerModel { output: adopted.output, ..taken }
            &&& taken == RakServerModel {
                next_id: taken.next_id,
                session_map: m.session_map.insert(session.addr, RakSessionId(m.next_id)),
                session_addr: m.session_addr.insert(m.next_id, session.addr),
                ..m
            }
            &&& taken.next_id == m.next_id + 1
        }),
{
}

/// A server deals with every input but those on which a number would not fit: the count of a
/// second's offline packets, the size of a first request on the wire, limits on the size with
/// nothing between them, and the number of a session.
pub proof fn only_numbers_keep_inputs_out<P>(
    m: RakServerModel<P>,
    msg: RakServerInput,
)
    requires
        m.inv(),
    ensures
        m.admits(msg) <==> match msg {
            RakServerInput::Datagram(buf, addr, now) => {
                let limited = is_offline(buf@) && within_limits(m, addr, now);
                &&& is_offline(buf@) ==> came_in_all(m, now) < i32::MAX
                &&& limited && buf@[0] == 0x05 ==> (OpenConnectionRequest1::parsed(buf@)
                    matches Ok(request) ==> !m.config.protocols@.contains(request.protocol)
                    || lost_lately(m, addr, now) || (taken_on_the_wire(request, addr) <= 0xffff
                    && m.config.min_mtu_size <= m.config.max_mtu_size))
                &&& limited && buf@[0] == 0x07 ==> (OpenConnectionRequest2::parsed(buf@)
                    matches Ok(request) ==> port(request.addr) != port(m.addr) || !(
                m.config.min_mtu_size <= request.mtu <= m.config.max_mtu_size)
                    || m.session_map.contains_key(addr) || m.session_map.dom().len()
                    >= m.config.max_connections || m.next_id < u64::MAX)
            },
            _ => true,
        },
{
}

/// What is polled is what was put out, byte for byte.
pub proof fn outputs_tell_all<P>(output: RakServerOutput<P>)
    ensures
        match output {
            RakServerOutput::SocketDatagram(buf, addr) => output@
                == RakServerOutputView::<P>::SocketDatagram(buf@, addr),
            RakServerOutput::SessionDatagram(buf, id) => output@
                == RakServerOutputView::<P>::SessionDatagram(buf@, id),
            RakServerOutput::SessionConnected(session) => output@
                == RakServerOutputView::<P>::SessionConnected(*session),
        },
{
}

/// What is to be done is told byte for byte.
pub proof fn steps_tell_all(step: RakServerStep)
    ensures
        match step {
            RakServerStep::Done => step@ == RakServerStepView::Done,
            RakServerStep::Handle(addr, input) => step@ == RakServerStepView::Handle(addr, input@),
            RakServerStep::Poll(addr) => step@ == RakServerStepView::Poll(addr),
        },
{
}

/// A datagram is dealt with in the same way wherever it is told of.
pub proof fn datagrams_are_inputs<P>(
    m: RakServerModel<P>,
    buf: Vec<u8>,
    addr: SocketAddr,
    now: SystemTime,
)
    ensures
        m.received(buf@, addr, now) == m.handled(RakServerInput::Datagram(buf, addr, now)),
        m.admits_datagram(buf@, addr, now) == m.admits(RakServerInput::Datagram(buf, addr, now)),
{
}

/// What `handle` does is what its inputs are for, and what is polled comes out in the order in
/// which it was put out, each output once.
pub proof fn servers_do_what_they_are_told<P>(
    server: &mut RakServer<P>,
    msg: RakServerInput,
    r: Result<RakServerStep, RakServerError>,
    polled: &mut RakServer<P>,
    output: Option<RakServerOutput<P>>,
)
    requires
        call_ensures(RakServer::<P>::handle, (server, msg), r),
        call_ensures(RakServer::<P>::poll, (polled,), output),
    ensures
        (final(server)@, plain_result(r)) == old(server)@.handled(msg),
        final(server).wf(),
        output is Some <==> old(polled)@.output.len() > 0,
        output matches Some(output) ==> seq![output@] + final(polled)@.output == old(polled)@.output,
        final(polled)@ == (RakServerModel { output: final(polled)@.output, ..old(polled)@ }),
        output is None ==> final(polled)@.output == old(polled)@.output,
{
    if let Some(output) = output {
        assert(seq![output@] + old(polled)@.output.drop_first() =~= old(polled)@.output);
    }
}

/// What becomes of a server as the protocol of a pending session runs is told by what the
/// protocol does.
pub proof fn servers_follow_protocols<P>(
    server: &mut RakServer<P>,
    other: &RakServer<P>,
    addr: SocketAddr,
    output: Option<RakSessionOutput>,
    now: SystemTime,
    result: Result<(), RakSessionError>,
    polled: Result<RakServerStep, RakServerError>,
    handled: Result<RakServerStep, RakServerError>,
)
    requires
        call_ensures(RakServer::<P>::session_polled, (server, addr, output, now), polled),
        call_ensures(RakServer::<P>::session_handled, (other, addr, result), handled),
    ensures
        (final(server)@, plain_result(polled)) == old(server)@.session_polled(addr, output, now),
        result is Ok ==> (handled matches Ok(RakServerStep::Poll(to)) && to == addr),
        result matches Err(e) ==> (handled matches Err(RakServerError::Session(f)) && f == e),
{
}

/// A new server has nothing but its settings and its address, and one that takes over a session
/// has that session under the next number.
pub proof fn servers_begin_and_take_over<P>(
    config: RakServerConfig,
    addr: SocketAddr,
    created: RakServer<P>,
    adopting: &mut RakServer<P>,
    taking: &mut RakServer<P>,
    session: RakSession<P>,
    taken: RakSession<P>,
)
    requires
        call_ensures(RakServer::<P>::new, (config, addr), created),
        call_ensures(RakServer::<P>::adopt, (adopting, session), ()),
        call_ensures(RakServer::<P>::take_over, (taking, session), taken),
    ensures
        created@ == RakServerModel::<P>::created(config, addr),
        created.wf(),
        final(adopting)@ == old(adopting)@.adopted(session),
        final(taking)@ == old(taking)@.taken_over(session),
        taken == (RakSession { id: RakSessionId(old(taking)@.next_id), ..session }),
{
}

/// What a server tells of its sessions: the number at an address, and the session there as long
/// as it is to be connected; and whether it can deal with an input.
pub proof fn servers_tell_their_sessions<P>(
    server: &RakServer<P>,
    addr: SocketAddr,
    id: Option<RakSessionId>,
    pending: Option<&RakSession<P>>,
    msg: RakServerInput,
    admitted: bool,
    buf: &[u8],
    now: SystemTime,
    admitted_bytes: bool,
    room: bool,
)
    requires
        call_ensures(RakServer::<P>::session_id, (server, addr), id),
        call_ensures(RakServer::<P>::pending, (server, addr), pending),
        call_ensures(RakServer::<P>::admits, (server, &msg), admitted),
        call_ensures(RakServer::<P>::admits_datagram, (server, buf, addr, now), admitted_bytes),
        call_ensures(RakServer::<P>::can_adopt, (server,), room),
    ensures
        id is Some <==> server@.session_map.contains_key(addr),
        id matches Some(id) ==> id == server@.session_map[addr],
        pending is Some <==> server@.pending.contains_key(addr),
        pending matches Some(session) ==> *session == server@.pending[addr].1,
        admitted <==> server@.admits(msg),
        admitted_bytes <==> server@.admits_datagram(buf@, addr, now),
        room <==> server@.next_id < u64::MAX,
{
}

/// A server that is told nothing else takes 20 sessions, speaks version 11, agrees to sizes from
/// 576 to 1400, and looks at 120 offline packets a second from one address and 100000 in all.
pub proof fn settings_by_default(config: RakServerConfig)
    requires
        call_ensures(<RakServerConfig as Default>::default, (), config),
    ensures
        config.guid == 0,
        config.message@.len() == 0,
        config.max_connections == 20,
        config.protocols@ == seq![11u8],
        config.min_mtu_size == 576,
        config.max_mtu_size == 1400,
        config.max_ordering_channels == 32,
        config.packet_limit == 120,
        config.total_packet_limit == 100_000,
{
}

/// A refusal says who is refused, and why.
pub proof fn refusals_say_why(addr: SocketAddr, port: String, mtu: String)
    requires
        call_ensures(RakRefusal::text, (RakRefusal::PortMismatch(addr),), port),
        call_ensures(RakRefusal::text, (RakRefusal::InvalidMtu(addr),), mtu),
    ensures
        port@ == "refusing connection from "@ + addr_text(addr) + " due to port mismatch"@,
        mtu@ == "refusing connection from "@ + addr_text(addr) + " due to invalid mtu size"@,
{
}

/// The protocol of a session is lent to be run: what is made of it is the session's, and nothing
/// else changes.
pub proof fn protocols_are_lent<P>(
    server: &mut RakServer<P>,
    addr: SocketAddr,
    lent: Option<&mut Option<P>>,
    other: SocketAddr,
)
    requires
        call_ensures(RakServer::<P>::protocol_mut, (server, addr), lent),
        other != addr,
    ensures
        lent is Some <==> old(server)@.pending.contains_key(addr),
        match lent {
            Some(protocol) => *protocol == old(server)@.pending[addr].1.protocol && final(server)@.pending[addr] == (
                old(server)@.pending[addr].0,
                RakSession { protocol: *final(protocol), ..old(server)@.pending[addr].1 },
            ) && final(server)@.pending.dom() == old(server)@.pending.dom() && final(server)@ == (
            RakServerModel { pending: final(server)@.pending, ..old(server)@ }),
            None => final(server)@ == old(server)@,
        },
        old(server)@.pending.contains_key(other) ==> final(server)@.pending[other] == old(
            server,
        )@.pending[other],
{
    if lent is Some {
        assert(final(server)@.pending.dom() =~= old(server)@.pending.dom());
    }
}

} // verus!

//! What a client and a server make of each other's packets.

use crate::client::error::RakClientError;
use crate::client::input::{RakClientExchange, RakClientInput, RakClientStepView};
use crate::client::model::{timestamp, tried_mtu, RakClientModel};
use crate::client::output::RakClientOutputView;
use crate::client::state::RakClientState;
use crate::net::SocketAddr;
use crate::protocol::packets::connection::{ConnectionRequest, ConnectionRequestAcceptedView};
use crate::protocol::packets::open_connection::{
    OpenConnectionReply1, OpenConnectionReply2, OpenConnectionRequest1, OpenConnectionRequest2,
};
use crate::protocol::packets::ping::{UnconnectedPing, UnconnectedPongView};
use crate::server::error::RakServerErrorView;
use crate::server::input::RakServerStepView;
use crate::server::model::RakServerModel;
use crate::server::output::RakServerOutputView;
use crate::session::state::RakSessionState;
use crate::session::{
    RakSession, RakSessionId, RakSessionInputView, RakSessionOutput, DEFAULT_ORDERING_CHANNELS,
};
use crate::time::SystemTime;
use crate::types::priority::RakPriority;
use crate::types::reliability::RakReliability;
use crate::util::packet_id;
use vstd::prelude::*;

verus! {

/// The first request of a client as it now stands.
pub open spec fn first_request<P>(c: RakClientModel<P>) -> OpenConnectionRequest1 {
    OpenConnectionRequest1 { protocol: c.config.protocol, mtu: tried_mtu(c.config, c.attempts) }
}

/// The server's answer to it, where it agrees.
pub open spec fn first_reply<P, Q>(
    c: RakClientModel<P>,
    s: RakServerModel<Q>,
    client: SocketAddr,
) -> OpenConnectionReply1 {
    OpenConnectionReply1 {
        guid: s.config.guid,
        cookie: None,
        mtu: s.agreed_mtu(first_request(c), client),
    }
}

/// The second request of the client, with the size that the server agreed to.
pub open spec fn second_request<P, Q>(
    c: RakClientModel<P>,
    s: RakServerModel<Q>,
    client: SocketAddr,
    server: SocketAddr,
) -> OpenConnectionRequest2 {
    OpenConnectionRequest2 {
        cookie: None,
        addr: server,
        mtu: s.agreed_mtu(first_request(c), client),
        client: c.config.guid,
    }
}

/// The server's answer to that, where it agrees.
pub open spec fn second_reply<P, Q>(
    c: RakClientModel<P>,
    s: RakServerModel<Q>,
    client: SocketAddr,
) -> OpenConnectionReply2 {
    OpenConnectionReply2 {
        guid: s.config.guid,
        addr: client,
        mtu: s.agreed_mtu(first_request(c), client),
        security: false,
    }
}

/// Whether a client at `client` that asks to be connected finds the server willing at
/// `server`: they have a version in common, the port is the server's, the sizes can be told,
/// and a session is free for an address that neither has one nor was turned away.
pub open spec fn willing<P, Q>(
    c: RakClientModel<P>,
    s: RakServerModel<Q>,
    client: SocketAddr,
    server: SocketAddr,
    now: SystemTime,
) -> bool {
    &&& c.state == RakClientState::Handshake1(server)
    &&& server.port_of() == s.addr.port_of()
    &&& s.config.protocols@.contains(c.config.protocol)
    &&& s.config.min_mtu_size <= s.config.max_mtu_size
    &&& tried_mtu(c.config, c.attempts) >= 18
    &&& RakServerModel::<Q>::wire_size(first_request(c), client) <= u16::MAX
    &&& !s.recently_disconnected(client, now)
    &&& !s.session_map.contains_key(client)
    &&& s.session_map.dom().len() < s.config.max_connections
    &&& s.next_id < u64::MAX
}

/// A client that pings a server is told what the server has to say, and when it asked, to the
/// millisecond.
pub proof fn ping_and_pong<P, Q>(
    c: RakClientModel<P>,
    s: RakServerModel<Q>,
    client: SocketAddr,
    server: SocketAddr,
    asked: SystemTime,
    answered: SystemTime,
    heard: SystemTime,
)
    requires
        c.state == RakClientState::Unconnected,
        0 <= asked@ < 0x1_0000_0000_0000_0000 * 1_000_000,
        s.config.message@.len() <= u16::MAX,
        !s.rate_limits(client, answered),
    ensures
        ({
            let ping = UnconnectedPing { timestamp: timestamp(asked), client: c.config.guid };
            let pong = UnconnectedPongView {
                timestamp: ping.timestamp,
                guid: s.config.guid,
                message: s.config.message@,
            };
            let asks = c.handled(RakClientInput::Ping(server, asked)).0;
            let answers = s.received(ping.bytes(), client, answered).0;
            let hears = asks.received(pong.bytes(), server, heard).0;
            &&& asks == c.sends(ping.bytes(), server)
            &&& answers == s.counted(client, answered).answered(pong.bytes(), client)
            &&& hears.output.len() == c.output.len() + 2
            &&& hears.output.last() matches RakClientOutputView::Pong(from, message, sent)
            &&& from == server
            &&& message == s.config.message@
            &&& sent@ == asked@ - asked@ % 1_000_000
        }),
{
    let ping = UnconnectedPing { timestamp: timestamp(asked), client: c.config.guid };
    let asks = c.handled(RakClientInput::Ping(server, asked)).0;
    let pong = UnconnectedPongView {
        timestamp: ping.timestamp,
        guid: s.config.guid,
        message: s.config.message@,
    };
    crate::server::laws::ping_is_answered(s, ping, client, answered);
    crate::client::laws::pong_is_told(asks, pong, server, heard);
}

/// Where the server is willing, the four packets of the handshake, each answered with the
/// next, open a session at both ends with the same datagram size, which lies within the
/// limits of the server.
pub proof fn handshake_opens_both_sessions<P, Q>(
    c: RakClientModel<P>,
    s: RakServerModel<Q>,
    client: SocketAddr,
    server: SocketAddr,
    asked: SystemTime,
    replied: SystemTime,
    asked_again: SystemTime,
    replied_again: SystemTime,
)
    requires
        willing(c, s, client, server, asked),
        !s.rate_limits(client, asked),
        !s.received(first_request(c).bytes(), client, asked).0.rate_limits(client, asked_again),
        replied_again@ >= 0,
    ensures
        ({
            let mtu = s.agreed_mtu(first_request(c), client);
            let c0 = c.sends_request_1(server);
            let s1 = s.received(first_request(c).bytes(), client, asked).0;
            let c1 = c.received(first_reply(c, s, client).bytes(), server, replied).0;
            let s2 = s1.received(
                second_request(c, s, client, server).bytes(),
                client,
                asked_again,
            ).0;
            let (c2, r) = c1.received(second_reply(c, s, client).bytes(), server, replied_again);
            let request = ConnectionRequest {
                security: false,
                client_timestamp: timestamp(replied_again),
                client_guid: c.config.guid,
            };
            &&& c0.output.last() == RakClientOutputView::<P>::SocketDatagram(
                first_request(c).bytes(),
                server,
            )
            &&& s1.output == s.output.push(
                RakServerOutputView::SocketDatagram(first_reply(c, s, client).bytes(), client),
            )
            &&& c1.state == RakClientState::Handshake2(server)
            &&& c1.output == c.output.push(
                RakClientOutputView::SocketDatagram(
                    second_request(c, s, client, server).bytes(),
                    server,
                ),
            )
            &&& s2.output == s1.output.push(
                RakServerOutputView::SocketDatagram(second_reply(c, s, client).bytes(), client),
            )
            &&& s2.session_map.contains_key(client)
            &&& s2.session_map[client] == RakSessionId(s.next_id)
            &&& s2.pending.contains_key(client)
            &&& s2.pending[client] == (
                asked_again,
                RakSession::<Q>::opened(
                    RakSessionId(s.next_id),
                    client,
                    c.config.guid,
                    mtu,
                    s.config.max_ordering_channels,
                ),
            )
            &&& c2.state == RakClientState::HandshakeCompleted(server)
            &&& c2.session == Some(
                RakSession::<P>::opened(
                    RakSessionId(0),
                    server,
                    c.config.guid,
                    mtu,
                    DEFAULT_ORDERING_CHANNELS,
                ),
            )
            &&& r == Ok::<RakClientStepView, RakClientError>(
                RakClientStepView::Handle(
                    RakSessionInputView::Send(
                        request.bytes(),
                        RakReliability::ReliableOrdered,
                        RakPriority::Immediate,
                        replied_again,
                    ),
                    RakClientExchange { opening: true, success: None, now: replied_again },
                ),
            )
            &&& s.config.min_mtu_size <= mtu <= s.config.max_mtu_size
        }),
{
    let r1 = first_request(c);
    let a1 = first_reply(c, s, client);
    let r2 = second_request(c, s, client, server);
    let a2 = second_reply(c, s, client);
    r1.reads_back();
    a1.reads_back();
    r2.reads_back();
    a2.reads_back();
    assert(r1.bytes()[0] == packet_id::OPEN_CONNECTION_REQUEST_1);
    assert(a1.bytes()[0] == packet_id::OPEN_CONNECTION_REPLY_1);
    assert(r2.bytes()[0] == packet_id::OPEN_CONNECTION_REQUEST_2);
    assert(a2.bytes()[0] == packet_id::OPEN_CONNECTION_REPLY_2);
}

/// Where the protocols of both sessions carry the packets of the connection to the other end,
/// both ends put their session out as connected: the server answers the request of the
/// client, the client the acceptance of the server, and neither anything else.
pub proof fn connection_completes<P, Q>(
    c: RakClientModel<P>,
    s: RakServerModel<Q>,
    client: SocketAddr,
    session: RakSession<P>,
    request: ConnectionRequest,
    received: SystemTime,
    exchange: RakClientExchange,
    known: SystemTime,
    packets: (Vec<u8>, Vec<u8>, Vec<u8>),
)
    requires
        c.inv(),
        s.inv(),
        c.session == Some(session),
        s.pending.contains_key(client),
        received@ >= 0,
        exchange.now@ >= 0,
        !exchange.opening,
        packets.0@ == request.bytes(),
        packets.1@ == (ConnectionRequestAcceptedView {
            client_address: client,
            system_index: 0,
            system_addresses: Seq::empty(),
            request_timestamp: request.client_timestamp,
            timestamp: timestamp(received),
        }).bytes(),
        packets.2@ == RakClientModel::<P>::incoming(
            session.addr,
            ConnectionRequestAcceptedView {
                client_address: client,
                system_index: 0,
                system_addresses: Seq::empty(),
                request_timestamp: request.client_timestamp,
                timestamp: timestamp(received),
            },
            exchange.now,
        ).bytes(),
    ensures
        ({
            let accepts = s.session_polled(
                client,
                Some(RakSessionOutput::Packet(packets.0)),
                received,
            );
            let knows = c.session_polled(exchange, Some(RakSessionOutput::Packet(packets.1)));
            let accepted = RakClientExchange { success: Some(true), ..exchange };
            let ends = knows.0.session_polled(accepted, None::<RakSessionOutput>);
            let connects = s.session_polled(
                client,
                Some(RakSessionOutput::Packet(packets.2)),
                known,
            );
            &&& accepts == (
                s,
                Ok::<RakServerStepView, RakServerErrorView>(
                    RakServerStepView::Handle(
                        client,
                        RakSessionInputView::Send(
                            packets.1@,
                            RakReliability::ReliableOrdered,
                            RakPriority::Immediate,
                            received,
                        ),
                    ),
                ),
            )
            &&& knows.0.output == c.output
            &&& knows.1 == Ok::<RakClientStepView, RakClientError>(
                RakClientStepView::Handle(
                    RakSessionInputView::Send(
                        packets.2@,
                        RakReliability::ReliableOrdered,
                        RakPriority::Immediate,
                        exchange.now,
                    ),
                    accepted,
                ),
            )
            &&& ends.1 == Ok::<RakClientStepView, RakClientError>(RakClientStepView::Done)
            &&& ends.0.session is None
            &&& ends.0.output == c.output.push(
                RakClientOutputView::SessionConnected(
                    RakSession { state: RakSessionState::Connected, ..session },
                ),
            )
            &&& connects == (
                s.connected(client),
                Ok::<RakServerStepView, RakServerErrorView>(RakServerStepView::Done),
            )
            &&& connects.0.output == s.output.push(
                RakServerOutputView::SessionConnected(
                    RakSession { state: RakSessionState::Connected, ..s.pending[client].1 },
                ),
            )
        }),
{
    let acceptance = ConnectionRequestAcceptedView {
        client_address: client,
        system_index: 0,
        system_addresses: Seq::empty(),
        request_timestamp: request.client_timestamp,
        timestamp: timestamp(received),
    };
    let incoming = RakClientModel::<P>::incoming(session.addr, acceptance, exchange.now);
    request.reads_back();
    acceptance.reads_back();
    incoming.reads_back();
    assert(request.bytes()[0] == packet_id::CONNECTION_REQUEST);
    assert(acceptance.bytes()[0] == packet_id::CONNECTION_REQUEST_ACCEPTED);
    assert(incoming.bytes()[0] == packet_id::NEW_INCOMING_CONNECTION);
}

} // verus!

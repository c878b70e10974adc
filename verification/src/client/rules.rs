//! What a client is for: what comes of each input, told by the bytes that came, the settings and
//! the clock.

use crate::client::config::RakClientConfig;
use crate::client::error::RakClientError;
use crate::client::input::{
    RakClientExchange, RakClientInput, RakClientStep, RakClientStepView,
};
use crate::client::laws::plain_result;
use crate::client::model::RakClientModel;
use crate::client::output::{RakClientOutput, RakClientOutputView};
use crate::client::state::RakClientState;
use crate::client::RakClient;
use crate::net::{SocketAddr, SocketAddrV4};
use crate::protocol::packets::connection::{
    ConnectionRequest, ConnectionRequestAcceptedView, NewIncomingConnectionView,
};
use crate::protocol::packets::open_connection::{
    OpenConnectionReply1, OpenConnectionReply2, OpenConnectionRequest1, OpenConnectionRequest2,
};
use crate::protocol::packets::ping::{UnconnectedPing, UnconnectedPongView};
use crate::session::state::RakSessionState;
use crate::session::{
    RakSession, RakSessionError, RakSessionId, RakSessionInputView, RakSessionOutput,
};
use crate::time::SystemTime;
use crate::types::priority::RakPriority;
use crate::types::reliability::RakReliability;
use vstd::prelude::*;

verus! {

/// The result of an input that is dealt with at once.
pub open spec fn done() -> Result<RakClientStepView, RakClientError> {
    Ok(RakClientStepView::Done)
}

/// The result of an input that fails.
pub open spec fn fails(e: RakClientError) -> Result<RakClientStepView, RakClientError> {
    Err(e)
}

/// Whether `millis` is what is told of `now` in whole milliseconds.
pub open spec fn is_millis(millis: u64, now: SystemTime) -> bool {
    millis * 1_000_000 <= now@ < (millis + 1) * 1_000_000
}

/// A client begins unconnected, with no session and nothing to say.
pub proof fn clients_begin_unconnected<P>(config: RakClientConfig, now: SystemTime)
    ensures
        ({
            let m = RakClientModel::<P>::created(config, now);
            &&& m.config == config
            &&& m.state is Unconnected
            &&& m.attempts == 0
            &&& m.mtu == 0
            &&& m.cookie is None
            &&& m.session is None
            &&& m.connect_started == now
            &&& m.last_attempt == now
            &&& m.output.len() == 0
        }),
{
}

/// An unconnected client asks a server who it is with the time in milliseconds and its own
/// number; before the Unix epoch that is an error. A client that is not unconnected does not ask.
pub proof fn servers_are_asked<P>(
    m: RakClientModel<P>,
    addr: SocketAddr,
    now: SystemTime,
    millis: u64,
)
    ensures
        ({
            let (after, r) = m.handled(RakClientInput::Ping(addr, now));
            if !(m.state is Unconnected) {
                after == m && r == done()
            } else if now@ < 0 {
                after == m && r == fails(RakClientError::Time)
            } else {
                &&& r == done()
                &&& after == RakClientModel { output: after.output, ..m }
                &&& after.output.len() == m.output.len() + 1
                &&& after.output.drop_last() == m.output
                &&& is_millis(millis, now) ==> after.output.last()
                    == RakClientOutputView::<P>::SocketDatagram(
                    (UnconnectedPing { timestamp: millis, client: m.config.guid }).bytes(),
                    addr,
                )
            }
        }),
{
    let after = m.handled(RakClientInput::Ping(addr, now)).0;
    if m.state is Unconnected && now@ >= 0 {
        assert(after.output.drop_last() =~= m.output);
    }
}

/// The size that an attempt tries, by the number of those before it: 1400, 1200, 576 from then
/// on, or the nearest within the limits of the client.
pub open spec fn tries(config: RakClientConfig, attempts: usize, mtu: u16) -> bool {
    let size = if attempts == 0 {
        1400u16
    } else if attempts == 1 {
        1200u16
    } else {
        576u16
    };
    mtu == if size < config.min_mtu_size {
        config.min_mtu_size
    } else if size > config.max_mtu_size {
        config.max_mtu_size
    } else {
        size
    }
}

/// As time passes, an unconnected client waits for the time between two attempts. A client that
/// is to be connected fails once connecting has taken too long, and when an attempt is due that
/// it may not make. It makes one that is due otherwise, with the request of its handshake, and
/// waits for the next one, or until connecting has taken too long, whichever comes first.
pub proof fn time_passes<P>(m: RakClientModel<P>, now: SystemTime, mtu: u16)
    requires
        m.admits(RakClientInput::Update(now)),
        tries(m.config, m.attempts, mtu),
    ensures
        ({
            let (after, r) = m.handled(RakClientInput::Update(now));
            passes(m, now, mtu, after, r)
        }),
{
    let last = crate::util::constants::MTU_SIZES@;
    assert(last =~= seq![576u16, 1200u16, 1400u16]);
    let (after, r) = m.handled(RakClientInput::Update(now));
    if r is Ok && !(m.state is Unconnected) {
        timeouts_put_out(m, now, mtu);
    }
}

/// What the passing of time makes of a client.
pub open spec fn passes<P>(
    m: RakClientModel<P>,
    now: SystemTime,
    mtu: u16,
    after: RakClientModel<P>,
    r: Result<RakClientStepView, RakClientError>,
) -> bool {
    let end = m.connect_started@ + m.config.conn_attempt_timeout@;
    let due = m.last_attempt@ + m.config.conn_attempt_interval@;
    let first = OpenConnectionRequest1 { protocol: m.config.protocol, mtu };
    if m.state is Unconnected {
        &&& r == done()
        &&& after == RakClientModel {
            output: m.output.push(RakClientOutputView::Wait(m.config.conn_attempt_interval)),
            ..m
        }
    } else if now@ >= end || (now@ >= due && m.attempts >= m.config.conn_attempt_max) {
        after == m && r == fails(RakClientError::ConnectionFailed)
    } else {
        let next = if now@ >= due && !(m.state is HandshakeCompleted) {
            now@ + m.config.conn_attempt_interval@
        } else {
            due
        };
        let until = if next < end {
            next
        } else {
            end
        };
        &&& r == done()
        &&& after == RakClientModel {
            attempts: after.attempts,
            last_attempt: after.last_attempt,
            output: after.output,
            ..m
        }
        &&& after.output.len() > 0
        &&& after.output.last() matches RakClientOutputView::Wait(d)
        &&& d@ == if until > now@ {
            until - now@
        } else {
            0
        }
        &&& match m.state {
            RakClientState::Handshake1(addr) if now@ >= due => {
                &&& after.attempts == m.attempts + 1
                &&& after.last_attempt == now
                &&& after.output.drop_last() == m.output.push(
                    RakClientOutputView::SocketDatagram(first.bytes(), addr),
                )
            },
            RakClientState::Handshake2(addr) if now@ >= due => {
                let second = OpenConnectionRequest2 {
                    cookie: m.cookie,
                    addr,
                    mtu: m.mtu,
                    client: m.config.guid,
                };
                &&& after.attempts == m.attempts + 1
                &&& after.last_attempt == now
                &&& after.output.drop_last() == m.output.push(
                    RakClientOutputView::SocketDatagram(second.bytes(), addr),
                )
            },
            _ => {
                &&& after.attempts == m.attempts
                &&& after.last_attempt == m.last_attempt
                &&& after.output.drop_last() == m.output
            },
        }
    }
}

/// What is put out as time passes.
proof fn timeouts_put_out<P>(m: RakClientModel<P>, now: SystemTime, mtu: u16)
    requires
        m.admits_time(now),
        tries(m.config, m.attempts, mtu),
        !(m.state is Unconnected),
        m.timed(now).1 is Ok,
    ensures
        ({
            let after = m.timed(now).0;
            passes(m, now, mtu, after, done())
        }),
{
    let last = crate::util::constants::MTU_SIZES@;
    assert(last =~= seq![576u16, 1200u16, 1400u16]);
    let after = m.timed(now).0;
    let due = now@ >= m.next_attempt();
    match m.state {
        RakClientState::Handshake1(addr) if due => {
            assert(after.output.drop_last() =~= m.sends_request_1(addr).output);
        },
        RakClientState::Handshake2(addr) if due => {
            assert(after.output.drop_last() =~= m.sends_request_2(addr).output);
        },
        _ => {
            assert(after.output.drop_last() =~= m.output);
        },
    }
}

/// Connecting begins the handshake with the server and the first attempt, at once, if the client
/// is unconnected; nothing happens otherwise. It fails at once where it may take no time, or may
/// make no attempts.
pub proof fn connecting_begins<P>(
    m: RakClientModel<P>,
    remote: SocketAddr,
    now: SystemTime,
    mtu: u16,
)
    requires
        m.admits(RakClientInput::Connect(remote, now)),
        now@ - m.config.conn_attempt_interval@ >= i128::MIN,
        tries(m.config, 0, mtu),
    ensures
        ({
            let (after, r) = m.handled(RakClientInput::Connect(remote, now));
            let first = OpenConnectionRequest1 { protocol: m.config.protocol, mtu };
            if !(m.state is Unconnected) {
                after == m && r == done()
            } else {
                &&& after.state == RakClientState::Handshake1(remote)
                &&& after.connect_started == now
                &&& after == RakClientModel {
                    state: after.state,
                    connect_started: now,
                    attempts: after.attempts,
                    last_attempt: after.last_attempt,
                    output: after.output,
                    ..m
                }
                &&& if m.config.conn_attempt_timeout@ == 0 || m.config.conn_attempt_max == 0 {
                    &&& r == fails(RakClientError::ConnectionFailed)
                    &&& after.output == m.output
                    &&& after.attempts == 0
                } else {
                    &&& r == done()
                    &&& after.attempts == 1
                    &&& after.last_attempt == now
                    &&& after.output.len() == m.output.len() + 2
                    &&& after.output.take(m.output.len() as int) == m.output
                    &&& after.output[m.output.len() as int]
                        == RakClientOutputView::<P>::SocketDatagram(first.bytes(), remote)
                    &&& after.output.last() matches RakClientOutputView::Wait(d)
                    &&& d@ == if m.config.conn_attempt_interval@ < m.config.conn_attempt_timeout@ {
                        m.config.conn_attempt_interval@
                    } else {
                        m.config.conn_attempt_timeout@
                    }
                }
            }
        }),
{
    let sizes = crate::util::constants::MTU_SIZES@;
    assert(sizes =~= seq![576u16, 1200u16, 1400u16]);
    let after = m.handled(RakClientInput::Connect(remote, now)).0;
    if m.state is Unconnected && after.output != m.output {
        assert(after.output.take(m.output.len() as int) =~= m.output);
    }
}

/// Where the time between two attempts reaches back before all moments that can be told, the
/// first attempt waits for it.
pub proof fn connecting_waits_at_the_beginning_of_time<P>(
    m: RakClientModel<P>,
    remote: SocketAddr,
    now: SystemTime,
)
    requires
        m.admits(RakClientInput::Connect(remote, now)),
        m.state is Unconnected,
        now@ - m.config.conn_attempt_interval@ < i128::MIN,
        m.config.conn_attempt_timeout@ > 0,
    ensures
        ({
            let (after, r) = m.handled(RakClientInput::Connect(remote, now));
            &&& r == done()
            &&& after == RakClientModel {
                state: RakClientState::Handshake1(remote),
                connect_started: now,
                attempts: 0,
                last_attempt: now,
                output: after.output,
                ..m
            }
            &&& after.output.len() == m.output.len() + 1
            &&& after.output.drop_last() == m.output
            &&& after.output.last() matches RakClientOutputView::Wait(d)
            &&& d@ <= m.config.conn_attempt_interval@
            &&& d@ <= m.config.conn_attempt_timeout@
            &&& d@ == m.config.conn_attempt_interval@ || d@ == m.config.conn_attempt_timeout@
        }),
{
    let after = m.handled(RakClientInput::Connect(remote, now)).0;
    assert(after.output.drop_last() =~= m.output);
}

/// A disconnect leaves the client unconnected and without a session, and all else as it is.
pub proof fn disconnecting_lets_go<P>(m: RakClientModel<P>)
    ensures
        m.handled(RakClientInput::Disconnect) == (
            RakClientModel { state: RakClientState::Unconnected, session: None, ..m },
            done(),
        ),
{
}

/// While unconnected, the answer of a server is told with its address, its message and the time
/// at which it was asked; one that cannot be read is an error, and anything else is nothing.
pub proof fn answers_are_told<P>(
    m: RakClientModel<P>,
    buf: Vec<u8>,
    addr: SocketAddr,
    now: SystemTime,
)
    requires
        m.state is Unconnected,
    ensures
        ({
            let (after, r) = m.handled(RakClientInput::Datagram(buf, addr, now));
            if buf@.len() > 0 && buf@[0] == 0x1c {
                match UnconnectedPongView::parsed(buf@) {
                    Err(e) => after == m && r == fails(RakClientError::Codec(e)),
                    Ok(pong) => {
                        &&& r == done()
                        &&& after == RakClientModel { output: after.output, ..m }
                        &&& after.output.len() == m.output.len() + 1
                        &&& after.output.drop_last() == m.output
                        &&& after.output.last() matches RakClientOutputView::Pong(
                            from,
                            message,
                            asked,
                        )
                        &&& from == addr
                        &&& message == pong.message
                        &&& asked@ == pong.timestamp * 1_000_000
                    },
                }
            } else {
                after == m && r == done()
            }
        }),
{
    let after = m.handled(RakClientInput::Datagram(buf, addr, now)).0;
    if after.output != m.output {
        assert(after.output.drop_last() =~= m.output);
    }
}

/// Whether the client is in its handshake with `remote`.
pub open spec fn in_handshake<P>(m: RakClientModel<P>, remote: SocketAddr) -> bool {
    m.state == RakClientState::Handshake1(remote) || m.state == RakClientState::Handshake2(remote)
}

/// During the handshake each refusal of the server is an error of its own, and nothing else comes
/// of it; nor of what the client does not know, nor of no bytes, nor of bytes from elsewhere.
pub proof fn refusals_are_errors<P>(
    m: RakClientModel<P>,
    buf: Vec<u8>,
    remote: SocketAddr,
    addr: SocketAddr,
    now: SystemTime,
)
    requires
        in_handshake(m, remote),
        addr != remote || buf@.len() == 0 || (buf@[0] != 0x06 && buf@[0] != 0x08),
    ensures
        ({
            let (after, r) = m.handled(RakClientInput::Datagram(buf, addr, now));
            &&& after == m
            &&& r == if addr != remote || buf@.len() == 0 {
                done()
            } else if buf@[0] == 0x19 {
                fails(RakClientError::IncompatibleProtocol)
            } else if buf@[0] == 0x12 {
                fails(RakClientError::AlreadyConnected)
            } else if buf@[0] == 0x14 {
                fails(RakClientError::NoFreeIncomingConnections)
            } else if buf@[0] == 0x1a {
                fails(RakClientError::RecentlyConnected)
            } else {
                done()
            }
        }),
{
}

/// During the handshake the agreement of the server is taken: its size and its cookie, and the
/// second request repeats both, with the client's own number. One that cannot be read is an error.
pub proof fn agreements_are_taken<P>(
    m: RakClientModel<P>,
    buf: Vec<u8>,
    remote: SocketAddr,
    now: SystemTime,
)
    requires
        in_handshake(m, remote),
        buf@.len() > 0,
        buf@[0] == 0x06,
    ensures
        ({
            let (after, r) = m.handled(RakClientInput::Datagram(buf, remote, now));
            match OpenConnectionReply1::parsed(buf@) {
                Err(e) => after == m && r == fails(RakClientError::Codec(e)),
                Ok(reply) => {
                    let second = OpenConnectionRequest2 {
                        cookie: reply.cookie,
                        addr: remote,
                        mtu: reply.mtu,
                        client: m.config.guid,
                    };
                    &&& r == done()
                    &&& after == RakClientModel {
                        state: RakClientState::Handshake2(remote),
                        mtu: reply.mtu,
                        cookie: reply.cookie,
                        output: m.output.push(
                            RakClientOutputView::SocketDatagram(second.bytes(), remote),
                        ),
                        ..m
                    }
                },
            }
        }),
{
}

/// During the handshake the server's word that the session is open opens it here, with the size
/// that the server tells, and the client asks through it to be connected, reliably, in order and
/// at once, with the time in milliseconds. A session that is to be secured is an error, and so are
/// a word that cannot be read and a time before the Unix epoch.
pub proof fn sessions_are_opened<P>(
    m: RakClientModel<P>,
    buf: Vec<u8>,
    remote: SocketAddr,
    now: SystemTime,
    millis: u64,
)
    requires
        in_handshake(m, remote),
        buf@.len() > 0,
        buf@[0] == 0x08,
    ensures
        ({
            let (after, r) = m.handled(RakClientInput::Datagram(buf, remote, now));
            match OpenConnectionReply2::parsed(buf@) {
                Err(e) => after == m && r == fails(RakClientError::Codec(e)),
                Ok(reply) => if reply.security {
                    after == m && r == fails(RakClientError::SecurityUnsupported)
                } else {
                    let opened = RakClientModel {
                        state: RakClientState::HandshakeCompleted(remote),
                        mtu: reply.mtu,
                        ..m
                    };
                    if now@ < 0 {
                        after == opened && r == fails(RakClientError::Time)
                    } else {
                        &&& after == RakClientModel {
                            session: Some(
                                RakSession {
                                    id: RakSessionId(0),
                                    addr: remote,
                                    guid: m.config.guid,
                                    mtu: reply.mtu,
                                    ordering_channels: 32,
                                    state: RakSessionState::Disconnected,
                                    protocol: None,
                                },
                            ),
                            ..opened
                        }
                        &&& r matches Ok(RakClientStepView::Handle(input, exchange))
                        &&& exchange == RakClientExchange { opening: true, success: None, now }
                        &&& is_millis(millis, now) ==> input == RakSessionInputView::Send(
                            (ConnectionRequest {
                                security: false,
                                client_timestamp: millis,
                                client_guid: m.config.guid,
                            }).bytes(),
                            RakReliability::ReliableOrdered,
                            RakPriority::Immediate,
                            now,
                        )
                    }
                },
            }
        }),
{
}

/// Once the handshake is over, bytes from the server go to the protocol of the session until that
/// is connected, and are put out for it from then on, byte for byte; bytes from elsewhere are
/// dropped.
pub proof fn session_bytes_are_passed_on<P>(
    m: RakClientModel<P>,
    buf: Vec<u8>,
    remote: SocketAddr,
    addr: SocketAddr,
    now: SystemTime,
)
    requires
        m.state == RakClientState::HandshakeCompleted(remote),
    ensures
        ({
            let (after, r) = m.handled(RakClientInput::Datagram(buf, addr, now));
            if addr != remote {
                after == m && r == done()
            } else if m.session is Some {
                after == m && r == Ok::<RakClientStepView, RakClientError>(
                    RakClientStepView::Handle(
                        RakSessionInputView::Datagram(buf@, now),
                        RakClientExchange { opening: false, success: None, now },
                    ),
                )
            } else {
                r == done() && after == RakClientModel {
                    output: m.output.push(RakClientOutputView::SessionDatagram(buf@)),
                    ..m
                }
            }
        }),
{
}

/// What the protocol of the session returned is passed on: an error as an error of the session,
/// which is not kept if it has only been opened; otherwise the protocol is asked for outputs.
pub proof fn protocols_are_asked_after_an_input<P>(
    m: RakClientModel<P>,
    exchange: RakClientExchange,
    e: RakSessionError,
)
    ensures
        m.session_handled(exchange, Ok(())) == (
            m,
            Ok::<RakClientStepView, RakClientError>(RakClientStepView::Poll(exchange)),
        ),
        m.session_handled(exchange, Err(e)).1 == fails(RakClientError::Session(e)),
        exchange.opening ==> m.session_handled(exchange, Err(e)).0 == (RakClientModel {
            session: None,
            ..m
        }),
        !exchange.opening ==> m.session_handled(exchange, Err(e)).0 == m,
{
}

/// What comes of an output of the protocol of the session. A datagram is sent as it is. Unless the
/// session is only being opened, the server's acceptance marks the session as connected and is
/// answered through it, reliably, in order and at once, with where the server is, ten addresses
/// that stand for none, the server's timestamp and the time in milliseconds; its word that it does
/// not connect ends the session. Nothing else matters.
pub proof fn session_outputs_are_seen_to<P>(
    m: RakClientModel<P>,
    session: RakSession<P>,
    exchange: RakClientExchange,
    output: RakSessionOutput,
    millis: u64,
)
    requires
        m.session == Some(session),
    ensures
        ({
            let (after, r) = m.session_polled(exchange, Some(output));
            let more = Ok::<RakClientStepView, RakClientError>(RakClientStepView::Poll(exchange));
            let now = exchange.now;
            match output {
                RakSessionOutput::Datagram(buf, to) => r == more && after == RakClientModel {
                    output: m.output.push(RakClientOutputView::SocketDatagram(buf@, to)),
                    ..m
                },
                RakSessionOutput::Packet(buf) => if exchange.opening || buf@.len() == 0 {
                    after == m && r == more
                } else if buf@[0] == 0x10 {
                    match ConnectionRequestAcceptedView::parsed(buf@) {
                        Err(e) => after == m && r == fails(RakClientError::Codec(e)),
                        Ok(accepted) => {
                            &&& after == RakClientModel {
                                session: Some(
                                    RakSession { state: RakSessionState::Connected, ..session },
                                ),
                                ..m
                            }
                            &&& now@ < 0 ==> r == fails(RakClientError::Time)
                            &&& now@ >= 0 ==> {
                                &&& r matches Ok(RakClientStepView::Handle(input, next))
                                &&& next == RakClientExchange { success: Some(true), ..exchange }
                                &&& is_millis(millis, now) ==> input == RakSessionInputView::Send(
                                    (NewIncomingConnectionView {
                                        server_address: session.addr,
                                        internal_addresses: Seq::new(
                                            10,
                                            |i: int|
                                                SocketAddr::V4(SocketAddrV4 { ip: 0, port: 0 }),
                                        ),
                                        incoming_timestamp: accepted.timestamp,
                                        server_timestamp: millis,
                                    }).bytes(),
                                    RakReliability::ReliableOrdered,
                                    RakPriority::Immediate,
                                    now,
                                )
                            }
                        },
                    }
                } else if buf@[0] == 0x11 {
                    after == m && r == Ok::<RakClientStepView, RakClientError>(
                        RakClientStepView::Handle(
                            RakSessionInputView::Disconnect(now),
                            RakClientExchange { success: Some(false), ..exchange },
                        ),
                    )
                } else {
                    after == m && r == more
                },
                _ => after == m && r == more,
            }
        }),
{
    if let RakSessionOutput::Packet(buf) = output {
        if let Ok(accepted) = ConnectionRequestAcceptedView::parsed(buf@) {
            assert(RakClientModel::<P>::incoming(
                session.addr,
                accepted,
                exchange.now,
            ).internal_addresses =~= Seq::new(
                10,
                |i: int| SocketAddr::V4(SocketAddrV4 { ip: 0, port: 0 }),
            ));
        }
    }
}

/// When the protocol has no more outputs, the session is put out if the server accepted the
/// connection, let go of with an error if it said that it does not, and kept otherwise. Without a
/// session there is nothing to do.
pub proof fn exchanges_end<P>(m: RakClientModel<P>, exchange: RakClientExchange)
    ensures
        ({
            let (after, r) = m.session_polled(exchange, None);
            match (m.session, exchange.success) {
                (None, _) => after == m && r == done(),
                (Some(_), None) => after == m && r == done(),
                (Some(session), Some(true)) => r == done() && after == RakClientModel {
                    session: None,
                    output: m.output.push(RakClientOutputView::SessionConnected(session)),
                    ..m
                },
                (Some(_), Some(false)) => r == fails(RakClientError::ConnectionAttemptFailed)
                    && after == RakClientModel { session: None, ..m },
            }
        }),
{
}

/// Without a session no output matters.
pub proof fn nothing_comes_without_a_session<P>(
    m: RakClientModel<P>,
    exchange: RakClientExchange,
    output: RakSessionOutput,
)
    requires
        m.session is None,
    ensures
        m.session_polled(exchange, Some(output)) == (m, done()),
{
}

/// Running the protocol of the session changes the state of the protocol alone.
pub proof fn protocols_run_by_themselves<P>(m: RakClientModel<P>, protocol: Option<P>)
    ensures
        m.with_protocol(protocol) == (RakClientModel {
            session: match m.session {
                Some(session) => Some(RakSession { protocol, ..session }),
                None => None,
            },
            ..m
        }),
{
}

/// A client deals with every input but those on which a moment could not be told, or limits on
/// the size had nothing between them when a size is tried.
pub proof fn only_moments_keep_inputs_out<P>(m: RakClientModel<P>, msg: RakClientInput)
    ensures
        match msg {
            RakClientInput::Update(now) => {
                let end = m.connect_started@ + m.config.conn_attempt_timeout@;
                let due = m.last_attempt@ + m.config.conn_attempt_interval@;
                let again = now@ + m.config.conn_attempt_interval@;
                m.admits(msg) <==> m.state is Unconnected || (end <= i128::MAX && (now@ >= end || (
                due <= i128::MAX && (now@ < due || m.attempts >= m.config.conn_attempt_max
                    || m.state is HandshakeCompleted || (again <= i128::MAX && (m.state is Handshake1
                    ==> m.config.min_mtu_size <= m.config.max_mtu_size))))))
            },
            RakClientInput::Connect(_, now) => {
                let end = now@ + m.config.conn_attempt_timeout@;
                let again = now@ + m.config.conn_attempt_interval@;
                now@ - m.config.conn_attempt_interval@ >= i128::MIN ==> (m.admits(msg) <==> !(
                m.state is Unconnected) || (end <= i128::MAX && (m.config.conn_attempt_timeout@ == 0
                    || m.config.conn_attempt_max == 0 || (again <= i128::MAX
                    && m.config.min_mtu_size <= m.config.max_mtu_size))))
            },
            _ => m.admits(msg),
        },
{
}

/// What is polled is what was put out, byte for byte.
pub proof fn outputs_tell_all<P>(output: RakClientOutput<P>)
    ensures
        match output {
            RakClientOutput::SocketDatagram(buf, addr) => output@
                == RakClientOutputView::<P>::SocketDatagram(buf@, addr),
            RakClientOutput::SessionDatagram(buf) => output@
                == RakClientOutputView::<P>::SessionDatagram(buf@),
            RakClientOutput::SessionConnected(session) => output@
                == RakClientOutputView::<P>::SessionConnected(*session),
            RakClientOutput::Wait(d) => output@ == RakClientOutputView::<P>::Wait(d),
            RakClientOutput::Pong(addr, message, asked) => output@
                == RakClientOutputView::<P>::Pong(addr, message@, asked),
        },
{
}

/// What is to be done is told byte for byte.
pub proof fn steps_tell_all(step: RakClientStep)
    ensures
        match step {
            RakClientStep::Done => step@ == RakClientStepView::Done,
            RakClientStep::Handle(input, exchange) => step@ == RakClientStepView::Handle(
                input@,
                exchange,
            ),
            RakClientStep::Poll(exchange) => step@ == RakClientStepView::Poll(exchange),
        },
{
}

/// What `handle` does is what its inputs are for, and what is polled comes out in the order in
/// which it was put out, each output once.
pub proof fn clients_do_what_they_are_told<P>(
    client: &mut RakClient<P>,
    msg: RakClientInput,
    r: Result<RakClientStep, RakClientError>,
    polled: &mut RakClient<P>,
    output: Option<RakClientOutput<P>>,
)
    requires
        call_ensures(RakClient::<P>::handle, (client, msg), r),
        call_ensures(RakClient::<P>::poll, (polled,), output),
    ensures
        (final(client)@, plain_result(r)) == old(client)@.handled(msg),
        output is Some <==> old(polled)@.output.len() > 0,
        output matches Some(output) ==> seq![output@] + final(polled)@.output == old(polled)@.output,
        final(polled)@ == (RakClientModel { output: final(polled)@.output, ..old(polled)@ }),
        output is None ==> final(polled)@.output == old(polled)@.output,
{
    if let Some(output) = output {
        assert(seq![output@] + old(polled)@.output.drop_first() =~= old(polled)@.output);
    }
}

/// What becomes of a client as the protocol of its session runs is told by what the protocol does.
pub proof fn clients_follow_protocols<P>(
    handling: &mut RakClient<P>,
    polling: &mut RakClient<P>,
    exchange: RakClientExchange,
    output: Option<RakSessionOutput>,
    result: Result<(), RakSessionError>,
    handled: Result<RakClientStep, RakClientError>,
    polled: Result<RakClientStep, RakClientError>,
)
    requires
        call_ensures(RakClient::<P>::session_handled, (handling, exchange, result), handled),
        call_ensures(RakClient::<P>::session_polled, (polling, exchange, output), polled),
    ensures
        (final(handling)@, plain_result(handled)) == old(handling)@.session_handled(
            exchange,
            result,
        ),
        (final(polling)@, plain_result(polled)) == old(polling)@.session_polled(exchange, output),
{
}

/// A new client has nothing but its settings; a client tells how far it has come, its session as
/// long as that is to be connected, and whether it can deal with an input.
pub proof fn clients_tell_what_they_are<P>(
    config: RakClientConfig,
    now: SystemTime,
    created: RakClient<P>,
    client: &RakClient<P>,
    state: RakClientState,
    session: Option<&RakSession<P>>,
    msg: RakClientInput,
    admitted: bool,
)
    requires
        call_ensures(RakClient::<P>::new, (config, now), created),
        call_ensures(RakClient::<P>::state, (client,), state),
        call_ensures(RakClient::<P>::session, (client,), session),
        call_ensures(RakClient::<P>::admits, (client, &msg), admitted),
    ensures
        created@ == RakClientModel::<P>::created(config, now),
        state == client@.state,
        session is Some <==> client@.session is Some,
        session matches Some(session) ==> client@.session == Some(*session),
        admitted <==> client@.admits(msg),
{
}

/// A client that is told nothing else speaks version 11, tries sizes from 1400 down to 576, asks
/// ten times, a second apart, and gives up after ten seconds.
pub proof fn settings_by_default(config: RakClientConfig)
    requires
        call_ensures(<RakClientConfig as Default>::default, (), config),
    ensures
        config.guid == 0,
        config.protocol == 11,
        config.min_mtu_size == 576,
        config.max_mtu_size == 1400,
        config.conn_attempt_max == 10,
        config.conn_attempt_interval@ == 1_000_000_000,
        config.conn_attempt_timeout@ == 10_000_000_000,
{
}

/// The protocol of the session is lent to be run: what is made of it is the session's, and nothing
/// else changes.
pub proof fn protocols_are_lent<P>(client: &mut RakClient<P>, lent: Option<&mut Option<P>>)
    requires
        call_ensures(RakClient::<P>::protocol_mut, (client,), lent),
    ensures
        lent is Some <==> old(client)@.session is Some,
        match lent {
            Some(protocol) => old(client)@.session matches Some(session) && *protocol
                == session.protocol && final(client)@ == (RakClientModel {
                session: Some(RakSession { protocol: *final(protocol), ..session }),
                ..old(client)@
            }),
            None => final(client)@ == old(client)@,
        },
{
}

} // verus!

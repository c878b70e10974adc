//! What can be relied on over several inputs of a client.

use crate::client::config::RakClientConfig;
use crate::client::error::RakClientError;
use crate::client::input::{
    RakClientExchange, RakClientInput, RakClientStep, RakClientStepView,
};
use crate::client::model::{clamped, tried_mtu, RakClientModel};
use crate::client::output::RakClientOutputView;
use crate::client::state::RakClientState;
use crate::net::SocketAddr;
use crate::protocol::codec::RakCodecError;
use crate::protocol::packets::open_connection::{
    OpenConnectionReply2, OpenConnectionRequest1, OpenConnectionRequest2,
};
use crate::protocol::packets::ping::UnconnectedPongView;
use crate::protocol::packets::refusal::{
    AlreadyConnected, IncompatibleProtocol, IpRecentlyConnected, NoFreeIncomingConnections,
};
use crate::session::{RakSession, RakSessionOutput};
use crate::time::SystemTime;
use crate::util::{constants, packet_id};
use vstd::prelude::*;

verus! {

/// The datagram sizes that are tried never grow from one attempt to the next, and lie within
/// the limits of the client.
pub proof fn tried_sizes_shrink(config: RakClientConfig, earlier: usize, later: usize)
    requires
        config.min_mtu_size <= config.max_mtu_size,
        earlier <= later,
    ensures
        tried_mtu(config, earlier) >= tried_mtu(config, later),
        config.min_mtu_size <= tried_mtu(config, later) <= config.max_mtu_size,
{
    assert(constants::MTU_SIZES@ =~= seq![576u16, 1200u16, 1400u16]);
}

/// The first attempt tries the largest size and every attempt from the last size on the
/// smallest, where the limits of the client allow for them.
pub proof fn sizes_go_from_largest_to_smallest(config: RakClientConfig, attempts: usize)
    requires
        config.min_mtu_size <= constants::MIN_MTU_SIZE,
        config.max_mtu_size >= constants::MAX_MTU_SIZE,
    ensures
        tried_mtu(config, 0) == constants::MAX_MTU_SIZE,
        attempts >= constants::MTU_SIZES@.len() - 1 ==> tried_mtu(config, attempts)
            == constants::MIN_MTU_SIZE,
{
    assert(constants::MTU_SIZES@ =~= seq![576u16, 1200u16, 1400u16]);
}

/// The first request is as long as the size that it tries.
pub proof fn request_fills_the_size<P>(m: RakClientModel<P>, addr: SocketAddr)
    requires
        tried_mtu(m.config, m.attempts) >= 18,
    ensures
        ({
            let after = m.sends_request_1(addr);
            &&& after.output.len() == m.output.len() + 1
            &&& after.output.last() matches RakClientOutputView::SocketDatagram(buf, to)
            &&& to == addr
            &&& buf.len() == tried_mtu(m.config, m.attempts)
        }),
{
    OpenConnectionRequest1 {
        protocol: m.config.protocol,
        mtu: tried_mtu(m.config, m.attempts),
    }.reads_back();
}

/// Once connecting has taken too long it has failed, however few attempts were made.
pub proof fn deadline_ends_connecting<P>(m: RakClientModel<P>, now: SystemTime)
    requires
        m.state != RakClientState::Unconnected,
        now@ >= m.deadline(),
    ensures
        m.handled(RakClientInput::Update(now)) == (
            m,
            Err::<RakClientStepView, RakClientError>(RakClientError::ConnectionFailed),
        ),
{
}

/// Whether the client has made no more attempts than it may.
pub open spec fn attempts_bounded<P>(m: RakClientModel<P>) -> bool {
    m.attempts <= m.config.conn_attempt_max
}

/// No input leads to more attempts than the client may make, and when all are made the next
/// one that is due fails instead.
pub proof fn attempts_are_bounded<P>(m: RakClientModel<P>, msg: RakClientInput)
    requires
        m.inv(),
        m.admits(msg),
        attempts_bounded(m),
    ensures
        attempts_bounded(m.handled(msg).0),
        m.handled(msg).0.config == m.config,
        msg matches RakClientInput::Update(now) ==> (m.state != RakClientState::Unconnected
            && m.attempts == m.config.conn_attempt_max && now@ >= m.next_attempt()
            ==> m.handled(msg) == (
            m,
            Err::<RakClientStepView, RakClientError>(RakClientError::ConnectionFailed),
        )),
{
}

/// A client that nothing has happened to has made no attempts.
pub proof fn no_attempts_at_first<P>(config: RakClientConfig, now: SystemTime)
    ensures
        attempts_bounded(RakClientModel::<P>::created(config, now)),
        RakClientModel::<P>::created(config, now).inv(),
{
}

/// A client that is not unconnected heeds no call to connect or to ping.
pub proof fn busy_client_stays<P>(m: RakClientModel<P>, addr: SocketAddr, now: SystemTime)
    requires
        m.state != RakClientState::Unconnected,
    ensures
        m.handled(RakClientInput::Connect(addr, now)) == (
            m,
            Ok::<RakClientStepView, RakClientError>(RakClientStepView::Done),
        ),
        m.handled(RakClientInput::Ping(addr, now)) == (
            m,
            Ok::<RakClientStepView, RakClientError>(RakClientStepView::Done),
        ),
{
}

/// Connecting sends the first request at once, tries the largest size first, and waits from
/// then on for an answer.
pub proof fn connecting_asks_at_once<P>(m: RakClientModel<P>, remote: SocketAddr, now: SystemTime)
    requires
        m.state == RakClientState::Unconnected,
        now@ - m.config.conn_attempt_interval@ >= i128::MIN,
        m.config.conn_attempt_max > 0,
        m.config.conn_attempt_timeout@ > 0,
    ensures
        ({
            let (after, r) = m.handled(RakClientInput::Connect(remote, now));
            let request = OpenConnectionRequest1 {
                protocol: m.config.protocol,
                mtu: tried_mtu(m.config, 0),
            };
            &&& r == Ok::<RakClientStepView, RakClientError>(RakClientStepView::Done)
            &&& after.state == RakClientState::Handshake1(remote)
            &&& after.attempts == 1
            &&& after.last_attempt == now
            &&& after.connect_started == now
            &&& after.output.len() == m.output.len() + 2
            &&& after.output[m.output.len() as int] == RakClientOutputView::<P>::SocketDatagram(
                request.bytes(),
                remote,
            )
            &&& after.output.last() is Wait
        }),
{
}

/// After a disconnect the client can connect again, whatever state it was in.
pub proof fn disconnect_allows_reconnect<P>(
    m: RakClientModel<P>,
    remote: SocketAddr,
    now: SystemTime,
)
    ensures
        ({
            let (gone, r) = m.handled(RakClientInput::Disconnect);
            &&& r == Ok::<RakClientStepView, RakClientError>(RakClientStepView::Done)
            &&& gone.state == RakClientState::Unconnected
            &&& gone.session is None
            &&& gone.output == m.output
            &&& gone.handled(RakClientInput::Connect(remote, now)).0.state
                == RakClientState::Handshake1(remote)
        }),
{
}

/// What a refusal of the server is to the client during the handshake: an error of its own for
/// each, with the client left as it was.
pub proof fn refusals_are_told<P>(
    m: RakClientModel<P>,
    addr: SocketAddr,
    now: SystemTime,
    protocol: u8,
    guid: u64,
)
    requires
        m.state == RakClientState::Handshake1(addr) || m.state == RakClientState::Handshake2(addr),
    ensures
        m.received(IncompatibleProtocol { protocol, guid }.bytes(), addr, now) == (
            m,
            Err::<RakClientStepView, RakClientError>(RakClientError::IncompatibleProtocol),
        ),
        m.received(AlreadyConnected { guid }.bytes(), addr, now) == (
            m,
            Err::<RakClientStepView, RakClientError>(RakClientError::AlreadyConnected),
        ),
        m.received(NoFreeIncomingConnections { guid }.bytes(), addr, now) == (
            m,
            Err::<RakClientStepView, RakClientError>(RakClientError::NoFreeIncomingConnections),
        ),
        m.received(IpRecentlyConnected { guid }.bytes(), addr, now) == (
            m,
            Err::<RakClientStepView, RakClientError>(RakClientError::RecentlyConnected),
        ),
{
    assert(IncompatibleProtocol { protocol, guid }.bytes()[0] == packet_id::INCOMPATIBLE_PROTOCOL);
    assert(AlreadyConnected { guid }.bytes()[0] == packet_id::ALREADY_CONNECTED);
    assert(NoFreeIncomingConnections { guid }.bytes()[0]
        == packet_id::NO_FREE_INCOMING_CONNECTIONS);
    assert(IpRecentlyConnected { guid }.bytes()[0] == packet_id::IP_RECENTLY_CONNECTED);
}

/// A server that asks for security is not connected to.
pub proof fn security_is_refused<P>(
    m: RakClientModel<P>,
    addr: SocketAddr,
    now: SystemTime,
    reply: OpenConnectionReply2,
)
    requires
        m.state == RakClientState::Handshake1(addr) || m.state == RakClientState::Handshake2(addr),
        reply.security,
    ensures
        m.received(reply.bytes(), addr, now) == (
            m,
            Err::<RakClientStepView, RakClientError>(RakClientError::SecurityUnsupported),
        ),
{
    reply.reads_back();
    assert(reply.bytes()[0] == packet_id::OPEN_CONNECTION_REPLY_2);
}

/// Once a server is chosen, a datagram from elsewhere changes nothing.
pub proof fn others_are_ignored<P>(
    m: RakClientModel<P>,
    buf: Seq<u8>,
    remote: SocketAddr,
    addr: SocketAddr,
    now: SystemTime,
)
    requires
        m.state == RakClientState::Handshake1(remote) || m.state == RakClientState::Handshake2(
            remote,
        ) || m.state == RakClientState::HandshakeCompleted(remote),
        addr != remote,
    ensures
        m.received(buf, addr, now) == (
            m,
            Ok::<RakClientStepView, RakClientError>(RakClientStepView::Done),
        ),
{
}

/// While connecting, the client never waits past the next attempt, nor past the deadline, nor
/// for longer than the time between two attempts where time does not run backwards.
pub proof fn waits_are_short<P>(m: RakClientModel<P>, now: SystemTime)
    requires
        m.admits_time(now),
        m.state != RakClientState::Unconnected,
        m.timed(now).1 is Ok,
    ensures
        ({
            let after = m.timed(now).0;
            &&& after.output.len() > m.output.len()
            &&& after.output.last() matches RakClientOutputView::Wait(d)
            &&& now@ + d@ <= m.deadline()
            &&& now@ + d@ <= after.next_attempt() || d@ == 0
            &&& now@ >= m.last_attempt@ ==> d@ <= m.config.conn_attempt_interval@
        }),
{
}

/// A pong is told with the address that it came from, what the server has to say, and the time
/// that the ping was sent, to the millisecond.
pub proof fn pong_is_told<P>(
    m: RakClientModel<P>,
    pong: UnconnectedPongView,
    addr: SocketAddr,
    now: SystemTime,
)
    requires
        m.state == RakClientState::Unconnected,
        pong.message.len() <= u16::MAX,
    ensures
        ({
            let (after, r) = m.received(pong.bytes(), addr, now);
            &&& r == Ok::<RakClientStepView, RakClientError>(RakClientStepView::Done)
            &&& after.output.len() == m.output.len() + 1
            &&& after.output.last() matches RakClientOutputView::Pong(from, message, sent)
            &&& from == addr
            &&& message == pong.message
            &&& sent@ == pong.timestamp * 1_000_000
            &&& after == RakClientModel { output: after.output, ..m }
        }),
{
    pong.reads_back();
    assert(pong.bytes()[0] == packet_id::UNCONNECTED_PONG);
}

/// Once the session is put out, datagrams from the server are put out for it.
pub proof fn connected_client_passes_datagrams_on<P>(
    m: RakClientModel<P>,
    session: RakSession<P>,
    exchange: RakClientExchange,
    buf: Seq<u8>,
    now: SystemTime,
)
    requires
        m.inv(),
        m.session == Some(session),
        exchange.success == Some(true),
    ensures
        ({
            let (after, r) = m.session_polled(exchange, None::<RakSessionOutput>);
            &&& r == Ok::<RakClientStepView, RakClientError>(RakClientStepView::Done)
            &&& after.session is None
            &&& after.output == m.output.push(RakClientOutputView::SessionConnected(session))
            &&& after.received(buf, session.addr, now) == (
                after.put_out(RakClientOutputView::SessionDatagram(buf)),
                Ok::<RakClientStepView, RakClientError>(RakClientStepView::Done),
            )
        }),
{
}

/// What the passing of time asks for: the request of the handshake is sent once more if the
/// client is in one and the next attempt is due, and the attempt is counted then; nothing is
/// sent otherwise, and never once the handshake is over. A wait is put out after it in any case.
pub proof fn timeouts_send_what_is_due<P>(m: RakClientModel<P>, now: SystemTime)
    requires
        m.admits_time(now),
        attempts_bounded(m),
        m.timed(now).1 is Ok,
    ensures
        ({
            let after = m.timed(now).0;
            let due = now@ >= m.next_attempt();
            let first = OpenConnectionRequest1 {
                protocol: m.config.protocol,
                mtu: tried_mtu(m.config, m.attempts),
            };
            let sent = match m.state {
                RakClientState::Handshake1(addr) if due => seq![
                    RakClientOutputView::<P>::SocketDatagram(first.bytes(), addr),
                ],
                RakClientState::Handshake2(addr) if due => seq![
                    RakClientOutputView::<P>::SocketDatagram(
                        (OpenConnectionRequest2 {
                            cookie: m.cookie,
                            addr,
                            mtu: m.mtu,
                            client: m.config.guid,
                        }).bytes(),
                        addr,
                    ),
                ],
                _ => seq![],
            };
            &&& after.output.len() > 0
            &&& after.output.last() is Wait
            &&& after.output.drop_last() == m.output + sent
            &&& sent.len() == 1 <==> due && (m.state is Handshake1 || m.state is Handshake2)
            &&& if sent.len() == 1 {
                after.attempts == m.attempts + 1 && after.last_attempt == now
            } else {
                after.attempts == m.attempts && after.last_attempt == m.last_attempt
            }
            &&& attempts_bounded(after)
            &&& after == RakClientModel {
                attempts: after.attempts,
                last_attempt: after.last_attempt,
                output: after.output,
                ..m
            }
        }),
{
    let after = m.timed(now).0;
    let due = now@ >= m.next_attempt();
    match m.state {
        RakClientState::Handshake1(addr) if due => {
            let sent = m.sends_request_1(addr).output;
            assert(after.output.drop_last() =~= sent);
            assert(sent =~= m.output + seq![sent.last()]);
        },
        RakClientState::Handshake2(addr) if due => {
            let sent = m.sends_request_2(addr).output;
            assert(after.output.drop_last() =~= sent);
            assert(sent =~= m.output + seq![sent.last()]);
        },
        _ => {
            assert(after.output.drop_last() =~= m.output);
            assert(m.output =~= m.output + Seq::<RakClientOutputView<P>>::empty());
        },
    }
}

/// The first requests of a client: each is one datagram to the server with the version that the
/// client speaks, of a size within the limits of the client that does not grow from one attempt
/// to a later one, and is the smallest from the attempt on that tries the last size. Sending it
/// changes nothing else.
pub proof fn first_requests_shrink<P>(
    m: RakClientModel<P>,
    addr: SocketAddr,
    earlier: usize,
    later: usize,
)
    requires
        m.config.min_mtu_size <= m.config.max_mtu_size,
        earlier <= later,
    ensures
        ({
            let request = OpenConnectionRequest1 {
                protocol: m.config.protocol,
                mtu: tried_mtu(m.config, later),
            };
            let before = RakClientModel { attempts: later, ..m };
            &&& before.sends_request_1(addr) == RakClientModel {
                output: m.output.push(
                    RakClientOutputView::SocketDatagram(request.bytes(), addr),
                ),
                ..before
            }
            &&& request.mtu >= 18 ==> OpenConnectionRequest1::parsed(request.bytes()) == Ok::<
                OpenConnectionRequest1,
                RakCodecError,
            >(request)
            &&& tried_mtu(m.config, earlier) >= request.mtu
            &&& m.config.min_mtu_size <= request.mtu <= m.config.max_mtu_size
            &&& later >= constants::MTU_SIZES@.len() - 1 ==> request.mtu == clamped(
                constants::MTU_SIZES@[0],
                m.config.min_mtu_size,
                m.config.max_mtu_size,
            )
        }),
{
    tried_sizes_shrink(m.config, earlier, later);
    let request = OpenConnectionRequest1 {
        protocol: m.config.protocol,
        mtu: tried_mtu(m.config, later),
    };
    if request.mtu >= 18 {
        request.reads_back();
    }
}

/// What `handle` returned, with the bytes of its step as a sequence.
pub open spec fn plain_result(r: Result<RakClientStep, RakClientError>) -> Result<
    RakClientStepView,
    RakClientError,
> {
    match r {
        Ok(step) => Ok(step@),
        Err(e) => Err(e),
    }
}

/// What comes of an input follows from the input and what the client is: two clients that are
/// the same are the same after the same input, with the same result and the same outputs in the
/// same order.
pub proof fn outcome_follows_from_input<P>(
    a: RakClientModel<P>,
    b: RakClientModel<P>,
    msg: RakClientInput,
    after_a: RakClientModel<P>,
    after_b: RakClientModel<P>,
    r_a: Result<RakClientStep, RakClientError>,
    r_b: Result<RakClientStep, RakClientError>,
)
    requires
        a == b,
        (after_a, plain_result(r_a)) == a.handled(msg),
        (after_b, plain_result(r_b)) == b.handled(msg),
    ensures
        after_a == after_b,
        after_a.output == after_b.output,
        plain_result(r_a) == plain_result(r_b),
{
}

} // verus!

//! What can be relied on over several inputs of a server.

use crate::net::SocketAddr;
use crate::protocol::codec::RakCodecError;
use crate::protocol::packets::open_connection::{
    OpenConnectionReply1, OpenConnectionRequest1, OpenConnectionRequest2,
};
use crate::protocol::packets::ping::{UnconnectedPing, UnconnectedPongView};
use crate::protocol::packets::refusal::{
    AlreadyConnected, IpRecentlyConnected, NoFreeIncomingConnections,
};
use crate::server::config::RakServerConfig;
use crate::server::error::{RakRefusal, RakServerError, RakServerErrorView};
use crate::server::input::{RakServerInput, RakServerStep, RakServerStepView};
use crate::server::model::{
    RakAnswer2, RakServerModel, OFFLINE_RATE_LIMIT_WINDOW, PENDING_CONNECTION_TIMEOUT,
    RECENTLY_CONNECTED_COOLDOWN,
};
use crate::server::output::RakServerOutputView;
use crate::session::{RakSession, RakSessionId, RakSessionInputView, RakSessionOutput};
use crate::time::{elapsed, SystemTime};
use crate::util::{flags, packet_id};
use vstd::prelude::*;

verus! {

/// No two addresses have the same session.
pub proof fn sessions_are_told_apart<P>(m: RakServerModel<P>, a: SocketAddr, b: SocketAddr)
    requires
        m.inv(),
        m.session_map.contains_key(a),
        m.session_map.contains_key(b),
        a != b,
    ensures
        m.session_map[a] != m.session_map[b],
{
}

/// What holds of a server at all times holds of one that nothing has happened to, and it knows
/// the same of its sessions from both sides.
pub proof fn created_server_is_paired<P>(config: RakServerConfig, addr: SocketAddr)
    ensures
        RakServerModel::<P>::created(config, addr).inv(),
        RakServerModel::<P>::created(config, addr).paired(),
{
}

/// A server stays paired as long as its sessions stay under their numbers, and those that are
/// still to be connected are some of those that were.
proof fn pairing_stays<P>(m: RakServerModel<P>, after: RakServerModel<P>)
    requires
        m.paired(),
        after.session_map == m.session_map,
        after.session_addr == m.session_addr,
        forall|a: SocketAddr| #[trigger]
            after.pending.contains_key(a) ==> m.pending.contains_key(a) && after.pending[a].1.id
                == m.pending[a].1.id,
    ensures
        after.paired(),
{
    assert forall|a: SocketAddr| #[trigger] after.pending.contains_key(a) implies
        after.session_map.contains_key(a) && after.pending[a].1.id == after.session_map[a] by {
        assert(m.pending.contains_key(a));
    }
}

/// A server stays paired when a session gets the next number at an address that has none.
proof fn pairing_grows<P>(m: RakServerModel<P>, after: RakServerModel<P>, addr: SocketAddr)
    requires
        m.inv(),
        m.paired(),
        !m.session_map.contains_key(addr),
        after.session_map == m.session_map.insert(addr, RakSessionId(m.next_id)),
        after.session_addr == m.session_addr.insert(m.next_id, addr),
        forall|a: SocketAddr| #[trigger]
            after.pending.contains_key(a) ==> if a == addr {
                after.pending[a].1.id == RakSessionId(m.next_id)
            } else {
                m.pending.contains_key(a) && after.pending[a].1.id == m.pending[a].1.id
            },
    ensures
        after.paired(),
{
    assert(!m.session_addr.contains_key(m.next_id));
    assert forall|a: SocketAddr| #[trigger] after.pending.contains_key(a) implies
        after.session_map.contains_key(a) && after.pending[a].1.id == after.session_map[a] by {
        if a != addr {
            assert(m.pending.contains_key(a));
        }
    }
}

/// In a server that is paired, a session has an address if and only if the address has the
/// session.
pub proof fn pairing_goes_both_ways<P>(m: RakServerModel<P>, a: SocketAddr, i: u64)
    requires
        m.paired(),
    ensures
        (m.session_map.contains_key(a) && m.session_map[a].0 == i) <==> (
        m.session_addr.contains_key(i) && m.session_addr[i] == a),
        m.pending.contains_key(a) ==> m.session_map.contains_key(a) && m.pending[a].1.id
            == m.session_map[a],
{
}

/// No input that a server can deal with, whether it does or fails, makes it know other things
/// of its sessions from one side than from the other, and what holds of a server at all times
/// still holds.
pub proof fn inputs_keep_sessions_paired<P>(m: RakServerModel<P>, msg: RakServerInput)
    requires
        m.inv(),
        m.paired(),
        m.admits(msg),
    ensures
        m.handled(msg).0.inv(),
        m.handled(msg).0.paired(),
{
    broadcast use vstd::set::group_set_axioms;

    let after = m.handled(msg).0;
    match msg {
        RakServerInput::Datagram(_, addr, _) => {
            if after.next_id != m.next_id {
                assert(after.session_map.dom() =~= m.session_map.dom().insert(addr));
                pairing_grows(m, after, addr);
            } else {
                pairing_stays(m, after);
            }
        },
        RakServerInput::RemoveSession(id, _) => {
            if m.session_addr.contains_key(id.0) {
                let addr = m.session_addr[id.0];
                assert(m.session_map.contains_key(addr));
                assert(after.session_map.dom() =~= m.session_map.dom().remove(addr));
            }
        },
        RakServerInput::Update(_) => {
            assert(after.session_map.dom().subset_of(m.session_map.dom()));
            vstd::set_lib::lemma_set_subset_finite(m.session_map.dom(), after.session_map.dom());
        },
        _ => {
            pairing_stays(m, after);
        },
    }
}

/// The same of the outputs of a session's protocol, of the protocol's other states, of what is
/// polled, and of a session that is taken over from another server at an address that has none.
pub proof fn sessions_stay_paired<P>(
    m: RakServerModel<P>,
    addr: SocketAddr,
    output: Option<RakSessionOutput>,
    now: SystemTime,
    protocol: Option<P>,
    session: RakSession<P>,
)
    requires
        m.inv(),
        m.paired(),
    ensures
        m.session_polled(addr, output, now).0.inv(),
        m.session_polled(addr, output, now).0.paired(),
        m.pending.contains_key(addr) ==> m.with_protocol(addr, protocol).inv() && m.with_protocol(
            addr,
            protocol,
        ).paired(),
        m.output.len() > 0 ==> (RakServerModel { output: m.output.drop_first(), ..m }).inv()
            && (RakServerModel { output: m.output.drop_first(), ..m }).paired(),
        m.next_id < u64::MAX && !m.session_map.contains_key(session.addr) ==> m.adopted(
            session,
        ).inv() && m.adopted(session).paired() && m.taken_over(session).inv() && m.taken_over(
            session,
        ).paired(),
{
    broadcast use vstd::set::group_set_axioms;

    pairing_stays(m, m.session_polled(addr, output, now).0);
    if m.pending.contains_key(addr) {
        pairing_stays(m, m.with_protocol(addr, protocol));
    }
    pairing_stays(m, RakServerModel { output: m.output.drop_first(), ..m });
    if !m.session_map.contains_key(session.addr) {
        assert(m.taken_over(session).session_map.dom() =~= m.session_map.dom().insert(
            session.addr,
        ));
        pairing_grows(m, m.taken_over(session), session.addr);
        pairing_grows(m, m.adopted(session), session.addr);
    }
}

/// An offline datagram, with where it came from and when.
pub struct Arrival {
    pub buf: Seq<u8>,
    pub addr: SocketAddr,
    pub now: SystemTime,
}

/// How many of the datagrams are looked at, one after the other, of those for which `which`
/// holds of the address.
pub open spec fn looked_at<P>(
    m: RakServerModel<P>,
    arrivals: Seq<Arrival>,
    which: spec_fn(SocketAddr) -> bool,
) -> nat
    decreases arrivals.len(),
{
    if arrivals.len() == 0 {
        0
    } else {
        let first = arrivals[0];
        let rest = looked_at(
            m.offline(first.buf, first.addr, first.now).0,
            arrivals.drop_first(),
            which,
        );
        if which(first.addr) && !m.rate_limits(first.addr, first.now) {
            rest + 1
        } else {
            rest
        }
    }
}

/// Whether no address sent more offline packets than all did.
spec fn counts_agree<P>(m: RakServerModel<P>) -> bool {
    &&& m.total >= 0
    &&& forall|a: SocketAddr| #[trigger]
        m.per_ip.contains_key(a) ==> 0 <= m.per_ip[a] <= m.total
}

/// Whether the datagrams come before the time to count together is over, and are no more than
/// can be counted.
pub open spec fn within_window<P>(m: RakServerModel<P>, arrivals: Seq<Arrival>) -> bool {
    &&& forall|i: int|
        0 <= i < arrivals.len() ==> elapsed((#[trigger] arrivals[i]).now, m.window)
            < OFFLINE_RATE_LIMIT_WINDOW
    &&& m.total + arrivals.len() <= i32::MAX
}

/// What the first of the datagrams makes of the counts, and that the rest still come in time.
proof fn first_arrival<P>(m: RakServerModel<P>, arrivals: Seq<Arrival>)
    requires
        arrivals.len() > 0,
        counts_agree(m),
        within_window(m, arrivals),
    ensures
        ({
            let first = arrivals[0];
            let after = m.offline(first.buf, first.addr, first.now).0;
            &&& counts_agree(after)
            &&& within_window(after, arrivals.drop_first())
            &&& after.config.packet_limit == m.config.packet_limit
            &&& after.config.total_packet_limit == m.config.total_packet_limit
            &&& after.total == m.total + 1
            &&& forall|a: SocketAddr| #[trigger]
                after.count(a) == if a == first.addr && m.total < m.config.total_packet_limit {
                    m.count(a) + 1
                } else {
                    m.count(a)
                }
        }),
{
    let first = arrivals[0];
    let rest = arrivals.drop_first();
    let counted = m.counted(first.addr, first.now);
    let after = m.offline(first.buf, first.addr, first.now).0;
    assert(m.windowed(first.now) == m);
    assert(after.config == counted.config && after.window == counted.window && after.total
        == counted.total && after.per_ip == counted.per_ip);
    assert forall|i: int| 0 <= i < rest.len() implies elapsed(
        (#[trigger] rest[i]).now,
        after.window,
    ) < OFFLINE_RATE_LIMIT_WINDOW by {
        assert(rest[i] == arrivals[i + 1]);
    }
}

/// The same as the law below, of any counts that agree.
proof fn address_limit_by_counts<P>(
    m: RakServerModel<P>,
    arrivals: Seq<Arrival>,
    addr: SocketAddr,
)
    requires
        counts_agree(m),
        within_window(m, arrivals),
    ensures
        ({
            let n = looked_at(m, arrivals, |a: SocketAddr| a == addr);
            n == 0 || n + m.count(addr) <= m.config.packet_limit
        }),
    decreases arrivals.len(),
{
    if arrivals.len() > 0 {
        let first = arrivals[0];
        assert(m.windowed(first.now) == m);
        first_arrival(m, arrivals);
        let after = m.offline(first.buf, first.addr, first.now).0;
        address_limit_by_counts(after, arrivals.drop_first(), addr);
        assert(after.count(addr) >= m.count(addr));
    }
}

/// Of the offline datagrams that come while they are counted together, no more are looked at
/// from one address than the limit for an address leaves.
pub proof fn address_limit_holds<P>(
    m: RakServerModel<P>,
    arrivals: Seq<Arrival>,
    addr: SocketAddr,
)
    requires
        m.inv(),
        within_window(m, arrivals),
    ensures
        ({
            let n = looked_at(m, arrivals, |a: SocketAddr| a == addr);
            n == 0 || n + m.count(addr) <= m.config.packet_limit
        }),
{
    address_limit_by_counts(m, arrivals, addr);
}

/// The same as the law below, of any counts that agree.
proof fn total_limit_by_counts<P>(m: RakServerModel<P>, arrivals: Seq<Arrival>)
    requires
        counts_agree(m),
        within_window(m, arrivals),
    ensures
        ({
            let n = looked_at(m, arrivals, |a: SocketAddr| true);
            n == 0 || n + m.total <= m.config.total_packet_limit
        }),
    decreases arrivals.len(),
{
    if arrivals.len() > 0 {
        let first = arrivals[0];
        assert(m.windowed(first.now) == m);
        first_arrival(m, arrivals);
        total_limit_by_counts(
            m.offline(first.buf, first.addr, first.now).0,
            arrivals.drop_first(),
        );
    }
}

/// Of the offline datagrams that come while they are counted together, no more are looked at
/// in all than the limit for all leaves.
pub proof fn total_limit_holds<P>(m: RakServerModel<P>, arrivals: Seq<Arrival>)
    requires
        m.inv(),
        within_window(m, arrivals),
    ensures
        ({
            let n = looked_at(m, arrivals, |a: SocketAddr| true);
            n == 0 || n + m.total <= m.config.total_packet_limit
        }),
{
    total_limit_by_counts(m, arrivals);
}

/// The smaller of two numbers.
pub open spec fn lesser(a: int, b: int) -> int {
    if a < b {
        a
    } else {
        b
    }
}

/// The larger of two numbers.
pub open spec fn greater(a: int, b: int) -> int {
    if a > b {
        a
    } else {
        b
    }
}

/// The same as the law below, of any counts that agree.
proof fn sole_sender_by_counts<P>(
    m: RakServerModel<P>,
    arrivals: Seq<Arrival>,
    addr: SocketAddr,
)
    requires
        counts_agree(m),
        within_window(m, arrivals),
        forall|i: int| 0 <= i < arrivals.len() ==> (#[trigger] arrivals[i]).addr == addr,
    ensures
        looked_at(m, arrivals, |a: SocketAddr| a == addr) == greater(
            0,
            lesser(
                arrivals.len() as int,
                lesser(
                    m.config.packet_limit - m.count(addr),
                    m.config.total_packet_limit - m.total,
                ),
            ),
        ),
    decreases arrivals.len(),
{
    if arrivals.len() > 0 {
        let first = arrivals[0];
        let rest = arrivals.drop_first();
        assert(m.windowed(first.now) == m);
        first_arrival(m, arrivals);
        assert forall|i: int| 0 <= i < rest.len() implies (#[trigger] rest[i]).addr == addr by {
            assert(rest[i] == arrivals[i + 1]);
        }
        let after = m.offline(first.buf, first.addr, first.now).0;
        sole_sender_by_counts(after, rest, addr);
        assert(after.count(addr) >= m.count(addr));
    }
}

/// Where offline datagrams come from one address alone, each is looked at until a limit is
/// reached, and none from then on.
pub proof fn sole_sender_gets_its_limit<P>(
    m: RakServerModel<P>,
    arrivals: Seq<Arrival>,
    addr: SocketAddr,
)
    requires
        m.inv(),
        within_window(m, arrivals),
        forall|i: int| 0 <= i < arrivals.len() ==> (#[trigger] arrivals[i]).addr == addr,
    ensures
        ({
            let n = looked_at(m, arrivals, |a: SocketAddr| a == addr);
            let left = m.config.packet_limit - m.count(addr);
            let left_in_all = m.config.total_packet_limit - m.total;
            &&& arrivals.len() <= left && arrivals.len() <= left_in_all ==> n == arrivals.len()
            &&& 0 <= left <= arrivals.len() && left <= left_in_all ==> n == left
            &&& 0 <= left_in_all <= arrivals.len() && left_in_all <= left ==> n == left_in_all
            &&& left <= 0 || left_in_all <= 0 ==> n == 0
        }),
{
    sole_sender_by_counts(m, arrivals, addr);
}

/// An offline datagram that is one too many changes the counts and nothing else: it is not
/// answered.
pub proof fn one_too_many_is_dropped<P>(
    m: RakServerModel<P>,
    buf: Seq<u8>,
    addr: SocketAddr,
    now: SystemTime,
)
    requires
        buf.len() > 0,
        buf[0] < flags::VALID,
        m.rate_limits(addr, now),
    ensures
        ({
            let (after, r) = m.received(buf, addr, now);
            &&& r == Ok::<RakServerStepView, RakServerErrorView>(RakServerStepView::Done)
            &&& after == RakServerModel {
                window: after.window,
                total: after.total,
                per_ip: after.per_ip,
                ..m
            }
        }),
{
}

/// Once the time to count together is over, an offline datagram is too many only where the
/// limits allow for none.
pub proof fn counting_begins_anew<P>(m: RakServerModel<P>, addr: SocketAddr, now: SystemTime)
    requires
        elapsed(now, m.window) >= OFFLINE_RATE_LIMIT_WINDOW,
    ensures
        m.rate_limits(addr, now) <==> m.config.total_packet_limit < 1 || m.config.packet_limit
            < 1,
        m.counted(addr, now).total == 1,
{
}

/// A ping is answered with a pong that repeats its timestamp and tells who the server is and
/// what it has to say; nothing else comes of it but that it is counted.
pub proof fn ping_is_answered<P>(
    m: RakServerModel<P>,
    ping: UnconnectedPing,
    addr: SocketAddr,
    now: SystemTime,
)
    requires
        !m.rate_limits(addr, now),
        m.config.message@.len() <= u16::MAX,
    ensures
        ({
            let (after, r) = m.received(ping.bytes(), addr, now);
            let pong = UnconnectedPongView {
                timestamp: ping.timestamp,
                guid: m.config.guid,
                message: m.config.message@,
            };
            &&& r == Ok::<RakServerStepView, RakServerErrorView>(RakServerStepView::Done)
            &&& after == m.counted(addr, now).answered(pong.bytes(), addr)
            &&& UnconnectedPongView::parsed(pong.bytes()) == Ok::<
                UnconnectedPongView,
                RakCodecError,
            >(pong)
        }),
{
    ping.reads_back();
    let pong = UnconnectedPongView {
        timestamp: ping.timestamp,
        guid: m.config.guid,
        message: m.config.message@,
    };
    pong.reads_back();
    assert(ping.bytes()[0] == packet_id::UNCONNECTED_PING);
}

/// A datagram that says nothing, or nothing that a server knows of, is not answered and
/// touches no session.
pub proof fn unknown_is_ignored<P>(
    m: RakServerModel<P>,
    buf: Seq<u8>,
    addr: SocketAddr,
    now: SystemTime,
)
    requires
        buf.len() > 0 ==> buf[0] < flags::VALID && buf[0] != packet_id::UNCONNECTED_PING && buf[0]
            != packet_id::OPEN_CONNECTION_REQUEST_1 && buf[0]
            != packet_id::OPEN_CONNECTION_REQUEST_2,
    ensures
        ({
            let (after, r) = m.received(buf, addr, now);
            &&& r == Ok::<RakServerStepView, RakServerErrorView>(RakServerStepView::Done)
            &&& after == if buf.len() == 0 {
                m
            } else {
                m.counted(addr, now)
            }
        }),
{
}

/// A second request from an address that has a session is answered with the word that it is
/// connected already, and the session stays as it is.
pub proof fn connected_already<P>(
    m: RakServerModel<P>,
    request: OpenConnectionRequest2,
    addr: SocketAddr,
    now: SystemTime,
)
    requires
        !m.rate_limits(addr, now),
        m.session_map.contains_key(addr),
        request.addr.port_of() == m.addr.port_of(),
        m.config.min_mtu_size <= request.mtu <= m.config.max_mtu_size,
    ensures
        m.received(request.bytes(), addr, now) == (
            m.counted(addr, now).answered(AlreadyConnected { guid: m.config.guid }.bytes(), addr),
            Ok::<RakServerStepView, RakServerErrorView>(RakServerStepView::Done),
        ),
{
    request.reads_back();
    assert(request.bytes()[0] == packet_id::OPEN_CONNECTION_REQUEST_2);
}

/// A second request that is agreed to opens a session, and when it comes again it is answered
/// with the word that the address is connected already.
pub proof fn repeated_request_is_refused<P>(
    m: RakServerModel<P>,
    request: OpenConnectionRequest2,
    addr: SocketAddr,
    now: SystemTime,
    later: SystemTime,
)
    requires
        m.next_id < u64::MAX,
        !m.rate_limits(addr, now),
        m.counted(addr, now).answer_2(request, addr) is Agreed,
        !m.received(request.bytes(), addr, now).0.rate_limits(addr, later),
    ensures
        ({
            let once = m.received(request.bytes(), addr, now).0;
            let twice = once.received(request.bytes(), addr, later);
            &&& once.pending.contains_key(addr)
            &&& once.session_map.contains_key(addr)
            &&& twice == (
                once.counted(addr, later).answered(
                    AlreadyConnected { guid: m.config.guid }.bytes(),
                    addr,
                ),
                Ok::<RakServerStepView, RakServerErrorView>(RakServerStepView::Done),
            )
        }),
{
    request.reads_back();
    assert(request.bytes()[0] == packet_id::OPEN_CONNECTION_REQUEST_2);
    let once = m.received(request.bytes(), addr, now).0;
    connected_already(once, request, addr, later);
}

/// A second request for another port, or with a datagram size that the server does not agree
/// to, is refused without an answer, with a word of which it is, the port before the size, and
/// nothing comes of it but that it is counted.
pub proof fn unfit_request_is_not_answered<P>(
    m: RakServerModel<P>,
    request: OpenConnectionRequest2,
    addr: SocketAddr,
    now: SystemTime,
)
    requires
        !m.rate_limits(addr, now),
        request.addr.port_of() != m.addr.port_of() || !(m.config.min_mtu_size <= request.mtu
            <= m.config.max_mtu_size),
    ensures
        ({
            let (after, r) = m.received(request.bytes(), addr, now);
            &&& after == m.counted(addr, now)
            &&& r == Err::<RakServerStepView, RakServerErrorView>(
                RakServerErrorView::RefusingConnection(
                    if request.addr.port_of() != m.addr.port_of() {
                        RakRefusal::PortMismatch(addr).said()
                    } else {
                        RakRefusal::InvalidMtu(addr).said()
                    },
                ),
            )
        }),
{
    request.reads_back();
    assert(request.bytes()[0] == packet_id::OPEN_CONNECTION_REQUEST_2);
}

/// A datagram never opens a session beyond the limit: there are no more sessions than before,
/// or no more than the limit.
pub proof fn capacity_is_kept<P>(
    m: RakServerModel<P>,
    buf: Seq<u8>,
    addr: SocketAddr,
    now: SystemTime,
)
    requires
        m.inv(),
    ensures
        ({
            let after = m.received(buf, addr, now).0;
            after.session_map.dom().len() <= m.session_map.dom().len()
                || after.session_map.dom().len() <= m.config.max_connections
        }),
{
    broadcast use vstd::set::group_set_axioms;

    let after = m.received(buf, addr, now).0;
    if after.session_map != m.session_map {
        assert(after.session_map.dom() == m.session_map.dom().insert(addr));
    }
}

/// A second request that finds all sessions taken is told so, and opens none.
pub proof fn full_server_says_so<P>(
    m: RakServerModel<P>,
    request: OpenConnectionRequest2,
    addr: SocketAddr,
    now: SystemTime,
)
    requires
        !m.rate_limits(addr, now),
        !m.session_map.contains_key(addr),
        m.session_map.dom().len() >= m.config.max_connections,
        request.addr.port_of() == m.addr.port_of(),
        m.config.min_mtu_size <= request.mtu <= m.config.max_mtu_size,
    ensures
        m.received(request.bytes(), addr, now) == (
            m.counted(addr, now).answered(
                NoFreeIncomingConnections { guid: m.config.guid }.bytes(),
                addr,
            ),
            Ok::<RakServerStepView, RakServerErrorView>(RakServerStepView::Done),
        ),
{
    request.reads_back();
    assert(request.bytes()[0] == packet_id::OPEN_CONNECTION_REQUEST_2);
}

/// An address whose session was removed is turned away until the cooldown is over, and agreed
/// with from then on.
pub proof fn cooldown_follows_removal<P>(
    m: RakServerModel<P>,
    id: RakSessionId,
    removed: SystemTime,
    request: OpenConnectionRequest1,
    now: SystemTime,
)
    requires
        m.inv(),
        m.session_addr.contains_key(id.0),
        request.mtu >= 18,
        m.config.protocols@.contains(request.protocol),
        !m.removed(id, removed).rate_limits(m.session_addr[id.0], now),
    ensures
        ({
            let addr = m.session_addr[id.0];
            let counted = m.removed(id, removed).counted(addr, now);
            let recent = IpRecentlyConnected { guid: m.config.guid };
            let reply = OpenConnectionReply1 {
                guid: m.config.guid,
                cookie: None,
                mtu: m.agreed_mtu(request, addr),
            };
            m.removed(id, removed).received(request.bytes(), addr, now) == (
                if elapsed(now, removed) < RECENTLY_CONNECTED_COOLDOWN {
                    counted.answered(recent.bytes(), addr)
                } else {
                    counted.answered(reply.bytes(), addr)
                },
                Ok::<RakServerStepView, RakServerErrorView>(RakServerStepView::Done),
            )
        }),
{
    request.reads_back();
    let addr = m.session_addr[id.0];
    let gone = m.removed(id, removed);
    assert(request.bytes()[0] == packet_id::OPEN_CONNECTION_REQUEST_1);
    assert(elapsed(removed, removed) < RECENTLY_CONNECTED_COOLDOWN);
    assert(gone.recent.contains_key(addr) && gone.recent[addr] == removed);
}

/// Removing a session leaves none at its address, and those at other addresses as they are.
/// Removing it again changes nothing but which addresses are still turned away.
pub proof fn removal_is_local<P>(m: RakServerModel<P>, id: RakSessionId, now: SystemTime)
    requires
        m.inv(),
        m.session_addr.contains_key(id.0),
    ensures
        ({
            let addr = m.session_addr[id.0];
            let after = m.removed(id, now);
            &&& !after.session_map.contains_key(addr)
            &&& !after.pending.contains_key(addr)
            &&& !after.session_addr.contains_key(id.0)
            &&& forall|a: SocketAddr|
                a != addr ==> (#[trigger] after.session_map.contains_key(a)
                    == m.session_map.contains_key(a)) && (after.pending.contains_key(a)
                    == m.pending.contains_key(a)) && (m.session_map.contains_key(a)
                    ==> after.session_map[a] == m.session_map[a]) && (m.pending.contains_key(a)
                    ==> after.pending[a] == m.pending[a])
            &&& after.output == m.output
            &&& forall|later: SystemTime|
                #![trigger after.removed(id, later)]
                after.removed(id, later) == RakServerModel {
                    recent: after.removed(id, later).recent,
                    ..after
                }
        }),
{
}

/// As time passes, the sessions that took too long to connect are gone, with their addresses
/// free for others to be opened; those that did not are as they were, and so are connected
/// sessions.
pub proof fn stale_sessions_are_evicted<P>(m: RakServerModel<P>, now: SystemTime)
    requires
        m.inv(),
    ensures
        ({
            let after = m.evicted(now);
            &&& forall|a: SocketAddr| #[trigger]
                after.pending.contains_key(a) ==> elapsed(now, after.pending[a].0)
                    < PENDING_CONNECTION_TIMEOUT
            &&& forall|a: SocketAddr|
                #![trigger after.session_map.contains_key(a)]
                m.pending.contains_key(a) && elapsed(now, m.pending[a].0)
                    >= PENDING_CONNECTION_TIMEOUT ==> !after.session_map.contains_key(a)
            &&& forall|a: SocketAddr|
                #![trigger m.pending[a]]
                m.pending.contains_key(a) && elapsed(now, m.pending[a].0)
                    < PENDING_CONNECTION_TIMEOUT ==> after.pending.contains_key(a)
                    && after.pending[a] == m.pending[a] && after.session_map.contains_key(a)
                    && after.session_map[a] == m.session_map[a]
            &&& forall|a: SocketAddr|
                #![trigger m.session_map[a]]
                m.session_map.contains_key(a) && !m.pending.contains_key(a)
                    ==> after.session_map.contains_key(a) && after.session_map[a]
                    == m.session_map[a] && after.session_addr.contains_key(m.session_map[a].0)
            &&& after.output == m.output
            &&& after.evicted(now) == after
        }),
{
    let after = m.evicted(now);
    assert(after.evicted(now) =~= after);
}

/// A session that is agreed to and not connected in time is gone, and another one can be
/// opened for its address.
pub proof fn unconnected_session_is_evicted<P>(
    m: RakServerModel<P>,
    request: OpenConnectionRequest2,
    addr: SocketAddr,
    now: SystemTime,
    later: SystemTime,
)
    requires
        m.inv(),
        m.next_id < u64::MAX,
        !m.rate_limits(addr, now),
        m.answer_2(request, addr) is Agreed,
        elapsed(later, now) >= PENDING_CONNECTION_TIMEOUT,
    ensures
        ({
            let opened = m.received(request.bytes(), addr, now).0;
            let after = opened.evicted(later);
            &&& opened.pending.contains_key(addr)
            &&& !after.pending.contains_key(addr)
            &&& !after.session_map.contains_key(addr)
        }),
{
    request.reads_back();
    assert(request.bytes()[0] == packet_id::OPEN_CONNECTION_REQUEST_2);
}

/// A session taken over from another server gets a number that no session here ever had, and
/// is put out with everything else of it as it came. Other addresses keep their sessions.
pub proof fn adopted_session_continues<P>(m: RakServerModel<P>, session: RakSession<P>)
    requires
        m.inv(),
        m.next_id < u64::MAX,
    ensures
        ({
            let after = m.adopted(session);
            let id = after.session_map[session.addr];
            &&& after.session_map.contains_key(session.addr)
            &&& !m.session_addr.contains_key(id.0)
            &&& id.0 == m.next_id
            &&& forall|a: SocketAddr|
                #![trigger m.session_map[a]]
                m.session_map.contains_key(a) ==> m.session_map[a] != id
            &&& after.session_addr.contains_key(id.0) && after.session_addr[id.0] == session.addr
            &&& after.output == m.output.push(
                RakServerOutputView::SessionConnected(RakSession { id, ..session }),
            )
            &&& forall|a: SocketAddr|
                #![trigger after.session_map.contains_key(a)]
                a != session.addr ==> after.session_map.contains_key(a)
                    == m.session_map.contains_key(a) && (m.session_map.contains_key(a)
                    ==> after.session_map[a] == m.session_map[a])
            &&& after.pending == m.pending
        }),
{
}

/// The datagrams of a session that was taken over reach it under its new number, unless the
/// server has a session that is to be connected at that address.
pub proof fn adopted_session_is_reached<P>(
    m: RakServerModel<P>,
    session: RakSession<P>,
    buf: Seq<u8>,
    now: SystemTime,
)
    requires
        !m.pending.contains_key(session.addr),
        buf.len() > 0,
        buf[0] >= flags::VALID,
    ensures
        m.adopted(session).received(buf, session.addr, now) == (
            m.adopted(session).put_out(
                RakServerOutputView::SessionDatagram(buf, RakSessionId(m.next_id)),
            ),
            Ok::<RakServerStepView, RakServerErrorView>(RakServerStepView::Done),
        ),
{
}

/// A session is put out as connected when the peer says that it knows of the connection, with
/// the number, the address and the protocol that it had; from then on datagrams from its
/// address are put out for it, unless a session of another server was taken over at that
/// address in the meantime.
pub proof fn connecting_puts_the_session_out<P>(
    m: RakServerModel<P>,
    addr: SocketAddr,
    buf: Seq<u8>,
    now: SystemTime,
)
    requires
        m.inv(),
        m.pending.contains_key(addr),
        m.pending[addr].1.id == m.session_map[addr],
        buf.len() > 0,
        buf[0] >= flags::VALID,
    ensures
        ({
            let after = m.connected(addr);
            let session = m.pending[addr].1;
            &&& after.output.len() == m.output.len() + 1
            &&& after.output.last() matches RakServerOutputView::SessionConnected(out)
            &&& out.addr == addr
            &&& out.id == session.id
            &&& out.guid == session.guid
            &&& out.mtu == session.mtu
            &&& out.protocol == session.protocol
            &&& out.state is Connected
            &&& after.session_map == m.session_map
            &&& after.received(buf, addr, now) == (
                after.put_out(RakServerOutputView::SessionDatagram(buf, out.id)),
                Ok::<RakServerStepView, RakServerErrorView>(RakServerStepView::Done),
            )
        }),
{
}

/// Until a session is connected, the datagrams from its address go to its protocol and are not
/// put out.
pub proof fn pending_session_hears_its_datagrams<P>(
    m: RakServerModel<P>,
    addr: SocketAddr,
    buf: Seq<u8>,
    now: SystemTime,
)
    requires
        m.pending.contains_key(addr),
        buf.len() > 0,
        buf[0] >= flags::VALID,
    ensures
        m.received(buf, addr, now) == (
            m,
            Ok::<RakServerStepView, RakServerErrorView>(
                RakServerStepView::Handle(addr, RakSessionInputView::Datagram(buf, now)),
            ),
        ),
{
}

/// A datagram of a session from an address that has none is dropped.
pub proof fn stray_datagram_is_dropped<P>(
    m: RakServerModel<P>,
    addr: SocketAddr,
    buf: Seq<u8>,
    now: SystemTime,
)
    requires
        m.inv(),
        !m.session_map.contains_key(addr),
        buf.len() > 0,
        buf[0] >= flags::VALID,
    ensures
        m.received(buf, addr, now) == (
            m,
            Ok::<RakServerStepView, RakServerErrorView>(RakServerStepView::Done),
        ),
{
}

/// No input takes back a number that a session was given, and one that is newly given was not
/// given before.
pub proof fn numbers_are_given_once<P>(m: RakServerModel<P>, msg: RakServerInput, a: SocketAddr)
    requires
        m.inv(),
        m.admits(msg),
    ensures
        ({
            let after = m.handled(msg).0;
            &&& after.next_id >= m.next_id
            &&& after.session_map.contains_key(a) && !(m.session_map.contains_key(a)
                && m.session_map[a] == after.session_map[a]) ==> after.session_map[a].0
                == m.next_id && after.next_id == m.next_id + 1
        }),
{
}

/// What the server has to say and the sessions that it takes are what it was last told, and
/// being told changes nothing else.
pub proof fn settings_stay<P>(m: RakServerModel<P>, message: Vec<u8>, n: usize)
    ensures
        ({
            let (said, r) = m.handled(RakServerInput::SetMessage(message));
            &&& r == Ok::<RakServerStepView, RakServerErrorView>(RakServerStepView::Done)
            &&& said.config.message == message
            &&& said.config.max_connections == m.config.max_connections
            &&& said == RakServerModel { config: said.config, ..m }
        }),
        ({
            let (limited, r) = m.handled(RakServerInput::SetMaxConnections(n));
            &&& r == Ok::<RakServerStepView, RakServerErrorView>(RakServerStepView::Done)
            &&& limited.config.max_connections == n
            &&& limited.config.message == m.config.message
            &&& limited == RakServerModel { config: limited.config, ..m }
        }),
{
}

/// The datagram size that the server agrees to lies within its limits, and is what the request
/// took on the wire where that does.
pub proof fn agreed_size_is_within_limits<P>(
    m: RakServerModel<P>,
    request: OpenConnectionRequest1,
    addr: SocketAddr,
)
    requires
        m.config.min_mtu_size <= m.config.max_mtu_size,
    ensures
        ({
            let size = RakServerModel::<P>::wire_size(request, addr);
            let mtu = m.agreed_mtu(request, addr);
            &&& m.config.min_mtu_size <= mtu <= m.config.max_mtu_size
            &&& m.config.min_mtu_size <= size <= m.config.max_mtu_size ==> mtu == size
        }),
{
}

/// What `handle` returned, with the bytes of its step as a sequence.
pub open spec fn plain_result(r: Result<RakServerStep, RakServerError>) -> Result<
    RakServerStepView,
    RakServerErrorView,
> {
    match r {
        Ok(step) => Ok(step@),
        Err(e) => Err(e@),
    }
}

/// What comes of an input follows from the input and what the server is: two servers that are
/// the same are the same after the same input, with the same result and the same outputs in the
/// same order.
pub proof fn outcome_follows_from_input<P>(
    a: RakServerModel<P>,
    b: RakServerModel<P>,
    msg: RakServerInput,
    after_a: RakServerModel<P>,
    after_b: RakServerModel<P>,
    r_a: Result<RakServerStep, RakServerError>,
    r_b: Result<RakServerStep, RakServerError>,
)
    requires
        a == b,
        (after_a, plain_result(r_a)) == a.handled(msg),
        (after_b, plain_result(r_b)) == b.handled(msg),
    ensures
        after_a == after_b,
        after_a.output == after_b.output,
        plain_result(r_a) == plain_result(r_b),
{
}

/// The server after several inputs.
pub open spec fn after_all<P>(m: RakServerModel<P>, msgs: Seq<RakServerInput>) -> RakServerModel<P>
    decreases msgs.len(),
{
    if msgs.len() == 0 {
        m
    } else {
        after_all(m, msgs.drop_last()).handled(msgs.last()).0
    }
}

/// The message that the inputs set last, or else the one that was there.
pub open spec fn last_message(message: Seq<u8>, msgs: Seq<RakServerInput>) -> Seq<u8>
    decreases msgs.len(),
{
    if msgs.len() == 0 {
        message
    } else {
        match msgs.last() {
            RakServerInput::SetMessage(set) => set@,
            _ => last_message(message, msgs.drop_last()),
        }
    }
}

/// Whatever inputs a server has dealt with, who it is stays, and what it has to say is what it
/// was last told to.
pub proof fn message_is_the_last_one_set<P>(m: RakServerModel<P>, msgs: Seq<RakServerInput>)
    ensures
        after_all(m, msgs).config.guid == m.config.guid,
        after_all(m, msgs).config.message@ == last_message(m.config.message@, msgs),
    decreases msgs.len(),
{
    if msgs.len() > 0 {
        message_is_the_last_one_set(m, msgs.drop_last());
    }
}

/// Whatever inputs a server has dealt with, a ping that can be read is answered with one pong,
/// which repeats its timestamp and tells who the server is and what it was last told to say, if
/// that is not too long to be told. One that cannot be read is an error, and not answered.
pub proof fn pong_tells_the_last_message<P>(
    m: RakServerModel<P>,
    msgs: Seq<RakServerInput>,
    buf: Seq<u8>,
    addr: SocketAddr,
)
    requires
        last_message(m.config.message@, msgs).len() <= u16::MAX,
    ensures
        ({
            let server = after_all(m, msgs);
            let (after, r) = server.pinged(buf, addr);
            match UnconnectedPing::parsed(buf) {
                Ok(ping) => {
                    let pong = UnconnectedPongView {
                        timestamp: ping.timestamp,
                        guid: m.config.guid,
                        message: last_message(m.config.message@, msgs),
                    };
                    &&& r is Ok
                    &&& after == server.answered(pong.bytes(), addr)
                    &&& UnconnectedPongView::parsed(pong.bytes()) == Ok::<
                        UnconnectedPongView,
                        RakCodecError,
                    >(pong)
                },
                Err(e) => r == Err::<(), RakServerErrorView>(RakServerErrorView::Codec(e)) && after
                    == server,
            }
        }),
{
    message_is_the_last_one_set(m, msgs);
    UnconnectedPongView {
        timestamp: UnconnectedPing::parsed(buf)->Ok_0.timestamp,
        guid: m.config.guid,
        message: last_message(m.config.message@, msgs),
    }.reads_back();
}

/// A first request that is agreed to is answered with the size that it took on the wire, within
/// the limits of the server, and a second request with that size is not refused for its size.
pub proof fn agreed_size_is_accepted<P>(
    m: RakServerModel<P>,
    buf: Seq<u8>,
    request: OpenConnectionRequest1,
    addr: SocketAddr,
    now: SystemTime,
    second: OpenConnectionRequest2,
    later: RakServerModel<P>,
)
    requires
        OpenConnectionRequest1::parsed(buf) == Ok::<OpenConnectionRequest1, RakCodecError>(request),
        m.config.protocols@.contains(request.protocol),
        !m.recently_disconnected(addr, now),
        RakServerModel::<P>::wire_size(request, addr) <= u16::MAX,
        m.config.min_mtu_size <= m.config.max_mtu_size,
        later.config.min_mtu_size == m.config.min_mtu_size,
        later.config.max_mtu_size == m.config.max_mtu_size,
    ensures
        ({
            let size = RakServerModel::<P>::wire_size(request, addr);
            let mtu = m.agreed_mtu(request, addr);
            let reply = OpenConnectionReply1 { guid: m.config.guid, cookie: None, mtu };
            &&& m.requested_1(buf, addr, now) == (
                m.answered(reply.bytes(), addr),
                Ok::<(), RakServerErrorView>(()),
            )
            &&& OpenConnectionReply1::parsed(reply.bytes()) == Ok::<
                OpenConnectionReply1,
                RakCodecError,
            >(reply)
            &&& mtu == greater(
                m.config.min_mtu_size as int,
                lesser(size, m.config.max_mtu_size as int),
            )
            &&& second.mtu == mtu ==> !(later.answer_2(second, addr) matches RakAnswer2::Refused(
                RakRefusal::InvalidMtu(_),
            ))
        }),
{
    OpenConnectionReply1 {
        guid: m.config.guid,
        cookie: None,
        mtu: m.agreed_mtu(request, addr),
    }.reads_back();
}

} // verus!

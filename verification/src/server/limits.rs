//! What the limits on offline packets come to, second by second.

use crate::net::SocketAddr;
use crate::protocol::packets::ping::UnconnectedPing;
use crate::server::input::RakServerInput;
use crate::server::model::RakServerModel;
use crate::server::output::RakServerOutputView;
use crate::server::rules::{
    beyond_the_limits_nothing_happens, came_from, is_offline, within_limits,
};
use crate::time::SystemTime;
use vstd::prelude::*;

verus! {

/// A datagram, with where it came from and when.
pub struct Received {
    pub buf: Vec<u8>,
    pub addr: SocketAddr,
    pub now: SystemTime,
}

/// The server after the datagrams, one after the other.
pub open spec fn after_datagrams<P>(m: RakServerModel<P>, came: Seq<Received>) -> RakServerModel<P>
    decreases came.len(),
{
    if came.len() == 0 {
        m
    } else {
        let last = came.last();
        after_datagrams(m, came.drop_last()).handled(
            RakServerInput::Datagram(last.buf, last.addr, last.now),
        ).0
    }
}

/// How many of the datagrams came from `addr`.
pub open spec fn number_from(came: Seq<Received>, addr: SocketAddr) -> int
    decreases came.len(),
{
    if came.len() == 0 {
        0
    } else if came.last().addr == addr {
        number_from(came.drop_last(), addr) + 1
    } else {
        number_from(came.drop_last(), addr)
    }
}

/// How many of the outputs are sent to `addr`.
pub open spec fn number_to<P>(outputs: Seq<RakServerOutputView<P>>, addr: SocketAddr) -> int
    decreases outputs.len(),
{
    if outputs.len() == 0 {
        0
    } else {
        number_to(outputs.drop_last(), addr) + match outputs.last() {
            RakServerOutputView::SocketDatagram(_, to) if to == addr => 1int,
            _ => 0int,
        }
    }
}

/// Whether the datagrams are offline packets of one second that begins with the first of them:
/// that one comes a second or more after the one before began, and all come before a second has
/// gone by since.
pub open spec fn fill_a_second<P>(m: RakServerModel<P>, came: Seq<Received>) -> bool {
    &&& came.len() > 0
    &&& came[0].now@ - m.window@ >= 1_000_000_000
    &&& forall|i: int|
        0 <= i < came.len() ==> is_offline((#[trigger] came[i]).buf@) && came[i].now@
            - came[0].now@ < 1_000_000_000
    &&& came.len() <= i32::MAX
}

/// An offline packet has at most one answer, to where it came from, and none beyond the limits.
proof fn one_answer_at_most<P>(
    m: RakServerModel<P>,
    buf: Vec<u8>,
    addr: SocketAddr,
    now: SystemTime,
)
    requires
        is_offline(buf@),
    ensures
        ({
            let after = m.handled(RakServerInput::Datagram(buf, addr, now)).0;
            &&& after.config == m.config
            &&& after.output == m.output || (within_limits(m, addr, now) && after.output.len()
                == m.output.len() + 1 && after.output.drop_last() == m.output && (
            after.output.last() matches RakServerOutputView::SocketDatagram(_, to) && to == addr))
        }),
{
    let after = m.handled(RakServerInput::Datagram(buf, addr, now)).0;
    if after.output != m.output {
        assert(after.output.drop_last() =~= m.output);
        if !within_limits(m, addr, now) {
            beyond_the_limits_nothing_happens(m, buf, addr, now);
        }
    }
}

/// What an offline packet makes of the counts.
proof fn counts_go_up<P>(m: RakServerModel<P>, buf: Vec<u8>, addr: SocketAddr, now: SystemTime)
    requires
        is_offline(buf@),
        0 <= m.total < i32::MAX || now@ - m.window@ >= 1_000_000_000,
        forall|a: SocketAddr| #[trigger] came_from(m, a, now) <= i32::MAX - 1,
    ensures
        ({
            let after = m.handled(RakServerInput::Datagram(buf, addr, now)).0;
            let over = now@ - m.window@ >= 1_000_000_000;
            let total = if over {
                0int
            } else {
                m.total as int
            };
            &&& after.window == if over {
                now
            } else {
                m.window
            }
            &&& after.total == total + 1
            &&& forall|a: SocketAddr| #[trigger]
                came_from(after, a, after.window) == if a == addr && total
                    < m.config.total_packet_limit {
                    came_from(m, a, now) + 1
                } else {
                    came_from(m, a, now)
                }
        }),
{
    let after = m.handled(RakServerInput::Datagram(buf, addr, now)).0;
    let w = m.windowed(now);
    let c = m.counted(addr, now);
    assert(after.window == c.window && after.total == c.total && after.per_ip == c.per_ip);
    assert(came_from(m, addr, now) == w.count(addr));
    assert forall|a: SocketAddr| #[trigger] came_from(after, a, after.window) == if a == addr && (
    if now@ - m.window@ >= 1_000_000_000 {
        0int
    } else {
        m.total as int
    }) < m.config.total_packet_limit {
        came_from(m, a, now) + 1
    } else {
        came_from(m, a, now)
    } by {
        assert(came_from(m, a, now) <= i32::MAX - 1);
        assert(w.per_ip.contains_key(a) == (!(now@ - m.window@ >= 1_000_000_000)
            && m.per_ip.contains_key(a)));
    }
}

/// A second that is over does not go on: the packet that comes after it begins the next, from
/// which on all packets of that second are counted, in all and from each address, until the limit
/// for all is passed.
pub proof fn seconds_are_counted<P>(m: RakServerModel<P>, came: Seq<Received>)
    requires
        fill_a_second(m, came),
    ensures
        ({
            let after = after_datagrams(m, came);
            &&& after.window == came[0].now
            &&& after.total == came.len()
            &&& after.config == m.config
            &&& forall|a: SocketAddr|
                #![trigger came_from(after, a, after.window)]
                0 <= came_from(after, a, after.window) <= number_from(came, a) <= came.len()
                    && (came.len() <= m.config.total_packet_limit ==> came_from(
                    after,
                    a,
                    after.window,
                ) == number_from(came, a))
        }),
    decreases came.len(),
{
    let rest = came.drop_last();
    let last = came.last();
    let before = after_datagrams(m, rest);
    let after = after_datagrams(m, came);
    if rest.len() == 0 {
        assert(rest =~= seq![]);
        assert(came[0] == last);
        assert forall|a: SocketAddr| #[trigger] came_from(m, a, last.now) <= i32::MAX - 1 by {}
        assert forall|a: SocketAddr| number_from(rest, a) == 0 by {}
    } else {
        assert forall|i: int| 0 <= i < rest.len() implies is_offline((#[trigger] rest[i]).buf@)
            && rest[i].now@ - rest[0].now@ < 1_000_000_000 by {
            assert(rest[i] == came[i]);
        }
        seconds_are_counted(m, rest);
        assert(came[came.len() - 1] == last);
        assert forall|a: SocketAddr| #[trigger]
            came_from(before, a, last.now) <= i32::MAX - 1 by {
            assert(came_from(before, a, last.now) == came_from(before, a, before.window));
        }
    }
    counts_go_up(before, last.buf, last.addr, last.now);
    one_answer_at_most(before, last.buf, last.addr, last.now);
    assert(is_offline(came[came.len() - 1].buf@));
    assert forall|a: SocketAddr|
        #![trigger came_from(after, a, after.window)]
        0 <= came_from(after, a, after.window) <= number_from(came, a) <= came.len() && (came.len()
            <= m.config.total_packet_limit ==> came_from(after, a, after.window) == number_from(
            came,
            a,
        )) by {
        if rest.len() > 0 {
            assert(came_from(before, a, last.now) == came_from(before, a, before.window));
            assert(number_from(rest, a) <= rest.len());
        } else {
            assert(came_from(before, a, last.now) == 0);
            assert(number_from(rest, a) == 0);
        }
        assert(came_from(after, a, after.window) == if a == last.addr && rest.len()
            < m.config.total_packet_limit {
            came_from(before, a, last.now) + 1
        } else {
            came_from(before, a, last.now)
        });
        assert(number_from(came, a) == number_from(rest, a) + if a == last.addr {
            1int
        } else {
            0int
        });
    }
}

/// Of the packets of a second, a further ping is answered exactly as long as no more have come
/// in all than the limit for all, and no more from its address than the limit for an address,
/// itself among them.
pub proof fn pings_are_answered_up_to_the_limits<P>(
    m: RakServerModel<P>,
    came: Seq<Received>,
    ping: Received,
)
    requires
        fill_a_second(m, came),
        ping.now@ - came[0].now@ < 1_000_000_000,
        ping.buf@.len() > 0,
        ping.buf@[0] == 0x01,
        UnconnectedPing::parsed(ping.buf@) is Ok,
        m.config.message@.len() <= 0xffff,
        came.len() < i32::MAX,
    ensures
        ({
            let before = after_datagrams(m, came);
            let after = before.handled(
                RakServerInput::Datagram(ping.buf, ping.addr, ping.now),
            ).0;
            let answered = came.len() + 1 <= m.config.total_packet_limit && number_from(
                came,
                ping.addr,
            ) + 1 <= m.config.packet_limit;
            after.output.len() == before.output.len() + if answered {
                1int
            } else {
                0int
            }
        }),
{
    seconds_are_counted(m, came);
    let before = after_datagrams(m, came);
    assert(came_from(before, ping.addr, before.window) == came_from(before, ping.addr, ping.now));
    crate::server::rules::pings_are_answered_if_within(before, ping.buf, ping.addr, ping.now);
}

/// Of the packets of a second, that which began it among them, no more are answered than the
/// limits allow for: from one address, and in all. Nothing but answers is put out.
pub proof fn answers_stay_within_the_limits<P>(
    m: RakServerModel<P>,
    came: Seq<Received>,
    addr: SocketAddr,
)
    requires
        fill_a_second(m, came),
    ensures
        ({
            let after = after_datagrams(m, came);
            let to = number_to(after.output, addr) - number_to(m.output, addr);
            let all = after.output.len() - m.output.len();
            &&& 0 <= to <= number_from(came, addr)
            &&& to == 0 || to <= m.config.packet_limit
            &&& 0 <= all <= came.len()
            &&& all == 0 || all <= m.config.total_packet_limit
        }),
    decreases came.len(),
{
    let rest = came.drop_last();
    let last = came.last();
    let before = after_datagrams(m, rest);
    assert(is_offline(came[came.len() - 1].buf@));
    one_answer_at_most(before, last.buf, last.addr, last.now);
    if rest.len() > 0 {
        assert forall|i: int| 0 <= i < rest.len() implies is_offline((#[trigger] rest[i]).buf@)
            && rest[i].now@ - rest[0].now@ < 1_000_000_000 by {
            assert(rest[i] == came[i]);
        }
        answers_stay_within_the_limits(m, rest, addr);
        seconds_are_counted(m, rest);
        assert(came[came.len() - 1].now@ - came[0].now@ < 1_000_000_000);
        assert(came_from(before, addr, last.now) == came_from(before, addr, before.window));
    } else {
        assert(rest =~= seq![]);
        assert(number_from(rest, addr) == 0);
        assert(number_from(came, addr) == if last.addr == addr {
            1int
        } else {
            0
        });
    }
}

} // verus!

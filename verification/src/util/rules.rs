//! Numbers of the protocol and of times, as they are on the wire and on the clock.

use crate::bevy_raknet::MAX_DATAGRAMS_PER_TICK;
use crate::client::model::timestamp;
use crate::net::{SocketAddr, SocketAddrV4, SocketAddrV6};
use crate::session::RakSessionId;
use crate::time::{elapsed, low_i64, low_u64, truncate_i64, truncate_u64, Duration, SystemTime};
use crate::util::addr_map::AddrMap;
use crate::util::serde_time::{
    from_millis, has_millis, map_from_millis, map_to_millis, millis_of, tells_millis, tells_times,
    to_millis,
};
use crate::util::session_ids::{lists_sessions, session_ids};
use crate::util::socket_addr::{get_overhead, overhead};
use crate::util::{constants, flags, packet_id};
use std::collections::HashMap;
use vstd::prelude::*;

verus! {

/// The first byte of each packet.
pub proof fn packets_begin_with_their_byte()
    ensures
        packet_id::UNCONNECTED_PING == 0x01,
        packet_id::OPEN_CONNECTION_REQUEST_1 == 0x05,
        packet_id::OPEN_CONNECTION_REPLY_1 == 0x06,
        packet_id::OPEN_CONNECTION_REQUEST_2 == 0x07,
        packet_id::OPEN_CONNECTION_REPLY_2 == 0x08,
        packet_id::CONNECTION_REQUEST == 0x09,
        packet_id::CONNECTION_REQUEST_ACCEPTED == 0x10,
        packet_id::CONNECTION_ATTEMPT_FAILED == 0x11,
        packet_id::ALREADY_CONNECTED == 0x12,
        packet_id::NEW_INCOMING_CONNECTION == 0x13,
        packet_id::NO_FREE_INCOMING_CONNECTIONS == 0x14,
        packet_id::INCOMPATIBLE_PROTOCOL == 0x19,
        packet_id::IP_RECENTLY_CONNECTED == 0x1a,
        packet_id::UNCONNECTED_PONG == 0x1c,
        flags::VALID == 0x80,
{
}

/// The numbers of the protocol, and the datagrams of a turn.
pub proof fn numbers_of_the_protocol()
    ensures
        constants::PROTOCOL == 11,
        constants::MIN_MTU_SIZE == 576,
        constants::MAX_MTU_SIZE == 1400,
        constants::MTU_SIZES@ == seq![576u16, 1200u16, 1400u16],
        constants::UDP_HEADER_SIZE == 8,
        constants::CC_ADDITIONAL_VARIANCE == 30,
        constants::CC_MAX_THRESHOLD == 2000,
        MAX_DATAGRAMS_PER_TICK == 1024,
{
    assert(constants::MTU_SIZES@ =~= seq![576u16, 1200u16, 1400u16]);
}

/// The header of an IPv4 packet takes twenty bytes, that of an IPv6 packet forty.
pub proof fn headers_take_their_bytes(v4: SocketAddrV4, v6: SocketAddrV6)
    ensures
        overhead(SocketAddr::V4(v4)) == 20,
        overhead(SocketAddr::V6(v6)) == 40,
        SocketAddr::V4(v4).port_of() == v4.port,
        SocketAddr::V6(v6).port_of() == v6.port,
{
}

/// Times are told in nanoseconds, and what has gone by since a moment that is yet to come is
/// nothing.
pub proof fn clocks_do_not_run_backwards(later: SystemTime, earlier: SystemTime, d: Duration)
    ensures
        later@ == later.nanos,
        d@ == d.nanos,
        later@ >= earlier@ ==> elapsed(later, earlier) == later@ - earlier@,
        later@ < earlier@ ==> elapsed(later, earlier) == 0,
{
}

/// What 64 bits can tell is told as it is, and of anything else the low 64 bits are.
pub proof fn low_bits(n: int)
    ensures
        0 <= n < 0x1_0000_0000_0000_0000 ==> low_u64(n) == n,
        low_u64(n + 0x1_0000_0000_0000_0000) == low_u64(n),
        0 <= n < 0x8000_0000_0000_0000 ==> low_i64(n) == n,
        0x8000_0000_0000_0000 <= n < 0x1_0000_0000_0000_0000 ==> low_i64(n) == n
            - 0x1_0000_0000_0000_0000,
        low_i64(n + 0x1_0000_0000_0000_0000) == low_i64(n),
{
}

/// The timestamp of a packet is the whole milliseconds since the Unix epoch.
pub proof fn timestamps_are_milliseconds(now: SystemTime)
    requires
        0 <= now@ < 0x1_0000_0000_0000_0000 * 1_000_000,
    ensures
        timestamp(now) * 1_000_000 <= now@ < (timestamp(now) + 1) * 1_000_000,
{
}

/// A time is told as the whole milliseconds between it and the Unix epoch, below zero before it.
pub proof fn times_are_told_from_the_epoch(t: SystemTime)
    requires
        -0x8000_0000_0000_0000 * 1_000_000 < t@ < 0x8000_0000_0000_0000 * 1_000_000,
    ensures
        t@ >= 0 ==> millis_of(t@) * 1_000_000 <= t@ < (millis_of(t@) + 1) * 1_000_000,
        t@ < 0 ==> (millis_of(t@) - 1) * 1_000_000 < t@ <= millis_of(t@) * 1_000_000,
        millis_of(-t@) == -millis_of(t@),
        t@ >= 0 ==> millis_of(t@ + 0x1_0000_0000_0000_0000 * 1_000_000) == millis_of(t@),
{
    if t@ >= 0 {
        assert((t@ + 0x1_0000_0000_0000_0000 * 1_000_000) / 1_000_000 == t@ / 1_000_000
            + 0x1_0000_0000_0000_0000);
    }
}

/// A map of times is told key by key, and so is a map of milliseconds read.
pub proof fn maps_are_told_key_by_key(
    times: Map<u32, SystemTime>,
    millis: Map<u32, i64>,
    read: Map<u32, SystemTime>,
    k: u32,
)
    requires
        tells_millis(times, millis),
        tells_times(millis, read),
    ensures
        times.contains_key(k) == millis.contains_key(k),
        millis.contains_key(k) == read.contains_key(k),
        times.contains_key(k) && 0 <= times[k]@ < 0x8000_0000_0000_0000 * 1_000_000 ==> millis[k]
            * 1_000_000 <= times[k]@ < (millis[k] + 1) * 1_000_000,
        times.contains_key(k) && -0x8000_0000_0000_0000 * 1_000_000 < times[k]@ < 0 ==> (millis[k]
            - 1) * 1_000_000 < times[k]@ <= millis[k] * 1_000_000,
        times.contains_key(k) ==> read[k]@ == millis[k] * 1_000_000,
{
    assert(times.dom().contains(k) == millis.dom().contains(k));
    assert(millis.dom().contains(k) == read.dom().contains(k));
    if times.contains_key(k) {
        assert(millis.contains_key(k));
    }
}

/// A list of sessions has every session of a map in one place, and no other session.
pub proof fn lists_have_every_session<V>(
    list: Seq<RakSessionId>,
    sessions: Map<u64, V>,
    k: u64,
    i: int,
    j: int,
)
    requires
        lists_sessions(list, sessions),
    ensures
        sessions.contains_key(k) ==> exists|n: int|
            0 <= n < list.len() && #[trigger] list[n] == RakSessionId(k),
        0 <= i < list.len() ==> sessions.contains_key(list[i].0),
        0 <= i < j < list.len() ==> list[i].0 != list[j].0,
{
    if sessions.contains_key(k) {
        assert(list.contains(RakSessionId(k)));
    }
    if 0 <= i < list.len() {
        assert(list.contains(list[i]));
    }
}

/// Spans of time are told in milliseconds or seconds, and of a span the whole milliseconds.
pub proof fn spans_are_told(
    millis: u64,
    d: Duration,
    secs: u64,
    e: Duration,
    span: Duration,
    whole: u128,
)
    requires
        call_ensures(Duration::from_millis, (millis,), d),
        call_ensures(Duration::from_secs, (secs,), e),
        call_ensures(Duration::as_millis, (&span,), whole),
    ensures
        d@ == millis * 1_000_000,
        e@ == secs * 1_000_000_000,
        whole * 1_000_000 <= span@ < (whole + 1) * 1_000_000,
{
}

/// What lies between two moments, and on which side.
pub proof fn moments_lie_apart(
    a: SystemTime,
    b: SystemTime,
    r: Result<Duration, Duration>,
    d: Duration,
    reached: bool,
    epoch: SystemTime,
)
    requires
        call_ensures(SystemTime::duration_since, (&a, b), r),
        call_ensures(SystemTime::since, (&a, b), d),
        call_ensures(SystemTime::reached, (&a, b), reached),
        call_ensures(SystemTime::unix_epoch, (), epoch),
    ensures
        match r {
            Ok(ahead) => ahead@ == a@ - b@,
            Err(behind) => behind@ == b@ - a@ && behind@ > 0,
        },
        a@ >= b@ ==> d@ == a@ - b@,
        a@ < b@ ==> d@ == 0,
        reached <==> a@ >= b@,
        epoch@ == 0,
{
}

/// The moment some time after another lies that time after it, and likewise before it, as far as
/// there are such moments.
pub proof fn moments_are_reached(
    t: SystemTime,
    d: Duration,
    after: SystemTime,
    before: SystemTime,
    earlier: Option<SystemTime>,
    told_at_all: bool,
)
    requires
        call_ensures(SystemTime::after, (&t, d), after),
        call_ensures(SystemTime::before, (&t, d), before),
        call_ensures(SystemTime::checked_sub, (&t, d), earlier),
        call_ensures(SystemTime::has_after, (&t, d), told_at_all),
    ensures
        after@ - t@ == d@,
        t@ - before@ == d@,
        earlier == Some(before),
        told_at_all,
{
}

/// There is no moment before the first, nor after the last.
pub proof fn moments_have_ends(
    t: SystemTime,
    d: Duration,
    earlier: Option<SystemTime>,
    told_at_all: bool,
)
    requires
        call_ensures(SystemTime::checked_sub, (&t, d), earlier),
        call_ensures(SystemTime::has_after, (&t, d), told_at_all),
    ensures
        earlier is Some <==> i128::MIN <= t@ - d@,
        told_at_all <==> t@ + d@ <= i128::MAX,
{
    if let Some(moment) = earlier {
        assert(moment@ == moment.nanos);
    }
}

/// Of a number the low bits are kept.
pub proof fn low_bits_are_kept(n: u128, low: u64, signed: i64)
    requires
        call_ensures(truncate_u64, (n,), low),
        call_ensures(truncate_i64, (n,), signed),
    ensures
        low == n % 0x1_0000_0000_0000_0000,
        low < 0x8000_0000_0000_0000 ==> signed == low,
        low >= 0x8000_0000_0000_0000 ==> signed == low - 0x1_0000_0000_0000_0000,
{
}

/// Times are told as milliseconds and read from them.
pub proof fn times_are_told_and_read(
    t: SystemTime,
    told: i64,
    told_at_all: bool,
    millis: i64,
    read: SystemTime,
)
    requires
        call_ensures(to_millis, (t,), told),
        call_ensures(has_millis, (t,), told_at_all),
        call_ensures(from_millis, (millis,), read),
    ensures
        0 <= t@ < 0x8000_0000_0000_0000 * 1_000_000 ==> told * 1_000_000 <= t@ < (told + 1)
            * 1_000_000,
        -0x8000_0000_0000_0000 * 1_000_000 < t@ < 0 ==> (told - 1) * 1_000_000 < t@ <= told
            * 1_000_000,
        -0x8000_0000_0000_0000 * 1_000_000 < t@ ==> told_at_all,
        t@ == -0x8000_0000_0000_0000 * 1_000_000 ==> !told_at_all,
        read@ == millis * 1_000_000,
{
}

/// And so are maps of them.
pub proof fn maps_are_told_and_read(
    times: HashMap<u32, SystemTime>,
    told: HashMap<u32, i64>,
    millis: HashMap<u32, i64>,
    read: HashMap<u32, SystemTime>,
    k: u32,
)
    requires
        call_ensures(map_to_millis, (&times,), told),
        call_ensures(map_from_millis, (&millis,), read),
    ensures
        told@.contains_key(k) == times@.contains_key(k),
        read@.contains_key(k) == millis@.contains_key(k),
        times@.contains_key(k) && 0 <= times@[k]@ < 0x8000_0000_0000_0000 * 1_000_000 ==> told@[k]
            * 1_000_000 <= times@[k]@ < (told@[k] + 1) * 1_000_000,
        times@.contains_key(k) && -0x8000_0000_0000_0000 * 1_000_000 < times@[k]@ < 0 ==> (told@[k]
            - 1) * 1_000_000 < times@[k]@ <= told@[k] * 1_000_000,
        millis@.contains_key(k) ==> read@[k]@ == millis@[k] * 1_000_000,
{
    assert(times@.dom().contains(k) == told@.dom().contains(k));
    assert(millis@.dom().contains(k) == read@.dom().contains(k));
    if times@.contains_key(k) {
        assert(told@.contains_key(k));
    }
    if millis@.contains_key(k) {
        assert(read@.contains_key(k));
    }
}

/// A datagram of a session has its highest bit set; headers take twenty bytes or forty; a list of
/// sessions has those of the map.
pub proof fn datagrams_and_sessions_are_told<V>(
    header: u8,
    valid: bool,
    addr: SocketAddr,
    bytes: u16,
    port: u16,
    sessions: HashMap<u64, V>,
    list: Vec<RakSessionId>,
    k: u64,
)
    requires
        call_ensures(flags::is_valid, (header,), valid),
        call_ensures(get_overhead, (&addr,), bytes),
        call_ensures(SocketAddr::port, (&addr,), port),
        call_ensures(session_ids::<V>, (&sessions,), list),
    ensures
        valid <==> header >= 128,
        addr is V4 ==> bytes == 20,
        addr is V6 ==> bytes == 40,
        match addr {
            SocketAddr::V4(v4) => port == v4.port,
            SocketAddr::V6(v6) => port == v6.port,
        },
        sessions@.contains_key(k) <==> list@.contains(RakSessionId(k)),
        list@.no_duplicates(),
{
}

/// What is set in a map under an address is found there, what is taken out is not, and nothing
/// else changes.
pub proof fn maps_hold_what_is_set<V>(
    set: &mut AddrMap<V>,
    taken: &mut AddrMap<V>,
    emptied: &mut AddrMap<V>,
    k: SocketAddr,
    v: V,
    out: Option<V>,
    other: SocketAddr,
)
    requires
        call_ensures(AddrMap::<V>::insert, (set, k, v), ()),
        call_ensures(AddrMap::<V>::remove, (taken, k), out),
        call_ensures(AddrMap::<V>::clear, (emptied,), ()),
        other != k,
    ensures
        final(set)@.contains_key(k) && final(set)@[k] == v,
        final(set)@.contains_key(other) == old(set)@.contains_key(other),
        old(set)@.contains_key(other) ==> final(set)@[other] == old(set)@[other],
        old(taken)@.contains_key(k) ==> out == Some(old(taken)@[k]),
        !old(taken)@.contains_key(k) ==> out is None,
        !final(taken)@.contains_key(k),
        final(taken)@.contains_key(other) == old(taken)@.contains_key(other),
        old(taken)@.contains_key(other) ==> final(taken)@[other] == old(taken)@[other],
        !final(emptied)@.contains_key(k),
{
}

} // verus!

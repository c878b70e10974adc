//! What sessions and the books of their congestion control are for, told by numbers and moments.

use crate::net::SocketAddr;
use crate::session::congestion_controller::{
    as_signed, listed_times, lists_offsets, millis_since, moment, offset_millis, snapshot_arrives,
    window_growth, RakAcknowledgement, RakCongestionController, RakCongestionModel,
    RakCongestionSnapshot, RakWindowGrowth,
};
use crate::session::state::RakSessionState;
use crate::session::{
    datagrams, RakSession, RakSessionId, RakSessionInput, RakSessionInputView, RakSessionOutput,
};
use crate::time::{elapsed, SystemTime};
use vstd::prelude::*;

verus! {

/// A session is opened with what is told of it, not connected, and its protocol not started.
pub proof fn sessions_are_opened_unconnected<P>(
    id: RakSessionId,
    addr: SocketAddr,
    guid: u64,
    mtu: u16,
    ordering_channels: usize,
)
    ensures
        ({
            let session = RakSession::<P>::opened(id, addr, guid, mtu, ordering_channels);
            &&& session.id == id
            &&& session.addr == addr
            &&& session.guid == guid
            &&& session.mtu == mtu
            &&& session.ordering_channels == ordering_channels
            &&& session.state is Disconnected
            &&& session.protocol is None
        }),
{
}

/// What a protocol is given is told byte for byte.
pub proof fn inputs_tell_all(input: RakSessionInput)
    ensures
        match input {
            RakSessionInput::Datagram(buf, now) => input@ == RakSessionInputView::Datagram(
                buf@,
                now,
            ),
            RakSessionInput::Send(buf, reliability, priority, now) => input@
                == RakSessionInputView::Send(buf@, reliability, priority, now),
            RakSessionInput::Disconnect(now) => input@ == RakSessionInputView::Disconnect(now),
            RakSessionInput::Update(now) => input@ == RakSessionInputView::Update(now),
        },
{
}

/// The datagrams of outputs that follow others follow the datagrams of those; a datagram is one
/// of itself, and nothing else is one.
pub proof fn datagrams_keep_their_order(a: Seq<RakSessionOutput>, b: Seq<RakSessionOutput>)
    ensures
        datagrams(a + b) == datagrams(a) + datagrams(b),
        a.len() == 1 ==> datagrams(a) == match a[0] {
            RakSessionOutput::Datagram(buf, addr) => seq![(buf@, addr)],
            _ => seq![],
        },
    decreases b.len(),
{
    if a.len() == 1 {
        assert(a.drop_last() =~= seq![]);
        assert(datagrams(a.drop_last()) =~= seq![]);
        assert(datagrams(a) =~= match a[0] {
            RakSessionOutput::Datagram(buf, addr) => seq![(buf@, addr)],
            _ => seq![],
        });
    }
    if b.len() == 0 {
        assert(a + b =~= a);
        assert(datagrams(a) + datagrams(b) =~= datagrams(a));
    } else {
        datagrams_keep_their_order(a, b.drop_last());
        assert((a + b).drop_last() =~= a + b.drop_last());
        assert((a + b).last() == b.last());
        assert(datagrams(a + b) =~= datagrams(a) + datagrams(b));
    }
}

/// Books begin with nothing on its way and no recovery.
pub proof fn books_begin_empty(mtu: usize)
    ensures
        ({
            let books = RakCongestionModel::opened(mtu);
            &&& books.mtu == mtu
            &&& books.recovery is None
            &&& books.in_flight == 0
            &&& forall|k: u32| !#[trigger] books.sent_times.contains_key(k)
        }),
{
}

/// A datagram that is sent is on its way with its bytes, since then; the recovery is not
/// concerned, nor are other datagrams.
pub proof fn sent_is_on_its_way(
    books: RakCongestionModel,
    seq: u32,
    size: usize,
    now: SystemTime,
)
    requires
        books.in_flight + size <= usize::MAX,
    ensures
        ({
            let after = books.sent(seq, size, now);
            &&& after.in_flight == books.in_flight + size
            &&& after.sent_times.contains_key(seq)
            &&& after.sent_times[seq] == now
            &&& forall|k: u32|
                #![trigger after.sent_times.contains_key(k)]
                k != seq ==> after.sent_times.contains_key(k) == books.sent_times.contains_key(k)
                    && after.sent_times[k] == books.sent_times[k]
            &&& after.recovery == books.recovery
            &&& after.mtu == books.mtu
        }),
{
}

/// While the connection recovers up to the datagram `r`, the acknowledgement of one before `r` is
/// of the recovery period and moves its end to the last datagram that was sent; that of `r` or a
/// later one is not, and leaves the end where it is. Without a recovery there is no such period.
/// The bytes are no longer on their way, nor is the datagram, and all others still are.
pub proof fn recovery_lasts_up_to_its_end(
    books: RakCongestionModel,
    seq: u32,
    size: usize,
    last_sequence: u32,
)
    requires
        size <= books.in_flight,
    ensures
        ({
            let after = books.acked(seq, size, last_sequence);
            &&& books.recovery matches Some(r) ==> {
                &&& seq >= r ==> !books.in_recovery_period(seq) && after.recovery == Some(r)
                &&& seq < r ==> books.in_recovery_period(seq) && after.recovery == Some(
                    last_sequence,
                )
            }
            &&& books.recovery is None ==> !books.in_recovery_period(seq) && after.recovery is None
            &&& after.in_flight == books.in_flight - size
            &&& after.mtu == books.mtu
            &&& !after.sent_times.contains_key(seq)
            &&& forall|k: u32|
                #![trigger after.sent_times.contains_key(k)]
                k != seq ==> after.sent_times.contains_key(k) == books.sent_times.contains_key(k)
                    && after.sent_times[k] == books.sent_times[k]
        }),
{
}

/// Of any datagrams that are acknowledged one after the other, none of which comes before the end
/// of the recovery, none is of the recovery period, and the end stays where it is.
pub proof fn later_datagrams_leave_the_recovery(
    books: RakCongestionModel,
    r: u32,
    acks: Seq<(u32, usize, u32)>,
)
    requires
        books.recovery == Some(r),
        forall|i: int| 0 <= i < acks.len() ==> (#[trigger] acks[i]).0 >= r,
    ensures
        all_acked(books, acks).recovery == Some(r),
        forall|i: int|
            0 <= i < acks.len() ==> !all_acked(books, acks.take(i)).in_recovery_period(
                (#[trigger] acks[i]).0,
            ),
    decreases acks.len(),
{
    if acks.len() > 0 {
        let rest = acks.drop_last();
        assert forall|i: int| 0 <= i < rest.len() implies (#[trigger] rest[i]).0 >= r by {
            assert(rest[i] == acks[i]);
        }
        later_datagrams_leave_the_recovery(books, r, rest);
        assert(acks[acks.len() - 1].0 >= r);
        assert forall|i: int| 0 <= i < acks.len() implies !all_acked(
            books,
            acks.take(i),
        ).in_recovery_period((#[trigger] acks[i]).0) by {
            if i < rest.len() {
                assert(rest.take(i) =~= acks.take(i));
                assert(rest[i] == acks[i]);
            } else {
                assert(acks.take(i) =~= rest);
            }
        }
    }
}

/// The books after several acknowledgements, each of a datagram with its size and the last
/// datagram that was sent by then.
pub open spec fn all_acked(books: RakCongestionModel, acks: Seq<(u32, usize, u32)>) -> RakCongestionModel
    decreases acks.len(),
{
    if acks.len() == 0 {
        books
    } else {
        let (seq, size, last_sequence) = acks.last();
        all_acked(books, acks.drop_last()).acked(seq, size, last_sequence)
    }
}

/// A datagram that is sent once more begins a recovery that lasts up to it, unless there is one
/// already; nothing else changes.
pub proof fn resending_begins_a_recovery(books: RakCongestionModel, seq: u32)
    ensures
        ({
            let after = books.resent(seq);
            &&& after == RakCongestionModel { recovery: after.recovery, ..books }
            &&& books.recovery is None ==> after.recovery == Some(seq)
            &&& books.recovery is Some ==> after.recovery == books.recovery
        }),
{
}

/// An offset is the whole milliseconds from the epoch to a moment, none for one before it, where
/// 64 bits can tell them; and a moment is as many milliseconds after the epoch as its offset says.
pub proof fn offsets_are_milliseconds(epoch: SystemTime, at: SystemTime, offset: u64)
    requires
        at@ - epoch@ < 0x1_0000_0000_0000_0000 * 1_000_000,
    ensures
        at@ < epoch@ ==> offset_millis(epoch, at) == 0,
        at@ >= epoch@ ==> offset_millis(epoch, at) * 1_000_000 <= at@ - epoch@ < (offset_millis(
            epoch,
            at,
        ) + 1) * 1_000_000,
        moment(epoch, offset) - epoch@ == offset * 1_000_000,
{
}

/// Of the milliseconds that 64 bits cannot tell, the low 64 bits are kept.
pub proof fn offsets_wrap(epoch: SystemTime, at: SystemTime, later: SystemTime)
    requires
        at@ >= epoch@,
        later@ == at@ + 0x1_0000_0000_0000_0000 * 1_000_000,
    ensures
        offset_millis(epoch, later) == offset_millis(epoch, at),
{
    let d = at@ - epoch@;
    assert((d + 0x1_0000_0000_0000_0000 * 1_000_000) / 1_000_000 == d / 1_000_000
        + 0x1_0000_0000_0000_0000);
}

/// A list of offsets has every datagram that is on its way, each in one place, with the offset of
/// the moment at which it was sent, and no other datagram.
pub proof fn lists_have_every_datagram(
    list: Seq<(u32, u64)>,
    times: Map<u32, SystemTime>,
    epoch: SystemTime,
    k: u32,
)
    requires
        lists_offsets(list, times, epoch),
        times.contains_key(k) ==> times[k]@ - epoch@ < 0x1_0000_0000_0000_0000 * 1_000_000,
    ensures
        times.contains_key(k) ==> exists|i: int| #[trigger] stands_alone(list, i, k),
        !times.contains_key(k) ==> forall|i: int|
            0 <= i < list.len() ==> (#[trigger] list[i]).0 != k,
        forall|i: int|
            times.contains_key(k) && #[trigger] stands_alone(list, i, k) ==> (times[k]@ >= epoch@
                ==> list[i].1 * 1_000_000 <= times[k]@ - epoch@ < (list[i].1 + 1) * 1_000_000) && (
            times[k]@ < epoch@ ==> list[i].1 == 0),
{
    if times.contains_key(k) {
        offsets_are_milliseconds(epoch, times[k], 0);
        let i = choose|i: int| 0 <= i < list.len() && (#[trigger] list[i]).0 == k;
        assert(stands_alone(list, i, k));
    }
}

/// Whether `k` stands in the list at `i` and nowhere else.
pub open spec fn stands_alone(list: Seq<(u32, u64)>, i: int, k: u32) -> bool {
    &&& 0 <= i < list.len()
    &&& list[i].0 == k
    &&& forall|j: int| 0 <= j < list.len() && j != i ==> (#[trigger] list[j]).0 != k
}

/// What a list tells of a datagram is what the last place says that names it; one that it does
/// not name is not on its way.
pub proof fn last_places_count(list: Seq<(u32, u64)>, epoch: SystemTime, i: int, k: u32)
    requires
        forall|j: int| 0 <= j < list.len() ==> moment(epoch, (#[trigger] list[j]).1) <= i128::MAX,
    ensures
        ({
            let times = listed_times(list, epoch);
            &&& 0 <= i < list.len() && list[i].0 == k && (forall|j: int|
                i < j < list.len() ==> (#[trigger] list[j]).0 != k) ==> times.contains_key(k)
                && times[k]@ == epoch@ + list[i].1 * 1_000_000
            &&& (forall|j: int| 0 <= j < list.len() ==> (#[trigger] list[j]).0 != k)
                ==> !times.contains_key(k)
        }),
    decreases list.len(),
{
    if list.len() > 0 {
        let rest = list.drop_last();
        assert forall|j: int| 0 <= j < rest.len() implies moment(epoch, (#[trigger] rest[j]).1)
            <= i128::MAX by {
            assert(rest[j] == list[j]);
        }
        last_places_count(rest, epoch, i, k);
        assert(moment(epoch, list[list.len() - 1].1) <= i128::MAX);
        if forall|j: int| 0 <= j < list.len() ==> (#[trigger] list[j]).0 != k {
            assert(list[list.len() - 1].0 != k);
            assert forall|j: int| 0 <= j < rest.len() implies (#[trigger] rest[j]).0 != k by {
                assert(rest[j] == list[j]);
            }
        }
        if 0 <= i < list.len() && list[i].0 == k && (forall|j: int|
            i < j < list.len() ==> (#[trigger] list[j]).0 != k) {
            if i < list.len() - 1 {
                assert(list[list.len() - 1].0 != k);
                assert forall|j: int| i < j < rest.len() implies (#[trigger] rest[j]).0 != k by {
                    assert(rest[j] == list[j]);
                }
                assert(rest[i] == list[i]);
            }
        }
    }
}

/// A number of bytes is read as itself where it can be, and otherwise as much below zero as it
/// lacks of all that can be told.
pub proof fn signed_bytes(n: usize)
    ensures
        n <= isize::MAX ==> as_signed(n) == n,
        n > isize::MAX ==> as_signed(n) < 0 && as_signed(n) + usize::MAX + 1 == n,
{
}

/// What the books return, and what becomes of them: nothing is on its way in new ones; a datagram
/// that is sent is on its way from then on, with its bytes; the bytes that may be sent once more
/// are those on their way, and those that may be sent at all are what is left of the window.
pub proof fn books_are_kept(
    books: &mut RakCongestionController,
    seq: u32,
    size: usize,
    now: SystemTime,
)
    requires
        old(books)@.in_flight + size <= usize::MAX,
        call_ensures(RakCongestionController::sent, (books, seq, size, now), ()),
    ensures
        final(books)@.in_flight == old(books)@.in_flight + size,
        final(books)@.sent_times == old(books)@.sent_times.insert(seq, now),
        final(books)@.recovery == old(books)@.recovery,
        final(books)@.mtu == old(books)@.mtu,
{
}

/// New books have nothing on its way and no recovery.
pub proof fn new_books_are_empty(mtu: usize, books: RakCongestionController)
    requires
        call_ensures(RakCongestionController::new, (mtu,), books),
    ensures
        books@.mtu == mtu,
        books@.in_flight == 0,
        books@.recovery is None,
        forall|k: u32| !#[trigger] books@.sent_times.contains_key(k),
{
}

/// What the books tell: the datagram size, the bytes on their way, whether a datagram is, and
/// what a window leaves to be sent, which is nothing where it is full.
pub proof fn books_tell(
    books: &RakCongestionController,
    window: isize,
    seq: u32,
    mtu: usize,
    on_their_way: usize,
    awaited: bool,
    left: usize,
)
    requires
        call_ensures(RakCongestionController::mtu, (books,), mtu),
        call_ensures(RakCongestionController::retransmission_bandwidth, (books,), on_their_way),
        call_ensures(RakCongestionController::awaits, (books, seq), awaited),
        call_ensures(RakCongestionController::transmission_bandwidth, (books, window), left),
    ensures
        mtu == books@.mtu,
        on_their_way == books@.in_flight,
        awaited <==> books@.sent_times.contains_key(seq),
        on_their_way <= isize::MAX && window > on_their_way ==> left + on_their_way == window,
        on_their_way <= isize::MAX && window <= on_their_way ==> left == 0,
        on_their_way > isize::MAX && window + usize::MAX + 1 > on_their_way ==> left == window
            + usize::MAX + 1 - on_their_way,
        on_their_way > isize::MAX && window + usize::MAX + 1 <= on_their_way ==> left == 0,
{
}

/// An acknowledgement of a datagram on its way tells how long that was, nothing where the clock
/// ran backwards, and whether the datagram comes before the end of the recovery, which then moves
/// to the last datagram sent; the bytes are settled. One of any other datagram tells nothing and
/// changes nothing.
pub proof fn acknowledgements_settle(
    books: &mut RakCongestionController,
    now: SystemTime,
    seq: u32,
    size: usize,
    last_sequence: u32,
    ack: Option<RakAcknowledgement>,
)
    requires
        old(books)@.sent_times.contains_key(seq) ==> size <= old(books)@.in_flight,
        call_ensures(
            RakCongestionController::acked,
            (books, now, seq, size, last_sequence),
            ack,
        ),
    ensures
        ack is Some <==> old(books)@.sent_times.contains_key(seq),
        ack is None ==> final(books)@ == old(books)@,
        ack matches Some(ack) ==> {
            let sent = old(books)@.sent_times[seq];
            &&& ack.round_trip@ == if now@ >= sent@ {
                now@ - sent@
            } else {
                0
            }
            &&& ack.in_recovery_period <==> (old(books)@.recovery matches Some(r) && seq < r)
            &&& final(books)@.recovery == if ack.in_recovery_period {
                Some(last_sequence)
            } else {
                old(books)@.recovery
            }
            &&& final(books)@.in_flight == old(books)@.in_flight - size
            &&& final(books)@.sent_times == old(books)@.sent_times.remove(seq)
            &&& final(books)@.mtu == old(books)@.mtu
        },
{
}

/// Sending once more begins a recovery up to that datagram, and is then the first time, unless
/// there is one already. A datagram that the peer misses counts only during a recovery.
pub proof fn recoveries_begin(
    books: &mut RakCongestionController,
    seq: u32,
    first: bool,
    other: &RakCongestionController,
    lowers: bool,
)
    requires
        call_ensures(RakCongestionController::resent, (books, seq), first),
        call_ensures(RakCongestionController::nacked, (other,), lowers),
    ensures
        first <==> old(books)@.recovery is None,
        final(books)@.recovery == if first {
            Some(seq)
        } else {
            old(books)@.recovery
        },
        final(books)@.in_flight == old(books)@.in_flight,
        final(books)@.sent_times == old(books)@.sent_times,
        final(books)@.mtu == old(books)@.mtu,
        lowers <==> other@.recovery is Some,
{
}

/// The window grows in the slow start, outside of it for datagrams of the recovery period, and
/// for no others.
pub proof fn windows_grow(slow_start: bool, in_recovery_period: bool, growth: RakWindowGrowth)
    requires
        call_ensures(window_growth, (slow_start, in_recovery_period), growth),
    ensures
        slow_start ==> growth is SlowStart,
        !slow_start && in_recovery_period ==> growth is Avoidance,
        !slow_start && !in_recovery_period ==> growth is Unchanged,
{
}

/// A snapshot tells all that the books say, with offsets for moments, and what is restored from
/// it says the same, with moments to the millisecond, where 64 bits can tell the offsets.
pub proof fn snapshots_are_restored(
    books: &RakCongestionController,
    epoch: SystemTime,
    snapshot: RakCongestionSnapshot,
    restored: RakCongestionController,
    k: u32,
)
    requires
        call_ensures(RakCongestionController::snapshot, (books, epoch), snapshot),
        call_ensures(RakCongestionController::restore, (snapshot, epoch), restored),
        forall|k: u32| #[trigger]
            books@.sent_times.contains_key(k) ==> books@.sent_times[k]@ - epoch@
                < 0x1_0000_0000_0000_0000 * 1_000_000,
    ensures
        snapshot.mtu == books@.mtu,
        snapshot.congestion_recovery_sequence == books@.recovery,
        snapshot.bytes_not_acknowledged == books@.in_flight,
        restored@.mtu == books@.mtu,
        restored@.recovery == books@.recovery,
        restored@.in_flight == books@.in_flight,
        restored@.sent_times.contains_key(k) == books@.sent_times.contains_key(k),
        books@.sent_times.contains_key(k) && books@.sent_times[k]@ >= epoch@ ==> restored@.sent_times[k]@
            <= books@.sent_times[k]@ < restored@.sent_times[k]@ + 1_000_000 && (
        restored@.sent_times[k]@ - epoch@) % 1_000_000 == 0,
        books@.sent_times.contains_key(k) && books@.sent_times[k]@ < epoch@
            ==> restored@.sent_times[k] == epoch,
{
    assert forall|k: u32| #[trigger] books@.sent_times.contains_key(k) implies elapsed(
        books@.sent_times[k],
        epoch,
    ) / 1_000_000 < 0x1_0000_0000_0000_0000 by {}
    snapshot_arrives(books@, snapshot.sent_times@, epoch);
    let arrived = listed_times(snapshot.sent_times@, epoch);
    assert(arrived.dom().contains(k) == books@.sent_times.dom().contains(k));
}

/// The milliseconds from a moment to another are told, none where the other comes first.
pub proof fn milliseconds_are_told(epoch: SystemTime, at: SystemTime, millis: u64)
    requires
        call_ensures(millis_since, (epoch, at), millis),
        at@ - epoch@ < 0x1_0000_0000_0000_0000 * 1_000_000,
    ensures
        at@ < epoch@ ==> millis == 0,
        at@ >= epoch@ ==> millis * 1_000_000 <= at@ - epoch@ < (millis + 1) * 1_000_000,
{
}

/// A new session is what it is told to be, not connected, its protocol not started.
pub proof fn new_sessions_are_unconnected<P>(
    id: RakSessionId,
    addr: SocketAddr,
    guid: u64,
    mtu: u16,
    ordering_channels: usize,
    session: RakSession<P>,
)
    requires
        call_ensures(RakSession::<P>::new, (id, addr, guid, mtu, ordering_channels), session),
    ensures
        session == (RakSession::<P> {
            id,
            addr,
            guid,
            mtu,
            ordering_channels,
            state: RakSessionState::Disconnected,
            protocol: None,
        }),
{
}

} // verus!

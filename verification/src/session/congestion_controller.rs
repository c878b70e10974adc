//! The books of a congestion controller: what is on its way to the peer, since when, and
//! whether the connection recovers from a loss.
//!
//! How wide the congestion window is and how long a round trip takes are estimates that are
//! kept elsewhere; the books tell what each packet means for them.

use crate::time::{elapsed, low_u64, truncate_u64, Duration, SystemTime};
use std::collections::HashMap;
use vstd::prelude::*;

verus! {

/// What the books of a congestion controller say.
#[verifier::ext_equal]
pub struct RakCongestionModel {
    /// The agreed datagram size.
    pub mtu: usize,
    /// The datagram from which on the connection has recovered, while it recovers.
    pub recovery: Option<u32>,
    /// The bytes that are on their way.
    pub in_flight: usize,
    /// When each datagram that is on its way was sent.
    pub sent_times: Map<u32, SystemTime>,
}

/// The books of a congestion controller. Their view is what they say.
#[derive(Clone, Debug)]
pub struct RakCongestionController {
    mtu: usize,
    congestion_recovery_sequence: Option<u32>,
    bytes_not_acknowledged: usize,
    sent_times: HashMap<u32, SystemTime>,
}

/// The books in a form that can be handed to another process: times as milliseconds from a
/// moment that both know, in no particular order.
#[derive(Clone, Debug)]
pub struct RakCongestionSnapshot {
    pub mtu: usize,
    pub congestion_recovery_sequence: Option<u32>,
    pub bytes_not_acknowledged: usize,
    pub sent_times: Vec<(u32, u64)>,
}

/// What an acknowledged datagram means for the estimates.
#[derive(Clone, Copy, Debug, PartialEq, Eq, Structural)]
pub struct RakAcknowledgement {
    /// How long the datagram and its acknowledgement were on their way.
    pub round_trip: Duration,
    /// Whether the datagram was sent before the loss that the connection recovers from.
    pub in_recovery_period: bool,
}

/// What becomes of the congestion window when a datagram is acknowledged.
#[derive(Clone, Copy, Debug, PartialEq, Eq, Structural)]
pub enum RakWindowGrowth {
    /// It grows by a datagram, up to the threshold.
    SlowStart,
    /// It grows by a part of a datagram.
    Avoidance,
    /// It stays as it is.
    Unchanged,
}

impl View for RakCongestionController {
    type V = RakCongestionModel;

    closed spec fn view(&self) -> RakCongestionModel {
        RakCongestionModel {
            mtu: self.mtu,
            recovery: self.congestion_recovery_sequence,
            in_flight: self.bytes_not_acknowledged,
            sent_times: self.sent_times@,
        }
    }
}

/// The whole milliseconds from `epoch` to `at`, none where `at` comes first. Only the low 64
/// bits of the count are kept.
pub open spec fn offset_millis(epoch: SystemTime, at: SystemTime) -> u64 {
    low_u64(elapsed(at, epoch) / 1_000_000)
}

/// Tells how many whole milliseconds lie from `epoch` to `at`, none where `at` comes first.
/// Only the low 64 bits of the count are kept.
pub fn millis_since(epoch: SystemTime, at: SystemTime) -> (millis: u64)
    ensures
        millis == offset_millis(epoch, at),
{
    truncate_u64(at.since(epoch).as_millis())
}

/// The moment `offset` milliseconds after `epoch`, in nanoseconds.
pub open spec fn moment(epoch: SystemTime, offset: u64) -> int {
    epoch@ + offset * 1_000_000
}

/// The times that a list of sequence numbers and offsets tells: the last one for each number.
pub open spec fn listed_times(list: Seq<(u32, u64)>, epoch: SystemTime) -> Map<u32, SystemTime>
    decreases list.len(),
{
    if list.len() == 0 {
        Map::empty()
    } else {
        let (seq, offset) = list.last();
        listed_times(list.drop_last(), epoch).insert(
            seq,
            SystemTime { nanos: moment(epoch, offset) as i128 },
        )
    }
}

/// Whether a list tells the offset of every one of the times, and each once.
pub open spec fn lists_offsets(
    list: Seq<(u32, u64)>,
    times: Map<u32, SystemTime>,
    epoch: SystemTime,
) -> bool {
    &&& forall|i: int|
        0 <= i < list.len() ==> times.contains_key((#[trigger] list[i]).0) && list[i].1
            == offset_millis(epoch, times[list[i].0])
    &&& forall|i: int, j: int|
        0 <= i < j < list.len() ==> (#[trigger] list[i]).0 != (#[trigger] list[j]).0
    &&& forall|k: u32| #[trigger]
        times.contains_key(k) ==> exists|i: int| 0 <= i < list.len() && (#[trigger] list[i]).0 == k
}

/// A `usize` read as a signed number.
pub open spec fn as_signed(n: usize) -> int {
    if n <= isize::MAX {
        n as int
    } else {
        n - usize::MAX - 1
    }
}

impl RakCongestionModel {
    /// The books of a controller that nothing was sent with.
    pub open spec fn opened(mtu: usize) -> RakCongestionModel {
        RakCongestionModel { mtu, recovery: None, in_flight: 0, sent_times: Map::empty() }
    }

    /// The books after a datagram was sent.
    pub open spec fn sent(self, seq: u32, size: usize, now: SystemTime) -> RakCongestionModel {
        RakCongestionModel {
            in_flight: (self.in_flight + size) as usize,
            sent_times: self.sent_times.insert(seq, now),
            ..self
        }
    }

    /// Whether a datagram comes before the one from which on the connection has recovered.
    pub open spec fn in_recovery_period(self, seq: u32) -> bool {
        self.recovery matches Some(recovery) && seq < recovery
    }

    /// The books after a datagram was acknowledged that is on its way.
    pub open spec fn acked(self, seq: u32, size: usize, last_sequence: u32) -> RakCongestionModel {
        RakCongestionModel {
            in_flight: (self.in_flight - size) as usize,
            sent_times: self.sent_times.remove(seq),
            recovery: if self.in_recovery_period(seq) {
                Some(last_sequence)
            } else {
                self.recovery
            },
            ..self
        }
    }

    /// The books after a datagram was sent once more.
    pub open spec fn resent(self, seq: u32) -> RakCongestionModel {
        if self.recovery is None {
            RakCongestionModel { recovery: Some(seq), ..self }
        } else {
            self
        }
    }
}

/// What becomes of the congestion window when a datagram is acknowledged: it grows in the slow
/// start, and outside of it only for datagrams of the recovery period.
pub fn window_growth(slow_start: bool, in_recovery_period: bool) -> (growth: RakWindowGrowth)
    ensures
        growth is SlowStart <==> slow_start,
        growth is Avoidance <==> !slow_start && in_recovery_period,
        growth is Unchanged <==> !slow_start && !in_recovery_period,
{
    if slow_start {
        RakWindowGrowth::SlowStart
    } else if in_recovery_period {
        RakWindowGrowth::Avoidance
    } else {
        RakWindowGrowth::Unchanged
    }
}

impl RakCongestionController {
    /// Opens the books.
    pub fn new(mtu: usize) -> (books: RakCongestionController)
        ensures
            books@ == RakCongestionModel::opened(mtu),
    {
        broadcast use vstd::std_specs::hash::group_hash_axioms;

        let books = RakCongestionController {
            mtu,
            congestion_recovery_sequence: None,
            bytes_not_acknowledged: 0,
            sent_times: HashMap::new(),
        };
        assert(books@ =~= RakCongestionModel::opened(mtu));
        books
    }

    /// The agreed datagram size.
    pub fn mtu(&self) -> (mtu: usize)
        ensures
            mtu == self@.mtu,
    {
        self.mtu
    }

    /// The bytes that may still be sent with a congestion window of `window`: what is left of
    /// it, none where nothing is.
    pub fn transmission_bandwidth(&self, window: isize) -> (bytes: usize)
        requires
            isize::MIN <= window - as_signed(self@.in_flight) <= isize::MAX,
        ensures
            bytes == if window > as_signed(self@.in_flight) {
                window - as_signed(self@.in_flight)
            } else {
                0
            },
    {
        let used: usize = self.bytes_not_acknowledged;
        let left: isize = if used <= isize::MAX as usize {
            window - used as isize
        } else {
            window + (usize::MAX - used) as isize + 1
        };
        if left > 0 {
            left as usize
        } else {
            0
        }
    }

    /// The bytes that may be sent once more.
    pub fn retransmission_bandwidth(&self) -> (bytes: usize)
        ensures
            bytes == self@.in_flight,
    {
        self.bytes_not_acknowledged
    }

    /// Whether a datagram is on its way.
    pub fn awaits(&self, seq: u32) -> (b: bool)
        ensures
            b == self@.sent_times.contains_key(seq),
    {
        broadcast use vstd::std_specs::hash::group_hash_axioms;

        self.sent_times.contains_key(&seq)
    }

    /// Books a datagram that is sent once more. Tells whether it is the first since the
    /// connection last recovered, which sets back the congestion window.
    pub fn resent(&mut self, sequence: u32) -> (first: bool)
        ensures
            final(self)@ == old(self)@.resent(sequence),
            first == (old(self)@.recovery is None),
    {
        let first = self.congestion_recovery_sequence.is_none();
        if first {
            self.congestion_recovery_sequence = Some(sequence);
        }
        first
    }

    /// Tells whether a datagram that the peer misses lowers the threshold of the slow start.
    pub fn nacked(&self) -> (lowers: bool)
        ensures
            lowers == (self@.recovery is Some),
    {
        self.congestion_recovery_sequence.is_some()
    }

    /// Books the acknowledgement of a datagram. Tells what it means for the estimates; nothing
    /// where no such datagram is on its way.
    pub fn acked(
        &mut self,
        now: SystemTime,
        seq: u32,
        size: usize,
        last_sequence: u32,
    ) -> (ack: Option<RakAcknowledgement>)
        requires
            old(self)@.sent_times.contains_key(seq) ==> size <= old(self)@.in_flight,
        ensures
            match ack {
                Some(ack) => old(self)@.sent_times.contains_key(seq) && final(self)@ == old(
                    self,
                )@.acked(seq, size, last_sequence) && ack.round_trip@ == elapsed(
                    now,
                    old(self)@.sent_times[seq],
                ) && ack.in_recovery_period == old(self)@.in_recovery_period(seq),
                None => !old(self)@.sent_times.contains_key(seq) && final(self)@ == old(self)@,
            },
    {
        broadcast use vstd::std_specs::hash::group_hash_axioms;

        let ghost before = self@;
        match self.sent_times.remove(&seq) {
            None => {
                assert(self@ =~= before);
                None
            },
            Some(sent_at) => {
                let round_trip: Duration = now.since(sent_at);
                self.bytes_not_acknowledged = self.bytes_not_acknowledged - size;
                let in_recovery_period = match self.congestion_recovery_sequence {
                    Some(recovery) => seq < recovery,
                    None => false,
                };
                if in_recovery_period {
                    self.congestion_recovery_sequence = Some(last_sequence);
                }
                assert(self@ =~= before.acked(seq, size, last_sequence));
                Some(RakAcknowledgement { round_trip, in_recovery_period })
            },
        }
    }

    /// Books a datagram that is sent.
    pub fn sent(&mut self, seq: u32, size: usize, now: SystemTime)
        requires
            old(self)@.in_flight + size <= usize::MAX,
        ensures
            final(self)@ == old(self)@.sent(seq, size, now),
    {
        broadcast use vstd::std_specs::hash::group_hash_axioms;

        self.bytes_not_acknowledged = self.bytes_not_acknowledged + size;
        self.sent_times.insert(seq, now);
        assert(self@ =~= old(self)@.sent(seq, size, now));
    }

    /// The books in a form that can be handed on, with times told from `epoch`.
    pub fn snapshot(&self, epoch: SystemTime) -> (snapshot: RakCongestionSnapshot)
        ensures
            snapshot.mtu == self@.mtu,
            snapshot.congestion_recovery_sequence == self@.recovery,
            snapshot.bytes_not_acknowledged == self@.in_flight,
            lists_offsets(snapshot.sent_times@, self@.sent_times, epoch),
    {
        broadcast use vstd::std_specs::hash::group_hash_axioms;

        let mut list: Vec<(u32, u64)> = Vec::new();
        for entry in it: self.sent_times.iter()
            invariant
                list@.len() == it.index(),
                forall|j: int|
                    0 <= j < it.seq().len() ==> self.sent_times@.contains_key(
                        *(#[trigger] it.seq()[j]).0,
                    ) && self.sent_times@[*it.seq()[j].0] == *it.seq()[j].1,
                it.seq().no_duplicates(),
                forall|j: int|
                    0 <= j < list@.len() ==> (#[trigger] list@[j]).0 == *it.seq()[j].0
                        && list@[j].1 == offset_millis(epoch, *it.seq()[j].1),
        {
            let (seq, at) = entry;
            list.push((*seq, millis_since(epoch, *at)));
        }
        proof {
            let all = vstd::std_specs::hash::spec_hash_map_iter(&self.sent_times);
            let items = vstd::std_specs::iter::IteratorSpec::remaining(&all);
            assert forall|k: u32| #[trigger] self.sent_times@.contains_key(k) implies exists|i: int|
                0 <= i < list@.len() && (#[trigger] list@[i]).0 == k by {
                assert(items.contains((&k, &self.sent_times@[k])));
                let i = choose|i: int| 0 <= i < items.len() && items[i] == (
                    &k,
                    &self.sent_times@[k],
                );
                assert(list@[i].0 == k);
            }
        }
        RakCongestionSnapshot {
            mtu: self.mtu,
            congestion_recovery_sequence: self.congestion_recovery_sequence,
            bytes_not_acknowledged: self.bytes_not_acknowledged,
            sent_times: list,
        }
    }

    /// The books that `snapshot` tells of, with its times told from `epoch`.
    pub fn restore(snapshot: RakCongestionSnapshot, epoch: SystemTime) -> (books:
        RakCongestionController)
        requires
            forall|i: int|
                0 <= i < snapshot.sent_times@.len() ==> moment(
                    epoch,
                    (#[trigger] snapshot.sent_times@[i]).1,
                ) <= i128::MAX,
        ensures
            books@ == (RakCongestionModel {
                mtu: snapshot.mtu,
                recovery: snapshot.congestion_recovery_sequence,
                in_flight: snapshot.bytes_not_acknowledged,
                sent_times: listed_times(snapshot.sent_times@, epoch),
            }),
    {
        broadcast use vstd::std_specs::hash::group_hash_axioms;

        let list = &snapshot.sent_times;
        let mut sent_times: HashMap<u32, SystemTime> = HashMap::new();
        let mut i: usize = 0;
        while i < list.len()
            invariant
                i <= list@.len(),
                forall|i: int|
                    0 <= i < list@.len() ==> moment(epoch, (#[trigger] list@[i]).1) <= i128::MAX,
                sent_times@ == listed_times(list@.take(i as int), epoch),
            decreases list@.len() - i,
        {
            let (seq, offset) = list[i];
            let at: SystemTime = epoch.after(Duration::from_millis(offset));
            sent_times.insert(seq, at);
            proof {
                let taken = list@.take(i + 1);
                assert(taken.drop_last() =~= list@.take(i as int));
                assert(taken.last() == (seq, offset));
            }
            i = i + 1;
        }
        assert(list@.take(i as int) =~= list@);
        RakCongestionController {
            mtu: snapshot.mtu,
            congestion_recovery_sequence: snapshot.congestion_recovery_sequence,
            bytes_not_acknowledged: snapshot.bytes_not_acknowledged,
            sent_times,
        }
    }
}

/// A datagram that is sent and acknowledged leaves nothing behind: the bytes on their way are
/// what they were, and so are the times of the others.
pub proof fn acknowledged_is_settled(
    books: RakCongestionModel,
    seq: u32,
    size: usize,
    now: SystemTime,
    last_sequence: u32,
)
    requires
        !books.sent_times.contains_key(seq),
        books.in_flight + size <= usize::MAX,
    ensures
        ({
            let after = books.sent(seq, size, now).acked(seq, size, last_sequence);
            &&& after.in_flight == books.in_flight
            &&& after.sent_times == books.sent_times
            &&& after.mtu == books.mtu
        }),
{
    let after = books.sent(seq, size, now).acked(seq, size, last_sequence);
    assert(after.sent_times =~= books.sent_times);
}

/// A datagram counts as acknowledged once: the books know nothing of it from then on, and
/// another acknowledgement of it finds nothing to settle.
pub proof fn acknowledged_once(
    books: RakCongestionModel,
    seq: u32,
    size: usize,
    last_sequence: u32,
)
    requires
        books.sent_times.contains_key(seq),
        size <= books.in_flight,
    ensures
        !books.acked(seq, size, last_sequence).sent_times.contains_key(seq),
        forall|k: u32|
            #![trigger books.acked(seq, size, last_sequence).sent_times.contains_key(k)]
            k != seq ==> books.acked(seq, size, last_sequence).sent_times.contains_key(k)
                == books.sent_times.contains_key(k),
{
}

/// Only the first datagram sent once more is remembered as the end of the recovery.
pub proof fn recovery_begins_once(books: RakCongestionModel, first: u32, second: u32)
    ensures
        books.resent(first).resent(second) == books.resent(first),
        books.resent(first).recovery is Some,
{
}

/// The times that a list tells where no number occurs twice.
proof fn listed_once(list: Seq<(u32, u64)>, epoch: SystemTime)
    requires
        forall|i: int, j: int|
            0 <= i < j < list.len() ==> (#[trigger] list[i]).0 != (#[trigger] list[j]).0,
    ensures
        forall|i: int|
            0 <= i < list.len() ==> #[trigger] listed_times(list, epoch).contains_key(list[i].0)
                && listed_times(list, epoch)[list[i].0] == (SystemTime {
                nanos: moment(epoch, list[i].1) as i128,
            }),
        forall|k: u32| #[trigger]
            listed_times(list, epoch).contains_key(k) ==> exists|i: int|
                0 <= i < list.len() && (#[trigger] list[i]).0 == k,
    decreases list.len(),
{
    if list.len() > 0 {
        let rest = list.drop_last();
        listed_once(rest, epoch);
        assert forall|k: u32| #[trigger] listed_times(list, epoch).contains_key(k) implies exists|
            i: int,
        | 0 <= i < list.len() && (#[trigger] list[i]).0 == k by {
            if k == list.last().0 {
                assert(list[list.len() - 1].0 == k);
            } else {
                assert(listed_times(rest, epoch).contains_key(k));
                let i = choose|i: int| 0 <= i < rest.len() && (#[trigger] rest[i]).0 == k;
                assert(list[i].0 == k);
            }
        }
        assert forall|i: int| 0 <= i < list.len() implies #[trigger] listed_times(
            list,
            epoch,
        ).contains_key(list[i].0) && listed_times(list, epoch)[list[i].0] == (SystemTime {
            nanos: moment(epoch, list[i].1) as i128,
        }) by {
            if i < list.len() - 1 {
                assert(rest[i] == list[i]);
                assert(listed_times(rest, epoch).contains_key(rest[i].0));
                assert(list[i].0 != list[list.len() - 1].0);
            }
        }
    }
}

/// What is handed on arrives: a snapshot can be restored, and the books restored from it have
/// the same datagrams on their way, each with the time that it was sent at, to the millisecond,
/// or the epoch where it was sent before that.
pub proof fn snapshot_arrives(books: RakCongestionModel, list: Seq<(u32, u64)>, epoch: SystemTime)
    requires
        lists_offsets(list, books.sent_times, epoch),
        forall|k: u32| #[trigger]
            books.sent_times.contains_key(k) ==> elapsed(books.sent_times[k], epoch) / 1_000_000
                < 0x1_0000_0000_0000_0000,
    ensures
        forall|i: int|
            0 <= i < list.len() ==> moment(epoch, (#[trigger] list[i]).1) <= i128::MAX,
        ({
            let arrived = listed_times(list, epoch);
            &&& arrived.dom() == books.sent_times.dom()
            &&& forall|k: u32| #[trigger]
                books.sent_times.contains_key(k) ==> {
                    let gone = elapsed(books.sent_times[k], epoch);
                    arrived[k]@ == epoch@ + gone - gone % 1_000_000
                }
        }),
{
    let arrived = listed_times(list, epoch);
    listed_once(list, epoch);
    assert forall|i: int| 0 <= i < list.len() implies moment(epoch, (#[trigger] list[i]).1)
        <= i128::MAX by {
        let gone = elapsed(books.sent_times[list[i].0], epoch);
        assert(list[i].1 == gone / 1_000_000);
    }
    assert forall|k: u32| #[trigger] books.sent_times.contains_key(k) implies arrived.contains_key(
        k,
    ) && ({
        let gone = elapsed(books.sent_times[k], epoch);
        arrived[k]@ == epoch@ + gone - gone % 1_000_000
    }) by {
        let i = choose|i: int| 0 <= i < list.len() && (#[trigger] list[i]).0 == k;
        assert(arrived.contains_key(list[i].0));
        let gone = elapsed(books.sent_times[k], epoch);
        assert(list[i].1 == gone / 1_000_000);
        assert(moment(epoch, list[i].1) == epoch@ + gone - gone % 1_000_000);
    }
    assert forall|k: u32| #[trigger] arrived.contains_key(k) implies books.sent_times.contains_key(
        k,
    ) by {
        let i = choose|i: int| 0 <= i < list.len() && (#[trigger] list[i]).0 == k;
        assert(books.sent_times.contains_key(list[i].0));
    }
    assert(arrived.dom() =~= books.sent_times.dom());
}

} // verus!

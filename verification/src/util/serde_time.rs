//! Times as whole milliseconds from the Unix epoch: precise enough for session timers, and
//! the same on every machine that a session is handed to.

use crate::time::{low_i64, truncate_i64, Duration, SystemTime};
use std::collections::HashMap;
use vstd::prelude::*;

verus! {

/// The milliseconds that `to_millis` tells for the moment `t`, a nanosecond count.
pub open spec fn millis_of(t: int) -> int {
    if t >= 0 {
        low_i64(t / 1_000_000) as int
    } else {
        -low_i64((-t) / 1_000_000)
    }
}

/// The whole milliseconds from the Unix epoch to `t`, rounded towards the epoch. Only the
/// low 64 bits of the count are kept.
pub fn to_millis(t: SystemTime) -> (millis: i64)
    requires
        millis_of(t@) <= i64::MAX,
    ensures
        millis == millis_of(t@),
{
    match t.duration_since(SystemTime::unix_epoch()) {
        Ok(d) => truncate_i64(d.as_millis()),
        Err(d) => -truncate_i64(d.as_millis()),
    }
}

/// Whether `to_millis` can tell the milliseconds of `t`.
pub fn has_millis(t: SystemTime) -> (b: bool)
    ensures
        b == (millis_of(t@) <= i64::MAX),
{
    match t.duration_since(SystemTime::unix_epoch()) {
        Ok(_) => true,
        Err(d) => truncate_i64(d.as_millis()) != i64::MIN,
    }
}

/// The moment `millis` milliseconds from the Unix epoch.
pub fn from_millis(millis: i64) -> (t: SystemTime)
    requires
        millis != i64::MIN,
    ensures
        t@ == millis * 1_000_000,
{
    let epoch = SystemTime::unix_epoch();
    if millis >= 0 {
        epoch.after(Duration::from_millis(millis as u64))
    } else {
        epoch.before(Duration::from_millis((-millis) as u64))
    }
}

/// Whether `millis` has the keys of `times`, each with what `to_millis` tells of its time.
pub open spec fn tells_millis(times: Map<u32, SystemTime>, millis: Map<u32, i64>) -> bool {
    &&& millis.dom() == times.dom()
    &&& forall|k: u32| #[trigger] times.contains_key(k) ==> millis[k] == millis_of(times[k]@)
}

/// Whether `times` has the keys of `millis`, each with what `from_millis` tells of its
/// milliseconds.
pub open spec fn tells_times(millis: Map<u32, i64>, times: Map<u32, SystemTime>) -> bool {
    &&& times.dom() == millis.dom()
    &&& forall|k: u32| #[trigger] millis.contains_key(k) ==> times[k]@ == millis[k] * 1_000_000
}

/// A map of times as a map of milliseconds, each key with what `to_millis` tells of its time.
pub fn map_to_millis(map: &HashMap<u32, SystemTime>) -> (millis: HashMap<u32, i64>)
    requires
        forall|k: u32| #[trigger] map@.contains_key(k) ==> millis_of(map@[k]@) <= i64::MAX,
    ensures
        tells_millis(map@, millis@),
{
    broadcast use vstd::std_specs::hash::group_hash_axioms;

    let mut millis: HashMap<u32, i64> = HashMap::new();
    for entry in it: map.iter()
        invariant
            forall|k: u32| #[trigger] map@.contains_key(k) ==> millis_of(map@[k]@) <= i64::MAX,
            forall|j: int|
                0 <= j < it.seq().len() ==> map@.contains_key(*(#[trigger] it.seq()[j]).0)
                    && map@[*it.seq()[j].0] == *it.seq()[j].1,
            forall|k: u32| #[trigger] map@.contains_key(k) ==> it.seq().contains((&k, &map@[k])),
            forall|j: int|
                0 <= j < it.index() ==> millis@.contains_key(*(#[trigger] it.seq()[j]).0),
            forall|k: u32| #[trigger]
                millis@.contains_key(k) ==> map@.contains_key(k) && millis@[k] == millis_of(
                    map@[k]@,
                ),
    {
        let (k, t) = entry;
        millis.insert(*k, to_millis(*t));
    }
    assert forall|k: u32| #[trigger] map@.contains_key(k) implies millis@.contains_key(k) by {
        let all = vstd::std_specs::hash::spec_hash_map_iter(map);
        assert(vstd::std_specs::iter::IteratorSpec::remaining(&all).contains((&k, &map@[k])));
    }
    assert(millis@.dom() =~= map@.dom());
    millis
}

/// A map of milliseconds as a map of times, each key with what `from_millis` tells of its
/// milliseconds.
pub fn map_from_millis(millis: &HashMap<u32, i64>) -> (map: HashMap<u32, SystemTime>)
    requires
        forall|k: u32| #[trigger] millis@.contains_key(k) ==> millis@[k] != i64::MIN,
    ensures
        tells_times(millis@, map@),
{
    broadcast use vstd::std_specs::hash::group_hash_axioms;

    let mut map: HashMap<u32, SystemTime> = HashMap::new();
    for entry in it: millis.iter()
        invariant
            forall|k: u32| #[trigger] millis@.contains_key(k) ==> millis@[k] != i64::MIN,
            forall|j: int|
                0 <= j < it.seq().len() ==> millis@.contains_key(*(#[trigger] it.seq()[j]).0)
                    && millis@[*it.seq()[j].0] == *it.seq()[j].1,
            forall|k: u32| #[trigger]
                millis@.contains_key(k) ==> it.seq().contains((&k, &millis@[k])),
            forall|j: int|
                0 <= j < it.index() ==> map@.contains_key(*(#[trigger] it.seq()[j]).0),
            forall|k: u32| #[trigger]
                map@.contains_key(k) ==> millis@.contains_key(k) && map@[k]@ == millis@[k]
                    * 1_000_000,
    {
        let (k, m) = entry;
        map.insert(*k, from_millis(*m));
    }
    assert forall|k: u32| #[trigger] millis@.contains_key(k) implies map@.contains_key(k) by {
        let all = vstd::std_specs::hash::spec_hash_map_iter(millis);
        assert(vstd::std_specs::iter::IteratorSpec::remaining(&all).contains((&k, &millis@[k])));
    }
    assert(map@.dom() =~= millis@.dom());
    map
}

/// Milliseconds that are read and told again are the same.
pub proof fn millis_survive(millis: i64)
    requires
        millis != i64::MIN,
    ensures
        millis_of(millis * 1_000_000) == millis,
{
}

/// A time that is told in milliseconds and read again is the same to the millisecond, rounded
/// towards the epoch, where its milliseconds can be told in 64 bits.
pub proof fn times_survive(t: SystemTime)
    requires
        -(i64::MAX + 1) * 1_000_000 < t@ < (i64::MAX + 1) * 1_000_000,
    ensures
        millis_of(t@) <= i64::MAX,
        millis_of(t@) != i64::MIN,
        t@ >= 0 ==> millis_of(t@) * 1_000_000 == t@ - t@ % 1_000_000,
        t@ < 0 ==> millis_of(t@) * 1_000_000 == t@ + (-t@) % 1_000_000,
        t@ % 1_000_000 == 0 ==> millis_of(t@) * 1_000_000 == t@,
{
}

/// A time rounded towards the epoch to whole milliseconds, both in nanoseconds.
pub open spec fn whole_millis(t: int) -> int {
    if t >= 0 {
        t - t % 1_000_000
    } else {
        t + (-t) % 1_000_000
    }
}

/// A map of times that is told in milliseconds and read again has the same keys, each with its
/// time to the millisecond, rounded towards the epoch, where the milliseconds can be told in 64
/// bits. It can be read, and what is read can be told, as the same milliseconds.
pub proof fn maps_survive(
    times: Map<u32, SystemTime>,
    millis: Map<u32, i64>,
    back: Map<u32, SystemTime>,
    again: Map<u32, i64>,
)
    requires
        forall|k: u32| #[trigger]
            times.contains_key(k) ==> -(i64::MAX + 1) * 1_000_000 < times[k]@ < (i64::MAX + 1)
                * 1_000_000,
        tells_millis(times, millis),
        tells_times(millis, back),
        tells_millis(back, again),
    ensures
        back.dom() == times.dom(),
        forall|k: u32| #[trigger]
            times.contains_key(k) ==> millis_of(times[k]@) <= i64::MAX && millis[k] != i64::MIN
                && back[k]@ == whole_millis(times[k]@) && millis_of(back[k]@) <= i64::MAX,
        again == millis,
{
    assert forall|k: u32| #[trigger] times.contains_key(k) implies millis_of(times[k]@) <= i64::MAX
        && millis[k] != i64::MIN && back[k]@ == whole_millis(times[k]@) && millis_of(back[k]@)
        <= i64::MAX && again[k] == millis[k] by {
        times_survive(times[k]);
        assert(millis.contains_key(k));
        millis_survive(millis[k]);
        assert(back.contains_key(k));
    }
    assert(again =~= millis);
}

/// Of two times whose milliseconds can be told in 64 bits, the later one is not told as the
/// earlier one.
pub proof fn order_survives(earlier: SystemTime, later: SystemTime)
    requires
        -(i64::MAX + 1) * 1_000_000 < earlier@ <= later@ < (i64::MAX + 1) * 1_000_000,
    ensures
        millis_of(earlier@) <= millis_of(later@),
{
}

} // verus!

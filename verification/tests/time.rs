use raknet::time::{truncate_i64, truncate_u64, Duration, SystemTime};
use raknet::util::serde_time::{from_millis, map_from_millis, map_to_millis, to_millis};
use std::collections::HashMap;

#[test]
fn millis_survive_the_round_trip() {
    for millis in [0, 1, -1, 1_500, -1_500, i64::MAX, -i64::MAX] {
        assert_eq!(to_millis(from_millis(millis)), millis);
    }
}

#[test]
fn times_are_rounded_towards_the_epoch() {
    assert_eq!(to_millis(SystemTime { nanos: -1_999_999 }), -1);
    assert_eq!(to_millis(SystemTime { nanos: 1_999_999 }), 1);
    assert_eq!(to_millis(SystemTime { nanos: -999_999 }), 0);
    assert_eq!(from_millis(-3), SystemTime { nanos: -3_000_000 });
    assert_eq!(from_millis(3), SystemTime { nanos: 3_000_000 });
}

#[test]
fn later_times_are_not_told_as_earlier() {
    let earlier = SystemTime { nanos: -1 };
    let later = SystemTime { nanos: 5_999_999 };
    assert!(to_millis(earlier) <= to_millis(later));
}

#[test]
fn maps_of_times_survive_the_round_trip() {
    let mut map = HashMap::new();
    map.insert(1u32, SystemTime { nanos: 5_600_000 });
    map.insert(7u32, SystemTime { nanos: -2_000_000 });
    let millis = map_to_millis(&map);
    assert_eq!(millis.len(), 2);
    assert_eq!(millis[&1], 5);
    assert_eq!(millis[&7], -2);
    let back = map_from_millis(&millis);
    assert_eq!(back.len(), 2);
    assert_eq!(back[&1], SystemTime { nanos: 5_000_000 });
    assert_eq!(back[&7], SystemTime { nanos: -2_000_000 });
}

#[test]
fn low_bits_are_kept() {
    assert_eq!(truncate_u64(0x1_0000_0000_0000_0005), 5);
    assert_eq!(truncate_i64(0xffff_ffff_ffff_ffff), -1);
    assert_eq!(truncate_i64(0x1_0000_0000_0000_0005), 5);
}

#[test]
fn distances_are_told_both_ways() {
    let a = SystemTime { nanos: i128::MIN };
    let b = SystemTime { nanos: i128::MAX };
    assert_eq!(b.duration_since(a), Ok(Duration { nanos: u128::MAX }));
    assert_eq!(a.duration_since(b), Err(Duration { nanos: u128::MAX }));
    assert_eq!(a.since(b), Duration { nanos: 0 });
    assert_eq!(a.after(Duration { nanos: u128::MAX }), b);
    assert_eq!(b.before(Duration { nanos: u128::MAX }), a);
    assert_eq!(a.checked_sub(Duration { nanos: 1 }), None);
    assert_eq!(b.checked_sub(Duration { nanos: u128::MAX }), Some(a));
    assert!(b.reached(a) && !a.reached(b));
    assert!(!b.has_after(Duration { nanos: 1 }) && b.has_after(Duration { nanos: 0 }));
    assert_eq!(Duration::from_secs(2).as_millis(), 2000);
}

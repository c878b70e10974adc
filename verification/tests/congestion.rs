use raknet::session::congestion_controller::{
    millis_since, window_growth, RakCongestionController, RakCongestionSnapshot, RakWindowGrowth,
};
use raknet::time::{Duration, SystemTime};

fn at(millis: u64) -> SystemTime {
    SystemTime { nanos: millis as i128 * 1_000_000 }
}

#[test]
fn acknowledged_datagram_is_settled_once() {
    let mut books = RakCongestionController::new(1400);
    books.sent(3, 500, at(10));
    books.sent(4, 200, at(20));
    assert_eq!(books.retransmission_bandwidth(), 700);
    assert_eq!(books.mtu(), 1400);

    let ack = books.acked(at(35), 3, 500, 9).unwrap();
    assert_eq!(ack.round_trip, Duration::from_millis(25));
    assert!(!ack.in_recovery_period);
    assert_eq!(books.retransmission_bandwidth(), 200);
    assert!(books.acked(at(36), 3, 500, 9).is_none());
    assert_eq!(books.retransmission_bandwidth(), 200);

    // A clock that runs backwards makes for no round trip at all.
    let ack = books.acked(at(5), 4, 200, 9).unwrap();
    assert_eq!(ack.round_trip, Duration::from_millis(0));
    assert_eq!(books.retransmission_bandwidth(), 0);
}

#[test]
fn recovery_begins_with_the_first_datagram_sent_again() {
    let mut books = RakCongestionController::new(1400);
    assert!(!books.nacked());
    books.sent(1, 10, at(0));
    books.sent(5, 10, at(0));
    books.sent(6, 10, at(0));
    assert!(books.resent(5));
    assert!(!books.resent(1));
    assert!(books.nacked());
    assert!(!books.acked(at(1), 5, 10, 8).unwrap().in_recovery_period);
    assert!(books.acked(at(1), 1, 10, 8).unwrap().in_recovery_period);
    // The recovery now lasts up to the last datagram that was sent by then.
    assert!(books.acked(at(1), 6, 10, 8).unwrap().in_recovery_period);
    assert_eq!(books.snapshot(at(0)).congestion_recovery_sequence, Some(8));
}

#[test]
fn bandwidth_is_what_is_left_of_the_window() {
    let mut books = RakCongestionController::new(1400);
    books.sent(1, 1000, at(0));
    assert_eq!(books.transmission_bandwidth(1400), 400);
    assert_eq!(books.transmission_bandwidth(1000), 0);
    assert_eq!(books.transmission_bandwidth(900), 0);
}

#[test]
fn window_grows_in_slow_start_and_in_recovery() {
    assert_eq!(window_growth(true, true), RakWindowGrowth::SlowStart);
    assert_eq!(window_growth(true, false), RakWindowGrowth::SlowStart);
    assert_eq!(window_growth(false, true), RakWindowGrowth::Avoidance);
    assert_eq!(window_growth(false, false), RakWindowGrowth::Unchanged);
}

#[test]
fn snapshot_is_restored() {
    let epoch = at(1_000);
    let mut books = RakCongestionController::new(1400);
    books.sent(1, 100, SystemTime { nanos: 1_005_700_000 });
    books.sent(2, 200, at(500));
    books.resent(7);
    let mut snapshot = books.snapshot(epoch);
    snapshot.sent_times.sort();
    assert_eq!(snapshot.sent_times, vec![(1, 5), (2, 0)]);
    assert_eq!(snapshot.mtu, 1400);
    assert_eq!(snapshot.bytes_not_acknowledged, 300);

    let mut back = RakCongestionController::restore(snapshot, epoch);
    assert_eq!(back.retransmission_bandwidth(), 300);
    assert!(back.nacked());
    assert_eq!(
        back.acked(at(1_010), 1, 100, 9).unwrap().round_trip,
        Duration::from_millis(5)
    );
    assert_eq!(
        back.acked(at(1_010), 2, 200, 9).unwrap().round_trip,
        Duration::from_millis(10)
    );
}

#[test]
fn last_of_two_times_is_restored() {
    let snapshot = RakCongestionSnapshot {
        mtu: 576,
        congestion_recovery_sequence: None,
        bytes_not_acknowledged: 10,
        sent_times: vec![(1, 5), (1, 9)],
    };
    let mut books = RakCongestionController::restore(snapshot, at(0));
    assert_eq!(
        books.acked(at(10), 1, 10, 1).unwrap().round_trip,
        Duration::from_millis(1)
    );
}

#[test]
fn offsets_are_whole_milliseconds() {
    assert_eq!(millis_since(at(3), SystemTime { nanos: 5_999_999 }), 2);
    assert_eq!(millis_since(at(3), at(1)), 0);
}

#[test]
fn copied_books_go_their_own_way() {
    let mut books = RakCongestionController::new(1400);
    books.sent(1, 100, at(0));
    let mut copy = books.clone();
    assert!(copy.awaits(1));
    copy.acked(at(1), 1, 100, 1);
    assert!(!copy.awaits(1));
    assert_eq!(copy.retransmission_bandwidth(), 0);
    assert!(books.awaits(1));
    assert_eq!(books.retransmission_bandwidth(), 100);
}

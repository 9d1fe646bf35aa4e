use asynchronix::time::{Duration, MonotonicTime};

#[test]
fn timestamp_parts_are_kept() {
    let t = MonotonicTime::new(1_234_567_890, 987_654_321).unwrap();
    assert_eq!(t.as_secs(), 1_234_567_890);
    assert_eq!(t.subsec_nanos(), 987_654_321);
}

#[test]
fn timestamp_refuses_a_full_second_of_nanoseconds() {
    assert!(MonotonicTime::new(0, 1_000_000_000).is_none());
    assert!(MonotonicTime::new(0, 999_999_999).is_some());
}

#[test]
fn checked_add_carries_nanoseconds() {
    let t = MonotonicTime::new(10, 600_000_000).unwrap();
    let sum = t.checked_add(Duration::new(1, 500_000_000)).unwrap();
    assert_eq!(sum, MonotonicTime::new(12, 100_000_000).unwrap());
}

#[test]
fn checked_add_detects_overflow() {
    let t = MonotonicTime::max();
    assert!(t.checked_add(Duration::new(0, 1)).is_none());
    assert_eq!(t.checked_add(Duration::zero()), Some(t));
}

#[test]
fn timestamps_are_compared_by_instant() {
    let early = MonotonicTime::new(-1, 999_999_999).unwrap();
    let epoch = MonotonicTime::epoch();
    let late = MonotonicTime::new(0, 1).unwrap();
    assert!(early.lt(&epoch));
    assert!(epoch.lt(&late));
    assert!(!late.lt(&epoch));
    assert!(!epoch.lt(&epoch));
    assert!(epoch.le(&epoch));
    assert!(early.le(&late));
    assert!(!late.le(&early));
    assert!(epoch.same(&MonotonicTime::new(0, 0).unwrap()));
    assert!(!epoch.same(&late));
    assert!(early < epoch && epoch < late);
}

#[test]
fn the_bounds_of_time() {
    assert_eq!(MonotonicTime::epoch().as_secs(), 0);
    assert_eq!(MonotonicTime::epoch().subsec_nanos(), 0);
    assert_eq!(MonotonicTime::max().as_secs(), i64::MAX);
    assert_eq!(MonotonicTime::max().subsec_nanos(), 999_999_999);
}

#[test]
fn durations_carry_whole_seconds_of_nanoseconds() {
    let d = Duration::new(2, 3_500_000_000);
    assert_eq!(d.as_secs(), 5);
    assert_eq!(d.subsec_nanos(), 500_000_000);
    assert_eq!(Duration::new(7, 9), Duration::new(7, 9));
    assert_eq!(Duration::from_secs(4), Duration::new(4, 0));
    assert!(Duration::zero().is_zero());
    assert!(Duration::new(0, 0).is_zero());
    assert!(!Duration::new(0, 1).is_zero());
    assert!(!Duration::from_secs(1).is_zero());
}

#[test]
fn checked_add_reaches_from_the_earliest_to_the_latest_time() {
    let earliest = MonotonicTime::new(i64::MIN, 0).unwrap();
    let span = Duration::new(u64::MAX, 999_999_999);
    assert_eq!(earliest.checked_add(span), Some(MonotonicTime::max()));
    let next = MonotonicTime::new(i64::MIN, 1).unwrap();
    assert_eq!(next.checked_add(span), None);
}

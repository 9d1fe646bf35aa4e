use asynchronix::rpc::codes::ErrorCode;
use asynchronix::rpc::convert::{
    invalid_time, monotonic_to_timestamp, timestamp_to_monotonic, to_positive_duration,
    to_strictly_positive_duration, MAX_SECS, MIN_SECS,
};
use asynchronix::rpc::messages::{Timestamp, WireDuration};
use asynchronix::time::{Duration, MonotonicTime};

const ALL_CODES: [ErrorCode; 12] = [
    ErrorCode::InternalError,
    ErrorCode::EmptyRequest,
    ErrorCode::UnknownRequest,
    ErrorCode::InvalidTime,
    ErrorCode::InvalidDuration,
    ErrorCode::MissingArgument,
    ErrorCode::InvalidKey,
    ErrorCode::InvalidMessage,
    ErrorCode::SourceNotFound,
    ErrorCode::SinkNotFound,
    ErrorCode::SimulationNotStarted,
    ErrorCode::SimulationTimeOutOfRange,
];

#[test]
fn error_codes_survive_the_wire() {
    for code in ALL_CODES {
        assert_eq!(ErrorCode::from_wire(code.to_wire()), Some(code));
    }
}

#[test]
fn error_codes_have_numbers_of_their_own() {
    for (i, a) in ALL_CODES.iter().enumerate() {
        for b in &ALL_CODES[i + 1..] {
            assert_ne!(a.to_wire(), b.to_wire());
        }
    }
    assert_eq!(ErrorCode::InternalError.to_wire(), 0);
    assert_eq!(ErrorCode::SimulationTimeOutOfRange.to_wire(), 11);
}

#[test]
fn unknown_numbers_are_no_error_codes() {
    assert_eq!(ErrorCode::from_wire(12), None);
    assert_eq!(ErrorCode::from_wire(-1), None);
    assert_eq!(ErrorCode::from_wire(i32::MAX), None);
}

#[test]
fn timestamps_round_trip_within_the_range_of_the_service() {
    for (secs, nanos) in [
        (MIN_SECS, 0),
        (MIN_SECS, 999_999_999),
        (-1, 500_000_000),
        (0, 0),
        (1_234_567_890, 987_654_321),
        (MAX_SECS, 999_999_999),
    ] {
        let time = MonotonicTime::new(secs, nanos).unwrap();
        let timestamp = monotonic_to_timestamp(time).unwrap();
        assert_eq!(timestamp, Timestamp { seconds: secs, nanos: nanos as i32 });
        assert_eq!(timestamp_to_monotonic(timestamp), Some(time));
    }
}

#[test]
fn times_outside_of_the_range_of_the_service_are_not_written() {
    assert_eq!(monotonic_to_timestamp(MonotonicTime::new(MIN_SECS - 1, 999_999_999).unwrap()), None);
    assert_eq!(monotonic_to_timestamp(MonotonicTime::new(MAX_SECS + 1, 0).unwrap()), None);
    assert_eq!(monotonic_to_timestamp(MonotonicTime::max()), None);
}

#[test]
fn timestamps_with_bad_nanoseconds_are_not_read() {
    assert_eq!(timestamp_to_monotonic(Timestamp { seconds: 1, nanos: -1 }), None);
    assert_eq!(timestamp_to_monotonic(Timestamp { seconds: 1, nanos: 1_000_000_000 }), None);
    assert_eq!(timestamp_to_monotonic(Timestamp { seconds: 1, nanos: i32::MAX }), None);
}

#[test]
fn timestamps_outside_of_the_range_of_the_service_are_not_read() {
    assert_eq!(timestamp_to_monotonic(Timestamp { seconds: 253402300800, nanos: 0 }), None);
    assert_eq!(timestamp_to_monotonic(Timestamp { seconds: MAX_SECS + 1, nanos: 0 }), None);
    assert_eq!(timestamp_to_monotonic(Timestamp { seconds: MIN_SECS - 1, nanos: 999_999_999 }), None);
    assert_eq!(timestamp_to_monotonic(Timestamp { seconds: i64::MAX, nanos: 999_999_999 }), None);
    assert_eq!(timestamp_to_monotonic(Timestamp { seconds: i64::MIN, nanos: 0 }), None);
    assert_eq!(
        timestamp_to_monotonic(Timestamp { seconds: MAX_SECS, nanos: 999_999_999 }),
        MonotonicTime::new(MAX_SECS, 999_999_999)
    );
    assert_eq!(
        timestamp_to_monotonic(Timestamp { seconds: MIN_SECS, nanos: 0 }),
        MonotonicTime::new(MIN_SECS, 0)
    );
}

#[test]
fn an_invalid_time_says_what_is_wrong_with_it() {
    let nanos = invalid_time(Timestamp { seconds: MAX_SECS + 1, nanos: -1 });
    assert_eq!(nanos.code, ErrorCode::InvalidTime);
    assert_eq!(nanos.message, "out-of-range nanosecond field");
    let seconds = invalid_time(Timestamp { seconds: MAX_SECS + 1, nanos: 0 });
    assert_eq!(seconds.code, ErrorCode::InvalidTime);
    assert_eq!(seconds.message, "out-of-range seconds field");
}

#[test]
fn positive_durations_are_read() {
    assert_eq!(to_positive_duration(WireDuration { seconds: 0, nanos: 0 }), Some(Duration::zero()));
    assert_eq!(
        to_positive_duration(WireDuration { seconds: 3, nanos: 250 }),
        Some(Duration::new(3, 250))
    );
    let carried = to_positive_duration(WireDuration { seconds: 3, nanos: 2_000_000_001 }).unwrap();
    assert_eq!(carried.as_secs(), 5);
    assert_eq!(carried.subsec_nanos(), 1);
    assert_eq!(to_positive_duration(WireDuration { seconds: -1, nanos: 0 }), None);
    assert_eq!(to_positive_duration(WireDuration { seconds: 0, nanos: -1 }), None);
    assert_eq!(to_positive_duration(WireDuration { seconds: 5, nanos: -1 }), None);
}

#[test]
fn strictly_positive_durations_are_not_empty() {
    assert_eq!(to_strictly_positive_duration(WireDuration { seconds: 0, nanos: 0 }), None);
    assert_eq!(
        to_strictly_positive_duration(WireDuration { seconds: 0, nanos: 1 }),
        Some(Duration::new(0, 1))
    );
    assert_eq!(
        to_strictly_positive_duration(WireDuration { seconds: i64::MAX, nanos: i32::MAX }),
        Some(Duration::new(i64::MAX as u64, i32::MAX as u32))
    );
    assert_eq!(to_strictly_positive_duration(WireDuration { seconds: -1, nanos: 5 }), None);
    assert_eq!(to_strictly_positive_duration(WireDuration { seconds: 1, nanos: -5 }), None);
}

#[test]
fn the_library_adds_time_as_the_clock_crate_does() {
    for (secs, nanos, dsecs, dnanos) in [
        (0i64, 0u32, 0u64, 0u32),
        (10, 600_000_000, 1, 500_000_000),
        (-5, 999_999_999, 4, 1),
        (i64::MAX, 0, 0, 999_999_999),
        (i64::MAX, 1, 0, 999_999_999),
        (i64::MIN, 0, u64::MAX / 2 + 1, 0),
        (-1, 0, u64::MAX / 2 + 1, 0),
        (0, 0, u64::MAX / 2 + 1, 0),
        (i64::MIN, 0, u64::MAX, 999_999_999),
        (-1, 999_999_999, i64::MAX as u64, 1),
    ] {
        let ours = MonotonicTime::new(secs, nanos).unwrap().checked_add(Duration::new(dsecs, dnanos));
        let theirs = tai_time::MonotonicTime::new(secs, nanos)
            .unwrap()
            .checked_add(std::time::Duration::new(dsecs, dnanos));
        assert_eq!(
            ours.map(|t| (t.as_secs(), t.subsec_nanos())),
            theirs.map(|t| (t.as_secs(), t.subsec_nanos()))
        );
    }
}

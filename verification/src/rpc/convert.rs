//! Conversions between the times of the control service and the times of
//! the simulation.
use vstd::prelude::*;
use crate::rpc::codes::ErrorCode;
use crate::rpc::messages::{failure, ReplyError, Timestamp, WireDuration};
use crate::time::{Duration, MonotonicTime};

verus! {

/// Seconds of 0001-01-01 00:00:00, the earliest time that the service can
/// write.
pub const MIN_SECS: i64 = -62135596800;

/// Seconds of 9999-12-31 23:59:59, the latest time that the service can
/// write.
pub const MAX_SECS: i64 = 253402300799;

/// The time of the service for a time of the simulation, if its seconds are
/// in the range of the service.
pub open spec fn timestamp_of(time: MonotonicTime) -> Option<Timestamp> {
    if MIN_SECS <= time.secs() <= MAX_SECS {
        Some(Timestamp { seconds: time.secs() as i64, nanos: time.subsec() as i32 })
    } else {
        None
    }
}

/// Whether a time of the service is one that the service may write: its
/// nanoseconds are non-negative and below one second, and its seconds lie
/// between 0001-01-01 00:00:00 and 9999-12-31 23:59:59.
pub open spec fn is_valid_timestamp(timestamp: Timestamp) -> bool {
    0 <= timestamp.nanos < 1_000_000_000 && MIN_SECS <= timestamp.seconds <= MAX_SECS
}

/// The time of the simulation for a time of the service, if the time of the
/// service is valid.
pub open spec fn monotonic_of(timestamp: Timestamp) -> Option<MonotonicTime> {
    if is_valid_timestamp(timestamp) {
        Some(MonotonicTime::from_parts(timestamp.seconds, timestamp.nanos as u32))
    } else {
        None
    }
}

/// What is wrong with a time of the service that is not valid: its
/// nanoseconds, or else its seconds.
pub open spec fn invalid_time_text(timestamp: Timestamp) -> Seq<char> {
    if !(0 <= timestamp.nanos < 1_000_000_000) {
        "out-of-range nanosecond field"@
    } else {
        "out-of-range seconds field"@
    }
}

/// The span of the simulation for a span of the service whose parts are
/// not negative. Nanoseconds of one second or more are carried over.
pub open spec fn duration_of(duration: WireDuration) -> Duration {
    Duration::from_parts(
        (duration.seconds + duration.nanos / 1_000_000_000) as u64,
        (duration.nanos % 1_000_000_000) as u32,
    )
}

/// The length in nanoseconds of a span of the service.
pub open spec fn wire_nanos(duration: WireDuration) -> int {
    duration.seconds * 1_000_000_000 + duration.nanos
}

/// Whether no part of a span of the service is negative.
pub open spec fn is_positive(duration: WireDuration) -> bool {
    duration.seconds >= 0 && duration.nanos >= 0
}

/// Whether no part of a span of the service is negative and the span is not
/// empty.
pub open spec fn is_strictly_positive(duration: WireDuration) -> bool {
    is_positive(duration) && !(duration.seconds == 0 && duration.nanos == 0)
}

/// The span of the simulation for a positive span of the service is
/// well-formed and has the same length.
pub proof fn lemma_duration_of(duration: WireDuration)
    requires
        is_positive(duration),
    ensures
        duration_of(duration).wf(),
        duration_of(duration).as_nanos() == wire_nanos(duration),
        is_strictly_positive(duration) <==> duration_of(duration).as_nanos() > 0,
{
    let secs = (duration.seconds + duration.nanos / 1_000_000_000) as u64;
    let nanos = (duration.nanos % 1_000_000_000) as u32;
    Duration::lemma_from_parts(secs, nanos);
}

/// Times survive the way to the service and back.
///
/// A time of the simulation whose seconds are in the range of the service
/// is written and read back as the same time. A time of the service is
/// read exactly if it is valid, and is then written back as the same time.
pub proof fn lemma_timestamp_round_trip(time: MonotonicTime, timestamp: Timestamp)
    ensures
        time.wf() && MIN_SECS <= time.secs() <= MAX_SECS ==> timestamp_of(time).is_some() && monotonic_of(
            timestamp_of(time).unwrap(),
        ) == Some(time),
        monotonic_of(timestamp).is_some() <==> is_valid_timestamp(timestamp),
        monotonic_of(timestamp).is_some() ==> timestamp_of(monotonic_of(timestamp).unwrap()) == Some(
            timestamp,
        ),
        timestamp_of(time) == Some(timestamp) && time.wf() ==> is_valid_timestamp(timestamp),
{
    if time.wf() {
        time.lemma_parts();
    }
    if 0 <= timestamp.nanos < 1_000_000_000 {
        MonotonicTime::lemma_from_parts(timestamp.seconds, timestamp.nanos as u32);
    }
}

/// Converts a time of the simulation to a time of the service.
///
/// This fails if the time is outside of the range of the service
/// (0001-01-01 00:00:00 to 9999-12-31 23:59:59).
pub fn monotonic_to_timestamp(monotonic_time: MonotonicTime) -> (r: Option<Timestamp>)
    ensures
        r == timestamp_of(monotonic_time),
{
    let secs = monotonic_time.as_secs();
    if secs < MIN_SECS || secs > MAX_SECS {
        return None;
    }
    Some(Timestamp { seconds: secs, nanos: monotonic_time.subsec_nanos() as i32 })
}

/// Converts a time of the service to a time of the simulation.
///
/// This fails if the nanoseconds are negative or not below one second, or
/// if the seconds are outside of the range of the service
/// (0001-01-01 00:00:00 to 9999-12-31 23:59:59).
pub fn timestamp_to_monotonic(timestamp: Timestamp) -> (r: Option<MonotonicTime>)
    ensures
        r == monotonic_of(timestamp),
        r.is_some() <==> is_valid_timestamp(timestamp),
        r matches Some(t) ==> t.wf() && t.secs() == timestamp.seconds && t.subsec() == timestamp.nanos,
{
    if timestamp.nanos < 0 || timestamp.seconds < MIN_SECS || timestamp.seconds > MAX_SECS {
        return None;
    }
    MonotonicTime::new(timestamp.seconds, timestamp.nanos as u32)
}

/// Builds the failure that refuses a time of the service that is not valid.
pub fn invalid_time(timestamp: Timestamp) -> (e: ReplyError)
    ensures
        e.code == ErrorCode::InvalidTime,
        e.message@ == invalid_time_text(timestamp),
{
    if timestamp.nanos < 0 || timestamp.nanos >= 1_000_000_000 {
        failure(ErrorCode::InvalidTime, "out-of-range nanosecond field")
    } else {
        failure(ErrorCode::InvalidTime, "out-of-range seconds field")
    }
}

/// Converts a span of the service to a span of the simulation.
///
/// This fails only if a part of the span is negative.
pub fn to_positive_duration(duration: WireDuration) -> (r: Option<Duration>)
    ensures
        r.is_some() <==> is_positive(duration),
        r matches Some(d) ==> d == duration_of(duration) && d.wf() && d.as_nanos() == wire_nanos(duration),
{
    if duration.seconds < 0 || duration.nanos < 0 {
        return None;
    }
    let d = Duration::new(duration.seconds as u64, duration.nanos as u32);
    proof {
        lemma_duration_of(duration);
        Duration::lemma_as_nanos_injective(d, duration_of(duration));
    }
    Some(d)
}

/// Converts a span of the service to a span of the simulation that is not
/// empty.
///
/// This fails only if a part of the span is negative or the span is empty.
pub fn to_strictly_positive_duration(duration: WireDuration) -> (r: Option<Duration>)
    ensures
        r.is_some() <==> is_strictly_positive(duration),
        r matches Some(d) ==> d == duration_of(duration) && d.wf() && d.as_nanos() == wire_nanos(duration)
            && d.as_nanos() > 0,
{
    if duration.seconds < 0 || duration.nanos < 0 || (duration.seconds == 0 && duration.nanos == 0) {
        return None;
    }
    to_positive_duration(duration)
}

} // verus!

//! Logical simulation time with nanosecond resolution.
use vstd::prelude::*;

verus! {

/// Number of nanoseconds in one second.
pub const NANOS_PER_SEC: u32 = 1_000_000_000;

/// A non-negative span of time: whole seconds and a sub-second part that is
/// always below one second.
#[derive(Clone, Copy, Debug, PartialEq, Eq, PartialOrd, Ord, Hash, Structural)]
pub struct Duration {
    secs: u64,
    nanos: u32,
}

impl Duration {
    #[verifier::type_invariant]
    pub open spec fn inv(self) -> bool {
        self.wf()
    }

    /// The sub-second part is below one second.
    pub closed spec fn wf(self) -> bool {
        self.nanos < NANOS_PER_SEC
    }

    /// Whole seconds of the span.
    pub closed spec fn secs(self) -> int {
        self.secs as int
    }

    /// Sub-second part of the span, in nanoseconds.
    pub closed spec fn subsec(self) -> int {
        self.nanos as int
    }

    /// The span as a number of nanoseconds.
    pub open spec fn as_nanos(self) -> int {
        self.secs() * 1_000_000_000 + self.subsec()
    }

    /// The span of `secs` seconds and `nanos` nanoseconds, for parts that are
    /// already in range.
    pub closed spec fn from_parts(secs: u64, nanos: u32) -> Duration {
        Duration { secs, nanos }
    }

    /// Ranges of the two parts of a well-formed span.
    pub proof fn lemma_parts(self)
        requires
            self.wf(),
        ensures
            0 <= self.secs() <= u64::MAX,
            0 <= self.subsec() < 1_000_000_000,
            self.as_nanos() >= 0,
            self == Duration::from_parts(self.secs() as u64, self.subsec() as u32),
    {
    }

    /// The parts of a span built from parts.
    pub proof fn lemma_from_parts(secs: u64, nanos: u32)
        ensures
            Duration::from_parts(secs, nanos).secs() == secs,
            Duration::from_parts(secs, nanos).subsec() == nanos,
            Duration::from_parts(secs, nanos).wf() <==> nanos < 1_000_000_000,
    {
    }

    /// Two well-formed spans of the same length are the same value.
    pub proof fn lemma_as_nanos_injective(a: Duration, b: Duration)
        requires
            a.wf(),
            b.wf(),
            a.as_nanos() == b.as_nanos(),
        ensures
            a == b,
    {
    }

    /// Creates a span from a number of seconds and of nanoseconds. A number
    /// of nanoseconds of one second or more is carried over into the seconds.
    pub fn new(secs: u64, nanos: u32) -> (d: Duration)
        requires
            secs + nanos / 1_000_000_000 <= u64::MAX,
        ensures
            d.wf(),
            d.as_nanos() == secs * 1_000_000_000 + nanos,
            d.secs() == secs + nanos / 1_000_000_000,
            d.subsec() == nanos % 1_000_000_000,
    {
        let carry: u32 = nanos / NANOS_PER_SEC;
        let rest: u32 = nanos % NANOS_PER_SEC;
        Duration { secs: secs + carry as u64, nanos: rest }
    }

    /// The empty span.
    pub fn zero() -> (d: Duration)
        ensures
            d.wf(),
            d.as_nanos() == 0,
            d.secs() == 0,
            d.subsec() == 0,
    {
        Duration { secs: 0, nanos: 0 }
    }

    /// A span of whole seconds.
    pub fn from_secs(secs: u64) -> (d: Duration)
        ensures
            d.wf(),
            d.as_nanos() == secs * 1_000_000_000,
            d.secs() == secs,
            d.subsec() == 0,
    {
        Duration { secs, nanos: 0 }
    }

    /// Whole seconds of the span.
    pub fn as_secs(&self) -> (s: u64)
        ensures
            s == self.secs(),
    {
        self.secs
    }

    /// Sub-second part of the span, in nanoseconds.
    pub fn subsec_nanos(&self) -> (n: u32)
        ensures
            n == self.subsec(),
            n < 1_000_000_000,
    {
        proof {
            use_type_invariant(self);
        }
        self.nanos
    }

    /// Whether the span is empty.
    pub fn is_zero(&self) -> (z: bool)
        ensures
            z <==> self.as_nanos() == 0,
    {
        self.secs == 0 && self.nanos == 0
    }
}

/// A point on the simulation clock: whole seconds since the epoch
/// (1970-01-01 00:00:00 TAI) and a sub-second part that always points
/// towards the future.
#[derive(Clone, Copy, Debug, PartialEq, Eq, PartialOrd, Ord, Hash, Structural)]
pub struct MonotonicTime {
    secs: i64,
    nanos: u32,
}

impl MonotonicTime {
    #[verifier::type_invariant]
    pub open spec fn inv(self) -> bool {
        self.wf()
    }

    /// The sub-second part is below one second.
    pub closed spec fn wf(self) -> bool {
        self.nanos < NANOS_PER_SEC
    }

    /// Whole seconds since the epoch.
    pub closed spec fn secs(self) -> int {
        self.secs as int
    }

    /// Sub-second part, in nanoseconds.
    pub closed spec fn subsec(self) -> int {
        self.nanos as int
    }

    /// The timestamp as a number of nanoseconds since the epoch.
    pub open spec fn as_nanos(self) -> int {
        self.secs() * 1_000_000_000 + self.subsec()
    }

    /// The timestamp of `secs` seconds and `nanos` nanoseconds.
    pub closed spec fn from_parts(secs: i64, nanos: u32) -> MonotonicTime {
        MonotonicTime { secs, nanos }
    }

    /// Number of nanoseconds of the latest timestamp.
    pub open spec fn max_nanos() -> int {
        i64::MAX * 1_000_000_000 + 999_999_999
    }

    /// Ranges of the two parts of a well-formed timestamp.
    pub proof fn lemma_parts(self)
        requires
            self.wf(),
        ensures
            i64::MIN <= self.secs() <= i64::MAX,
            0 <= self.subsec() < 1_000_000_000,
            self.as_nanos() <= MonotonicTime::max_nanos(),
            self == MonotonicTime::from_parts(self.secs() as i64, self.subsec() as u32),
    {
    }

    /// The parts of a timestamp built from parts.
    pub proof fn lemma_from_parts(secs: i64, nanos: u32)
        ensures
            MonotonicTime::from_parts(secs, nanos).secs() == secs,
            MonotonicTime::from_parts(secs, nanos).subsec() == nanos,
            MonotonicTime::from_parts(secs, nanos).wf() <==> nanos < 1_000_000_000,
    {
    }

    /// Two well-formed timestamps at the same nanosecond are the same value.
    pub proof fn lemma_as_nanos_injective(a: MonotonicTime, b: MonotonicTime)
        requires
            a.wf(),
            b.wf(),
            a.as_nanos() == b.as_nanos(),
        ensures
            a == b,
    {
    }

    /// The epoch: the null timestamp.
    pub fn epoch() -> (t: MonotonicTime)
        ensures
            t.wf(),
            t.secs() == 0,
            t.subsec() == 0,
            t.as_nanos() == 0,
    {
        MonotonicTime { secs: 0, nanos: 0 }
    }

    /// The latest timestamp that can be represented.
    pub open spec fn latest() -> MonotonicTime {
        MonotonicTime::from_parts(i64::MAX, 999_999_999)
    }

    /// The latest timestamp that can be represented.
    pub fn max() -> (t: MonotonicTime)
        ensures
            t == MonotonicTime::latest(),
            t.wf(),
            t.secs() == i64::MAX,
            t.subsec() == 999_999_999,
            t.as_nanos() == MonotonicTime::max_nanos(),
    {
        MonotonicTime { secs: i64::MAX, nanos: 999_999_999 }
    }

    /// Creates a timestamp from its parts, or nothing when the number of
    /// nanoseconds is one second or more.
    pub fn new(secs: i64, subsec_nanos: u32) -> (r: Option<MonotonicTime>)
        ensures
            r.is_some() <==> subsec_nanos < 1_000_000_000,
            r matches Some(t) ==> t == MonotonicTime::from_parts(secs, subsec_nanos) && t.wf()
                && t.secs() == secs && t.subsec() == subsec_nanos,
    {
        if subsec_nanos >= NANOS_PER_SEC {
            return None;
        }
        Some(MonotonicTime { secs, nanos: subsec_nanos })
    }

    /// Whole seconds since the epoch.
    pub fn as_secs(&self) -> (s: i64)
        ensures
            s == self.secs(),
    {
        self.secs
    }

    /// Sub-second part, in nanoseconds.
    pub fn subsec_nanos(&self) -> (n: u32)
        ensures
            n == self.subsec(),
            n < 1_000_000_000,
    {
        proof {
            use_type_invariant(self);
        }
        self.nanos
    }

    /// The timestamp that lies `rhs` after this one.
    pub open spec fn plus(self, rhs: Duration) -> MonotonicTime {
        let total = self.as_nanos() + rhs.as_nanos();
        MonotonicTime::from_parts((total / 1_000_000_000) as i64, (total % 1_000_000_000) as u32)
    }

    /// A sum that does not lie beyond the latest timestamp is a well-formed
    /// timestamp at the sum of the nanoseconds.
    pub proof fn lemma_plus(self, rhs: Duration)
        requires
            self.wf(),
            rhs.wf(),
            self.as_nanos() + rhs.as_nanos() <= MonotonicTime::max_nanos(),
        ensures
            self.plus(rhs).wf(),
            self.plus(rhs).as_nanos() == self.as_nanos() + rhs.as_nanos(),
    {
        let total = self.as_nanos() + rhs.as_nanos();
        let q = total / 1_000_000_000;
        let r = total % 1_000_000_000;
        assert(total == q * 1_000_000_000 + r && 0 <= r < 1_000_000_000);
        assert(i64::MIN <= q <= i64::MAX);
    }

    /// Adds a span to the timestamp, or gives nothing when the sum lies
    /// beyond the latest timestamp.
    pub fn checked_add(self, rhs: Duration) -> (r: Option<MonotonicTime>)
        ensures
            r.is_some() <==> self.as_nanos() + rhs.as_nanos() <= MonotonicTime::max_nanos(),
            r matches Some(t) ==> t.wf() && t.as_nanos() == self.as_nanos() + rhs.as_nanos() && t
                == self.plus(rhs),
    {
        proof {
            use_type_invariant(self);
            use_type_invariant(rhs);
            if self.as_nanos() + rhs.as_nanos() <= MonotonicTime::max_nanos() {
                self.lemma_plus(rhs);
            }
        }
        let mut nanos: u32 = self.nanos + rhs.nanos;
        let mut carry: i128 = 0;
        if nanos >= NANOS_PER_SEC {
            nanos = nanos - NANOS_PER_SEC;
            carry = 1;
        }
        let total: i128 = self.secs as i128 + rhs.secs as i128 + carry;
        if total > i64::MAX as i128 {
            return None;
        }
        Some(MonotonicTime { secs: total as i64, nanos })
    }

    /// Whether this timestamp lies strictly before `other`.
    pub fn lt(&self, other: &MonotonicTime) -> (b: bool)
        ensures
            b <==> self.as_nanos() < other.as_nanos(),
    {
        proof {
            use_type_invariant(self);
            use_type_invariant(other);
        }
        self.secs < other.secs || (self.secs == other.secs && self.nanos < other.nanos)
    }

    /// Whether this timestamp lies before `other` or is `other`.
    pub fn le(&self, other: &MonotonicTime) -> (b: bool)
        ensures
            b <==> self.as_nanos() <= other.as_nanos(),
    {
        proof {
            use_type_invariant(self);
            use_type_invariant(other);
        }
        self.secs < other.secs || (self.secs == other.secs && self.nanos <= other.nanos)
    }

    /// Whether the two timestamps are the same instant.
    pub fn same(&self, other: &MonotonicTime) -> (b: bool)
        ensures
            b <==> *self == *other,
            b <==> self.as_nanos() == other.as_nanos(),
    {
        proof {
            use_type_invariant(self);
            use_type_invariant(other);
        }
        self.secs == other.secs && self.nanos == other.nanos
    }
}

} // verus!

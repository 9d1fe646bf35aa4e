//! Time-ordered queue of the actions that are waiting to fire.
//!
//! Every entry is keyed by its firing time, by its insertion number and by
//! the channel (the mailbox) it is aimed at. The queue always yields the
//! entry with the smallest key, so that entries fire in chronological order
//! and, among entries of the same time, in the order in which they were
//! inserted. Cancelling an entry sets a flag on it; the entry keeps its
//! place and is yielded with the flag when its time has come.
use vstd::prelude::*;
use crate::time::{Duration, MonotonicTime};

verus! {

/// Key of a queue entry: firing time, insertion number, target channel.
#[derive(Clone, Copy, Debug, PartialEq, Eq, Structural)]
pub struct SchedulerKey {
    pub time: MonotonicTime,
    pub seq: u64,
    pub channel: usize,
}

/// A pending action with its key. A periodic action also carries the span
/// after which it fires again. A cancelled action stays in the queue with
/// its flag set: when its time has come it is taken out and does nothing.
pub struct Entry<A> {
    pub key: SchedulerKey,
    pub period: Option<Duration>,
    pub action: A,
    pub cancelled: bool,
}

/// Lexicographic order on keys: by time, then by insertion number, then by
/// channel.
pub open spec fn key_before(a: SchedulerKey, b: SchedulerKey) -> bool {
    ||| a.time.as_nanos() < b.time.as_nanos()
    ||| (a.time.as_nanos() == b.time.as_nanos() && a.seq < b.seq)
    ||| (a.time.as_nanos() == b.time.as_nanos() && a.seq == b.seq && a.channel < b.channel)
}

/// Every entry comes strictly before the entries behind it.
pub open spec fn sorted<A>(s: Seq<Entry<A>>) -> bool {
    forall|i: int, j: int| 0 <= i < j < s.len() ==> key_before(#[trigger] s[i].key, #[trigger] s[j].key)
}

/// No two entries share an insertion number.
pub open spec fn distinct_seqs<A>(s: Seq<Entry<A>>) -> bool {
    forall|i: int, j: int| 0 <= i < j < s.len() ==> (#[trigger] s[i]).key.seq != (#[trigger] s[j]).key.seq
}

/// Whether some entry carries the insertion number `seq`.
pub open spec fn has_seq<A>(s: Seq<Entry<A>>, seq: u64) -> bool {
    exists|i: int| 0 <= i < s.len() && (#[trigger] s[i]).key.seq == seq
}

/// Every timestamp and period held by the entries is well-formed, and every
/// period is strictly positive.
pub open spec fn entries_valid<A>(s: Seq<Entry<A>>) -> bool {
    forall|i: int| 0 <= i < s.len() ==> entry_valid(#[trigger] s[i])
}

/// The timestamp and the period of one entry are well-formed.
pub open spec fn entry_valid<A>(e: Entry<A>) -> bool {
    &&& e.key.time.wf()
    &&& e.period matches Some(p) ==> p.wf() && p.as_nanos() > 0
}

/// What holds of the entries of every queue: `next_seq` is the insertion
/// number that the next new entry gets.
pub open spec fn queue_wf<A>(s: Seq<Entry<A>>, next_seq: u64) -> bool {
    &&& sorted(s)
    &&& distinct_seqs(s)
    &&& entries_valid(s)
    &&& forall|i: int| 0 <= i < s.len() ==> (#[trigger] s[i]).key.seq < next_seq
}

/// Number of entries of `s` that come before `key`: the place of an entry
/// with that key among them.
pub open spec fn rank<A>(s: Seq<Entry<A>>, key: SchedulerKey) -> int
    decreases s.len(),
{
    if s.len() == 0 {
        0
    } else {
        rank(s.drop_last(), key) + if key_before(s.last().key, key) {
            1int
        } else {
            0int
        }
    }
}

/// The entries after `e` took its place among them.
pub open spec fn with_entry<A>(s: Seq<Entry<A>>, e: Entry<A>) -> Seq<Entry<A>> {
    s.insert(rank(s, e.key), e)
}

/// Two keys with distinct insertion numbers are ordered one way or the other.
pub proof fn lemma_key_total(a: SchedulerKey, b: SchedulerKey)
    requires
        a.seq != b.seq,
    ensures
        key_before(a, b) || key_before(b, a),
        !(key_before(a, b) && key_before(b, a)),
{
}

/// The order on keys is transitive.
pub proof fn lemma_key_transitive(a: SchedulerKey, b: SchedulerKey, c: SchedulerKey)
    requires
        key_before(a, b),
        key_before(b, c),
    ensures
        key_before(a, c),
{
}

/// The rank of a key lies within the entries.
pub proof fn lemma_rank_bounds<A>(s: Seq<Entry<A>>, key: SchedulerKey)
    ensures
        0 <= rank(s, key) <= s.len(),
    decreases s.len(),
{
    if s.len() > 0 {
        lemma_rank_bounds(s.drop_last(), key);
    }
}

/// In sorted entries exactly the entries below the rank of a key come before
/// that key.
pub proof fn lemma_rank_splits<A>(s: Seq<Entry<A>>, key: SchedulerKey)
    requires
        sorted(s),
    ensures
        0 <= rank(s, key) <= s.len(),
        forall|j: int| 0 <= j < rank(s, key) ==> key_before((#[trigger] s[j]).key, key),
        forall|j: int| rank(s, key) <= j < s.len() ==> !key_before((#[trigger] s[j]).key, key),
    decreases s.len(),
{
    if s.len() > 0 {
        let t = s.drop_last();
        let n = s.len() - 1;
        assert forall|i: int, j: int| 0 <= i < j < t.len() implies key_before(
            #[trigger] t[i].key,
            #[trigger] t[j].key,
        ) by {
            assert(t[i] == s[i] && t[j] == s[j]);
        }
        lemma_rank_splits(t, key);
        let r = rank(t, key);
        if key_before(s[n].key, key) {
            assert forall|j: int| 0 <= j < n implies key_before((#[trigger] s[j]).key, key) by {
                lemma_key_transitive(s[j].key, s[n].key, key);
            }
            if r < n {
                assert(t[r] == s[r]);
                assert(!key_before(t[r].key, key));
            }
            assert(r == n);
        } else {
            assert forall|j: int| 0 <= j < r implies key_before((#[trigger] s[j]).key, key) by {
                assert(t[j] == s[j]);
            }
            assert forall|j: int| r <= j < s.len() implies !key_before((#[trigger] s[j]).key, key) by {
                if j < n {
                    assert(t[j] == s[j]);
                }
            }
        }
    }
}

/// Placing a valid entry with a fresh insertion number keeps the entries
/// well-formed.
pub proof fn lemma_with_entry_wf<A>(s: Seq<Entry<A>>, next_seq: u64, e: Entry<A>, bound: u64)
    requires
        queue_wf(s, next_seq),
        entry_valid(e),
        !has_seq(s, e.key.seq),
        next_seq <= bound,
        e.key.seq < bound,
    ensures
        queue_wf(with_entry(s, e), bound),
        with_entry(s, e).len() == s.len() + 1,
        has_seq(with_entry(s, e), e.key.seq),
{
    lemma_rank_splits(s, e.key);
    let r = rank(s, e.key);
    let t = with_entry(s, e);
    assert(t[r] == e);
    assert forall|j: int| r <= j < s.len() implies key_before(e.key, (#[trigger] s[j]).key) by {
        assert(s[j].key.seq != e.key.seq);
        lemma_key_total(s[j].key, e.key);
    }
    assert forall|i: int, j: int| 0 <= i < j < t.len() implies key_before(
        #[trigger] t[i].key,
        #[trigger] t[j].key,
    ) by {
        if j < r {
            assert(t[i] == s[i] && t[j] == s[j]);
        } else if j == r {
            assert(t[i] == s[i]);
        } else if i < r {
            assert(t[i] == s[i] && t[j] == s[j - 1]);
        } else if i == r {
            assert(t[j] == s[j - 1]);
        } else {
            assert(t[i] == s[i - 1] && t[j] == s[j - 1]);
        }
    }
    assert forall|i: int| 0 <= i < t.len() implies entry_valid(#[trigger] t[i]) && t[i].key.seq
        < bound by {
        if i < r {
            assert(t[i] == s[i]);
        } else if i > r {
            assert(t[i] == s[i - 1]);
        }
    }
    assert forall|i: int, j: int| 0 <= i < j < t.len() implies (#[trigger] t[i]).key.seq != (
    #[trigger] t[j]).key.seq by {
        if j < r {
            assert(t[i] == s[i] && t[j] == s[j]);
        } else if j == r {
            assert(t[i] == s[i]);
        } else if i < r {
            assert(t[i] == s[i] && t[j] == s[j - 1]);
        } else if i == r {
            assert(t[j] == s[j - 1]);
        } else {
            assert(t[i] == s[i - 1] && t[j] == s[j - 1]);
        }
    }
}

/// Taking one entry away keeps the entries well-formed.
pub proof fn lemma_remove_wf<A>(s: Seq<Entry<A>>, next_seq: u64, i: int)
    requires
        queue_wf(s, next_seq),
        0 <= i < s.len(),
    ensures
        queue_wf(s.remove(i), next_seq),
        !has_seq(s.remove(i), s[i].key.seq),
        forall|seq: u64| seq != s[i].key.seq ==> (has_seq(s.remove(i), seq) <==> has_seq(s, seq)),
{
    let t = s.remove(i);
    assert forall|a: int| 0 <= a < t.len() implies #[trigger] t[a] == s[if a < i {
        a
    } else {
        a + 1
    }] by {}
    assert forall|a: int, b: int| 0 <= a < b < t.len() implies key_before(
        #[trigger] t[a].key,
        #[trigger] t[b].key,
    ) by {
        let a2 = if a < i { a } else { a + 1 };
        let b2 = if b < i { b } else { b + 1 };
        assert(t[a] == s[a2] && t[b] == s[b2]);
    }
    assert forall|a: int, b: int| 0 <= a < b < t.len() implies (#[trigger] t[a]).key.seq != (
    #[trigger] t[b]).key.seq by {
        let a2 = if a < i { a } else { a + 1 };
        let b2 = if b < i { b } else { b + 1 };
        assert(t[a] == s[a2] && t[b] == s[b2]);
    }
    assert forall|a: int| 0 <= a < t.len() implies entry_valid(#[trigger] t[a]) && t[a].key.seq
        < next_seq by {
        let a2 = if a < i { a } else { a + 1 };
        assert(t[a] == s[a2]);
    }
    if has_seq(t, s[i].key.seq) {
        let a = choose|a: int| 0 <= a < t.len() && (#[trigger] t[a]).key.seq == s[i].key.seq;
        let a2 = if a < i { a } else { a + 1 };
        assert(t[a] == s[a2]);
        assert(s[a2].key.seq == s[i].key.seq);
        if a2 < i {
            assert(s[a2].key.seq != s[i].key.seq);
        } else {
            assert(s[i].key.seq != s[a2].key.seq);
        }
    }
    assert forall|seq: u64| seq != s[i].key.seq implies (has_seq(t, seq) <==> has_seq(s, seq)) by {
        if has_seq(t, seq) {
            let a = choose|a: int| 0 <= a < t.len() && (#[trigger] t[a]).key.seq == seq;
            let a2 = if a < i { a } else { a + 1 };
            assert(t[a] == s[a2]);
            assert(s[a2].key.seq == seq);
        }
        if has_seq(s, seq) {
            let b = choose|b: int| 0 <= b < s.len() && (#[trigger] s[b]).key.seq == seq;
            let b2 = if b < i { b } else { b - 1 };
            assert(t[b2] == s[b]);
            assert(t[b2].key.seq == seq);
        }
    }
}

/// First scheduled, first fired.
///
/// Of two pending entries, the one with the smaller insertion number fires
/// first unless the other one is scheduled for an earlier time. So entries
/// of one time, and with them the entries of one time and one channel, fire
/// in the order in which they were inserted.
pub proof fn lemma_insertion_order<A>(s: Seq<Entry<A>>, next_seq: u64, i: int, j: int)
    requires
        queue_wf(s, next_seq),
        0 <= i < s.len(),
        0 <= j < s.len(),
        s[i].key.seq < s[j].key.seq,
        s[i].key.time.as_nanos() <= s[j].key.time.as_nanos(),
    ensures
        i < j,
{
    if j < i {
        assert(key_before(s[j].key, s[i].key));
    }
}

/// The entry with its cancellation flag set.
pub open spec fn flagged<A>(e: Entry<A>) -> Entry<A> {
    Entry { key: e.key, period: e.period, action: e.action, cancelled: true }
}

/// The entries after the one that carries the insertion number `seq`, if
/// there is one, had its cancellation flag set.
pub open spec fn marked<A>(s: Seq<Entry<A>>, seq: u64) -> Seq<Entry<A>> {
    Seq::new(
        s.len(),
        |i: int|
            if s[i].key.seq == seq {
                flagged(s[i])
            } else {
                s[i]
            },
    )
}

/// Setting a cancellation flag keeps the entries well-formed and changes no
/// key.
pub proof fn lemma_marked_wf<A>(s: Seq<Entry<A>>, next_seq: u64, seq: u64)
    requires
        queue_wf(s, next_seq),
    ensures
        queue_wf(marked(s, seq), next_seq),
        marked(s, seq).len() == s.len(),
        forall|i: int| 0 <= i < s.len() ==> (#[trigger] marked(s, seq)[i]).key == s[i].key,
        forall|other: u64| has_seq(marked(s, seq), other) <==> has_seq(s, other),
        !has_seq(s, seq) ==> marked(s, seq) == s,
{
    let t = marked(s, seq);
    assert forall|i: int, j: int| 0 <= i < j < t.len() implies key_before(#[trigger] t[i].key, #[trigger] t[j].key) by {
        assert(t[i].key == s[i].key && t[j].key == s[j].key);
    }
    assert forall|i: int, j: int| 0 <= i < j < t.len() implies (#[trigger] t[i]).key.seq != (#[trigger] t[j]).key.seq by {
        assert(t[i].key == s[i].key && t[j].key == s[j].key);
    }
    assert forall|i: int| 0 <= i < t.len() implies entry_valid(#[trigger] t[i]) && t[i].key.seq < next_seq by {
        assert(t[i].key == s[i].key && t[i].period == s[i].period);
        assert(entry_valid(s[i]));
    }
    assert forall|other: u64| has_seq(t, other) <==> has_seq(s, other) by {
        if has_seq(t, other) {
            let a = choose|a: int| 0 <= a < t.len() && (#[trigger] t[a]).key.seq == other;
            assert(s[a].key.seq == other);
        }
        if has_seq(s, other) {
            let a = choose|a: int| 0 <= a < s.len() && (#[trigger] s[a]).key.seq == other;
            assert(t[a].key.seq == other);
        }
    }
    if !has_seq(s, seq) {
        assert forall|i: int| 0 <= i < s.len() implies #[trigger] t[i] == s[i] by {
            if s[i].key.seq == seq {
                assert(has_seq(s, seq));
            }
        }
        assert(t =~= s);
    }
}

/// Placing an entry adds its insertion number to those of the entries and
/// changes nothing else.
pub proof fn lemma_with_entry_seqs<A>(s: Seq<Entry<A>>, e: Entry<A>, seq: u64)
    ensures
        has_seq(with_entry(s, e), seq) <==> has_seq(s, seq) || seq == e.key.seq,
{
    lemma_rank_bounds(s, e.key);
    let r = rank(s, e.key);
    let t = with_entry(s, e);
    assert(t[r] == e);
    if has_seq(t, seq) {
        let a = choose|a: int| 0 <= a < t.len() && (#[trigger] t[a]).key.seq == seq;
        if a < r {
            assert(t[a] == s[a]);
            assert(s[a].key.seq == seq);
        } else if a > r {
            assert(t[a] == s[a - 1]);
            assert(s[a - 1].key.seq == seq);
        }
    }
    if has_seq(s, seq) {
        let b = choose|b: int| 0 <= b < s.len() && (#[trigger] s[b]).key.seq == seq;
        let b2 = if b < r { b } else { b + 1 };
        assert(t[b2] == s[b]);
        assert(t[b2].key.seq == seq);
    }
    if seq == e.key.seq {
        assert(t[r].key.seq == seq);
    }
}

/// Cancelling a freshly placed entry leaves the entries as if the entry had
/// been placed with its cancellation flag set.
pub proof fn lemma_marked_placed<A>(s: Seq<Entry<A>>, e: Entry<A>)
    requires
        !has_seq(s, e.key.seq),
    ensures
        marked(with_entry(s, e), e.key.seq) == with_entry(s, flagged(e)),
{
    lemma_rank_bounds(s, e.key);
    let r = rank(s, e.key);
    let t = with_entry(s, e);
    let m = marked(t, e.key.seq);
    let w = with_entry(s, flagged(e));
    assert(t[r] == e);
    assert forall|i: int| 0 <= i < m.len() implies #[trigger] m[i] == w[i] by {
        if i < r {
            assert(t[i] == s[i]);
            if s[i].key.seq == e.key.seq {
                assert(has_seq(s, e.key.seq));
            }
        } else if i > r {
            assert(t[i] == s[i - 1]);
            if s[i - 1].key.seq == e.key.seq {
                assert(has_seq(s, e.key.seq));
            }
        }
    }
    assert(m =~= w);
}

/// Whether `a` comes before `b` in the order of the queue.
pub fn key_precedes(a: &SchedulerKey, b: &SchedulerKey) -> (r: bool)
    ensures
        r == key_before(*a, *b),
{
    if a.time.lt(&b.time) {
        true
    } else if b.time.lt(&a.time) {
        false
    } else {
        a.seq < b.seq || (a.seq == b.seq && a.channel < b.channel)
    }
}

/// The queue of pending actions, smallest key first.
pub struct SchedulerQueue<A> {
    entries: Vec<Entry<A>>,
    next_seq: u64,
}

impl<A> View for SchedulerQueue<A> {
    type V = Seq<Entry<A>>;

    /// The pending entries, in the order in which they fire.
    closed spec fn view(&self) -> Seq<Entry<A>> {
        self.entries@
    }
}

impl<A> SchedulerQueue<A> {
    /// The insertion number that the next new entry gets.
    pub closed spec fn next_seq(&self) -> u64 {
        self.next_seq
    }

    /// The entries are sorted, valid, and numbered below `next_seq`.
    pub open spec fn wf(&self) -> bool {
        queue_wf(self@, self.next_seq())
    }

    /// Creates an empty queue.
    pub fn new() -> (q: Self)
        ensures
            q@ == Seq::<Entry<A>>::empty(),
            q.next_seq() == 0,
            q.wf(),
    {
        SchedulerQueue { entries: Vec::new(), next_seq: 0 }
    }

    /// Number of pending entries.
    pub fn len(&self) -> (n: usize)
        ensures
            n == self@.len(),
    {
        self.entries.len()
    }

    /// Whether no entry is pending.
    pub fn is_empty(&self) -> (b: bool)
        ensures
            b <==> self@.len() == 0,
    {
        self.entries.len() == 0
    }

    /// Whether the queue can still number a new entry.
    pub fn has_capacity(&self) -> (b: bool)
        ensures
            b <==> self.next_seq() < u64::MAX,
    {
        self.next_seq < u64::MAX
    }

    /// Key of the entry that fires next, if any.
    pub fn peek_key(&self) -> (r: Option<SchedulerKey>)
        ensures
            self@.len() == 0 ==> r.is_none(),
            self@.len() > 0 ==> r == Some(self@[0].key),
    {
        if self.entries.len() == 0 {
            None
        } else {
            Some(self.entries[0].key)
        }
    }

    /// Removes and returns the entry that fires next, if any. A cancelled
    /// entry is yielded like any other, with its flag set.
    pub fn pull(&mut self) -> (r: Option<Entry<A>>)
        requires
            old(self).wf(),
        ensures
            final(self).wf(),
            final(self).next_seq() == old(self).next_seq(),
            old(self)@.len() == 0 ==> r.is_none() && final(self)@ == old(self)@,
            old(self)@.len() > 0 ==> r == Some(old(self)@[0]) && final(self)@ == old(self)@.skip(1),
    {
        if self.entries.len() == 0 {
            None
        } else {
            proof {
                lemma_remove_wf(self.entries@, self.next_seq, 0);
                assert(self.entries@.remove(0) =~= self.entries@.skip(1));
            }
            let e = self.entries.remove(0);
            Some(e)
        }
    }

    /// Inserts a new entry and returns the insertion number it was given.
    ///
    /// The new entry fires after every pending entry of an earlier or the
    /// same time, and before every pending entry of a later time.
    pub fn insert(&mut self, time: MonotonicTime, channel: usize, period: Option<Duration>, action: A) -> (seq: u64)
        requires
            old(self).wf(),
            old(self).next_seq() < u64::MAX,
            period matches Some(p) ==> p.as_nanos() > 0,
        ensures
            final(self).wf(),
            seq == old(self).next_seq(),
            final(self).next_seq() == seq + 1,
            final(self)@ == with_entry(
                old(self)@,
                (Entry { key: (SchedulerKey { time, seq, channel }), period, action, cancelled: false }),
            ),
    {
        proof {
            use_type_invariant(time);
            if let Some(p) = period {
                use_type_invariant(p);
            }
        }
        let seq = self.next_seq;
        let key = SchedulerKey { time, seq, channel };
        let entry = Entry { key, period, action, cancelled: false };
        let ghost old_entries = self.entries@;
        proof {
            assert(!has_seq(old_entries, seq));
            lemma_with_entry_wf(old_entries, seq, entry, (seq + 1) as u64);
        }
        let at = Self::find_rank(&self.entries, &key);
        self.next_seq = seq + 1;
        self.entries.insert(at, entry);
        seq
    }

    /// Puts back an entry that was pulled earlier, under a new firing time.
    /// The entry keeps its insertion number.
    pub fn reinsert(&mut self, entry: Entry<A>)
        requires
            old(self).wf(),
            entry.key.seq < old(self).next_seq(),
            !has_seq(old(self)@, entry.key.seq),
            entry.period matches Some(p) ==> p.as_nanos() > 0,
        ensures
            final(self).wf(),
            final(self).next_seq() == old(self).next_seq(),
            final(self)@ == with_entry(old(self)@, entry),
    {
        proof {
            use_type_invariant(entry.key.time);
            if let Some(p) = entry.period {
                use_type_invariant(p);
            }
            lemma_with_entry_wf(self.entries@, self.next_seq, entry, self.next_seq);
        }
        let at = Self::find_rank(&self.entries, &entry.key);
        self.entries.insert(at, entry);
    }

    /// Index at which an entry with the key `key` belongs.
    fn find_rank(entries: &Vec<Entry<A>>, key: &SchedulerKey) -> (at: usize)
        requires
            sorted(entries@),
        ensures
            at == rank(entries@, *key),
            at <= entries@.len(),
    {
        let mut at: usize = 0;
        while at < entries.len() && key_precedes(&entries[at].key, key)
            invariant
                at <= entries@.len(),
                forall|j: int| 0 <= j < at ==> key_before((#[trigger] entries@[j]).key, *key),
            decreases entries@.len() - at,
        {
            at = at + 1;
        }
        proof {
            lemma_rank_splits(entries@, *key);
            let r = rank(entries@, *key);
            if at < r {
                assert(key_before(entries@[at as int].key, *key));
            }
            if r < at {
                assert(key_before(entries@[r].key, *key));
            }
        }
        at
    }

    /// Whether an entry with the insertion number `seq` is pending.
    pub fn contains_seq(&self, seq: u64) -> (b: bool)
        ensures
            b <==> has_seq(self@, seq),
    {
        let mut i: usize = 0;
        while i < self.entries.len()
            invariant
                i <= self.entries@.len(),
                forall|j: int| 0 <= j < i ==> (#[trigger] self.entries@[j]).key.seq != seq,
            decreases self.entries@.len() - i,
        {
            if self.entries[i].key.seq == seq {
                return true;
            }
            i = i + 1;
        }
        false
    }

    /// Cancels the pending entry with the insertion number `seq`: the entry
    /// stays where it is with its cancellation flag set. Returns whether
    /// such an entry was pending.
    pub fn cancel_by(&mut self, seq: u64) -> (found: bool)
        requires
            old(self).wf(),
        ensures
            final(self).wf(),
            final(self).next_seq() == old(self).next_seq(),
            found <==> has_seq(old(self)@, seq),
            final(self)@ == marked(old(self)@, seq),
    {
        let mut i: usize = 0;
        while i < self.entries.len()
            invariant
                i <= self.entries@.len(),
                self.entries@ == old(self).entries@,
                self.next_seq == old(self).next_seq,
                queue_wf(self.entries@, self.next_seq),
                forall|j: int| 0 <= j < i ==> (#[trigger] self.entries@[j]).key.seq != seq,
            decreases self.entries@.len() - i,
        {
            if self.entries[i].key.seq == seq {
                let ghost before = self.entries@;
                let mut entry = self.entries.remove(i);
                entry.cancelled = true;
                self.entries.insert(i, entry);
                proof {
                    lemma_marked_wf(before, self.next_seq, seq);
                    assert forall|j: int| 0 <= j < before.len() implies #[trigger] self.entries@[j] == marked(
                        before,
                        seq,
                    )[j] by {
                        if j < i {
                            assert(before[j].key.seq != before[i as int].key.seq);
                        } else if j > i {
                            assert(before[i as int].key.seq != before[j].key.seq);
                        }
                    }
                    assert(self.entries@ =~= marked(before, seq));
                }
                return true;
            }
            i = i + 1;
        }
        proof {
            lemma_marked_wf(self.entries@, self.next_seq, seq);
        }
        false
    }
}

} // verus!

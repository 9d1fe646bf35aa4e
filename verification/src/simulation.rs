//! The simulation driver.
//!
//! A [`Simulation`] owns the simulation clock, the queue of scheduled
//! actions and the registry of cancellation keys. It decides how simulation
//! time advances: each step moves the clock to the time of the next
//! scheduled action and hands out, as one [`Slice`], every action scheduled
//! for that time. All actions of one slice that are aimed at the same
//! channel are chained into a single [`Task`], so that they are processed
//! one after the other in the order in which they were scheduled.
//!
//! The driver never runs an action itself. The embedding program runs the
//! tasks of a slice to completion before it asks for the next step.
use vstd::prelude::*;
use crate::key_registry::{
    expired, extracted, inserted, lemma_expire_safe, lemma_extract_safe, lemma_insert_safe, live,
    lookup, next_id, slots_wf, KeyId, KeyRegistry, KeySlot, SlotState,
};
use crate::scheduler_queue::{
    entry_valid, flagged, has_seq, lemma_marked_placed, lemma_marked_wf, lemma_rank_bounds,
    lemma_with_entry_seqs, marked, queue_wf, rank, with_entry, Entry, SchedulerKey, SchedulerQueue,
};
use crate::time::{Duration, MonotonicTime};

verus! {

/// Actions aimed at one channel, to be processed one after the other in the
/// order given.
pub struct Task<A> {
    pub channel: usize,
    pub actions: Vec<A>,
}

/// Everything that fires at one simulation time: one task for each channel
/// that an action of that time is aimed at. A slice whose actions were all
/// cancelled has no task.
pub struct Slice<A> {
    pub time: MonotonicTime,
    pub tasks: Vec<Task<A>>,
}

/// Error returned when a query did not obtain a response.
///
/// This happens when the model aimed at was not added to the simulation or
/// when the simulation ran into a deadlock.
#[derive(Debug, PartialEq, Eq, Clone, Copy)]
pub struct QueryError {}

impl QueryError {
    /// Text of the error.
    pub fn message(&self) -> (s: String)
        ensures
            s@ == "the query did not receive a response"@,
    {
        "the query did not receive a response".to_owned()
    }
}

/// Error returned when a time that must lie in the future of the current
/// simulation time does not. It gives back what was to be scheduled.
#[derive(Debug, PartialEq, Eq)]
pub struct ScheduledTimeError<T>(pub T);

/// Error returned when the key of a cancellation names no pending action:
/// the key was never given out, its action already fired, or the action was
/// cancelled before.
#[derive(Debug, PartialEq, Eq, Clone, Copy)]
pub struct CancellationError {}

/// Channel and actions of each task.
pub open spec fn task_views<A>(tasks: Seq<Task<A>>) -> Seq<(usize, Seq<A>)> {
    Seq::new(tasks.len(), |i: int| (tasks[i].channel, tasks[i].actions@))
}

/// Number of entries at the head of `s` that fire at the nanosecond `nanos`.
pub open spec fn co_temporal<A>(s: Seq<Entry<A>>, nanos: int) -> int
    decreases s.len(),
{
    if s.len() > 0 && s[0].key.time.as_nanos() == nanos {
        1 + co_temporal(s.skip(1), nanos)
    } else {
        0
    }
}

/// Index of the task of `channel` among the tasks, or the number of tasks if
/// none of them is for `channel`.
pub open spec fn task_index<A>(g: Seq<(usize, Seq<A>)>, channel: usize) -> int
    decreases g.len(),
{
    if g.len() == 0 {
        0
    } else if g[0].0 == channel {
        0
    } else {
        1 + task_index(g.skip(1), channel)
    }
}

/// The entries cut into tasks: one task for each channel, in the order in
/// which the channels first occur, each with the actions of all entries of
/// its channel in the order of the entries. Cancelled entries do nothing:
/// they are left out.
pub open spec fn grouped<A>(s: Seq<Entry<A>>) -> Seq<(usize, Seq<A>)>
    decreases s.len(),
{
    if s.len() == 0 {
        Seq::empty()
    } else if s.last().cancelled {
        grouped(s.drop_last())
    } else {
        let g = grouped(s.drop_last());
        let e = s.last();
        let i = task_index(g, e.key.channel);
        if i < g.len() {
            g.update(i, (e.key.channel, g[i].1.push(e.action)))
        } else {
            g.push((e.key.channel, Seq::empty().push(e.action)))
        }
    }
}

/// The actions of the entries aimed at `channel` that are not cancelled, in
/// the order of the entries.
pub open spec fn actions_on<A>(s: Seq<Entry<A>>, channel: usize) -> Seq<A>
    decreases s.len(),
{
    if s.len() == 0 {
        Seq::empty()
    } else if s.last().key.channel == channel && !s.last().cancelled {
        actions_on(s.drop_last(), channel).push(s.last().action)
    } else {
        actions_on(s.drop_last(), channel)
    }
}

/// No two tasks are for the same channel.
pub open spec fn distinct_channels<A>(g: Seq<(usize, Seq<A>)>) -> bool {
    forall|i: int, j: int| 0 <= i < j < g.len() ==> (#[trigger] g[i]).0 != (#[trigger] g[j]).0
}

/// Whether one of the tasks is for `channel`.
pub open spec fn has_task<A>(g: Seq<(usize, Seq<A>)>, channel: usize) -> bool {
    exists|i: int| 0 <= i < g.len() && (#[trigger] g[i]).0 == channel
}

/// Whether a periodic entry that fired fires again: it is not cancelled and
/// the time of its next firing can be represented.
pub open spec fn fires_again<A>(e: Entry<A>) -> bool {
    !e.cancelled && (e.period matches Some(p) && e.key.time.as_nanos() + p.as_nanos()
        <= MonotonicTime::max_nanos())
}

/// The entry under which a periodic entry that fired waits for its next
/// firing: one period later, under the same insertion number.
pub open spec fn next_firing<A>(e: Entry<A>) -> Entry<A> {
    Entry {
        key: SchedulerKey { time: e.key.time.plus(e.period.unwrap()), seq: e.key.seq, channel: e.key.channel },
        period: e.period,
        action: e.action,
        cancelled: false,
    }
}

/// The queue `q` after the fired entry `e` was put back if it fires again.
pub open spec fn rearm_one<A>(q: Seq<Entry<A>>, e: Entry<A>) -> Seq<Entry<A>> {
    if fires_again(e) {
        with_entry(q, next_firing(e))
    } else {
        q
    }
}

/// The queue `q` after each of the fired entries was put back if it fires
/// again, in the order in which they fired.
pub open spec fn rearmed<A>(q: Seq<Entry<A>>, fired: Seq<Entry<A>>) -> Seq<Entry<A>>
    decreases fired.len(),
{
    if fired.len() == 0 {
        q
    } else {
        rearm_one(rearmed(q, fired.drop_last()), fired.last())
    }
}

/// Whether the queue holds an entry that fires at `bound` or earlier.
pub open spec fn has_slice<A>(q: Seq<Entry<A>>, bound: MonotonicTime) -> bool {
    q.len() > 0 && q[0].key.time.as_nanos() <= bound.as_nanos()
}

/// Number of entries of the next slice of a queue that is not empty.
pub open spec fn slice_len<A>(q: Seq<Entry<A>>) -> int {
    co_temporal(q, q[0].key.time.as_nanos())
}

/// The entries of the next slice of a queue that is not empty: every entry
/// that fires at the time of the first one.
pub open spec fn slice_entries<A>(q: Seq<Entry<A>>) -> Seq<Entry<A>> {
    q.take(slice_len(q))
}

/// The queue after its next slice was taken out and the periodic entries of
/// the slice were put back.
pub open spec fn after_slice<A>(q: Seq<Entry<A>>) -> Seq<Entry<A>> {
    rearmed(q.skip(slice_len(q)), slice_entries(q))
}

/// Every entry fires strictly after `now`.
pub open spec fn in_future<A>(s: Seq<Entry<A>>, now: MonotonicTime) -> bool {
    forall|i: int| 0 <= i < s.len() ==> now.as_nanos() < (#[trigger] s[i]).key.time.as_nanos()
}

/// The head of the queue that fires at `nanos` ends at the first entry that
/// fires at another time.
pub proof fn lemma_co_temporal<A>(s: Seq<Entry<A>>, nanos: int, k: int)
    requires
        0 <= k <= s.len(),
        forall|i: int| 0 <= i < k ==> (#[trigger] s[i]).key.time.as_nanos() == nanos,
        k < s.len() ==> s[k].key.time.as_nanos() != nanos,
    ensures
        co_temporal(s, nanos) == k,
    decreases k,
{
    if k > 0 {
        let t = s.skip(1);
        assert(s[0].key.time.as_nanos() == nanos);
        assert forall|i: int| 0 <= i < k - 1 implies (#[trigger] t[i]).key.time.as_nanos() == nanos by {
            assert(t[i] == s[i + 1]);
        }
        if k - 1 < t.len() {
            assert(t[k - 1] == s[k]);
        }
        lemma_co_temporal(t, nanos, k - 1);
    }
}

/// The next slice of a well-formed queue: where it ends, and that every
/// entry behind it fires later.
pub proof fn lemma_slice_len<A>(q: Seq<Entry<A>>, next_seq: u64)
    requires
        queue_wf(q, next_seq),
        q.len() > 0,
    ensures
        1 <= slice_len(q) <= q.len(),
        forall|i: int| 0 <= i < slice_len(q) ==> (#[trigger] q[i]).key.time.as_nanos() == q[0].key.time.as_nanos(),
        forall|i: int| slice_len(q) <= i < q.len() ==> (#[trigger] q[i]).key.time.as_nanos() > q[0].key.time.as_nanos(),
{
    let nanos = q[0].key.time.as_nanos();
    lemma_co_temporal_bounds(q, nanos);
    let n = co_temporal(q, nanos);
    assert forall|i: int| n <= i < q.len() implies (#[trigger] q[i]).key.time.as_nanos() > nanos by {
        assert(q[n].key.time.as_nanos() != nanos);
        if n < i {
            assert(crate::scheduler_queue::key_before(q[n].key, q[i].key));
        }
        assert(crate::scheduler_queue::key_before(q[0].key, q[n].key));
    }
}

/// The head of the queue that fires at `nanos` lies within the queue, fires
/// at `nanos`, and is followed by an entry of another time or by nothing.
pub proof fn lemma_co_temporal_bounds<A>(s: Seq<Entry<A>>, nanos: int)
    ensures
        0 <= co_temporal(s, nanos) <= s.len(),
        s.len() > 0 && s[0].key.time.as_nanos() == nanos ==> co_temporal(s, nanos) >= 1,
        forall|i: int| 0 <= i < co_temporal(s, nanos) ==> (#[trigger] s[i]).key.time.as_nanos() == nanos,
        co_temporal(s, nanos) < s.len() ==> s[co_temporal(s, nanos)].key.time.as_nanos() != nanos,
    decreases s.len(),
{
    if s.len() > 0 && s[0].key.time.as_nanos() == nanos {
        let t = s.skip(1);
        lemma_co_temporal_bounds(t, nanos);
        let n = co_temporal(s, nanos);
        assert forall|i: int| 0 <= i < n implies (#[trigger] s[i]).key.time.as_nanos() == nanos by {
            if i > 0 {
                assert(t[i - 1] == s[i]);
            }
        }
        if n < s.len() {
            assert(t[n - 1] == s[n]);
        }
    }
}

/// Placing an entry that fires after `now` among entries that fire after
/// `now` leaves entries that fire after `now`.
pub proof fn lemma_with_entry_in_future<A>(q: Seq<Entry<A>>, e: Entry<A>, now: MonotonicTime)
    requires
        in_future(q, now),
        now.as_nanos() < e.key.time.as_nanos(),
    ensures
        in_future(with_entry(q, e), now),
{
    lemma_rank_bounds(q, e.key);
    let r = rank(q, e.key);
    let t = with_entry(q, e);
    assert forall|i: int| 0 <= i < t.len() implies now.as_nanos() < (#[trigger] t[i]).key.time.as_nanos() by {
        if i < r {
            assert(t[i] == q[i]);
        } else if i > r {
            assert(t[i] == q[i - 1]);
        }
    }
}

/// The index of the task of a channel is the first index whose task is for
/// that channel, or the number of tasks.
pub proof fn lemma_task_index<A>(g: Seq<(usize, Seq<A>)>, channel: usize)
    ensures
        0 <= task_index(g, channel) <= g.len(),
        forall|j: int| 0 <= j < task_index(g, channel) ==> (#[trigger] g[j]).0 != channel,
        task_index(g, channel) < g.len() ==> g[task_index(g, channel)].0 == channel,
        task_index(g, channel) < g.len() <==> has_task(g, channel),
    decreases g.len(),
{
    if g.len() > 0 && g[0].0 != channel {
        let t = g.skip(1);
        lemma_task_index(t, channel);
        let r = task_index(g, channel);
        assert forall|j: int| 0 <= j < r implies (#[trigger] g[j]).0 != channel by {
            if j > 0 {
                assert(t[j - 1] == g[j]);
            }
        }
        if r < g.len() {
            assert(t[r - 1] == g[r]);
            assert(g[r].0 == channel);
        }
        if has_task(g, channel) {
            let i = choose|i: int| 0 <= i < g.len() && (#[trigger] g[i]).0 == channel;
            assert(t[i - 1] == g[i]);
            assert(t[i - 1].0 == channel);
        }
    } else if g.len() > 0 {
        assert(g[0].0 == channel);
    }
}

/// An index below which no task is for `channel`, and that is itself the
/// index of a task for `channel` or the number of tasks, is the index of the
/// task of `channel`.
pub proof fn lemma_task_index_is<A>(g: Seq<(usize, Seq<A>)>, channel: usize, i: int)
    requires
        0 <= i <= g.len(),
        forall|j: int| 0 <= j < i ==> (#[trigger] g[j]).0 != channel,
        i < g.len() ==> g[i].0 == channel,
    ensures
        task_index(g, channel) == i,
{
    lemma_task_index(g, channel);
    let r = task_index(g, channel);
    if r < i {
        assert(g[r].0 != channel);
    }
    if i < r {
        assert(g[i].0 != channel);
    }
}

/// Entries that are cancelled or not aimed at a channel hold no action for
/// it.
pub proof fn lemma_actions_on_absent<A>(s: Seq<Entry<A>>, channel: usize)
    requires
        forall|k: int| 0 <= k < s.len() ==> (#[trigger] s[k]).key.channel != channel || s[k].cancelled,
    ensures
        actions_on(s, channel) == Seq::<A>::empty(),
    decreases s.len(),
{
    if s.len() > 0 {
        let d = s.drop_last();
        assert forall|k: int| 0 <= k < d.len() implies (#[trigger] d[k]).key.channel != channel || d[k].cancelled by {
            assert(d[k] == s[k]);
        }
        lemma_actions_on_absent(d, channel);
        assert(s[s.len() - 1].key.channel != channel || s[s.len() - 1].cancelled);
    }
}

/// One task per channel, in order of scheduling.
///
/// The tasks of a slice are for distinct channels, every entry of the slice
/// that is not cancelled has the task of its channel, and every task holds
/// exactly the actions of the entries of its channel that are not
/// cancelled, in the order in which the queue held them. So of two actions
/// of a slice that are aimed at the same channel, the one that was
/// scheduled first is processed first, by the same task, and a cancelled
/// action is never handed out.
pub proof fn lemma_grouped_by_channel<A>(s: Seq<Entry<A>>)
    ensures
        distinct_channels(grouped(s)),
        forall|k: int| 0 <= k < s.len() && !(#[trigger] s[k]).cancelled ==> has_task(grouped(s), s[k].key.channel),
        forall|i: int|
            0 <= i < grouped(s).len() ==> (#[trigger] grouped(s)[i]).1 == actions_on(s, grouped(s)[i].0)
                && grouped(s)[i].1.len() > 0,
        grouped(s).len() <= s.len(),
    decreases s.len(),
{
    if s.len() > 0 {
        let d = s.drop_last();
        lemma_grouped_by_channel(d);
        let g = grouped(d);
        let e = s.last();
        let c = e.key.channel;
        let h = grouped(s);
        lemma_task_index(g, c);
        let i = task_index(g, c);
        if e.cancelled {
            assert forall|k: int| 0 <= k < s.len() && !(#[trigger] s[k]).cancelled implies has_task(
                h,
                s[k].key.channel,
            ) by {
                assert(d[k] == s[k]);
            }
        } else if i < g.len() {
            assert forall|a: int, b: int| 0 <= a < b < h.len() implies (#[trigger] h[a]).0 != (#[trigger] h[b]).0 by {
                assert(h[a].0 == g[a].0 && h[b].0 == g[b].0);
            }
            assert forall|j: int| 0 <= j < h.len() implies (#[trigger] h[j]).1 == actions_on(s, h[j].0) && h[j].1.len()
                > 0 by {
                if j != i {
                    assert(h[j] == g[j]);
                    if j < i {
                        assert(g[j].0 != g[i].0);
                    } else {
                        assert(g[i].0 != g[j].0);
                    }
                }
            }
            assert forall|k: int| 0 <= k < s.len() && !(#[trigger] s[k]).cancelled implies has_task(
                h,
                s[k].key.channel,
            ) by {
                if k < d.len() {
                    assert(d[k] == s[k]);
                    let j = choose|j: int| 0 <= j < g.len() && (#[trigger] g[j]).0 == d[k].key.channel;
                    assert(h[j].0 == g[j].0);
                } else {
                    assert(h[i].0 == c);
                }
            }
        } else {
            assert forall|k: int| 0 <= k < d.len() implies (#[trigger] d[k]).key.channel != c || d[k].cancelled by {
                if d[k].key.channel == c && !d[k].cancelled {
                    assert(has_task(g, d[k].key.channel));
                }
            }
            lemma_actions_on_absent(d, c);
            assert forall|a: int, b: int| 0 <= a < b < h.len() implies (#[trigger] h[a]).0 != (#[trigger] h[b]).0 by {
                if b < g.len() {
                    assert(h[a] == g[a] && h[b] == g[b]);
                } else {
                    assert(h[a] == g[a]);
                }
            }
            assert forall|j: int| 0 <= j < h.len() implies (#[trigger] h[j]).1 == actions_on(s, h[j].0) && h[j].1.len()
                > 0 by {
                if j < g.len() {
                    assert(h[j] == g[j]);
                } else {
                    assert(h[j].1 =~= actions_on(s, c));
                }
            }
            assert forall|k: int| 0 <= k < s.len() && !(#[trigger] s[k]).cancelled implies has_task(
                h,
                s[k].key.channel,
            ) by {
                if k < d.len() {
                    assert(d[k] == s[k]);
                    let j = choose|j: int| 0 <= j < g.len() && (#[trigger] g[j]).0 == d[k].key.channel;
                    assert(h[j] == g[j]);
                } else {
                    assert(h[g.len() as int].0 == c);
                }
            }
        }
    }
}

/// Whether `e` is one of the entries.
pub open spec fn holds<A>(s: Seq<Entry<A>>, e: Entry<A>) -> bool {
    exists|j: int| 0 <= j < s.len() && #[trigger] s[j] == e
}

/// Placing an entry adds that entry to the entries and changes nothing
/// else.
pub proof fn lemma_with_entry_holds<A>(s: Seq<Entry<A>>, e: Entry<A>, x: Entry<A>)
    ensures
        holds(with_entry(s, e), x) <==> holds(s, x) || x == e,
{
    lemma_rank_bounds(s, e.key);
    let r = rank(s, e.key);
    let t = with_entry(s, e);
    assert(t[r] == e);
    if holds(t, x) {
        let a = choose|a: int| 0 <= a < t.len() && #[trigger] t[a] == x;
        if a < r {
            assert(t[a] == s[a]);
        } else if a > r {
            assert(t[a] == s[a - 1]);
        }
    }
    if holds(s, x) {
        let b = choose|b: int| 0 <= b < s.len() && #[trigger] s[b] == x;
        let b2 = if b < r { b } else { b + 1 };
        assert(t[b2] == s[b]);
    }
}

/// Whether `x` is the next firing of one of the fired entries that fire
/// again.
pub open spec fn is_next_firing<A>(fired: Seq<Entry<A>>, x: Entry<A>) -> bool {
    exists|i: int| 0 <= i < fired.len() && fires_again(#[trigger] fired[i]) && x == next_firing(fired[i])
}

/// Putting fired entries back adds the next firing of each periodic one to
/// the queue and changes nothing else.
pub proof fn lemma_rearmed_holds<A>(q: Seq<Entry<A>>, fired: Seq<Entry<A>>, x: Entry<A>)
    ensures
        holds(rearmed(q, fired), x) <==> holds(q, x) || is_next_firing(fired, x),
    decreases fired.len(),
{
    if fired.len() > 0 {
        let d = fired.drop_last();
        let e = fired.last();
        lemma_rearmed_holds(q, d, x);
        if fires_again(e) {
            lemma_with_entry_holds(rearmed(q, d), next_firing(e), x);
        }
        if is_next_firing(d, x) {
            let i = choose|i: int| 0 <= i < d.len() && fires_again(#[trigger] d[i]) && x == next_firing(d[i]);
            assert(fired[i] == d[i]);
        }
        if is_next_firing(fired, x) {
            let i = choose|i: int| 0 <= i < fired.len() && fires_again(#[trigger] fired[i]) && x == next_firing(fired[i]);
            if i < d.len() {
                assert(d[i] == fired[i]);
            } else {
                assert(fired[i] == e);
            }
        }
        if fires_again(e) && x == next_firing(e) {
            assert(fired[fired.len() - 1] == e);
        }
    }
}

/// Periodic actions fire once per period, whatever else is scheduled.
///
/// After a step the queue holds exactly the entries that were scheduled for
/// a later time and, for every periodic entry of the slice, its next firing:
/// the same action on the same channel under the same insertion number, one
/// period after the time of the slice. An entry of the slice that is not
/// periodic is gone.
pub proof fn lemma_after_slice_holds<A>(q: Seq<Entry<A>>, next_seq: u64, x: Entry<A>)
    requires
        queue_wf(q, next_seq),
        q.len() > 0,
    ensures
        holds(after_slice(q), x) <==> holds(q.skip(slice_len(q)), x) || is_next_firing(slice_entries(q), x),
        forall|i: int|
            0 <= i < slice_len(q) && fires_again(#[trigger] q[i]) ==> holds(after_slice(q), next_firing(q[i]))
                && next_firing(q[i]).key.time.as_nanos() == q[0].key.time.as_nanos()
                + q[i].period.unwrap().as_nanos(),
        forall|k: int| slice_len(q) <= k < q.len() ==> holds(after_slice(q), #[trigger] q[k]),
{
    lemma_slice_len(q, next_seq);
    let n = slice_len(q);
    let fired = slice_entries(q);
    let rest = q.skip(n);
    lemma_rearmed_holds(rest, fired, x);
    assert forall|i: int| 0 <= i < n && fires_again(#[trigger] q[i]) implies holds(after_slice(q), next_firing(q[i]))
        && next_firing(q[i]).key.time.as_nanos() == q[0].key.time.as_nanos() + q[i].period.unwrap().as_nanos() by {
        assert(fired[i] == q[i]);
        lemma_rearmed_holds(rest, fired, next_firing(q[i]));
        assert(entry_valid(q[i]));
        q[i].key.time.lemma_plus(q[i].period.unwrap());
    }
    assert forall|k: int| n <= k < q.len() implies holds(after_slice(q), #[trigger] q[k]) by {
        assert(rest[k - n] == q[k]);
        lemma_rearmed_holds(rest, fired, q[k]);
    }
}

/// The simulation: clock, scheduler queue, registry of cancellation keys.
pub struct Simulation<A> {
    time: MonotonicTime,
    scheduler_queue: SchedulerQueue<A>,
    keys: KeyRegistry,
}

impl<A: Copy> Simulation<A> {
    /// The current simulation time.
    pub closed spec fn now(&self) -> MonotonicTime {
        self.time
    }

    /// The scheduled entries, in the order in which they fire.
    pub closed spec fn queue(&self) -> Seq<Entry<A>> {
        self.scheduler_queue@
    }

    /// The insertion number that the next scheduled action gets.
    pub closed spec fn next_seq(&self) -> u64 {
        self.scheduler_queue.next_seq()
    }

    /// The slots of the registry of cancellation keys.
    pub closed spec fn keys(&self) -> Seq<KeySlot> {
        self.keys@
    }

    /// The queue and the registry are well-formed, and every scheduled
    /// entry fires strictly after the current simulation time.
    pub open spec fn wf(&self) -> bool {
        &&& self.now().wf()
        &&& queue_wf(self.queue(), self.next_seq())
        &&& slots_wf(self.keys())
        &&& in_future(self.queue(), self.now())
    }

    /// Creates a simulation at `start_time`, with nothing scheduled.
    pub fn new(start_time: MonotonicTime) -> (s: Self)
        ensures
            s.wf(),
            s.now() == start_time,
            s.queue() == Seq::<Entry<A>>::empty(),
            s.next_seq() == 0,
            s.keys() == Seq::<KeySlot>::empty(),
    {
        proof {
            use_type_invariant(start_time);
        }
        Simulation { time: start_time, scheduler_queue: SchedulerQueue::new(), keys: KeyRegistry::new() }
    }

    /// Returns the current simulation time.
    pub fn time(&self) -> (t: MonotonicTime)
        ensures
            t == self.now(),
    {
        self.time
    }

    /// Number of entries in the queue, cancelled ones included.
    pub fn pending(&self) -> (n: usize)
        ensures
            n == self.queue().len(),
    {
        self.scheduler_queue.len()
    }

    /// Time of the next scheduled action, if any.
    pub fn next_time(&self) -> (t: Option<MonotonicTime>)
        ensures
            self.queue().len() == 0 ==> t.is_none(),
            self.queue().len() > 0 ==> t == Some(self.queue()[0].key.time),
    {
        match self.scheduler_queue.peek_key() {
            Some(k) => Some(k.time),
            None => None,
        }
    }

    /// Whether one more action can be scheduled: an insertion number is
    /// left.
    pub fn has_capacity(&self) -> (b: bool)
        ensures
            b <==> self.next_seq() < u64::MAX,
    {
        self.scheduler_queue.has_capacity()
    }

    /// What a step bounded by `bound` changes.
    ///
    /// If an entry is scheduled at `bound` or earlier, the clock moves to
    /// the time of the next slice, the slice is handed out cut into one task
    /// for each channel, without the actions that were cancelled, and the
    /// queue loses the slice and gets back its periodic actions that were
    /// not cancelled. Otherwise nothing changes and nothing is handed out.
    pub open spec fn advanced(before: Self, after: Self, bound: MonotonicTime, r: Option<Slice<A>>) -> bool {
        &&& after.keys() == before.keys()
        &&& after.next_seq() == before.next_seq()
        &&& r.is_some() <==> has_slice(before.queue(), bound)
        &&& r.is_none() ==> after.now() == before.now() && after.queue() == before.queue()
        &&& r matches Some(slice) ==> {
            &&& slice.time == before.queue()[0].key.time
            &&& after.now() == slice.time
            &&& task_views(slice.tasks@) == grouped(slice_entries(before.queue()))
            &&& distinct_channels(task_views(slice.tasks@))
            &&& after.queue() == after_slice(before.queue())
        }
    }

    /// What one step of an advance to `target` changes.
    ///
    /// While an action is scheduled at `target` or earlier the step is a
    /// step bounded by `target`. Otherwise the clock is set to `target`,
    /// nothing else changes and nothing is handed out.
    pub open spec fn approached(before: Self, after: Self, target: MonotonicTime, r: Option<Slice<A>>) -> bool {
        if has_slice(before.queue(), target) {
            Self::advanced(before, after, target, r)
        } else {
            &&& r.is_none()
            &&& after.now() == target
            &&& after.queue() == before.queue()
            &&& after.keys() == before.keys()
            &&& after.next_seq() == before.next_seq()
        }
    }

    /// Advances simulation time to that of the next scheduled action and
    /// hands out that action with every other action scheduled for the same
    /// time. Without a scheduled action nothing changes.
    pub fn step(&mut self) -> (r: Option<Slice<A>>)
        requires
            old(self).wf(),
        ensures
            final(self).wf(),
            Self::advanced(*old(self), *final(self), MonotonicTime::latest(), r),
            final(self).keys() == old(self).keys(),
            final(self).next_seq() == old(self).next_seq(),
            old(self).now().as_nanos() <= final(self).now().as_nanos(),
            r.is_some() <==> old(self).queue().len() > 0,
            r.is_none() ==> final(self).now() == old(self).now() && final(self).queue() == old(self).queue(),
            r matches Some(slice) ==> {
                &&& slice.time == old(self).queue()[0].key.time
                &&& final(self).now() == slice.time
                &&& task_views(slice.tasks@) == grouped(slice_entries(old(self).queue()))
                &&& final(self).queue() == after_slice(old(self).queue())
            },
    {
        proof {
            if self.queue().len() > 0 {
                self.queue()[0].key.time.lemma_parts();
            }
        }
        self.step_to_next_bounded(MonotonicTime::max())
    }

    /// Advances simulation time by `duration`, one slice at a time. Returns
    /// the time aimed at and the outcome of
    /// [`step_until_unchecked`](Self::step_until_unchecked) for that time.
    pub fn step_by(&mut self, duration: Duration) -> (r: (MonotonicTime, Option<Slice<A>>))
        requires
            old(self).wf(),
            old(self).now().as_nanos() + duration.as_nanos() <= MonotonicTime::max_nanos(),
        ensures
            final(self).wf(),
            Self::approached(*old(self), *final(self), r.0, r.1),
            r.0 == old(self).now().plus(duration),
            r.0.as_nanos() == old(self).now().as_nanos() + duration.as_nanos(),
            final(self).keys() == old(self).keys(),
            final(self).next_seq() == old(self).next_seq(),
            old(self).now().as_nanos() <= final(self).now().as_nanos() <= r.0.as_nanos(),
            r.1.is_some() <==> has_slice(old(self).queue(), r.0),
            r.1.is_none() ==> final(self).now() == r.0 && final(self).queue() == old(self).queue(),
            r.1 matches Some(slice) ==> {
                &&& slice.time == old(self).queue()[0].key.time
                &&& final(self).now() == slice.time
                &&& task_views(slice.tasks@) == grouped(slice_entries(old(self).queue()))
                &&& final(self).queue() == after_slice(old(self).queue())
            },
    {
        proof {
            use_type_invariant(duration);
            duration.lemma_parts();
        }
        let target = self.time.checked_add(duration).unwrap();
        let slice = self.step_until_unchecked(target);
        (target, slice)
    }

    /// Advances simulation time towards `target_time`, one slice at a time.
    ///
    /// A target that is not in the future of the current simulation time is
    /// refused. Otherwise the outcome is that of
    /// [`step_until_unchecked`](Self::step_until_unchecked).
    pub fn step_until(&mut self, target_time: MonotonicTime) -> (r: Result<
        Option<Slice<A>>,
        ScheduledTimeError<()>,
    >)
        requires
            old(self).wf(),
        ensures
            final(self).wf(),
            r matches Ok(step) ==> Self::approached(*old(self), *final(self), target_time, step),
            final(self).keys() == old(self).keys(),
            final(self).next_seq() == old(self).next_seq(),
            r.is_err() <==> old(self).now().as_nanos() >= target_time.as_nanos(),
            r.is_err() ==> final(self).now() == old(self).now() && final(self).queue() == old(self).queue(),
            old(self).now().as_nanos() <= final(self).now().as_nanos(),
            r matches Ok(step) ==> {
                &&& final(self).now().as_nanos() <= target_time.as_nanos()
                &&& step.is_some() <==> has_slice(old(self).queue(), target_time)
                &&& step.is_none() ==> final(self).now() == target_time && final(self).queue() == old(
                    self,
                ).queue()
                &&& step matches Some(slice) ==> {
                    &&& slice.time == old(self).queue()[0].key.time
                    &&& final(self).now() == slice.time
                    &&& task_views(slice.tasks@) == grouped(slice_entries(old(self).queue()))
                    &&& final(self).queue() == after_slice(old(self).queue())
                }
            },
    {
        if target_time.le(&self.time) {
            return Err(ScheduledTimeError(()));
        }
        Ok(self.step_until_unchecked(target_time))
    }

    /// One step of an advance to `target_time`, which must not lie in the
    /// past.
    ///
    /// While an action is scheduled at `target_time` or earlier, the step
    /// moves the clock to the time of the next slice and hands the slice
    /// out; the caller processes it and asks again. Once nothing is left up
    /// to `target_time`, the step sets the clock to `target_time` and hands
    /// out nothing: the advance is over.
    pub fn step_until_unchecked(&mut self, target_time: MonotonicTime) -> (r: Option<Slice<A>>)
        requires
            old(self).wf(),
            old(self).now().as_nanos() <= target_time.as_nanos(),
        ensures
            final(self).wf(),
            Self::approached(*old(self), *final(self), target_time, r),
            final(self).keys() == old(self).keys(),
            final(self).next_seq() == old(self).next_seq(),
            old(self).now().as_nanos() <= final(self).now().as_nanos() <= target_time.as_nanos(),
            r.is_some() <==> has_slice(old(self).queue(), target_time),
            r.is_none() ==> final(self).now() == target_time && final(self).queue() == old(self).queue(),
            r matches Some(slice) ==> {
                &&& slice.time == old(self).queue()[0].key.time
                &&& final(self).now() == slice.time
                &&& task_views(slice.tasks@) == grouped(slice_entries(old(self).queue()))
                &&& final(self).queue() == after_slice(old(self).queue())
            },
    {
        match self.step_to_next_bounded(target_time) {
            Some(slice) => Some(slice),
            None => {
                proof {
                    use_type_invariant(target_time);
                }
                self.time = target_time;
                None
            },
        }
    }

    /// Advances simulation time to that of the next scheduled action if that
    /// time is `upper_time_bound` or earlier, and hands out that action with
    /// every other action scheduled for the same time.
    ///
    /// The clock is set before the slice is handed out, so that whatever
    /// runs the slice reads the time of the slice. Periodic actions of the
    /// slice are put back into the queue for their next firing.
    pub fn step_to_next_bounded(&mut self, upper_time_bound: MonotonicTime) -> (r: Option<Slice<A>>)
        requires
            old(self).wf(),
        ensures
            final(self).wf(),
            Self::advanced(*old(self), *final(self), upper_time_bound, r),
            final(self).keys() == old(self).keys(),
            final(self).next_seq() == old(self).next_seq(),
            old(self).now().as_nanos() <= final(self).now().as_nanos(),
            r.is_some() <==> has_slice(old(self).queue(), upper_time_bound),
            r.is_none() ==> final(self).now() == old(self).now() && final(self).queue() == old(self).queue(),
            r matches Some(slice) ==> {
                &&& slice.time == old(self).queue()[0].key.time
                &&& final(self).now() == slice.time
                &&& task_views(slice.tasks@) == grouped(slice_entries(old(self).queue()))
                &&& final(self).queue() == after_slice(old(self).queue())
            },
    {
        let first = match self.scheduler_queue.peek_key() {
            Some(k) => k,
            None => {
                return None;
            },
        };
        if !first.time.le(&upper_time_bound) {
            return None;
        }
        let ghost old_q = self.scheduler_queue@;
        let ghost next_seq = self.scheduler_queue.next_seq();
        let t0 = first.time;
        proof {
            lemma_slice_len(old_q, next_seq);
            assert(entry_valid(old_q[0]));
        }
        // Set the simulation time to that of the slice.
        self.time = t0;

        let mut tasks: Vec<Task<A>> = Vec::new();
        let mut fired: Vec<Entry<A>> = Vec::new();
        proof {
            assert(task_views(tasks@) =~= grouped(fired@));
        }
        loop
            invariant
                self.time == t0,
                self.keys == old(self).keys,
                t0 == old_q[0].key.time,
                old_q == old(self).scheduler_queue@,
                queue_wf(old_q, next_seq),
                old_q.len() > 0,
                self.scheduler_queue.next_seq() == next_seq,
                self.scheduler_queue.wf(),
                fired@.len() <= old_q.len(),
                fired@ == old_q.take(fired@.len() as int),
                self.scheduler_queue@ == old_q.skip(fired@.len() as int),
                forall|i: int| 0 <= i < fired@.len() ==> (#[trigger] old_q[i]).key.time.as_nanos() == t0.as_nanos(),
                task_views(tasks@) == grouped(fired@),
            ensures
                self.time == t0,
                self.keys == old(self).keys,
                self.scheduler_queue.next_seq() == next_seq,
                self.scheduler_queue.wf(),
                fired@.len() == slice_len(old_q),
                fired@ == old_q.take(fired@.len() as int),
                self.scheduler_queue@ == old_q.skip(fired@.len() as int),
                task_views(tasks@) == grouped(fired@),
            decreases self.scheduler_queue@.len(),
        {
            let ghost k = fired@.len() as int;
            let go = match self.scheduler_queue.peek_key() {
                Some(next) => next.time.same(&t0),
                None => false,
            };
            if !go {
                proof {
                    if k < old_q.len() {
                        assert(self.scheduler_queue@[0] == old_q[k]);
                    }
                    lemma_co_temporal(old_q, t0.as_nanos(), k);
                }
                break;
            }
            let entry = self.scheduler_queue.pull().unwrap();
            proof {
                assert(old_q.skip(k)[0] == old_q[k]);
                assert(entry == old_q[k]);
                assert(old_q.skip(k).skip(1) =~= old_q.skip(k + 1));
                assert(old_q.take(k + 1) =~= old_q.take(k).push(entry));
                assert(old_q.take(k + 1).drop_last() =~= old_q.take(k));
            }
            let ghost g = grouped(fired@);
            if !entry.cancelled {
                // Find the task of the channel of the entry.
                let mut at: usize = 0;
                while at < tasks.len() && tasks[at].channel != entry.key.channel
                    invariant
                        at <= tasks@.len(),
                        task_views(tasks@) == g,
                        forall|j: int| 0 <= j < at ==> (#[trigger] g[j]).0 != entry.key.channel,
                    decreases tasks@.len() - at,
                {
                    proof {
                        assert(g[at as int].0 == tasks@[at as int].channel);
                    }
                    at = at + 1;
                }
                proof {
                    if at < tasks@.len() {
                        assert(g[at as int].0 == tasks@[at as int].channel);
                    }
                    lemma_task_index_is(g, entry.key.channel, at as int);
                }
                if at < tasks.len() {
                    let ghost before = tasks@;
                    let mut task = tasks.remove(at);
                    task.actions.push(entry.action);
                    tasks.insert(at, task);
                    proof {
                        assert(g[at as int].1 == before[at as int].actions@);
                        assert(task_views(tasks@) =~~= g.update(
                            at as int,
                            (entry.key.channel, g[at as int].1.push(entry.action)),
                        )) by {
                            assert forall|j: int| 0 <= j < tasks@.len() && j != at implies tasks@[j] == before[j] by {}
                            assert forall|j: int| 0 <= j < tasks@.len() implies #[trigger] task_views(tasks@)[j] == g.update(
                                at as int,
                                (entry.key.channel, g[at as int].1.push(entry.action)),
                            )[j] by {
                                if j != at {
                                    assert(tasks@[j] == before[j]);
                                    assert(g[j] == (before[j].channel, before[j].actions@));
                                }
                            }
                        }
                    }
                } else {
                    let mut actions: Vec<A> = Vec::new();
                    actions.push(entry.action);
                    let task = Task { channel: entry.key.channel, actions };
                    proof {
                        assert(task.actions@ =~= Seq::<A>::empty().push(entry.action));
                        assert(task_views(tasks@.push(task)) =~~= g.push(
                            (entry.key.channel, Seq::<A>::empty().push(entry.action)),
                        ));
                    }
                    tasks.push(task);
    }
            }
            fired.push(entry);
            proof {
                assert(fired@.drop_last() =~= old_q.take(k));
                assert(fired@.last() == entry);
            }
        }
        proof {
            lemma_grouped_by_channel(fired@);
        }

        let ghost n = fired@.len() as int;
        let ghost rest = old_q.skip(n);
        proof {
            assert forall|i: int| 0 <= i < rest.len() implies t0.as_nanos() < (#[trigger] rest[i]).key.time.as_nanos() by {
                assert(rest[i] == old_q[i + n]);
            }
            assert forall|j: int| 0 <= j < n implies !has_seq(rest, (#[trigger] fired@[j]).key.seq) by {
                if has_seq(rest, fired@[j].key.seq) {
                    let a = choose|a: int| 0 <= a < rest.len() && (#[trigger] rest[a]).key.seq == fired@[j].key.seq;
                    assert(rest[a] == old_q[a + n]);
                    assert(fired@[j] == old_q[j]);
                    assert(old_q[j].key.seq != old_q[a + n].key.seq);
                }
            }
            assert(fired@.take(0) =~= Seq::<Entry<A>>::empty());
        }
        let mut i: usize = 0;
        while i < fired.len()
            invariant
                i <= fired@.len(),
                n == fired@.len(),
                n <= old_q.len(),
                fired@ == old_q.take(n),
                queue_wf(old_q, next_seq),
                self.time == t0,
                t0.wf(),
                self.keys == old(self).keys,
                self.scheduler_queue.next_seq() == next_seq,
                self.scheduler_queue.wf(),
                self.scheduler_queue@ == rearmed(rest, fired@.take(i as int)),
                in_future(self.scheduler_queue@, t0),
                forall|j: int| 0 <= j < n ==> (#[trigger] old_q[j]).key.time.as_nanos() == t0.as_nanos(),
                forall|j: int| i <= j < n ==> !has_seq(self.scheduler_queue@, (#[trigger] fired@[j]).key.seq),
            decreases fired@.len() - i,
        {
            let key = fired[i].key;
            let period = if fired[i].cancelled {
                None
            } else {
                fired[i].period
            };
            let action = fired[i].action;
            proof {
                assert(fired@[i as int] == old_q[i as int]);
                assert(entry_valid(old_q[i as int]));
                assert(fired@.take(i + 1).drop_last() =~= fired@.take(i as int));
                assert(fired@.take(i + 1).last() == fired@[i as int]);
            }
            match period {
                Some(p) => {
                    match key.time.checked_add(p) {
                        Some(next_time) => {
                            let next = Entry {
                                key: SchedulerKey { time: next_time, seq: key.seq, channel: key.channel },
                                period: Some(p),
                                action,
                                cancelled: false,
                            };
                            proof {
                                assert(next == next_firing(fired@[i as int]));
                                assert(old_q[i as int].key.seq < next_seq);
                                lemma_with_entry_in_future(self.scheduler_queue@, next, t0);
                                assert forall|j: int| i + 1 <= j < n implies !has_seq(
                                    with_entry(self.scheduler_queue@, next),
                                    (#[trigger] fired@[j]).key.seq,
                                ) by {
                                    lemma_with_entry_seqs(self.scheduler_queue@, next, fired@[j].key.seq);
                                    assert(fired@[j] == old_q[j]);
                                    assert(old_q[i as int].key.seq != old_q[j].key.seq);
                                }
                            }
                            self.scheduler_queue.reinsert(next);
                        },
                        None => {},
                    }
                },
                None => {},
            }
            i = i + 1;
        }
        proof {
            assert(fired@.take(n) =~= fired@);
        }
        Some(Slice { time: t0, tasks })
    }

    /// Schedules an action at the lapse of `duration`, and returns the key
    /// that cancels it. A null duration is refused.
    pub fn schedule_in(&mut self, duration: Duration, action: A, channel: usize) -> (r: Result<
        KeyId,
        ScheduledTimeError<A>,
    >)
        requires
            old(self).wf(),
            old(self).next_seq() < u64::MAX,
            old(self).now().as_nanos() + duration.as_nanos() <= MonotonicTime::max_nanos(),
        ensures
            final(self).wf(),
            final(self).now() == old(self).now(),
            r.is_err() <==> duration.as_nanos() == 0,
            r matches Err(e) ==> e.0 == action && final(self).queue() == old(self).queue() && final(self).keys()
                == old(self).keys() && final(self).next_seq() == old(self).next_seq(),
            r matches Ok(id) ==> Self::scheduled(
                *old(self),
                *final(self),
                old(self).now().plus(duration),
                channel,
                None,
                action,
                Some(id),
            ),
    {
        if duration.is_zero() {
            return Err(ScheduledTimeError(action));
        }
        proof {
            use_type_invariant(duration);
            duration.lemma_parts();
        }
        let time = self.time.checked_add(duration).unwrap();
        let id = self.schedule_at_unchecked(time, channel, None, action, true);
        Ok(id.unwrap())
    }

    /// Schedules an action at `time`, and returns the key that cancels it. A
    /// time that is not in the future of the current simulation time is
    /// refused.
    pub fn schedule_at(&mut self, time: MonotonicTime, action: A, channel: usize) -> (r: Result<
        KeyId,
        ScheduledTimeError<A>,
    >)
        requires
            old(self).wf(),
            old(self).next_seq() < u64::MAX,
        ensures
            final(self).wf(),
            final(self).now() == old(self).now(),
            r.is_err() <==> time.as_nanos() <= old(self).now().as_nanos(),
            r matches Err(e) ==> e.0 == action && final(self).queue() == old(self).queue() && final(self).keys()
                == old(self).keys() && final(self).next_seq() == old(self).next_seq(),
            r matches Ok(id) ==> Self::scheduled(*old(self), *final(self), time, channel, None, action, Some(id)),
    {
        if time.le(&self.time) {
            return Err(ScheduledTimeError(action));
        }
        let id = self.schedule_at_unchecked(time, channel, None, action, true);
        Ok(id.unwrap())
    }

    /// What a successful scheduling changes.
    ///
    /// The action waits in the queue under the next insertion number, behind
    /// every entry of the same or an earlier time. If a key was asked for,
    /// the registry first drops the keys that expired by now, then stores
    /// the insertion number under the key `id`: for good if the action is
    /// periodic, until the time of the action otherwise.
    pub open spec fn scheduled(
        before: Self,
        after: Self,
        time: MonotonicTime,
        channel: usize,
        period: Option<Duration>,
        action: A,
        id: Option<KeyId>,
    ) -> bool {
        let seq = before.next_seq();
        let entry = Entry { key: SchedulerKey { time, seq, channel }, period, action, cancelled: false };
        let swept = expired(before.keys(), before.now());
        let state = if period.is_some() {
            SlotState::Eternal { token: seq }
        } else {
            SlotState::Bounded { token: seq, deadline: time }
        };
        &&& after.now() == before.now()
        &&& after.next_seq() == seq + 1
        &&& after.queue() == with_entry(before.queue(), entry)
        &&& match id {
            Some(id) => id == next_id(swept) && after.keys() == inserted(swept, state) && lookup(
                after.keys(),
                id,
            ) == Some(seq),
            None => after.keys() == before.keys(),
        }
    }

    /// Schedules an action at `time`: once, or again after every `period`.
    /// With `with_key` the key that cancels the action is returned. A time
    /// that is not in the future of the current simulation time is refused.
    pub fn schedule_event(
        &mut self,
        time: MonotonicTime,
        channel: usize,
        period: Option<Duration>,
        action: A,
        with_key: bool,
    ) -> (r: Result<Option<KeyId>, ScheduledTimeError<A>>)
        requires
            old(self).wf(),
            old(self).next_seq() < u64::MAX,
            period matches Some(p) ==> p.as_nanos() > 0,
        ensures
            final(self).wf(),
            final(self).now() == old(self).now(),
            r.is_err() <==> time.as_nanos() <= old(self).now().as_nanos(),
            r matches Err(e) ==> e.0 == action && final(self).queue() == old(self).queue() && final(self).keys()
                == old(self).keys() && final(self).next_seq() == old(self).next_seq(),
            r matches Ok(id) ==> id.is_some() == with_key && Self::scheduled(
                *old(self),
                *final(self),
                time,
                channel,
                period,
                action,
                id,
            ),
    {
        if time.le(&self.time) {
            return Err(ScheduledTimeError(action));
        }
        Ok(self.schedule_at_unchecked(time, channel, period, action, with_key))
    }

    /// Schedules an action at `time`, which lies in the future of the
    /// current simulation time: once, or again after every `period`. With
    /// `with_key` the key that cancels the action is returned.
    pub fn schedule_at_unchecked(
        &mut self,
        time: MonotonicTime,
        channel: usize,
        period: Option<Duration>,
        action: A,
        with_key: bool,
    ) -> (id: Option<KeyId>)
        requires
            old(self).wf(),
            old(self).next_seq() < u64::MAX,
            period matches Some(p) ==> p.as_nanos() > 0,
            old(self).now().as_nanos() < time.as_nanos(),
        ensures
            final(self).wf(),
            id.is_some() == with_key,
            Self::scheduled(*old(self), *final(self), time, channel, period, action, id),
    {
        proof {
            use_type_invariant(time);
            if let Some(p) = period {
                use_type_invariant(p);
            }
            let entry = Entry {
                key: SchedulerKey { time, seq: self.next_seq(), channel },
                period,
                action,
                cancelled: false,
            };
            lemma_with_entry_in_future(self.queue(), entry, self.now());
        }
        let seq = self.scheduler_queue.insert(time, channel, period, action);
        if !with_key {
            return None;
        }
        // Free stale keys from the registry.
        self.keys.remove_expired_keys(self.time);
        let id = if period.is_some() {
            self.keys.insert_eternal_key(seq)
        } else {
            self.keys.insert_key(seq, time)
        };
        Some(id)
    }

    /// What a cancellation changes.
    ///
    /// The registry first drops the keys that expired by now. The
    /// cancellation is `done` if `key` is live then; the key is used up and
    /// the entry of the action it names gets its cancellation flag. The
    /// entry stays in the queue: the clock still stops at its time, but
    /// the action is not handed out and does not fire again. Otherwise the
    /// queue stays as it is.
    pub open spec fn cancelled(before: Self, after: Self, key: KeyId, done: bool) -> bool {
        let swept = expired(before.keys(), before.now());
        &&& after.now() == before.now()
        &&& after.next_seq() == before.next_seq()
        &&& after.keys() == extracted(swept, key)
        &&& done == live(swept, key)
        &&& after.queue() == if done {
            marked(before.queue(), lookup(swept, key).unwrap())
        } else {
            before.queue()
        }
    }

    /// Cancelling right after scheduling keeps the action from running.
    ///
    /// A cancellation with the key that a scheduling returned is done, and
    /// it leaves the queue as if the action had been scheduled with its
    /// cancellation flag set. A flagged entry belongs to no task and is
    /// never put back, so whatever the simulation steps to afterwards, the
    /// action is never handed out.
    pub proof fn lemma_cancel_undoes_schedule(
        before: Self,
        mid: Self,
        after: Self,
        time: MonotonicTime,
        channel: usize,
        period: Option<Duration>,
        action: A,
        id: KeyId,
        done: bool,
    )
        requires
            before.wf(),
            time.wf(),
            period matches Some(p) ==> p.wf() && p.as_nanos() > 0,
            before.now().as_nanos() < time.as_nanos(),
            Self::scheduled(before, mid, time, channel, period, action, Some(id)),
            Self::cancelled(mid, after, id, done),
        ensures
            done,
            after.queue() == with_entry(
                before.queue(),
                (Entry {
                    key: (SchedulerKey { time, seq: before.next_seq(), channel }),
                    period,
                    action,
                    cancelled: true,
                }),
            ),
    {
        let seq = before.next_seq();
        let entry = Entry { key: SchedulerKey { time, seq, channel }, period, action, cancelled: false };
        let swept = expired(before.keys(), before.now());
        let state = if period.is_some() {
            SlotState::Eternal { token: seq }
        } else {
            SlotState::Bounded { token: seq, deadline: time }
        };
        lemma_insert_safe(swept, state, id);
        lemma_expire_safe(mid.keys(), mid.now(), id);
        assert(!has_seq(before.queue(), seq)) by {
            if has_seq(before.queue(), seq) {
                let i = choose|i: int| 0 <= i < before.queue().len() && (#[trigger] before.queue()[i]).key.seq == seq;
                assert(before.queue()[i].key.seq < seq);
            }
        }
        lemma_marked_placed(before.queue(), entry);
    }

    /// Cancelling twice is safe.
    ///
    /// A second cancellation with the same key is never done, and it leaves
    /// the queue as the first one left it.
    pub proof fn lemma_cancel_twice(first: Self, second: Self, third: Self, key: KeyId, done1: bool, done2: bool)
        requires
            Self::cancelled(first, second, key, done1),
            Self::cancelled(second, third, key, done2),
        ensures
            !done2,
            third.queue() == second.queue(),
    {
        let swept = expired(first.keys(), first.now());
        lemma_extract_safe(swept, key, key);
        lemma_expire_safe(second.keys(), second.now(), key);
    }

    /// Cancels the action that `key` names.
    ///
    /// The registry first drops the keys that expired by now. A key that is
    /// not live then (never given out, already used, or of an action that
    /// fired) is refused and the queue stays as it is. Otherwise the key is
    /// used up and its action gets its cancellation flag: it will never be
    /// handed out.
    pub fn cancel(&mut self, key: KeyId) -> (r: Result<(), CancellationError>)
        requires
            old(self).wf(),
        ensures
            final(self).wf(),
            Self::cancelled(*old(self), *final(self), key, r.is_ok()),
            !live(final(self).keys(), key),
    {
        self.keys.remove_expired_keys(self.time);
        match self.keys.extract_key(key) {
            None => Err(CancellationError {  }),
            Some(seq) => {
                let ghost q = self.scheduler_queue@;
                let _ = self.scheduler_queue.cancel_by(seq);
                proof {
                    let t = self.scheduler_queue@;
                    lemma_marked_wf(q, self.scheduler_queue.next_seq(), seq);
                    assert forall|a: int| 0 <= a < t.len() implies self.time.as_nanos() < (
                    #[trigger] t[a]).key.time.as_nanos() by {
                        assert(t[a].key == q[a].key);
                    }
                }
                Ok(())
            },
        }
    }

    /// Builds the task that sends one event to `channel` now. Simulation
    /// time and the queue stay as they are.
    pub fn send_event(&self, action: A, channel: usize) -> (task: Task<A>)
        ensures
            task.channel == channel,
            task.actions@ == Seq::<A>::empty().push(action),
    {
        let mut actions: Vec<A> = Vec::new();
        actions.push(action);
        Task { channel, actions }
    }

    /// Builds the task that sends one query to `channel` now. Simulation
    /// time and the queue stay as they are. Once the task has run, the
    /// reply, if any, is judged by [`query_reply`].
    pub fn send_query(&self, action: A, channel: usize) -> (task: Task<A>)
        ensures
            task.channel == channel,
            task.actions@ == Seq::<A>::empty().push(action),
    {
        self.send_event(action, channel)
    }
}

/// Outcome of a query once its task has run: the reply, or an error if no
/// reply was written.
pub fn query_reply<R>(reply: Option<R>) -> (r: Result<R, QueryError>)
    ensures
        r == match reply {
            Some(value) => Ok::<R, QueryError>(value),
            None => Err::<R, QueryError>(QueryError {  }),
        },
{
    match reply {
        Some(value) => Ok(value),
        None => Err(QueryError {  }),
    }
}

} // verus!

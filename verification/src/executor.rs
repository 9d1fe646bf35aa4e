//! Bookkeeping of the single-threaded cooperative executor.
//!
//! The executor keeps a queue of the tasks that are ready to be polled and a
//! table of the tasks that have not completed yet. Every task carries the
//! identifier of the executor it was spawned on, and a task is only ever
//! queued on that executor.
//!
//! Polling belongs to the embedding program: it takes the next ready task
//! with [`Executor::next_runnable`], polls it, and reports a wake-up with
//! [`Executor::wake`] and a completion with [`Executor::release`].
use vstd::prelude::*;
use slab::Slab;

verus! {

/// Initial capacity of the queue of ready tasks.
pub const QUEUE_MIN_CAPACITY: usize = 32;

#[verifier::external_type_specification]
#[verifier::external_body]
#[verifier::reject_recursive_types(T)]
pub struct ExSlab<T>(Slab<T>);

/// The values that a slab holds, by key.
pub uninterp spec fn slab_entries(slab: Slab<u64>) -> Map<usize, u64>;

/// The key that the next insertion into a slab uses.
pub uninterp spec fn slab_vacant_key(slab: Slab<u64>) -> usize;

/// Whether `values` are the values of `entries` in the order of their keys,
/// smallest key first.
pub open spec fn in_key_order(entries: Map<usize, u64>, values: Seq<u64>) -> bool {
    exists|keys: Seq<usize>|
        {
            &&& keys.len() == values.len()
            &&& forall|i: int, j: int| 0 <= i < j < keys.len() ==> #[trigger] keys[i] < #[trigger] keys[j]
            &&& forall|k: usize| entries.dom().contains(k) <==> #[trigger] keys.contains(k)
            &&& forall|i: int| 0 <= i < keys.len() ==> #[trigger] values[i] == entries[keys[i]]
        }
}

/// The table without entries.
pub open spec fn no_entries() -> Map<usize, u64> {
    Map::empty()
}

/// `Slab::new`: the new slab holds nothing and its first key is 0.
#[verifier::external_body]
fn slab_new() -> (slab: Slab<u64>)
    ensures
        slab_entries(slab) == no_entries(),
        slab_vacant_key(slab) == 0,
{
    Slab::new()
}

/// `Slab::vacant_key`: the key that the next insertion uses. No value is
/// stored under that key.
#[verifier::external_body]
fn slab_next_key(slab: &Slab<u64>) -> (key: usize)
    ensures
        key == slab_vacant_key(*slab),
        !slab_entries(*slab).dom().contains(key),
{
    slab.vacant_key()
}

/// `Slab::insert`: stores the value under the vacant key and returns that
/// key; the other values stay under their keys. Like `Vec::push`, the call
/// only fails when the storage cannot grow any more.
#[verifier::external_body]
fn slab_insert(slab: &mut Slab<u64>, value: u64) -> (key: usize)
    ensures
        key == slab_vacant_key(*old(slab)),
        slab_entries(*final(slab)) == slab_entries(*old(slab)).insert(key, value),
{
    slab.insert(value)
}

/// `Slab::try_remove`: takes out the value stored under `key`, if there is
/// one; the other values stay under their keys.
#[verifier::external_body]
fn slab_try_remove(slab: &mut Slab<u64>, key: usize) -> (value: Option<u64>)
    ensures
        value == if slab_entries(*old(slab)).dom().contains(key) {
            Some(slab_entries(*old(slab))[key])
        } else {
            None
        },
        slab_entries(*final(slab)) == slab_entries(*old(slab)).remove(key),
{
    slab.try_remove(key)
}

/// `Slab::drain`: empties the slab and yields its values in the order of
/// their keys, smallest key first. The first key of the emptied slab is 0.
#[verifier::external_body]
fn slab_drain(slab: &mut Slab<u64>) -> (values: Vec<u64>)
    ensures
        in_key_order(slab_entries(*old(slab)), values@),
        slab_entries(*final(slab)) == no_entries(),
        slab_vacant_key(*final(slab)) == 0,
{
    slab.drain().collect()
}

/// A future together with the slot of the table of active tasks that holds
/// its cancellation token. When the future is dropped its token leaves the
/// table, see [`Executor::release`].
pub struct CancellableFuture<T> {
    pub inner: T,
    pub cancellation_key: usize,
}

impl<T> CancellableFuture<T> {
    /// Creates a new `CancellableFuture`.
    pub fn new(fut: T, cancellation_key: usize) -> (f: Self)
        ensures
            f.inner == fut,
            f.cancellation_key == cancellation_key,
    {
        CancellableFuture { inner: fut, cancellation_key }
    }
}

/// A task that is ready to be polled, tagged with the identifier of the
/// executor it was spawned on.
pub struct Runnable<T> {
    pub future: CancellableFuture<T>,
    pub executor_id: usize,
}

/// Every task carries the tag `executor_id`.
pub open spec fn all_tagged<T>(queue: Seq<Runnable<T>>, executor_id: usize) -> bool {
    forall|i: int| 0 <= i < queue.len() ==> (#[trigger] queue[i]).executor_id == executor_id
}

/// Shared executor context: the queue of ready tasks and the identifier
/// that every task spawned on the executor carries.
pub struct ExecutorContext<T> {
    queue: Vec<Runnable<T>>,
    executor_id: usize,
}

impl<T> View for ExecutorContext<T> {
    type V = Seq<Runnable<T>>;

    /// The ready tasks, in the order in which they will be polled.
    closed spec fn view(&self) -> Seq<Runnable<T>> {
        self.queue@
    }
}

impl<T> ExecutorContext<T> {
    /// Identifier of the executor.
    pub closed spec fn id(&self) -> usize {
        self.executor_id
    }

    /// Every ready task was spawned on this executor.
    pub open spec fn wf(&self) -> bool {
        all_tagged(self@, self.id())
    }

    /// Creates a new shared executor context.
    pub fn new(executor_id: usize) -> (c: Self)
        ensures
            c@ == Seq::<Runnable<T>>::empty(),
            c.id() == executor_id,
            c.wf(),
    {
        ExecutorContext { queue: Vec::with_capacity(QUEUE_MIN_CAPACITY), executor_id }
    }

    /// Identifier of the executor.
    pub fn executor_id(&self) -> (id: usize)
        ensures
            id == self.id(),
    {
        self.executor_id
    }

    /// Number of ready tasks.
    pub fn len(&self) -> (n: usize)
        ensures
            n == self@.len(),
    {
        self.queue.len()
    }
}

/// Whether a task tagged `executor_id` may be woken in the context that is
/// entered now: there is one, and it is the context of the executor that
/// spawned the task.
pub fn can_schedule<T>(executor_id: usize, context: Option<&ExecutorContext<T>>) -> (ok: bool)
    ensures
        ok <==> (context matches Some(c) && c.id() == executor_id),
{
    match context {
        Some(c) => c.executor_id == executor_id,
        None => false,
    }
}

/// Schedules a task on the executor whose context is entered.
///
/// The task must be woken on the executor it was spawned on: `executor_id`,
/// the tag of the task, is the identifier of the context. The task goes to
/// the back of the queue of ready tasks.
pub fn schedule_task<T>(task: Runnable<T>, executor_id: usize, context: &mut ExecutorContext<T>)
    requires
        old(context).wf(),
        task.executor_id == executor_id,
        executor_id == old(context).id(),
    ensures
        final(context).wf(),
        final(context).id() == old(context).id(),
        final(context)@ == old(context)@.push(task),
{
    context.queue.push(task);
}

/// Schedules a task on the executor whose context is entered, if that is
/// the executor the task was spawned on.
///
/// A task whose tag, `executor_id`, is not the identifier of the context is
/// given back: it is queued neither here nor anywhere else, and the queue
/// stays as it is.
pub fn try_schedule_task<T>(task: Runnable<T>, executor_id: usize, context: &mut ExecutorContext<T>) -> (r:
    Result<(), Runnable<T>>)
    requires
        old(context).wf(),
    ensures
        final(context).wf(),
        final(context).id() == old(context).id(),
        r.is_ok() <==> task.executor_id == executor_id && executor_id == old(context).id(),
        r.is_ok() ==> final(context)@ == old(context)@.push(task),
        r matches Err(back) ==> back == task && final(context)@ == old(context)@,
{
    if task.executor_id != executor_id || executor_id != context.executor_id {
        return Err(task);
    }
    schedule_task(task, executor_id, context);
    Ok(())
}

/// A single-threaded executor.
pub struct Executor<T> {
    /// Shared executor data.
    context: ExecutorContext<T>,
    /// Cancellation tokens of the tasks that have not completed yet.
    active_tasks: Slab<u64>,
    /// Whether the executor was shut down.
    shut_down: bool,
}

impl<T> Executor<T> {
    /// The ready tasks, in the order in which they will be polled.
    pub closed spec fn ready(&self) -> Seq<Runnable<T>> {
        self.context@
    }

    /// Identifier of the executor.
    pub closed spec fn id(&self) -> usize {
        self.context.id()
    }

    /// The cancellation tokens of the tasks that have not completed, by
    /// slot.
    pub closed spec fn active(&self) -> Map<usize, u64> {
        slab_entries(self.active_tasks)
    }

    /// The slot that the next spawned task gets.
    pub closed spec fn vacant_slot(&self) -> usize {
        slab_vacant_key(self.active_tasks)
    }

    /// Whether the executor was shut down.
    pub closed spec fn is_shut_down(&self) -> bool {
        self.shut_down
    }

    /// Every ready task was spawned on this executor, and the identifier of
    /// the executor is in range.
    pub open spec fn wf(&self) -> bool {
        &&& all_tagged(self.ready(), self.id())
        &&& self.id() <= usize::MAX / 2
        &&& self.active().dom().finite()
    }

    /// The task that spawning `future` on this executor creates.
    pub open spec fn spawned_task(&self, future: T) -> Runnable<T> {
        Runnable {
            future: CancellableFuture { inner: future, cancellation_key: self.vacant_slot() },
            executor_id: self.id(),
        }
    }

    /// Whether `executor_id` can identify an executor: at most half of the
    /// identifiers are ever given out.
    pub fn id_in_range(executor_id: usize) -> (ok: bool)
        ensures
            ok <==> executor_id <= usize::MAX / 2,
    {
        executor_id <= usize::MAX / 2
    }

    /// Creates an executor with the identifier `executor_id`, which no
    /// other executor has.
    pub fn new(executor_id: usize) -> (e: Self)
        requires
            executor_id <= usize::MAX / 2,
        ensures
            e.wf(),
            e.id() == executor_id,
            e.ready() == Seq::<Runnable<T>>::empty(),
            e.active() == Map::<usize, u64>::empty(),
            e.vacant_slot() == 0,
            !e.is_shut_down(),
    {
        let context = ExecutorContext::new(executor_id);
        let active_tasks = slab_new();
        Executor { context, active_tasks, shut_down: false }
    }

    /// Identifier of the executor.
    pub fn executor_id(&self) -> (id: usize)
        ensures
            id == self.id(),
    {
        self.context.executor_id
    }

    /// Number of ready tasks.
    pub fn ready_len(&self) -> (n: usize)
        ensures
            n == self.ready().len(),
    {
        self.context.queue.len()
    }

    /// Spawns a task and returns the slot of its cancellation token, by
    /// which the outcome of the task is asked for later.
    ///
    /// The task gets the vacant slot of the table of active tasks and the
    /// tag of this executor, and goes to the back of the queue of ready
    /// tasks. An executor that was shut down spawns nothing.
    pub fn spawn(&mut self, future: T, cancel_token: u64) -> (slot: Option<usize>)
        requires
            old(self).wf(),
        ensures
            final(self).wf(),
            final(self).id() == old(self).id(),
            final(self).is_shut_down() == old(self).is_shut_down(),
            slot.is_some() <==> !old(self).is_shut_down(),
            slot.is_none() ==> final(self).ready() == old(self).ready() && final(self).active() == old(
                self,
            ).active() && final(self).vacant_slot() == old(self).vacant_slot(),
            slot matches Some(key) ==> {
                &&& key == old(self).vacant_slot()
                &&& !old(self).active().dom().contains(key)
                &&& final(self).active() == old(self).active().insert(key, cancel_token)
                &&& final(self).ready() == old(self).ready().push(old(self).spawned_task(future))
            },
    {
        if self.shut_down {
            return None;
        }
        // Book a slot to store the task cancellation token.
        let key = slab_next_key(&self.active_tasks);
        // Wrap the future so that it names the slot of its token.
        let future = CancellableFuture::new(future, key);
        let runnable = Runnable { future, executor_id: self.context.executor_id };
        let _ = slab_insert(&mut self.active_tasks, cancel_token);
        self.context.queue.push(runnable);
        Some(key)
    }

    /// Spawns a task whose outcome is never asked for. Returns whether the
    /// task was spawned: an executor that was shut down spawns nothing.
    pub fn spawn_and_forget(&mut self, future: T, cancel_token: u64) -> (spawned: bool)
        requires
            old(self).wf(),
        ensures
            final(self).wf(),
            final(self).id() == old(self).id(),
            final(self).is_shut_down() == old(self).is_shut_down(),
            spawned <==> !old(self).is_shut_down(),
            !spawned ==> final(self).ready() == old(self).ready() && final(self).active() == old(self).active()
                && final(self).vacant_slot() == old(self).vacant_slot(),
            spawned ==> {
                &&& !old(self).active().dom().contains(old(self).vacant_slot())
                &&& final(self).active() == old(self).active().insert(old(self).vacant_slot(), cancel_token)
                &&& final(self).ready() == old(self).ready().push(old(self).spawned_task(future))
            },
    {
        self.spawn(future, cancel_token).is_some()
    }

    /// Takes the next ready task out of the queue: the task that has been
    /// ready for the longest time. Every task handed out carries the tag of
    /// this executor. The executor is quiescent when there is none.
    pub fn next_runnable(&mut self) -> (task: Option<Runnable<T>>)
        requires
            old(self).wf(),
        ensures
            final(self).wf(),
            final(self).id() == old(self).id(),
            final(self).active() == old(self).active(),
            final(self).vacant_slot() == old(self).vacant_slot(),
            final(self).is_shut_down() == old(self).is_shut_down(),
            old(self).ready().len() == 0 ==> task.is_none() && final(self).ready() == old(self).ready(),
            old(self).ready().len() > 0 ==> task == Some(old(self).ready()[0]) && final(self).ready() == old(
                self,
            ).ready().skip(1),
            task matches Some(t) ==> t.executor_id == final(self).id(),
    {
        if self.context.queue.len() == 0 {
            None
        } else {
            let task = self.context.queue.remove(0);
            proof {
                let before = old(self).ready();
                assert(before.remove(0) =~= before.skip(1));
                assert forall|i: int| 0 <= i < self.ready().len() implies (#[trigger] self.ready()[i]).executor_id
                    == self.id() by {
                    assert(self.ready()[i] == before[i + 1]);
                }
                assert(before[0].executor_id == self.id());
            }
            Some(task)
        }
    }

    /// Puts a task that was woken back into the queue of ready tasks.
    ///
    /// The task must be woken on the executor it was spawned on:
    /// `executor_id`, the tag of the task, is the identifier of this
    /// executor.
    pub fn wake(&mut self, task: Runnable<T>, executor_id: usize)
        requires
            old(self).wf(),
            task.executor_id == executor_id,
            executor_id == old(self).id(),
        ensures
            final(self).wf(),
            final(self).id() == old(self).id(),
            final(self).active() == old(self).active(),
            final(self).vacant_slot() == old(self).vacant_slot(),
            final(self).is_shut_down() == old(self).is_shut_down(),
            final(self).ready() == old(self).ready().push(task),
    {
        schedule_task(task, executor_id, &mut self.context);
    }

    /// Puts a task that was woken back into the queue of ready tasks, if
    /// this is the executor it was spawned on.
    ///
    /// A task that carries the tag of another executor is given back and
    /// nothing changes: a task never enters the queue of an executor that
    /// did not spawn it.
    pub fn try_wake(&mut self, task: Runnable<T>, executor_id: usize) -> (r: Result<(), Runnable<T>>)
        requires
            old(self).wf(),
        ensures
            final(self).wf(),
            final(self).id() == old(self).id(),
            final(self).active() == old(self).active(),
            final(self).vacant_slot() == old(self).vacant_slot(),
            final(self).is_shut_down() == old(self).is_shut_down(),
            r.is_ok() <==> task.executor_id == executor_id && executor_id == old(self).id(),
            r.is_ok() ==> final(self).ready() == old(self).ready().push(task),
            r matches Err(back) ==> back == task && final(self).ready() == old(self).ready(),
    {
        try_schedule_task(task, executor_id, &mut self.context)
    }

    /// Takes the cancellation token of a task that was dropped out of the
    /// table of active tasks, and returns the token if the table held one
    /// for the task. The slot of the task is free again.
    pub fn release(&mut self, future: &CancellableFuture<T>) -> (token: Option<u64>)
        requires
            old(self).wf(),
        ensures
            final(self).wf(),
            final(self).id() == old(self).id(),
            final(self).ready() == old(self).ready(),
            final(self).is_shut_down() == old(self).is_shut_down(),
            final(self).active() == old(self).active().remove(future.cancellation_key),
            token == if old(self).active().dom().contains(future.cancellation_key) {
                Some(old(self).active()[future.cancellation_key])
            } else {
                None
            },
    {
        slab_try_remove(&mut self.active_tasks, future.cancellation_key)
    }

    /// Shuts the executor down and returns the cancellation tokens of all
    /// tasks that have not completed, in the order of their slots.
    ///
    /// The table of active tasks is empty afterwards and nothing can be
    /// spawned any more. The queue of ready tasks stays as it is: it is
    /// dropped last, with the executor.
    pub fn cancel_all(&mut self) -> (tokens: Vec<u64>)
        requires
            old(self).wf(),
        ensures
            final(self).wf(),
            final(self).id() == old(self).id(),
            final(self).ready() == old(self).ready(),
            final(self).is_shut_down(),
            final(self).active() == Map::<usize, u64>::empty(),
            final(self).vacant_slot() == 0,
            in_key_order(old(self).active(), tokens@),
    {
        self.shut_down = true;
        slab_drain(&mut self.active_tasks)
    }
}

} // verus!

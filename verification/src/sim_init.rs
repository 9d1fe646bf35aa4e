//! Builder of a simulation bench.
use vstd::prelude::*;
use crate::simulation::Simulation;
use crate::scheduler_queue::Entry;
use crate::key_registry::KeySlot;
use crate::mailbox::Mailbox;
use crate::time::MonotonicTime;

verus! {

/// Name given to a model that was added without a name.
pub open spec fn unknown_name() -> Seq<char> {
    "<unknown>"@
}

/// The number of threads that a request for `num_threads` threads gets: at
/// least one, at most one per bit of a machine word.
pub open spec fn clamped_threads(num_threads: usize) -> usize {
    if num_threads < 1 {
        1
    } else if num_threads > usize::BITS {
        usize::BITS as usize
    } else {
        num_threads
    }
}

/// `num_cpus::get`: the number of logical cores that this process can use.
/// It depends on the machine and on the moment; it is never zero.
#[verifier::external_body]
fn available_cores() -> (n: usize)
    ensures
        n >= 1,
{
    num_cpus::get()
}

/// Builder for a discrete-event simulation.
pub struct SimInit {
    num_threads: usize,
    models: Vec<(String, usize)>,
}

impl SimInit {
    /// Number of threads that the simulation runs on.
    pub closed spec fn threads(&self) -> usize {
        self.num_threads
    }

    /// Name and channel of every model added, in the order of addition.
    pub closed spec fn models(&self) -> Seq<(Seq<char>, usize)> {
        Seq::new(self.models@.len(), |i: int| (self.models@[i].0@, self.models@[i].1))
    }

    /// Creates a builder for a simulation that runs on all logical cores
    /// that can be used, within the limits of
    /// [`with_num_threads`](Self::with_num_threads).
    pub fn new() -> (s: Self)
        ensures
            1 <= s.threads() <= usize::BITS,
            s.models() == Seq::<(Seq<char>, usize)>::empty(),
    {
        Self::with_num_threads(available_cores())
    }

    /// Creates a builder for a simulation that runs on `num_threads`
    /// threads, brought into the range from 1 to `usize::BITS`.
    pub fn with_num_threads(num_threads: usize) -> (s: Self)
        ensures
            s.threads() == clamped_threads(num_threads),
            1 <= s.threads() <= usize::BITS,
            s.models() == Seq::<(Seq<char>, usize)>::empty(),
    {
        let max: usize = usize::BITS as usize;
        let num_threads = if num_threads < 1 {
            1
        } else if num_threads > max {
            max
        } else {
            num_threads
        };
        let s = SimInit { num_threads, models: Vec::new() };
        proof {
            assert(s.models() =~= Seq::<(Seq<char>, usize)>::empty());
        }
        s
    }

    /// Number of threads that the simulation runs on.
    pub fn num_threads(&self) -> (n: usize)
        ensures
            n == self.threads(),
    {
        self.num_threads
    }

    /// Whether the simulation runs on a single thread.
    pub fn is_single_threaded(&self) -> (b: bool)
        ensures
            b <==> self.threads() == 1,
    {
        self.num_threads == 1
    }

    /// Number of models added.
    pub fn model_count(&self) -> (n: usize)
        ensures
            n == self.models().len(),
    {
        self.models.len()
    }

    /// Name of the model added as number `index`.
    pub fn model_name(&self, index: usize) -> (name: &String)
        requires
            index < self.models().len(),
        ensures
            name@ == self.models()[index as int].0,
    {
        &self.models[index].0
    }

    /// Channel of the model added as number `index`.
    pub fn model_channel(&self, index: usize) -> (channel: usize)
        requires
            index < self.models().len(),
        ensures
            channel == self.models()[index as int].1,
    {
        self.models[index].1
    }

    /// Adds a model, known by its mailbox, to the simulation bench.
    ///
    /// The name need not be unique. An empty name is replaced by
    /// `<unknown>`.
    pub fn add_model<M>(self, mailbox: &Mailbox<M>, name: String) -> (s: Self)
        ensures
            s.threads() == self.threads(),
            s.models() == self.models().push(
                (if name@.len() == 0 {
                    unknown_name()
                } else {
                    name@
                }, mailbox.id()),
            ),
    {
        let mut this = self;
        let channel = mailbox.channel();
        let name = if name.as_str().is_empty() {
            "<unknown>".to_owned()
        } else {
            name
        };
        let ghost before = this.models();
        let ghost text = name@;
        this.models.push((name, channel));
        proof {
            assert(this.models() =~= before.push((text, channel)));
        }
        this
    }

    /// Builds a simulation whose clock shows `start_time` and in which
    /// nothing is scheduled yet.
    pub fn init<A: Copy>(self, start_time: MonotonicTime) -> (s: Simulation<A>)
        ensures
            s.wf(),
            s.now() == start_time,
            s.queue() == Seq::<Entry<A>>::empty(),
            s.next_seq() == 0,
            s.keys() == Seq::<KeySlot>::empty(),
    {
        Simulation::new(start_time)
    }
}

impl Default for SimInit {
    /// The builder that [`SimInit::new`] creates.
    fn default() -> (s: Self)
        ensures
            1 <= s.threads() <= usize::BITS,
            s.models() == Seq::<(Seq<char>, usize)>::empty(),
    {
        Self::new()
    }
}

} // verus!

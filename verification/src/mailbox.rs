//! Bounded mailbox of a model and the addresses that send into it.
//!
//! A mailbox is a first-in first-out queue of bounded capacity with a single
//! consumer, the model that owns it, and any number of senders. The mailbox
//! never holds more messages than its capacity. Waiting for room belongs to
//! the embedding program: a send that finds the mailbox full gives the
//! message back.
use vstd::prelude::*;

verus! {

/// Capacity of a mailbox made without a capacity.
pub const DEFAULT_CAPACITY: usize = 16;

/// Handle for sending into a mailbox. Two addresses are equal when they
/// refer to the same mailbox.
#[derive(Clone, Copy, Debug, PartialEq, Eq, Hash, Structural)]
pub struct Address {
    pub channel: usize,
}

/// Why a message was not taken. The message is given back.
#[derive(Debug, PartialEq, Eq)]
pub enum SendError<M> {
    /// The mailbox holds as many messages as its capacity allows.
    Full(M),
    /// The receiver of the mailbox is gone.
    Closed(M),
}

/// The mailbox of one model.
pub struct Mailbox<M> {
    channel: usize,
    queue: Vec<M>,
    capacity: usize,
    sender_count: u32,
    receiver_alive: bool,
}

impl<M> View for Mailbox<M> {
    type V = Seq<M>;

    /// The waiting messages, oldest first.
    closed spec fn view(&self) -> Seq<M> {
        self.queue@
    }
}

impl<M> Mailbox<M> {
    /// The channel that identifies the mailbox.
    pub closed spec fn id(&self) -> usize {
        self.channel
    }

    /// The largest number of messages that can wait.
    pub closed spec fn limit(&self) -> usize {
        self.capacity
    }

    /// The number of addresses that refer to the mailbox.
    pub closed spec fn senders(&self) -> u32 {
        self.sender_count
    }

    /// Whether the receiver of the mailbox is there.
    pub closed spec fn open(&self) -> bool {
        self.receiver_alive
    }

    /// The mailbox can hold a message and never holds more messages than
    /// its capacity.
    pub open spec fn wf(&self) -> bool {
        1 <= self.limit() && self@.len() <= self.limit()
    }

    /// Creates an empty mailbox of the default capacity.
    pub fn new(channel: usize) -> (m: Self)
        ensures
            m.wf(),
            m.id() == channel,
            m.limit() == DEFAULT_CAPACITY,
            m@ == Seq::<M>::empty(),
            m.senders() == 0,
            m.open(),
    {
        Self::with_capacity(channel, DEFAULT_CAPACITY)
    }

    /// Creates an empty mailbox that can hold `capacity` messages.
    pub fn with_capacity(channel: usize, capacity: usize) -> (m: Self)
        requires
            capacity >= 1,
        ensures
            m.wf(),
            m.id() == channel,
            m.limit() == capacity,
            m@ == Seq::<M>::empty(),
            m.senders() == 0,
            m.open(),
    {
        Mailbox { channel, queue: Vec::new(), capacity, sender_count: 0, receiver_alive: true }
    }

    /// The channel that identifies the mailbox.
    pub fn channel(&self) -> (c: usize)
        ensures
            c == self.id(),
    {
        self.channel
    }

    /// The largest number of messages that can wait.
    pub fn capacity(&self) -> (n: usize)
        ensures
            n == self.limit(),
    {
        self.capacity
    }

    /// The number of messages that wait.
    pub fn len(&self) -> (n: usize)
        ensures
            n == self@.len(),
    {
        self.queue.len()
    }

    /// Whether the receiver of the mailbox is there.
    pub fn is_open(&self) -> (b: bool)
        ensures
            b == self.open(),
    {
        self.receiver_alive
    }

    /// The number of addresses that refer to the mailbox.
    pub fn sender_count(&self) -> (n: u32)
        ensures
            n == self.senders(),
    {
        self.sender_count
    }

    /// Whether the model of the mailbox has nothing left to wait for: no
    /// message waits and no address is left to send one.
    pub fn is_drained(&self) -> (b: bool)
        ensures
            b <==> self@.len() == 0 && self.senders() == 0,
    {
        self.queue.len() == 0 && self.sender_count == 0
    }

    /// Gives out one more address of the mailbox, unless as many addresses
    /// are out as can be counted.
    pub fn address(&mut self) -> (a: Option<Address>)
        requires
            old(self).wf(),
        ensures
            final(self).wf(),
            final(self).id() == old(self).id(),
            final(self).limit() == old(self).limit(),
            final(self)@ == old(self)@,
            final(self).open() == old(self).open(),
            a.is_some() <==> old(self).senders() < u32::MAX,
            a.is_none() ==> final(self).senders() == old(self).senders(),
            a matches Some(address) ==> address.channel == old(self).id() && final(self).senders() == old(
                self,
            ).senders() + 1,
    {
        if self.sender_count == u32::MAX {
            return None;
        }
        self.sender_count = self.sender_count + 1;
        Some(Address { channel: self.channel })
    }

    /// Takes back an address of the mailbox.
    pub fn drop_address(&mut self, address: Address)
        requires
            old(self).wf(),
        ensures
            final(self).wf(),
            final(self).id() == old(self).id(),
            final(self).limit() == old(self).limit(),
            final(self)@ == old(self)@,
            final(self).open() == old(self).open(),
            final(self).senders() == if address.channel == old(self).id() && old(self).senders() > 0 {
                (old(self).senders() - 1) as u32
            } else {
                old(self).senders()
            },
    {
        if address.channel == self.channel && self.sender_count > 0 {
            self.sender_count = self.sender_count - 1;
        }
    }

    /// Puts a message at the back of the mailbox.
    ///
    /// The message is given back if the receiver is gone or if the mailbox
    /// is full.
    pub fn try_send(&mut self, message: M) -> (r: Result<(), SendError<M>>)
        requires
            old(self).wf(),
        ensures
            final(self).wf(),
            final(self).id() == old(self).id(),
            final(self).limit() == old(self).limit(),
            final(self).senders() == old(self).senders(),
            final(self).open() == old(self).open(),
            if !old(self).open() {
                r == Err::<(), SendError<M>>(SendError::Closed(message)) && final(self)@ == old(self)@
            } else if old(self)@.len() == old(self).limit() {
                r == Err::<(), SendError<M>>(SendError::Full(message)) && final(self)@ == old(self)@
            } else {
                r.is_ok() && final(self)@ == old(self)@.push(message)
            },
    {
        if !self.receiver_alive {
            return Err(SendError::Closed(message));
        }
        if self.queue.len() >= self.capacity {
            return Err(SendError::Full(message));
        }
        self.queue.push(message);
        Ok(())
    }

    /// Takes the oldest message out of the mailbox, if there is one.
    pub fn recv(&mut self) -> (r: Option<M>)
        requires
            old(self).wf(),
        ensures
            final(self).wf(),
            final(self).id() == old(self).id(),
            final(self).limit() == old(self).limit(),
            final(self).senders() == old(self).senders(),
            final(self).open() == old(self).open(),
            old(self)@.len() == 0 ==> r.is_none() && final(self)@ == old(self)@,
            old(self)@.len() > 0 ==> r == Some(old(self)@[0]) && final(self)@ == old(self)@.skip(1),
    {
        if self.queue.len() == 0 {
            None
        } else {
            proof {
                assert(self.queue@.remove(0) =~= self.queue@.skip(1));
            }
            Some(self.queue.remove(0))
        }
    }

    /// Marks the receiver of the mailbox as gone. The messages that wait
    /// are dropped and every later send is refused.
    pub fn close(&mut self)
        requires
            old(self).wf(),
        ensures
            final(self).wf(),
            final(self).id() == old(self).id(),
            final(self).limit() == old(self).limit(),
            final(self).senders() == old(self).senders(),
            !final(self).open(),
            final(self)@ == Seq::<M>::empty(),
    {
        self.receiver_alive = false;
        self.queue.clear();
    }
}

} // verus!

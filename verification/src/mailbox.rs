//! Bounded FIFO mailbox.
//!
//! A mailbox holds the messages queued for one actor, up to a capacity fixed
//! at creation. Producers are counted: cloning an address raises the count,
//! dropping one lowers it, and a mailbox with no producers left is closed.
//! The ghost `accepted` sequence records every message the mailbox ever took,
//! so the contract of [`Mailbox::pop`] can say that the `n`-th message popped
//! is exactly the `n`-th message accepted: delivery is first-in, first-out,
//! each accepted message delivered exactly once.

use vstd::prelude::*;

verus! {

/// Bounded FIFO of messages for a single consumer, with a producer count.
pub struct Mailbox<M> {
    queue: Vec<M>,
    capacity: usize,
    producers: usize,
    accepted: Ghost<Seq<M>>,
    popped: Ghost<int>,
}

impl<M> Mailbox<M> {
    /// The messages currently queued, oldest first.
    pub closed spec fn queue(&self) -> Seq<M> {
        self.queue@
    }

    /// The fixed capacity of the mailbox.
    pub closed spec fn capacity_spec(&self) -> usize {
        self.capacity
    }

    /// How many producers (addresses) are still alive.
    pub closed spec fn producers(&self) -> usize {
        self.producers
    }

    /// Every message ever accepted, in order of acceptance.
    pub closed spec fn accepted(&self) -> Seq<M> {
        self.accepted@
    }

    /// How many messages have been popped so far.
    pub closed spec fn popped(&self) -> int {
        self.popped@
    }

    /// The queue is the accepted history minus the popped prefix, and never
    /// exceeds the capacity.
    pub open spec fn wf(&self) -> bool {
        &&& 0 <= self.popped() <= self.accepted().len()
        &&& self.queue() == self.accepted().skip(self.popped())
        &&& self.queue().len() <= self.capacity_spec()
        &&& self.capacity_spec() >= 1
    }

    /// A mailbox is closed once every producer is gone.
    pub open spec fn is_closed(&self) -> bool {
        self.producers() == 0
    }

    /// Create a mailbox with the given capacity and a single producer.
    pub fn new(capacity: usize) -> (r: Mailbox<M>)
        requires
            capacity >= 1,
        ensures
            r.wf(),
            r.queue() == Seq::<M>::empty(),
            r.accepted() == Seq::<M>::empty(),
            r.popped() == 0,
            r.capacity_spec() == capacity,
            r.producers() == 1,
    {
        let r = Mailbox {
            queue: Vec::new(),
            capacity,
            producers: 1,
            accepted: Ghost(Seq::empty()),
            popped: Ghost(0int),
        };
        proof {
            assert(r.queue@ =~= r.accepted@.skip(0));
        }
        r
    }

    /// The capacity the mailbox was created with.
    pub fn capacity(&self) -> (r: usize)
        ensures
            r == self.capacity_spec(),
    {
        self.capacity
    }

    /// Whether every producer is gone.
    pub fn closed(&self) -> (r: bool)
        ensures
            r == self.is_closed(),
    {
        self.producers == 0
    }

    /// How many messages are queued right now.
    pub fn len(&self) -> (r: usize)
        ensures
            r == self.queue().len(),
    {
        self.queue.len()
    }

    /// Record that an address was cloned: one more producer.
    pub fn clone_producer(&mut self)
        requires
            old(self).wf(),
            old(self).producers() < usize::MAX,
        ensures
            final(self).wf(),
            final(self).producers() == old(self).producers() + 1,
            final(self).queue() == old(self).queue(),
            final(self).accepted() == old(self).accepted(),
            final(self).popped() == old(self).popped(),
            final(self).capacity_spec() == old(self).capacity_spec(),
    {
        self.producers = self.producers + 1;
    }

    /// Record that an address was dropped: one less producer.
    pub fn drop_producer(&mut self)
        requires
            old(self).wf(),
            old(self).producers() > 0,
        ensures
            final(self).wf(),
            final(self).producers() == old(self).producers() - 1,
            final(self).queue() == old(self).queue(),
            final(self).accepted() == old(self).accepted(),
            final(self).popped() == old(self).popped(),
            final(self).capacity_spec() == old(self).capacity_spec(),
    {
        self.producers = self.producers - 1;
    }

    /// Offer a message without waiting.
    ///
    /// The message is accepted and appended to the queue when the mailbox is
    /// open and has room; otherwise the very message offered comes back to
    /// the caller, so that no message is ever lost on the failure path.
    pub fn try_send(&mut self, m: M) -> (r: Result<(), M>)
        requires
            old(self).wf(),
        ensures
            final(self).wf(),
            final(self).producers() == old(self).producers(),
            final(self).capacity_spec() == old(self).capacity_spec(),
            final(self).popped() == old(self).popped(),
            old(self).is_closed() || old(self).queue().len() == old(self).capacity_spec()
                ==> r == Result::<(), M>::Err(m) && final(self).queue() == old(self).queue()
                    && final(self).accepted() == old(self).accepted(),
            !old(self).is_closed() && old(self).queue().len() < old(self).capacity_spec()
                ==> r == Result::<(), M>::Ok(()) && final(self).queue() == old(self).queue().push(m)
                    && final(self).accepted() == old(self).accepted().push(m),
    {
        if self.producers == 0 {
            return Err(m);
        }
        if self.queue.len() >= self.capacity {
            return Err(m);
        }
        self.queue.push(m);
        proof {
            self.accepted@ = self.accepted@.push(self.queue@[self.queue@.len() - 1]);
            assert(self.queue@ =~= self.accepted@.skip(self.popped@));
        }
        Ok(())
    }

    /// Take the oldest queued message, if any.
    ///
    /// The message returned is exactly `accepted()[popped()]`: the mailbox
    /// hands messages out in the order it accepted them, each exactly once.
    pub fn pop(&mut self) -> (r: Option<M>)
        requires
            old(self).wf(),
        ensures
            final(self).wf(),
            final(self).producers() == old(self).producers(),
            final(self).capacity_spec() == old(self).capacity_spec(),
            final(self).accepted() == old(self).accepted(),
            old(self).queue().len() == 0 ==> r is None && final(self).queue() == old(self).queue()
                && final(self).popped() == old(self).popped(),
            old(self).queue().len() > 0 ==> {
                &&& r == Some(old(self).accepted()[old(self).popped()])
                &&& r == Some(old(self).queue()[0])
                &&& final(self).queue() == old(self).queue().skip(1)
                &&& final(self).popped() == old(self).popped() + 1
            },
    {
        if self.queue.len() == 0 {
            return None;
        }
        let m = self.queue.remove(0);
        proof {
            self.popped@ = self.popped@ + 1;
            assert(self.queue@ =~= self.accepted@.skip(self.popped@));
        }
        Some(m)
    }
}

/// Delivery is first-in, first-out: at every point, the message a mailbox
/// will hand out next is the oldest accepted message not yet delivered, and
/// the ones after it follow in acceptance order.
pub proof fn lemma_delivery_is_fifo<M>(mb: &Mailbox<M>, i: int)
    requires
        mb.wf(),
        0 <= i < mb.queue().len(),
    ensures
        mb.queue()[i] == mb.accepted()[mb.popped() + i],
{
}

} // verus!

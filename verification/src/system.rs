//! Shutdown broadcast and task-join bookkeeping.
//!
//! The system owns a broadcast of unit "stop" events. Each subscriber
//! receives every signal sent after it subscribed, and none sent before: a
//! subscriber remembers how many signals it has seen, and a signal is
//! pending for it exactly when the bus has sent more. A single signal is
//! enough for every live subscriber, and further signals are idempotent for
//! anyone who already has one pending. Graceful shutdown signals once, then
//! joins every tracked task and propagates the first failure.

use vstd::prelude::*;

use crate::actor::ActorError;

verus! {

/// Broadcast sender of shutdown events: counts the signals ever sent.
pub struct ShutdownBus {
    signals: u64,
}

/// One subscription to the shutdown broadcast: remembers how many signals
/// it has already observed.
pub struct ShutdownSubscriber {
    seen: u64,
}

impl ShutdownBus {
    /// How many shutdown signals have been sent on this bus.
    pub closed spec fn signals(&self) -> u64 {
        self.signals
    }

    /// A fresh bus with no signal sent.
    pub fn new() -> (r: ShutdownBus)
        ensures
            r.signals() == 0,
    {
        ShutdownBus { signals: 0 }
    }

    /// Send a shutdown signal. Non-blocking; repeating it is idempotent for
    /// every subscriber that already has a signal pending.
    pub fn signal(&mut self)
        ensures
            old(self).signals() < u64::MAX ==> final(self).signals() == old(self).signals() + 1,
            old(self).signals() == u64::MAX ==> final(self).signals() == old(self).signals(),
            final(self).signals() >= old(self).signals(),
    {
        if self.signals < u64::MAX {
            self.signals = self.signals + 1;
        }
    }

    /// Subscribe: the new subscriber observes only future signals, never the
    /// ones already sent.
    pub fn subscribe(&self) -> (r: ShutdownSubscriber)
        ensures
            r.seen() == self.signals(),
    {
        ShutdownSubscriber { seen: self.signals }
    }
}

/// Whether a shutdown signal is pending for `sub` on `bus`: the bus has sent
/// a signal that the subscriber has not observed yet.
pub open spec fn shutdown_pending(sub: &ShutdownSubscriber, bus: &ShutdownBus) -> bool {
    bus.signals() > sub.seen()
}

impl ShutdownSubscriber {
    /// How many signals this subscriber has observed.
    pub closed spec fn seen(&self) -> u64 {
        self.seen
    }

    /// Whether a signal is pending, without consuming it.
    pub fn pending(&self, bus: &ShutdownBus) -> (r: bool)
        ensures
            r == shutdown_pending(self, bus),
    {
        bus.signals > self.seen
    }

    /// Observe the bus: report whether a signal was pending, and mark every
    /// signal sent so far as seen.
    pub fn recv(&mut self, bus: &ShutdownBus) -> (r: bool)
        ensures
            r == shutdown_pending(old(self), bus),
            final(self).seen() == bus.signals(),
    {
        let was_pending = bus.signals > self.seen;
        self.seen = bus.signals;
        was_pending
    }
}

/// One signal reaches every earlier subscriber: a subscriber that
/// subscribed at or before the bus's state `before` has a signal pending in
/// every later state `after`, and an actor loop that is run with a pending
/// signal exits with the clean `Shutdown` stop.
pub proof fn lemma_signal_reaches_earlier_subscribers(
    before: &ShutdownBus,
    after: &ShutdownBus,
    sub: &ShutdownSubscriber,
)
    requires
        sub.seen() <= before.signals(),
        after.signals() > before.signals(),
    ensures
        shutdown_pending(sub, after),
{
}

/// The index of the first failed result, if any.
pub open spec fn first_failure_index(results: Seq<Result<(), ActorError>>) -> int
    decreases results.len(),
{
    if results.len() == 0 {
        0
    } else if results[0] is Err {
        0
    } else {
        1 + first_failure_index(results.skip(1))
    }
}

/// Whether every result in the sequence is a success.
pub open spec fn all_ok(results: Seq<Result<(), ActorError>>) -> bool {
    forall|i: int| 0 <= i < results.len() ==> results[i] is Ok
}

/// Fold the results of every tracked task into one outcome for the whole
/// system: a clean stop when every task stopped cleanly, else the
/// earliest failure, in join order.
pub fn first_failure(results: Vec<Result<(), ActorError>>) -> (r: Result<(), ActorError>)
    ensures
        r is Ok <==> all_ok(results@),
        !all_ok(results@) ==> {
            let k = first_failure_index(results@);
            &&& 0 <= k < results@.len()
            &&& results@[k] is Err
            &&& r == results@[k]
            &&& forall|j: int| 0 <= j < k ==> results@[j] is Ok
        },
{
    let n = results.len();
    let mut i: usize = 0;
    while i < n
        invariant
            0 <= i <= n,
            n == results@.len(),
            forall|j: int| 0 <= j < i ==> results@[j] is Ok,
        decreases n - i,
    {
        if results[i].is_err() {
            proof {
                lemma_first_failure_index(results@, i as int);
            }
            let mut taken = results;
            return taken.remove(i);
        }
        i = i + 1;
    }
    Ok(())
}

/// If everything before `i` is `Ok` and `results[i]` is `Err`, then `i` is
/// the first failure index.
proof fn lemma_first_failure_index(results: Seq<Result<(), ActorError>>, i: int)
    requires
        0 <= i < results.len(),
        results[i] is Err,
        forall|j: int| 0 <= j < i ==> results[j] is Ok,
    ensures
        first_failure_index(results) == i,
        !all_ok(results),
    decreases i,
{
    if i > 0 {
        lemma_first_failure_index(results.skip(1), i - 1);
    }
}

} // verus!

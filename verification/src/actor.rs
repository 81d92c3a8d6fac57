//! Actor core: the handling contract and the message loop.
//!
//! An actor owns private state and handles the messages of its mailbox one
//! at a time. [`run_actor`] is the loop in its deterministic form: it pops
//! queued messages in order and stops on the first of the stop conditions —
//! a pending shutdown signal, a handler error, a stop request from the
//! context, or a closed and drained mailbox. An asynchronous shell that
//! parks on an empty open mailbox observes the same behaviour: [`run_actor`]
//! returns [`ActorExit::Idle`] exactly where such a shell would await.

use vstd::prelude::*;

use crate::mailbox::Mailbox;

verus! {

/// Why an actor's handler failed. Terminal for that actor.
#[derive(Debug, Clone)]
pub struct ActorError {
    pub message: String,
}

/// Per-message handle passed to each `handle` call. Setting `stop` asks the
/// loop to end the actor, with success, after the current message.
pub struct Context {
    pub stop: bool,
}

impl Context {
    /// A fresh context with the stop flag clear.
    pub fn new() -> (r: Context)
        ensures
            !r.stop,
    {
        Context { stop: false }
    }

    /// Request a graceful stop after the current message.
    pub fn stop(&mut self)
        ensures
            final(self).stop,
    {
        self.stop = true;
    }
}

/// What a collaborator implements to run as an actor: handle one message,
/// return an error to stop the actor.
pub trait Actor: Sized {
    type Msg;

    fn handle(&mut self, msg: Self::Msg, ctx: &mut Context) -> Result<(), ActorError>;
}

/// How one run of the actor loop ended.
pub enum ActorExit {
    /// A shutdown signal was pending: clean stop, no message touched.
    Shutdown,
    /// A handler set the stop flag: clean stop.
    Stopped,
    /// Every producer is gone and the queue is empty: clean stop.
    Drained,
    /// A handler returned an error: the actor is terminal.
    Failed(ActorError),
    /// The queue is empty but producers remain: the loop would await here.
    Idle,
}

impl ActorExit {
    /// Every exit but [`ActorExit::Failed`] is a clean stop.
    pub open spec fn is_clean(&self) -> bool {
        !(self is Failed)
    }
}

/// Run an actor against its mailbox until a stop condition.
///
/// Takes ownership of the mailbox — the actor task is its only consumer —
/// and hands it back with the exit and the exact sequence of messages the
/// handler was invoked on: each message whose send was accepted is handled
/// exactly once, in acceptance order — the handled sequence is precisely
/// `accepted()[entry popped .. exit popped]`. The loop exits `Shutdown`
/// exactly when a shutdown signal was pending at entry; `Drained` or
/// `Idle` only once every queued message has been handled, `Drained` when
/// the mailbox is closed and `Idle` when producers remain; `Stopped` or
/// `Failed` when a handler asked to stop or failed. A closed mailbox
/// therefore never leaves the loop waiting: the run ends in one of the
/// four definite exits.
#[verifier::loop_isolation(false)]
pub fn run_actor<A: Actor>(actor: &mut A, inbox: Mailbox<A::Msg>, shutdown_pending: bool) -> (r: (
    ActorExit,
    Mailbox<A::Msg>,
    Ghost<Seq<A::Msg>>,
))
    requires
        inbox.wf(),
    ensures
        r.1.wf(),
        r.1.accepted() == inbox.accepted(),
        r.1.producers() == inbox.producers(),
        r.1.capacity_spec() == inbox.capacity_spec(),
        inbox.popped() <= r.1.popped() <= inbox.accepted().len(),
        r.2@ == inbox.accepted().subrange(inbox.popped(), r.1.popped()),
        r.0 is Shutdown <==> shutdown_pending,
        shutdown_pending ==> r.1.popped() == inbox.popped() && *final(actor) == *old(actor),
        r.0 is Idle ==> r.1.queue().len() == 0 && !r.1.is_closed(),
        r.0 is Drained ==> r.1.queue().len() == 0 && r.1.is_closed(),
        r.0 is Idle || r.0 is Drained ==> r.1.popped() == inbox.accepted().len(),
        r.0 is Stopped || r.0 is Failed ==> r.1.popped() > inbox.popped(),
        inbox.is_closed() ==> !(r.0 is Idle),
{
    let ghost accepted0 = inbox.accepted();
    let ghost popped0 = inbox.popped();
    let mut cur = inbox;
    let mut handled: Ghost<Seq<A::Msg>> = Ghost(Seq::empty());
    if shutdown_pending {
        proof {
            assert(handled@ =~= accepted0.subrange(popped0, popped0));
        }
        return (ActorExit::Shutdown, cur, handled);
    }
    let mut ctx = Context::new();
    proof {
        assert(handled@ =~= accepted0.subrange(popped0, popped0));
    }
    loop
        invariant
            !shutdown_pending,
            cur.wf(),
            cur.accepted() == accepted0,
            cur.producers() == inbox.producers(),
            cur.capacity_spec() == inbox.capacity_spec(),
            popped0 <= cur.popped() <= accepted0.len(),
            handled@ == accepted0.subrange(popped0, cur.popped()),
        decreases cur.queue().len(),
    {
        let ghost prev_popped = cur.popped();
        let ghost prev_handled = handled@;
        match cur.pop() {
            None => {
                if cur.closed() {
                    return (ActorExit::Drained, cur, handled);
                } else {
                    return (ActorExit::Idle, cur, handled);
                }
            },
            Some(msg) => {
                handled = Ghost(handled@.push(msg));
                proof {
                    lemma_handled_step(accepted0, popped0, prev_popped, prev_handled, msg);
                }
                match actor.handle(msg, &mut ctx) {
                    Err(e) => {
                        return (ActorExit::Failed(e), cur, handled);
                    },
                    Ok(()) => {
                        if ctx.stop {
                            return (ActorExit::Stopped, cur, handled);
                        }
                    },
                }
            },
        }
    }
}

/// One step of the handled log: handling the next accepted message extends
/// the handled window by exactly that message.
proof fn lemma_handled_step<M>(accepted: Seq<M>, p0: int, pp: int, prev: Seq<M>, m: M)
    requires
        0 <= p0 <= pp < accepted.len(),
        prev == accepted.subrange(p0, pp),
        m == accepted[pp],
    ensures
        prev.push(m) == accepted.subrange(p0, pp + 1),
{
    assert(prev.push(m) =~= accepted.subrange(p0, pp + 1));
}

} // verus!

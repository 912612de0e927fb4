use vstd::prelude::*;

verus! {

use crate::wake::WakeHandle;

/// What the run loop must do after a poll of the root task.
#[derive(Clone, Copy, Debug, PartialEq, Eq, Structural)]
pub enum RunStep {
    /// Pause the core with the low-power wait-for-interrupt until any
    /// enabled interrupt fires, then poll again.
    Sleep,
    /// The root task completed: it is defined to run forever, so this is a
    /// fatal invariant violation and the program must abort.
    FatalRootCompleted,
}

/// The single-task executor's decision state.
///
/// The executor owns the one root task for the life of the program and
/// re-polls it whenever a re-poll has been requested.  `repoll_pending`
/// models the pending flag of the dedicated software interrupt that carries
/// such requests; routing them through an interrupt rather than polling
/// inline keeps a wake issued from inside the line-event service routine
/// from re-entering the poll.  The task itself, the low-power pause and the
/// interrupt-controller writes live with the platform layer.
pub struct Executor {
    /// Whether a re-poll of the root task has been requested.
    pub repoll_pending: bool,
}

/// The executor state after a wake capability has been invoked.
pub open spec fn woken(e: Executor) -> Executor {
    Executor { repoll_pending: true }
}

/// The executor state after a wake capability has been invoked `n` times.
pub open spec fn woken_n(e: Executor, n: nat) -> Executor
    decreases n,
{
    if n == 0 {
        e
    } else {
        woken(woken_n(e, (n - 1) as nat))
    }
}

impl Executor {
    /// An executor with no re-poll requested yet.
    pub fn new() -> (r: Executor)
        ensures
            !r.repoll_pending,
    {
        Executor { repoll_pending: false }
    }

    /// Ask for another poll of the root task.  On a target this raises the
    /// dedicated software interrupt; asking while a request is already
    /// pending changes nothing.
    pub fn request_repoll(&mut self)
        ensures
            *final(self) == woken(*old(self)),
    {
        self.repoll_pending = true;
    }

    /// The re-poll interrupt handler's only duty: acknowledge the request.
    /// The re-poll itself happens because the interrupt woke the core and
    /// the run loop came round again.
    pub fn acknowledge_repoll(&mut self)
        ensures
            !final(self).repoll_pending,
    {
        self.repoll_pending = false;
    }

    /// Decide the run loop's next step once the root task has been polled:
    /// the handled request is acknowledged, and a completed root task is a
    /// fatal invariant violation rather than a normal terminal state.
    pub fn after_root_poll(&mut self, completed: bool) -> (r: RunStep)
        ensures
            !final(self).repoll_pending,
            r == (if completed {
                RunStep::FatalRootCompleted
            } else {
                RunStep::Sleep
            }),
    {
        self.repoll_pending = false;
        if completed {
            RunStep::FatalRootCompleted
        } else {
            RunStep::Sleep
        }
    }
}

impl WakeHandle {
    /// Invoke the wake capability: request that the executor poll the root
    /// task again.  Safe to invoke any number of times, from ordinary or
    /// interrupt context, before or after the awaited condition resolved.
    pub fn wake(&self, exec: &mut Executor)
        ensures
            *final(exec) == woken(*old(exec)),
    {
        exec.request_repoll();
    }
}

/// Law: invoking a wake capability any number of times at least once leaves
/// the executor exactly as one invocation does, so redundant wakes cannot
/// corrupt the run loop's state.
pub proof fn lemma_wake_idempotent(e: Executor, n: nat)
    requires
        n >= 1,
    ensures
        woken_n(e, n) == woken(e),
    decreases n,
{
    if n > 1 {
        lemma_wake_idempotent(e, (n - 1) as nat);
    }
}

} // verus!

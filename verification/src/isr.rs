use vstd::prelude::*;

verus! {

use crate::registry::{AwaitingPin, Registry, marked, wakers_hit};
use crate::wake::WakeHandle;

/// The computing half of the line-event service routine.
///
/// The platform half reads the pending-interrupt status bitmask once inside
/// its critical section and hands it here: every awaited line whose bit is
/// set is marked signaled independently, and the wake capabilities those
/// entries had stored come back in entry order, one per entry that held one.
/// The returned acknowledge mask — exactly the consumed bits — must then be
/// written to the hardware status-clear register (write-1-to-clear) and the
/// CPU-level pending flag cleared; only after the critical section ends are
/// the collected wake capabilities invoked, so a wake routine that itself
/// needs the critical section cannot deadlock against it.
pub fn service_line_events(reg: &mut Registry, status: u32) -> (r: (Vec<WakeHandle>, u32))
    requires
        old(reg).wf(),
    ensures
        final(reg).wf(),
        final(reg).line_count() == old(reg).line_count(),
        forall|id: u8|
            final(reg).entry(id) == (match old(reg).entry(id) {
                Some(e) => Some(marked(e, status)),
                None => None::<AwaitingPin>,
            }),
        r.0@ == wakers_hit(old(reg)@, status),
        r.1 == status,
{
    let wakers = reg.mark_signaled_mask(status);
    (wakers, status)
}

} // verus!

use vstd::prelude::*;

verus! {

use crate::registry::{Registry, with_waker};
use crate::wake::WakeHandle;

/// What one poll of a wait observed.
///
/// `Ready` stands for successful completion of the wait; `Pending` means the
/// hardware condition has not occurred yet and the task should suspend.
#[derive(Clone, Copy, Debug, PartialEq, Eq, Structural)]
pub enum PollOutcome {
    Ready,
    Pending,
}

/// The wait future: a lightweight handle a wait operation returns, bound to
/// the line whose registry entry it consults.
#[derive(Debug, PartialEq, Eq, Structural)]
pub struct Signal {
    /// The awaited line.
    pub pin_number: u8,
}

impl Signal {
    pub fn new(pin_number: u8) -> (r: Self)
        ensures
            r.pin_number == pin_number,
    {
        Signal { pin_number }
    }

    /// Poll the wait, inside the caller's critical section.
    ///
    /// A signaled entry completes the wait and leaves the registry; the
    /// entry is removed exactly once, so a later poll of the same line finds
    /// nothing and is a harmless no-op.  A pending entry stores the caller's
    /// wake capability, overwriting any previous one.
    pub fn poll(&self, reg: &mut Registry, waker: WakeHandle) -> (r: PollOutcome)
        requires
            old(reg).wf(),
        ensures
            final(reg).wf(),
            forall|o: u8| o != self.pin_number ==> final(reg).entry(o) == old(reg).entry(o),
            match old(reg).entry(self.pin_number) {
                Some(e) => if e.signaled > 0 {
                    r == PollOutcome::Ready
                        && final(reg).entry(self.pin_number) is None
                        && final(reg).line_count() + 1 == old(reg).line_count()
                } else {
                    r == PollOutcome::Pending
                        && final(reg).entry(self.pin_number) == Some(with_waker(e, waker))
                        && final(reg).line_count() == old(reg).line_count()
                },
                None => r == PollOutcome::Pending && final(reg)@ == old(reg)@,
            },
    {
        match reg.take_if_signaled(self.pin_number) {
            Some(_) => PollOutcome::Ready,
            None => {
                reg.attach_waker(self.pin_number, waker);
                PollOutcome::Pending
            },
        }
    }
}

} // verus!

use vstd::prelude::*;

verus! {

/// An allocation-free, copyable wake capability.
///
/// It is a plain tagged identifier standing for one of a fixed set of wake
/// routines; copying it copies a small integer and has no side effect.
/// Invoking it (see `WakeHandle::wake` in the executor module) requests that
/// the executor poll the root task again.
#[derive(Clone, Copy, Debug, PartialEq, Eq, Structural)]
pub struct WakeHandle {
    /// Identifies the wake routine this capability stands for.
    pub tag: u32,
}

impl WakeHandle {
    pub fn new(tag: u32) -> (r: WakeHandle)
        ensures
            r.tag == tag,
    {
        WakeHandle { tag }
    }
}

} // verus!

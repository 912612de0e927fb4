use vstd::prelude::*;

verus! {

use crate::registry::{Registry, fresh_entry, CAPACITY};
use crate::signal::Signal;
use crate::{AsyncError, TriggerKind};

/// Mask with every trigger kind wired.
pub const ALL_TRIGGERS: u8 = 0x1f;

/// The bit a trigger kind occupies in a handle's support mask.
pub open spec fn spec_kind_bit(k: TriggerKind) -> u8 {
    match k {
        TriggerKind::HighLevel => 0x01u8,
        TriggerKind::LowLevel => 0x02u8,
        TriggerKind::RisingEdge => 0x04u8,
        TriggerKind::FallingEdge => 0x08u8,
        TriggerKind::AnyEdge => 0x10u8,
    }
}

/// The bit a trigger kind occupies in a handle's support mask.
#[verifier::when_used_as_spec(spec_kind_bit)]
pub fn kind_bit(k: TriggerKind) -> (r: u8)
    ensures
        r == spec_kind_bit(k),
{
    match k {
        TriggerKind::HighLevel => 0x01u8,
        TriggerKind::LowLevel => 0x02u8,
        TriggerKind::RisingEdge => 0x04u8,
        TriggerKind::FallingEdge => 0x08u8,
        TriggerKind::AnyEdge => 0x10u8,
    }
}

/// A line handle: binds a physical input capability to a stable line number
/// and to the set of trigger kinds its hardware wiring supports.
///
/// Construction presumes the one-time interrupt-line enablement for the
/// line (priority, kind, line number), a platform-layer step done once per
/// handle, not per wait.
pub struct AsyncPin<P> {
    /// The underlying physical input capability.
    pub pin: P,
    /// Stable small integer identifying the physical input line.
    pub number: u8,
    /// Mask of `kind_bit`s of the trigger kinds wired for this handle.
    pub supported: u8,
}

impl<P> AsyncPin<P> {
    /// Whether this handle's wiring supports a trigger kind.
    pub open spec fn supports(&self, k: TriggerKind) -> bool {
        self.supported & spec_kind_bit(k) != 0
    }

    /// What a wait operation for `kind` does to the registry and returns.
    pub open spec fn wait_post(
        &self,
        kind: TriggerKind,
        pre: Registry,
        post: Registry,
        r: Result<Signal, AsyncError>,
    ) -> bool {
        match r {
            Ok(sig) => sig.pin_number == self.number && self.supports(kind) && pre.entry(
                self.number,
            ) is None && pre.line_count() < CAPACITY && post.entry(self.number) == Some(
                fresh_entry(self.number),
            ) && post.line_count() == pre.line_count() + 1 && (forall|o: u8|
                o != self.number ==> post.entry(o) == pre.entry(o)),
            Err(e) => post@ == pre@ && ((e == AsyncError::UnsupportedTrigger && !self.supports(
                kind,
            )) || (e == AsyncError::AlreadyAwaiting && self.supports(kind) && pre.entry(
                self.number,
            ) is Some) || (e == AsyncError::CapacityExceeded && self.supports(kind) && pre.entry(
                self.number,
            ) is None && pre.line_count() >= CAPACITY)),
        }
    }

    /// Bind a physical input capability to a line number, with all five
    /// trigger kinds wired.
    pub fn from_pin(pin: P, number: u8) -> (r: AsyncPin<P>)
        ensures
            r.pin == pin,
            r.number == number,
            r.supported == ALL_TRIGGERS,
            forall|k: TriggerKind| r.supports(k),
    {
        let r = AsyncPin { pin, number, supported: ALL_TRIGGERS };
        proof {
            assert forall|k: TriggerKind| r.supports(k) by {
                match k {
                    TriggerKind::HighLevel => {
                        assert(0x1fu8 & 0x01u8 != 0) by (bit_vector);
                    },
                    TriggerKind::LowLevel => {
                        assert(0x1fu8 & 0x02u8 != 0) by (bit_vector);
                    },
                    TriggerKind::RisingEdge => {
                        assert(0x1fu8 & 0x04u8 != 0) by (bit_vector);
                    },
                    TriggerKind::FallingEdge => {
                        assert(0x1fu8 & 0x08u8 != 0) by (bit_vector);
                    },
                    TriggerKind::AnyEdge => {
                        assert(0x1fu8 & 0x10u8 != 0) by (bit_vector);
                    },
                }
            }
        }
        r
    }

    /// Bind a physical input capability whose wiring supports only the
    /// trigger kinds named in `supported`.
    pub fn from_pin_with_support(pin: P, number: u8, supported: u8) -> (r: AsyncPin<P>)
        ensures
            r.pin == pin,
            r.number == number,
            r.supported == supported,
    {
        AsyncPin { pin, number, supported }
    }

    /// Consume the handle and hand back the exact input capability it was
    /// constructed over, unchanged.  An in-flight wait is not cancelled.
    pub fn free(self) -> (r: P)
        ensures
            r == self.pin,
    {
        self.pin
    }

    /// Begin a wait on this handle's line for the given trigger condition,
    /// inside the caller's critical section.
    ///
    /// On success the entry exists before any hardware trigger is armed, so
    /// an event cannot fire into a missing entry; the caller must then arm
    /// the trigger condition for the physical line and suspend on the
    /// returned signal.  An unwired kind, a duplicate wait on the line, and
    /// a full table are reported, never aborted on.
    pub fn begin_wait(&self, kind: TriggerKind, reg: &mut Registry) -> (r: Result<
        Signal,
        AsyncError,
    >)
        requires
            old(reg).wf(),
        ensures
            final(reg).wf(),
            self.wait_post(kind, *old(reg), *final(reg), r),
    {
        if self.supported & kind_bit(kind) == 0 {
            return Err(AsyncError::UnsupportedTrigger);
        }
        match reg.register(self.number) {
            Ok(()) => Ok(Signal::new(self.number)),
            Err(e) => Err(e),
        }
    }

    /// Wait for the line to be at a high level.
    pub fn wait_for_high(&self, reg: &mut Registry) -> (r: Result<Signal, AsyncError>)
        requires
            old(reg).wf(),
        ensures
            final(reg).wf(),
            self.wait_post(TriggerKind::HighLevel, *old(reg), *final(reg), r),
    {
        self.begin_wait(TriggerKind::HighLevel, reg)
    }

    /// Wait for the line to be at a low level.
    pub fn wait_for_low(&self, reg: &mut Registry) -> (r: Result<Signal, AsyncError>)
        requires
            old(reg).wf(),
        ensures
            final(reg).wf(),
            self.wait_post(TriggerKind::LowLevel, *old(reg), *final(reg), r),
    {
        self.begin_wait(TriggerKind::LowLevel, reg)
    }

    /// Wait for a rising edge on the line.
    pub fn wait_for_rising_edge(&self, reg: &mut Registry) -> (r: Result<Signal, AsyncError>)
        requires
            old(reg).wf(),
        ensures
            final(reg).wf(),
            self.wait_post(TriggerKind::RisingEdge, *old(reg), *final(reg), r),
    {
        self.begin_wait(TriggerKind::RisingEdge, reg)
    }

    /// Wait for a falling edge on the line.
    pub fn wait_for_falling_edge(&self, reg: &mut Registry) -> (r: Result<Signal, AsyncError>)
        requires
            old(reg).wf(),
        ensures
            final(reg).wf(),
            self.wait_post(TriggerKind::FallingEdge, *old(reg), *final(reg), r),
    {
        self.begin_wait(TriggerKind::FallingEdge, reg)
    }

    /// Wait for any edge on the line.
    pub fn wait_for_any_edge(&self, reg: &mut Registry) -> (r: Result<Signal, AsyncError>)
        requires
            old(reg).wf(),
        ensures
            final(reg).wf(),
            self.wait_post(TriggerKind::AnyEdge, *old(reg), *final(reg), r),
    {
        self.begin_wait(TriggerKind::AnyEdge, reg)
    }
}

} // verus!

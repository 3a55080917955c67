use vstd::prelude::*;

verus! {

/// Consecutive failed recoveries after which a clear-halt no longer counts
/// as a recovery and the device is declared gone.
pub const MAX_CLEAR_HALT_RECOVERIES: u32 = 5;

/// Why a recovery did not bring the link back.
#[derive(PartialEq, Eq, Structural, Debug, Clone, Copy)]
pub enum RecoverError {
    /// The transport refuses work once shutdown starts.
    ShuttingDown,
    /// The handle is stale; the device has to be discovered again.
    StaleHandle,
    /// Reopening and clearing the halt both failed too often.
    Unresponsive,
}

/// What the caller does next while recovering a stalled endpoint.
#[derive(PartialEq, Eq, Structural, Debug, Clone, Copy)]
pub enum RecoveryStep {
    /// Release the interfaces, wait, reopen the raw device and configure it;
    /// report the outcome to `after_reopen`.
    Reopen,
    /// Clear the halt on both bulk endpoints; report the OUT endpoint's
    /// outcome to `after_clear_halt`.
    ClearHalt,
    /// The link is usable again.
    Recovered,
    /// Recovery is over and failed.
    Failed(RecoverError),
}

/// Where a recovery stands.
#[derive(PartialEq, Eq, Structural, Debug, Clone, Copy)]
pub enum RecoveryPhase {
    Idle,
    Reopening,
    ClearingHalt,
}

/// The link health as the contracts see it.
pub struct HealthView {
    pub failures: nat,
    pub gone: bool,
    pub phase: RecoveryPhase,
}

/// The states a link can reach: at most one failure beyond the clear-halt
/// allowance, and a device that is not gone is within it while idle.
pub open spec fn health_ok(h: HealthView) -> bool {
    &&& h.failures <= MAX_CLEAR_HALT_RECOVERIES + 1
    &&& (h.phase == RecoveryPhase::Idle && !h.gone) ==> h.failures <= MAX_CLEAR_HALT_RECOVERIES
    &&& h.phase != RecoveryPhase::Idle ==> !h.gone
}

/// Failure bookkeeping of the shared bulk link, and the recovery procedure
/// as a state machine: the caller performs the I/O that each step names.
pub struct LinkHealth {
    consecutive_failures: u32,
    device_gone: bool,
    phase: RecoveryPhase,
}

impl View for LinkHealth {
    type V = HealthView;

    closed spec fn view(&self) -> HealthView {
        HealthView {
            failures: self.consecutive_failures as nat,
            gone: self.device_gone,
            phase: self.phase,
        }
    }
}

impl LinkHealth {
    #[verifier::type_invariant]
    spec fn inv(self) -> bool {
        health_ok(self@)
    }

    pub fn new() -> (h: LinkHealth)
        ensures
            h@ == (HealthView { failures: 0, gone: false, phase: RecoveryPhase::Idle }),
            health_ok(h@),
    {
        LinkHealth { consecutive_failures: 0, device_gone: false, phase: RecoveryPhase::Idle }
    }

    pub fn consecutive_failures(&self) -> (n: u32)
        ensures
            n == self@.failures,
            health_ok(self@),
    {
        proof { use_type_invariant(self); }
        self.consecutive_failures
    }

    pub fn device_gone(&self) -> (gone: bool)
        ensures
            gone == self@.gone,
            health_ok(self@),
    {
        proof { use_type_invariant(self); }
        self.device_gone
    }

    pub fn phase(&self) -> (p: RecoveryPhase)
        ensures
            p == self@.phase,
            health_ok(self@),
    {
        proof { use_type_invariant(self); }
        self.phase
    }

    /// A write went through: the failure streak ends.
    pub fn note_write_success(&mut self)
        ensures
            final(self)@ == (HealthView { failures: 0, ..old(self)@ }),
            health_ok(final(self)@),
    {
        proof { use_type_invariant(&*self); }
        self.consecutive_failures = 0;
    }

    /// Forget a stale device: the link is fresh again (after re-discovery).
    pub fn reset(&mut self)
        ensures
            final(self)@ == (HealthView { failures: 0, gone: false, phase: RecoveryPhase::Idle }),
            health_ok(final(self)@),
    {
        *self = LinkHealth::new();
    }

    /// Start recovering after a failed write. Refused while shutting down
    /// and once the device is gone; otherwise the failure is counted and the
    /// raw device is reopened if there is one, else the halt is cleared.
    pub fn begin_recovery(&mut self, shutting_down: bool, has_raw_device: bool) -> (step: RecoveryStep)
        requires
            old(self)@.phase == RecoveryPhase::Idle,
        ensures
            shutting_down ==> step == RecoveryStep::Failed(RecoverError::ShuttingDown)
                && final(self)@ == old(self)@,
            !shutting_down && old(self)@.gone ==> step == RecoveryStep::Failed(RecoverError::StaleHandle)
                && final(self)@ == old(self)@,
            !shutting_down && !old(self)@.gone ==> {
                &&& final(self)@.failures == old(self)@.failures + 1
                &&& !final(self)@.gone
                &&& has_raw_device ==> step == RecoveryStep::Reopen
                    && final(self)@.phase == RecoveryPhase::Reopening
                &&& !has_raw_device ==> step == RecoveryStep::ClearHalt
                    && final(self)@.phase == RecoveryPhase::ClearingHalt
            },
            health_ok(final(self)@),
    {
        proof { use_type_invariant(&*self); }
        if shutting_down {
            return RecoveryStep::Failed(RecoverError::ShuttingDown);
        }
        if self.device_gone {
            return RecoveryStep::Failed(RecoverError::StaleHandle);
        }
        if has_raw_device {
            *self = LinkHealth {
                consecutive_failures: self.consecutive_failures + 1,
                device_gone: false,
                phase: RecoveryPhase::Reopening,
            };
            RecoveryStep::Reopen
        } else {
            *self = LinkHealth {
                consecutive_failures: self.consecutive_failures + 1,
                device_gone: false,
                phase: RecoveryPhase::ClearingHalt,
            };
            RecoveryStep::ClearHalt
        }
    }

    /// The raw device was reopened and configured (`true`), or not.
    pub fn after_reopen(&mut self, reopened: bool) -> (step: RecoveryStep)
        requires
            old(self)@.phase == RecoveryPhase::Reopening,
        ensures
            reopened ==> step == RecoveryStep::Recovered && final(self)@ == (HealthView {
                failures: 0,
                gone: false,
                phase: RecoveryPhase::Idle,
            }),
            !reopened ==> step == RecoveryStep::ClearHalt && final(self)@ == (HealthView {
                phase: RecoveryPhase::ClearingHalt,
                ..old(self)@
            }),
            health_ok(final(self)@),
    {
        proof { use_type_invariant(&*self); }
        if reopened {
            *self = LinkHealth::new();
            RecoveryStep::Recovered
        } else {
            self.phase = RecoveryPhase::ClearingHalt;
            RecoveryStep::ClearHalt
        }
    }

    /// The halt on the OUT endpoint was cleared (`true`), or not. A clear
    /// counts as a recovery only within the allowance; past it, or when the
    /// clear fails, the device is declared gone.
    pub fn after_clear_halt(&mut self, out_cleared: bool) -> (step: RecoveryStep)
        requires
            old(self)@.phase == RecoveryPhase::ClearingHalt,
        ensures
            final(self)@.phase == RecoveryPhase::Idle,
            final(self)@.failures == old(self)@.failures,
            (out_cleared && old(self)@.failures <= MAX_CLEAR_HALT_RECOVERIES) ==> step
                == RecoveryStep::Recovered && !final(self)@.gone,
            (out_cleared && old(self)@.failures <= 5) <==> step == RecoveryStep::Recovered,
            !(out_cleared && old(self)@.failures <= MAX_CLEAR_HALT_RECOVERIES) ==> step
                == RecoveryStep::Failed(RecoverError::Unresponsive) && final(self)@.gone,
            health_ok(final(self)@),
    {
        proof { use_type_invariant(&*self); }
        if out_cleared && self.consecutive_failures <= MAX_CLEAR_HALT_RECOVERIES {
            self.phase = RecoveryPhase::Idle;
            RecoveryStep::Recovered
        } else {
            *self = LinkHealth {
                consecutive_failures: self.consecutive_failures,
                device_gone: true,
                phase: RecoveryPhase::Idle,
            };
            RecoveryStep::Failed(RecoverError::Unresponsive)
        }
    }
}

/// Every reachable link state (every method keeps `health_ok`): the count
/// never exceeds one past the clear-halt allowance, so counting a failure
/// never overflows; between recoveries a live device is within the
/// allowance, and a count past it means the device is gone.
pub proof fn law_failure_count_bounded(h: HealthView)
    requires
        health_ok(h),
    ensures
        h.failures <= 6,
        h.failures + 1 <= u32::MAX,
        h.phase == RecoveryPhase::Idle && !h.gone ==> h.failures <= 5,
        h.phase == RecoveryPhase::Idle && h.failures > 5 ==> h.gone,
{
}

} // verus!

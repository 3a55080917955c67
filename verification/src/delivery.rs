use vstd::prelude::*;

verus! {

/// Where the delivery of one packet stands.
#[derive(PartialEq, Eq, Structural, Debug, Clone, Copy)]
pub enum DeliveryPhase {
    /// The first write is under way.
    FirstWrite,
    /// The first write failed; the link is being recovered.
    Recovering,
    /// The link was recovered; the packet is being written once more.
    Rewriting,
    /// Delivered or given up.
    Finished,
}

/// What the caller does next with the packet.
#[derive(PartialEq, Eq, Structural, Debug, Clone, Copy)]
pub enum DeliveryStep {
    /// Recover the link (see `LinkHealth::begin_recovery`) and report the
    /// outcome to `after_recovery`.
    Recover,
    /// Write the packet again and report to `after_write`.
    Rewrite,
    /// The packet went out; note the success.
    Delivered,
    /// The packet did not go out.
    Failed,
}

/// One packet on the shared pipe: a write, and on failure one recovery and
/// one more write.
pub struct Delivery {
    phase: DeliveryPhase,
}

impl View for Delivery {
    type V = DeliveryPhase;

    closed spec fn view(&self) -> DeliveryPhase {
        self.phase
    }
}

impl Delivery {
    pub fn new() -> (d: Delivery)
        ensures
            d@ == DeliveryPhase::FirstWrite,
    {
        Delivery { phase: DeliveryPhase::FirstWrite }
    }

    /// The first write, or the write after a recovery, succeeded or not.
    pub fn after_write(&mut self, written: bool) -> (step: DeliveryStep)
        requires
            old(self)@ == DeliveryPhase::FirstWrite || old(self)@ == DeliveryPhase::Rewriting,
        ensures
            written ==> step == DeliveryStep::Delivered && final(self)@ == DeliveryPhase::Finished,
            !written && old(self)@ == DeliveryPhase::FirstWrite ==> step == DeliveryStep::Recover
                && final(self)@ == DeliveryPhase::Recovering,
            !written && old(self)@ == DeliveryPhase::Rewriting ==> step == DeliveryStep::Failed
                && final(self)@ == DeliveryPhase::Finished,
    {
        if written {
            self.phase = DeliveryPhase::Finished;
            DeliveryStep::Delivered
        } else if self.phase == DeliveryPhase::FirstWrite {
            self.phase = DeliveryPhase::Recovering;
            DeliveryStep::Recover
        } else {
            self.phase = DeliveryPhase::Finished;
            DeliveryStep::Failed
        }
    }

    /// The recovery brought the link back, or not.
    pub fn after_recovery(&mut self, recovered: bool) -> (step: DeliveryStep)
        requires
            old(self)@ == DeliveryPhase::Recovering,
        ensures
            recovered ==> step == DeliveryStep::Rewrite && final(self)@ == DeliveryPhase::Rewriting,
            !recovered ==> step == DeliveryStep::Failed && final(self)@ == DeliveryPhase::Finished,
    {
        if recovered {
            self.phase = DeliveryPhase::Rewriting;
            DeliveryStep::Rewrite
        } else {
            self.phase = DeliveryPhase::Finished;
            DeliveryStep::Failed
        }
    }
}

} // verus!

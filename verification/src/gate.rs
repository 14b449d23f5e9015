//! The counting limiter that bounds how many query workers hold a network
//! slot at once. A worker takes one slot before its network work, holds it
//! for its whole lifetime, and hands it back unconditionally on completion.
//! This module is the verified model of that limiter: the number of slots
//! held at once can never exceed the configured ceiling.
use vstd::prelude::*;

verus! {

/// A counting limiter with a fixed ceiling: at most `ceiling` slots are held
/// at any moment.
pub struct AdmissionGate {
    pub ceiling: usize,
    pub in_flight: usize,
}

impl AdmissionGate {
    /// The invariant: the held-slot count stays within the ceiling.
    pub open spec fn wf(&self) -> bool {
        self.in_flight <= self.ceiling
    }

    /// A fresh limiter holds no worker yet.
    pub fn new(ceiling: usize) -> (g: AdmissionGate)
        ensures
            g.wf(),
            g.ceiling == ceiling,
            g.in_flight == 0,
    {
        AdmissionGate { ceiling, in_flight: 0 }
    }

    /// Grants one slot when one is free: the grant succeeds exactly below
    /// the ceiling, and the count stays within the ceiling either way.
    pub fn try_acquire(&mut self) -> (granted: bool)
        requires
            old(self).wf(),
        ensures
            final(self).wf(),
            final(self).ceiling == old(self).ceiling,
            granted == (old(self).in_flight < old(self).ceiling),
            granted ==> final(self).in_flight == old(self).in_flight + 1,
            !granted ==> final(self).in_flight == old(self).in_flight,
    {
        if self.in_flight < self.ceiling {
            self.in_flight = self.in_flight + 1;
            true
        } else {
            false
        }
    }

    /// Hands one held slot back.
    pub fn release(&mut self)
        requires
            old(self).wf(),
            old(self).in_flight > 0,
        ensures
            final(self).wf(),
            final(self).ceiling == old(self).ceiling,
            final(self).in_flight == old(self).in_flight - 1,
    {
        self.in_flight = self.in_flight - 1;
    }
}

/// One step a worker makes at the limiter.
pub enum GateEvent {
    /// A worker wants a slot (refused when all slots are held).
    Acquire,
    /// A worker holding a slot completes and hands it back.
    Release,
}

/// The held-slot count after a history of limiter events, starting idle: a
/// slot is granted only below the ceiling, and a release lowers a positive
/// count.
pub open spec fn spec_gate_run(ceiling: nat, events: Seq<GateEvent>) -> nat
    decreases events.len(),
{
    if events.len() == 0 {
        0
    } else {
        let prev = spec_gate_run(ceiling, events.drop_last());
        match events.last() {
            GateEvent::Acquire => if prev < ceiling {
                prev + 1
            } else {
                prev
            },
            GateEvent::Release => if prev > 0 {
                (prev - 1) as nat
            } else {
                prev
            },
        }
    }
}

/// The concurrency bound: under every history of acquisitions and releases,
/// the number of slots held at once stays within the ceiling.
pub proof fn lemma_gate_never_exceeds(ceiling: nat, events: Seq<GateEvent>)
    ensures
        spec_gate_run(ceiling, events) <= ceiling,
    decreases events.len(),
{
    if events.len() > 0 {
        lemma_gate_never_exceeds(ceiling, events.drop_last());
    }
}

} // verus!

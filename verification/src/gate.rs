//! The admission gate: a bounded counting resource.
//!
//! The admission gate starts with `max_connections` free slots. A connection must
//! acquire a slot before it is serviced and release it after completion; the
//! accept loop polls `try_acquire` and sleeps between attempts while the
//! gate is saturated. The capacity invariant `free_slots <= max_connections`
//! holds at every quiescent point, and the load it reports never goes
//! negative and never exceeds the configured maximum.

use vstd::prelude::*;

verus! {

/// A bounded counting resource with `free_slots` of `max_connections`
/// slots still free.
///
/// The callers serialize access to it (one lock around every
/// check-and-decrement), so no reader observes a stale count.
#[derive(Debug, Clone, Copy, PartialEq, Eq, Structural)]
pub struct AdmissionGate {
    /// Slots not currently held by a connection.
    pub free_slots: u32,
    /// The configured capacity: the most connections serviced at once.
    pub max_connections: u32,
}

impl AdmissionGate {
    /// The capacity invariant: never more free slots than capacity.
    pub open spec fn well_formed(&self) -> bool {
        self.free_slots <= self.max_connections
    }

    /// The load the admission gate is under: slots currently held.
    pub open spec fn spec_active(&self) -> int {
        self.max_connections - self.free_slots
    }

    /// A fresh gate with every one of `max_connections` slots free.
    pub fn new(max_connections: u32) -> (g: AdmissionGate)
        ensures
            g.well_formed(),
            g.free_slots == max_connections,
            g.max_connections == max_connections,
            g.spec_active() == 0,
    {
        AdmissionGate { free_slots: max_connections, max_connections }
    }

    /// Reserve a slot if one is free.
    ///
    /// Succeeds exactly when a slot is free, taking one; when it is
    /// saturated it changes nothing and the caller backs off and retries.
    pub fn try_acquire(&mut self) -> (acquired: bool)
        requires
            old(self).well_formed(),
        ensures
            final(self).well_formed(),
            final(self).max_connections == old(self).max_connections,
            acquired == (old(self).free_slots > 0),
            acquired ==> final(self).free_slots == old(self).free_slots - 1,
            !acquired ==> *final(self) == *old(self),
    {
        if self.free_slots > 0 {
            self.free_slots = self.free_slots - 1;
            true
        } else {
            false
        }
    }

    /// Return a held slot.
    ///
    /// Only a holder of a slot may call this, so a free slot count at
    /// capacity is ruled out by the caller.
    pub fn release(&mut self)
        requires
            old(self).well_formed(),
            old(self).free_slots < old(self).max_connections,
        ensures
            final(self).well_formed(),
            final(self).max_connections == old(self).max_connections,
            final(self).free_slots == old(self).free_slots + 1,
    {
        self.free_slots = self.free_slots + 1;
    }

    /// How many slots are currently held: the active connection count
    /// reported to statistics subscribers. Never negative, never above the
    /// configured maximum.
    pub fn active(&self) -> (a: u32)
        requires
            self.well_formed(),
        ensures
            a == self.spec_active(),
            a <= self.max_connections,
    {
        self.max_connections - self.free_slots
    }
}

/// Releasing a slot restores the count an acquisition took: a connection
/// that acquires a slot and releases it when done leaves the admission gate exactly
/// as it found it, whatever happened in between.
pub proof fn lemma_acquire_release_restores_gate(g0: AdmissionGate, g1: AdmissionGate, g2: AdmissionGate)
    requires
        g0.well_formed(),
        // g1 is g0 after a successful acquisition
        g0.free_slots > 0,
        g1.max_connections == g0.max_connections,
        g1.free_slots == g0.free_slots - 1,
        // g2 is g1 after the matching release
        g2.max_connections == g1.max_connections,
        g2.free_slots == g1.free_slots + 1,
    ensures
        g2 == g0,
{
}

} // verus!

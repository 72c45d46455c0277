use vstd::prelude::*;

verus! {

/// Counting permit that bounds how many submissions may be in flight at once.
pub struct AdmissionGate {
    capacity: usize,
    in_flight: usize,
}

impl AdmissionGate {
    pub closed spec fn capacity_spec(&self) -> nat {
        self.capacity as nat
    }

    pub closed spec fn in_flight_spec(&self) -> nat {
        self.in_flight as nat
    }

    /// Permits held never exceed the capacity.
    pub open spec fn wf(&self) -> bool {
        self.in_flight_spec() <= self.capacity_spec()
    }

    pub closed spec fn fresh(capacity: usize) -> AdmissionGate {
        AdmissionGate { capacity, in_flight: 0 }
    }

    pub fn new(capacity: usize) -> (r: AdmissionGate)
        ensures
            r == AdmissionGate::fresh(capacity),
            r.wf(),
            r.capacity_spec() == capacity,
            r.in_flight_spec() == 0,
    {
        AdmissionGate { capacity, in_flight: 0 }
    }

    pub fn capacity(&self) -> (r: usize)
        ensures
            r == self.capacity_spec(),
    {
        self.capacity
    }

    pub fn in_flight(&self) -> (r: usize)
        ensures
            r == self.in_flight_spec(),
    {
        self.in_flight
    }

    /// Takes a permit if one is free; a caller that gets `false` waits for a release.
    pub fn try_acquire(&mut self) -> (granted: bool)
        requires
            old(self).wf(),
        ensures
            final(self).wf(),
            granted == (old(self).in_flight_spec() < old(self).capacity_spec()),
            final(self).capacity_spec() == old(self).capacity_spec(),
            final(self).in_flight_spec() == old(self).in_flight_spec() + if granted {
                1nat
            } else {
                0nat
            },
    {
        if self.in_flight < self.capacity {
            self.in_flight = self.in_flight + 1;
            true
        } else {
            false
        }
    }

    /// Gives back a permit taken by `try_acquire`.
    pub fn release(&mut self)
        requires
            old(self).wf(),
            old(self).in_flight_spec() > 0,
        ensures
            final(self).wf(),
            final(self).capacity_spec() == old(self).capacity_spec(),
            final(self).in_flight_spec() == old(self).in_flight_spec() - 1,
    {
        self.in_flight = self.in_flight - 1;
    }
}

/// A gate built with a capacity has that capacity and no permit taken.
pub proof fn lemma_fresh_gate(capacity: usize)
    ensures
        AdmissionGate::fresh(capacity).wf(),
        AdmissionGate::fresh(capacity).capacity_spec() == capacity,
        AdmissionGate::fresh(capacity).in_flight_spec() == 0,
{
}

} // verus!

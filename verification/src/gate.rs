//! The admission gate: a counting limiter that bounds how many batches
//! are in flight at once.
//!
//! The host's transport loop drives one gate per fetch: it acquires a
//! slot before sending a batch and releases it on every exit path. The
//! gate's invariant — the in-flight count never exceeds the configured
//! limit — is kept by construction: every operation proved here
//! preserves it, and admission is granted only while a slot is free.

use vstd::prelude::*;

verus! {

/// Counting admission gate for concurrent batch requests.
pub struct AdmissionGate {
    limit: usize,
    in_flight: usize,
}

impl AdmissionGate {
    /// The largest number of batches admitted at once.
    pub closed spec fn limit_spec(&self) -> usize {
        self.limit
    }

    /// How many admitted batches have not yet been released.
    pub closed spec fn in_flight_spec(&self) -> usize {
        self.in_flight
    }

    /// The limiter's invariant: a positive limit that the in-flight
    /// count never exceeds.
    pub open spec fn inv(&self) -> bool {
        self.in_flight_spec() <= self.limit_spec() && self.limit_spec() >= 1
    }

    /// A fresh gate with the given parallelism limit, clamped to a
    /// floor of 1, and nothing in flight.
    pub fn new(max_parallel_requests: usize) -> (r: Self)
        ensures
            r.inv(),
            r.limit_spec() == if max_parallel_requests >= 1 {
                max_parallel_requests
            } else {
                1
            },
            r.in_flight_spec() == 0,
    {
        AdmissionGate {
            limit: if max_parallel_requests >= 1 {
                max_parallel_requests
            } else {
                1
            },
            in_flight: 0,
        }
    }

    /// Admit one batch if a slot is free; admission is granted exactly
    /// when the in-flight count is below the limit.
    pub fn try_acquire(&mut self) -> (granted: bool)
        requires
            old(self).inv(),
        ensures
            final(self).inv(),
            final(self).limit_spec() == old(self).limit_spec(),
            granted == (old(self).in_flight_spec() < old(self).limit_spec()),
            granted ==> final(self).in_flight_spec() == old(self).in_flight_spec() + 1,
            !granted ==> final(self).in_flight_spec() == old(self).in_flight_spec(),
    {
        if self.in_flight < self.limit {
            self.in_flight += 1;
            true
        } else {
            false
        }
    }

    /// Release the slot of one completed or failed batch.
    pub fn release(&mut self)
        requires
            old(self).inv(),
            old(self).in_flight_spec() >= 1,
        ensures
            final(self).inv(),
            final(self).limit_spec() == old(self).limit_spec(),
            final(self).in_flight_spec() == old(self).in_flight_spec() - 1,
    {
        self.in_flight -= 1;
    }

    /// How many batches are currently admitted.
    pub fn in_flight(&self) -> (n: usize)
        ensures
            n == self.in_flight_spec(),
    {
        self.in_flight
    }

    /// The configured parallelism limit.
    pub fn limit(&self) -> (n: usize)
        ensures
            n == self.limit_spec(),
    {
        self.limit
    }
}

/// At no point does the number of admitted batches exceed the
/// configured limit: the bound holds in every state reachable through
/// the operations above, each of which preserves the invariant.
pub proof fn lemma_gate_bounded(g: AdmissionGate)
    requires
        g.inv(),
    ensures
        g.in_flight_spec() <= g.limit_spec(),
{
}

} // verus!

//! Bounded concurrency: the execution-slot budget.
//!
//! The slots in use are counted from durable run state, every node whose run is live and
//! not parked, never from in-process bookkeeping: an orchestrator that restarts must not
//! believe it has more room than it has, and two orchestrators sharing a workspace must
//! agree on the work in flight. The limit is a budget value supplied by the caller; no
//! default is invented here.

use vstd::prelude::*;
use crate::runtime::orchestration::OrchestrationError;
use crate::runtime::orchestration::graph::{GraphSnapshot, slots_in};

verus! {

/// A refusal to admit more work.
#[derive(Debug, Clone, Copy, PartialEq, Eq)]
pub struct CapacityRefusal {
    /// Runs already holding a slot.
    pub in_flight: usize,
    /// The configured limit.
    pub limit: usize,
}

impl CapacityRefusal {
    /// The refusal as an orchestration error.
    pub fn into_error(self) -> (r: OrchestrationError)
        ensures
            r == (OrchestrationError::CapacitySaturated { in_flight: self.in_flight, limit: self.limit }),
    {
        OrchestrationError::CapacitySaturated { in_flight: self.in_flight, limit: self.limit }
    }
}

/// The bounded-concurrency gate.
#[derive(Debug, Clone, Copy, PartialEq, Eq)]
pub struct CapacityGate {
    limit: usize,
}

impl View for CapacityGate {
    type V = usize;

    /// The effective limit.
    closed spec fn view(&self) -> usize {
        self.limit
    }
}

/// The free slots under `limit` with `in_use` slots taken; none once the limit is reached.
pub open spec fn free_slots(limit: nat, in_use: nat) -> nat {
    if in_use >= limit {
        0
    } else {
        (limit - in_use) as nat
    }
}

impl CapacityGate {
    /// A gate with the effective `concurrency` limit. A limit of zero is legal and freezes
    /// new work: it admits nothing rather than meaning "unbounded".
    pub fn new(limit: usize) -> (r: Self)
        ensures
            r@ == limit,
    {
        CapacityGate { limit }
    }

    /// The effective limit.
    pub fn limit(&self) -> (r: usize)
        ensures
            r == self@,
    {
        self.limit
    }

    /// How many more runs may start.
    pub fn headroom(&self, snapshot: &GraphSnapshot) -> (r: usize)
        ensures
            r == free_slots(self@ as nat, slots_in(snapshot.nodes@)),
    {
        let in_use = snapshot.active_slots();
        if in_use >= self.limit {
            0
        } else {
            self.limit - in_use
        }
    }

    /// Whether any slot is still free.
    pub fn admits(&self, snapshot: &GraphSnapshot) -> (r: bool)
        ensures
            r == (slots_in(snapshot.nodes@) < self@),
    {
        self.headroom(snapshot) > 0
    }

    /// The free slots, refused with a saturation error when a non-zero limit is reached.
    /// A zero limit reports no slots without an error.
    pub fn admit_slots(&self, snapshot: &GraphSnapshot) -> (r: Result<usize, OrchestrationError>)
        ensures
            match r {
                Ok(h) => h == free_slots(self@ as nat, slots_in(snapshot.nodes@)) && (h > 0 || self@ == 0),
                Err(e) => self@ > 0 && slots_in(snapshot.nodes@) >= self@ && e == (OrchestrationError::CapacitySaturated {
                    in_flight: slots_in(snapshot.nodes@) as usize,
                    limit: self@,
                }),
            },
            r is Err <==> (self@ > 0 && slots_in(snapshot.nodes@) >= self@),
    {
        let headroom = self.headroom(snapshot);
        if headroom == 0 && self.limit > 0 {
            return Err(self.refusal(snapshot).into_error());
        }
        Ok(headroom)
    }

    /// The current refusal, whether or not every slot is taken.
    pub fn refusal(&self, snapshot: &GraphSnapshot) -> (r: CapacityRefusal)
        ensures
            r.in_flight == slots_in(snapshot.nodes@),
            r.limit == self@,
    {
        CapacityRefusal { in_flight: snapshot.active_slots(), limit: self.limit }
    }
}

} // verus!

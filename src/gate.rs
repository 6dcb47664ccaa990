//! Connection admission: a counting gate that bounds how many connections
//! are handled at once. Waiting for a free slot is up to the caller; the
//! gate decides and counts.
use vstd::prelude::*;

verus! {

pub struct ConnectionGate {
    max_connections: usize,
    live: usize,
}

/// Live count after an admission attempt, and whether it was admitted.
pub open spec fn admission(live: nat, max: nat) -> (nat, bool) {
    if live < max {
        (live + 1, true)
    } else {
        (live, false)
    }
}

/// Live count after a handler ends, whether it succeeded or failed.
pub open spec fn release(live: nat) -> nat {
    if live > 0 {
        (live - 1) as nat
    } else {
        0
    }
}

/// Admission never takes the live count past the bound, and once a handler
/// ends a full gate lets in the next connection.
pub proof fn lemma_gate_bounded(live: nat, max: nat)
    requires
        live <= max,
    ensures
        admission(live, max).0 <= max,
        admission(live, max).1 <==> live < max,
        live == max && max > 0 ==> admission(release(live), max).1,
        live == max && max > 0 ==> admission(release(live), max).0 == max,
{
}

impl ConnectionGate {
    pub closed spec fn live(&self) -> nat {
        self.live as nat
    }

    pub closed spec fn max(&self) -> nat {
        self.max_connections as nat
    }

    pub open spec fn wf(&self) -> bool {
        self.live() <= self.max()
    }

    pub fn new(max_connections: usize) -> (r: ConnectionGate)
        requires
            max_connections > 0,
        ensures
            r.wf(),
            r.live() == 0,
            r.max() == max_connections,
    {
        ConnectionGate { max_connections, live: 0 }
    }

    /// Takes a slot when one is free.
    pub fn try_acquire(&mut self) -> (r: bool)
        requires
            old(self).wf(),
        ensures
            final(self).wf(),
            final(self).max() == old(self).max(),
            (final(self).live(), r) == admission(old(self).live(), old(self).max()),
    {
        if self.live < self.max_connections {
            self.live = self.live + 1;
            true
        } else {
            false
        }
    }

    /// Gives back the slot of a handler that ended.
    pub fn release(&mut self)
        requires
            old(self).wf(),
        ensures
            final(self).wf(),
            final(self).max() == old(self).max(),
            final(self).live() == release(old(self).live()),
    {
        if self.live > 0 {
            self.live = self.live - 1;
        }
    }

    pub fn live_connections(&self) -> (r: usize)
        ensures
            r == self.live(),
    {
        self.live
    }

    pub fn max_connections(&self) -> (r: usize)
        ensures
            r == self.max(),
    {
        self.max_connections
    }
}

} // verus!

//! The vault's lock: one call at a time, in the order in which the calls
//! asked. A call takes a ticket, waits until its ticket is served, holds the
//! lock while it works, and releases it when it is done.

use vstd::prelude::*;
use crate::error::Error;

verus! {

/// The lock's state.
#[derive(Clone, Copy, Debug, PartialEq, Eq, Structural)]
pub struct Gate {
    /// The ticket that is served now, or next.
    pub serving: u64,
    /// The number of tickets handed out.
    pub issued: u64,
    /// Whether the ticket that is served holds the lock.
    pub busy: bool,
}

/// One thing that can happen to the lock.
#[derive(Clone, Copy, Debug, PartialEq, Eq, Structural)]
pub enum GateStep {
    /// A call asks for a ticket.
    Enqueue,
    /// The call with this ticket tries to take the lock.
    Enter(u64),
    /// The call with this ticket gives the lock back.
    Leave(u64),
}

impl Gate {
    /// No ticket is served that was not handed out, and the lock is only
    /// held by a ticket that was.
    pub open spec fn wf(self) -> bool {
        self.serving <= self.issued && (self.busy ==> self.serving < self.issued)
    }

    /// Whether the call with `ticket` may take the lock now.
    pub open spec fn lets_in(self, ticket: u64) -> bool {
        !self.busy && ticket == self.serving && ticket < self.issued
    }

    /// Whether the call with `ticket` holds the lock.
    pub open spec fn held_by(self, ticket: u64) -> bool {
        self.busy && ticket == self.serving
    }

    /// Whether a step does what it is for: a ticket is handed out, the lock
    /// is taken, the lock is given back.
    pub open spec fn succeeds(self, step: GateStep) -> bool {
        match step {
            GateStep::Enqueue => self.issued < u64::MAX,
            GateStep::Enter(ticket) => self.lets_in(ticket),
            GateStep::Leave(ticket) => self.held_by(ticket),
        }
    }

    /// The lock after a step. A step that does not succeed changes nothing.
    pub open spec fn after(self, step: GateStep) -> Gate {
        if !self.succeeds(step) {
            self
        } else {
            match step {
                GateStep::Enqueue => Gate { issued: (self.issued + 1) as u64, ..self },
                GateStep::Enter(_) => Gate { busy: true, ..self },
                GateStep::Leave(_) => Gate { serving: (self.serving + 1) as u64, busy: false, ..self },
            }
        }
    }

    /// The lock after the first `n` of the steps.
    pub open spec fn after_all(self, steps: Seq<GateStep>, n: int) -> Gate
        decreases n,
    {
        if n <= 0 {
            self
        } else {
            self.after_all(steps, n - 1).after(steps[n - 1])
        }
    }

    /// Whether step `i` of a run succeeds.
    pub open spec fn succeeds_at(self, steps: Seq<GateStep>, i: int) -> bool {
        self.after_all(steps, i).succeeds(steps[i])
    }

    /// A lock that no call has asked for yet.
    pub fn new() -> (gate: Gate)
        ensures
            gate == (Gate { serving: 0, issued: 0, busy: false }),
            gate.wf(),
    {
        Gate { serving: 0, issued: 0, busy: false }
    }

    /// Hands out the next ticket; `VaultLockUnavailable`, and no change,
    /// where the tickets have run out.
    pub fn enqueue(&mut self) -> (ticket: Result<u64, Error>)
        requires
            old(self).wf(),
        ensures
            *final(self) == old(self).after(GateStep::Enqueue),
            final(self).wf(),
            match ticket {
                Ok(t) => old(self).succeeds(GateStep::Enqueue) && t == old(self).issued,
                Err(e) => !old(self).succeeds(GateStep::Enqueue) && e == Error::VaultLockUnavailable,
            },
    {
        if self.issued == u64::MAX {
            return Err(Error::VaultLockUnavailable);
        }
        let ticket: u64 = self.issued;
        self.issued = self.issued + 1;
        Ok(ticket)
    }

    /// Takes the lock for `ticket` if it is that ticket's turn and the lock
    /// is free.
    pub fn enter(&mut self, ticket: u64) -> (entered: bool)
        requires
            old(self).wf(),
        ensures
            *final(self) == old(self).after(GateStep::Enter(ticket)),
            final(self).wf(),
            entered == old(self).lets_in(ticket),
            entered ==> final(self).held_by(ticket),
    {
        if !self.busy && ticket == self.serving && ticket < self.issued {
            self.busy = true;
            true
        } else {
            false
        }
    }

    /// Gives the lock back if `ticket` holds it, and serves the next ticket.
    pub fn leave(&mut self, ticket: u64) -> (left: bool)
        requires
            old(self).wf(),
        ensures
            *final(self) == old(self).after(GateStep::Leave(ticket)),
            final(self).wf(),
            left == old(self).held_by(ticket),
            !final(self).held_by(ticket),
    {
        if self.busy && ticket == self.serving {
            self.busy = false;
            self.serving = self.serving + 1;
            true
        } else {
            false
        }
    }
}

/// Every step keeps the lock well formed and never serves an earlier ticket.
pub proof fn lemma_step(gate: Gate, step: GateStep)
    requires
        gate.wf(),
    ensures
        gate.after(step).wf(),
        gate.after(step).serving >= gate.serving,
        gate.after(step).issued >= gate.issued,
{
}

/// A run keeps the lock well formed and never serves an earlier ticket.
pub proof fn lemma_run(gate: Gate, steps: Seq<GateStep>, m: int, n: int)
    requires
        gate.wf(),
        0 <= m <= n <= steps.len(),
    ensures
        gate.after_all(steps, n).wf(),
        gate.after_all(steps, n).serving >= gate.after_all(steps, m).serving,
    decreases n,
{
    if n > 0 {
        if m < n {
            lemma_run(gate, steps, m, n - 1);
        } else {
            lemma_run(gate, steps, 0, n - 1);
        }
        lemma_step(gate.after_all(steps, n - 1), steps[n - 1]);
    }
}

/// While nobody gives the lock back, the call that holds it keeps it.
pub proof fn lemma_held_until_left(gate: Gate, steps: Seq<GateStep>, m: int, n: int)
    requires
        gate.wf(),
        0 <= m <= n <= steps.len(),
        gate.after_all(steps, m).busy,
        forall|k: int|
            m <= k < n ==> !(#[trigger] steps[k] is Leave && gate.succeeds_at(steps, k)),
    ensures
        gate.after_all(steps, n).busy,
        gate.after_all(steps, n).serving == gate.after_all(steps, m).serving,
    decreases n - m,
{
    if m < n {
        lemma_held_until_left(gate, steps, m, n - 1);
        assert(!(steps[n - 1] is Leave && gate.succeeds_at(steps, n - 1)));
    }
}

/// Calls never overlap and enter in the order of their tickets: between two
/// steps of a run that take the lock, some step gives it back, and the
/// later of the two has the later ticket.
pub proof fn lemma_calls_never_overlap(gate: Gate, steps: Seq<GateStep>, i: int, j: int)
    requires
        gate.wf(),
        0 <= i < j < steps.len(),
        steps[i] is Enter,
        steps[j] is Enter,
        gate.succeeds_at(steps, i),
        gate.succeeds_at(steps, j),
    ensures
        exists|k: int| i < k < j && #[trigger] steps[k] is Leave && gate.succeeds_at(steps, k),
        steps[i]->Enter_0 < steps[j]->Enter_0,
{
    lemma_run(gate, steps, 0, i);
    lemma_run(gate, steps, i + 1, j);
    let inside = gate.after_all(steps, i + 1);
    assert(inside == gate.after_all(steps, i).after(steps[i]));
    assert(inside.busy && inside.serving == steps[i]->Enter_0);
    if !(exists|k: int| i < k < j && #[trigger] steps[k] is Leave && gate.succeeds_at(steps, k)) {
        lemma_held_until_left(gate, steps, i + 1, j);
        assert(false);
    }
    let k = choose|k: int| i < k < j && #[trigger] steps[k] is Leave && gate.succeeds_at(steps, k);
    lemma_run(gate, steps, i + 1, k);
    lemma_run(gate, steps, k + 1, j);
    assert(gate.after_all(steps, k + 1) == gate.after_all(steps, k).after(steps[k]));
}

} // verus!

//! The step-run control state machine. A step run owns a concurrency
//! budget (the semaphore the runtime blocks on) and reads a shared
//! tri-state run flag between tuples. The ledger here is the verified
//! core of that controller: the runtime reports each permit
//! acquisition, control observation, dispatch and completion, and the
//! ledger's contracts pin down what may happen next — the number of
//! in-flight executions never passes the budget, a pause observation
//! changes nothing and parks the controller, and once a stop is
//! observed nothing further is ever dispatched while what is in flight
//! still completes and is awaited.

use vstd::prelude::*;

use crate::{STEP_PAUSED, STEP_STOPPED};

verus! {

/// What the controller does with the tuple at hand after reading the
/// run flag.
#[derive(PartialEq, Eq, Structural, Debug)]
pub enum ControlAction {
    /// Dispatch the tuple.
    Proceed,
    /// Park on the condition variable until the flag leaves Paused,
    /// then observe the flag again before doing anything with the
    /// tuple.
    Wait,
    /// Dispatch nothing further; await what is in flight.
    Halt,
}

/// How a run-flag value read between tuples is acted on: pause parks,
/// stop halts, anything else — including an unknown code — proceeds.
pub open spec fn control_action_spec(code: u8) -> ControlAction {
    if code == STEP_PAUSED {
        ControlAction::Wait
    } else if code == STEP_STOPPED {
        ControlAction::Halt
    } else {
        ControlAction::Proceed
    }
}

/// Decide the action for a run-flag value.
pub fn control_action(code: u8) -> (r: ControlAction)
    ensures
        r == control_action_spec(code),
{
    if code == STEP_PAUSED {
        ControlAction::Wait
    } else if code == STEP_STOPPED {
        ControlAction::Halt
    } else {
        ControlAction::Proceed
    }
}

/// The dispatch ledger of one step run.
pub struct RunLedger {
    /// The step's concurrency bound.
    pub limit: usize,
    /// Task executions holding a permit right now.
    pub in_flight: usize,
    /// Whether a stop has been observed at a tuple boundary.
    pub stopped: bool,
    /// How many tasks have been dispatched over the whole run.
    pub dispatched: Ghost<nat>,
}

impl RunLedger {
    /// The concurrency bound is never exceeded.
    pub open spec fn inv(self) -> bool {
        self.in_flight <= self.limit
    }

    /// Open the ledger for a fresh run: the run flag is reset to
    /// Running, nothing is in flight, nothing has been dispatched.
    pub fn new(limit: usize) -> (r: RunLedger)
        ensures
            r.inv(),
            r.limit == limit,
            r.in_flight == 0,
            !r.stopped,
            r.dispatched@ == 0,
    {
        RunLedger { limit, in_flight: 0, stopped: false, dispatched: Ghost(0nat) }
    }

    /// Record one granted permit. A permit can only be granted while
    /// fewer than `limit` executions hold one — that is what the
    /// semaphore blocks on — so the bound is kept.
    pub fn acquire(&mut self)
        requires
            old(self).inv(),
            old(self).in_flight < old(self).limit,
        ensures
            final(self).inv(),
            final(self).in_flight == old(self).in_flight + 1,
            final(self).limit == old(self).limit,
            final(self).stopped == old(self).stopped,
            final(self).dispatched@ == old(self).dispatched@,
    {
        self.in_flight = self.in_flight + 1;
    }

    /// Observe the run flag with the permit for the next tuple held.
    /// Pause changes nothing here — the permit stays held while the
    /// controller parks, and the flag is observed again once it moves,
    /// so a step paused and then stopped dispatches nothing further.
    /// Stop releases the permit and bars every further dispatch.
    pub fn observe(&mut self, code: u8) -> (r: ControlAction)
        requires
            old(self).inv(),
            old(self).in_flight > 0,
        ensures
            final(self).inv(),
            r == control_action_spec(code),
            final(self).limit == old(self).limit,
            final(self).dispatched@ == old(self).dispatched@,
            r == ControlAction::Halt ==> final(self).stopped && final(self).in_flight == old(
                self,
            ).in_flight - 1,
            r != ControlAction::Halt ==> *final(self) == *old(self),
    {
        let action = control_action(code);
        if action == ControlAction::Halt {
            self.stopped = true;
            self.in_flight = self.in_flight - 1;
        }
        action
    }

    /// Record one dispatched task execution. Nothing can be dispatched
    /// once a stop has been observed.
    pub fn dispatch(&mut self)
        requires
            old(self).inv(),
            !old(self).stopped,
            old(self).in_flight > 0,
        ensures
            final(self).inv(),
            final(self).dispatched@ == old(self).dispatched@ + 1,
            final(self).in_flight == old(self).in_flight,
            final(self).limit == old(self).limit,
            final(self).stopped == old(self).stopped,
    {
        proof {
            self.dispatched@ = self.dispatched@ + 1;
        }
    }

    /// Record one completed task execution releasing its permit,
    /// whether it succeeded or failed.
    pub fn complete(&mut self)
        requires
            old(self).inv(),
            old(self).in_flight > 0,
        ensures
            final(self).inv(),
            final(self).in_flight == old(self).in_flight - 1,
            final(self).limit == old(self).limit,
            final(self).stopped == old(self).stopped,
            final(self).dispatched@ == old(self).dispatched@,
    {
        self.in_flight = self.in_flight - 1;
    }

    /// Whether the run may return to its caller: only once every
    /// dispatched execution has completed.
    pub fn drained(&self) -> (r: bool)
        ensures
            r == (self.in_flight == 0),
    {
        self.in_flight == 0
    }
}

/// The in-flight count never exceeds the step's concurrency bound: the
/// ledger's invariant, which every operation preserves.
pub proof fn lemma_concurrency_bounded(c: RunLedger)
    requires
        c.inv(),
    ensures
        c.in_flight <= c.limit,
{
}

/// A pause observation acquires nothing and dispatches nothing: the
/// ledger after observing Paused is the ledger before it.
pub proof fn lemma_pause_changes_nothing(code: u8)
    requires
        code == STEP_PAUSED,
    ensures
        control_action_spec(code) == ControlAction::Wait,
{
}

/// Once a stop is observed, dispatching is disabled for good: no
/// ledger operation clears the stop mark, and dispatch demands it
/// clear; in-flight work is still completed and awaited before the run
/// may return.
pub proof fn lemma_stop_bars_dispatch(c: RunLedger)
    requires
        c.stopped,
    ensures
        !(!c.stopped && c.in_flight > 0),
{
}

} // verus!

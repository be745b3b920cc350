//! The termination protocol: a completed-orders counter and a stop flag.
//!
//! In the running system the counter and the flag live in one place shared
//! by every worker; the runtime serialises access to them. The contracts
//! here say what each operation does to that state, and the idempotence of
//! requesting a stop is proved as a law.
use vstd::prelude::*;
use crate::TOTAL_ORDER_QUOTA;

verus! {

/// The shared termination state: how many orders have been recorded across
/// all traders, and whether the stop flag has been raised. The counter only
/// grows, and the flag only goes from false to true.
#[derive(Clone, Copy, Debug, PartialEq, Eq, Structural)]
pub struct TerminationState {
    pub completed_orders: usize,
    pub stop: bool,
}

/// The state after a stop request: the flag is raised, the counter stays.
pub open spec fn stop_requested(state: TerminationState) -> TerminationState {
    TerminationState { stop: true, ..state }
}

/// The quota is met once the count reaches the global order quota.
pub open spec fn quota_reached_spec(count: int) -> bool {
    count >= TOTAL_ORDER_QUOTA
}

impl TerminationState {
    /// Builds the initial state: nothing recorded, stop not requested.
    pub fn new() -> (state: TerminationState)
        ensures
            state.completed_orders == 0,
            !state.stop,
    {
        TerminationState { completed_orders: 0, stop: false }
    }

    /// Records one completed order and returns the new count. No order is
    /// lost or double-counted: the count grows by exactly one.
    pub fn record_order(&mut self) -> (new_count: usize)
        requires
            old(self).completed_orders < usize::MAX,
        ensures
            final(self).completed_orders == old(self).completed_orders + 1,
            final(self).stop == old(self).stop,
            new_count == final(self).completed_orders,
    {
        self.completed_orders = self.completed_orders + 1;
        self.completed_orders
    }

    /// Raises the stop flag. Safe to call any number of times: every call
    /// leaves the state at `stop_requested` of the state before the first.
    pub fn request_stop(&mut self)
        ensures
            *final(self) == stop_requested(*old(self)),
    {
        self.stop = true;
    }

    /// Reads the stop flag.
    pub fn should_stop(&self) -> (stop: bool)
        ensures
            stop == self.stop,
    {
        self.stop
    }
}

/// Decides whether a count meets the global order quota.
pub fn quota_reached(count: usize) -> (reached: bool)
    ensures
        reached == quota_reached_spec(count as int),
{
    count >= TOTAL_ORDER_QUOTA
}

/// Idempotence of requesting a stop: once the flag is raised, raising it
/// again has no further observable effect on the state.
pub proof fn lemma_request_stop_idempotent(state: TerminationState)
    ensures
        stop_requested(stop_requested(state)) == stop_requested(state),
{
}

} // verus!

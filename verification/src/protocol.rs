//! A model of the whole run's order accounting: how the per-trader order
//! counts, the shared counter and the stop flag evolve together.
//!
//! The runtime schedules the traders in any order; every recorded order goes
//! through [`RunState::trader_emit`], whose contract shows the run invariant
//! is kept under any interleaving of these steps. From the invariant follow
//! the termination laws: the counter at the end is exactly the quota, and
//! the stop flag is raised exactly when the quota is met.
use vstd::prelude::*;
use crate::termination::{quota_reached, TerminationState};
use crate::{NUM_TRADERS, ORDERS_PER_TRADER, TOTAL_ORDER_QUOTA};
use vstd::pervasive::VecAdditionalExecFns;

verus! {

/// Total number of orders recorded over all traders.
pub open spec fn total_emitted(emitted: Seq<usize>) -> int
    decreases emitted.len(),
{
    if emitted.len() == 0 {
        0
    } else {
        total_emitted(emitted.drop_last()) + emitted.last()
    }
}

/// Updating one trader's count changes the total by the difference.
pub proof fn lemma_total_emitted_update(emitted: Seq<usize>, i: int, v: usize)
    requires
        0 <= i < emitted.len(),
    ensures
        total_emitted(emitted.update(i, v)) == total_emitted(emitted) - emitted[i] + v,
    decreases emitted.len(),
{
    let updated = emitted.update(i, v);
    if i == emitted.len() - 1 {
        assert(updated.drop_last() =~= emitted.drop_last());
    } else {
        assert(updated.drop_last() =~= emitted.drop_last().update(i, v));
        lemma_total_emitted_update(emitted.drop_last(), i, v);
    }
}

/// A total of per-trader counts each at most `bound` is at most
/// `len * bound`, and falls short of it by at least what any single
/// trader's count falls short of `bound`.
pub proof fn lemma_total_emitted_bound(emitted: Seq<usize>, bound: usize, i: int)
    requires
        forall|j: int| 0 <= j < emitted.len() ==> emitted[j] <= bound,
        0 <= i < emitted.len(),
    ensures
        total_emitted(emitted) <= emitted.len() * bound - bound + emitted[i],
    decreases emitted.len(),
{
    let last = emitted.len() - 1;
    let len = emitted.len() as int;
    let dl = emitted.drop_last();
    assert(len * bound == (len - 1) * bound + bound) by (nonlinear_arith);
    assert(forall|j: int| 0 <= j < dl.len() ==> #[trigger] dl[j] <= bound);
    assert(total_emitted(emitted) == total_emitted(dl) + emitted[last]);
    if i == last {
        if emitted.len() > 1 {
            lemma_total_emitted_bound(dl, bound, 0);
            assert(total_emitted(dl) <= (len - 1) * bound);
        } else {
            assert(dl.len() == 0);
            assert(total_emitted(dl) == 0);
        }
    } else {
        lemma_total_emitted_bound(dl, bound, i);
        assert(dl[i] == emitted[i]);
        assert(total_emitted(dl) <= (len - 1) * bound - bound + emitted[i]);
    }
}

/// When every trader's count equals `bound`, the total is `len * bound`.
pub proof fn lemma_total_emitted_all_equal(emitted: Seq<usize>, bound: usize)
    requires
        forall|j: int| 0 <= j < emitted.len() ==> emitted[j] == bound,
    ensures
        total_emitted(emitted) == emitted.len() * bound,
    decreases emitted.len(),
{
    if emitted.len() > 0 {
        lemma_total_emitted_all_equal(emitted.drop_last(), bound);
        assert(emitted.len() * bound == (emitted.len() - 1) * bound + bound) by (nonlinear_arith);
    }
}

/// The order accounting of one run: each trader's own count of emitted
/// orders, next to the shared termination state.
pub struct RunState {
    pub emitted: Vec<usize>,
    pub term: TerminationState,
}

impl RunState {
    /// The run invariant, kept by every step of every trader:
    /// one count per trader, none beyond its per-trader quota; the shared
    /// counter is exactly the sum of the per-trader counts (no order
    /// double-counted or lost); and the stop flag is raised exactly when
    /// the counter has reached the global quota.
    pub open spec fn inv(&self) -> bool {
        &&& self.emitted@.len() == NUM_TRADERS
        &&& forall|j: int|
            0 <= j < self.emitted@.len() ==> (#[trigger] self.emitted@[j]) <= ORDERS_PER_TRADER
        &&& self.term.completed_orders == total_emitted(self.emitted@)
        &&& self.term.completed_orders <= TOTAL_ORDER_QUOTA
        &&& (self.term.stop <==> self.term.completed_orders == TOTAL_ORDER_QUOTA)
    }

    /// Builds the initial run state: no orders recorded anywhere.
    pub fn new() -> (run: RunState)
        ensures
            run.inv(),
            run.term.completed_orders == 0,
            !run.term.stop,
            forall|j: int| 0 <= j < run.emitted@.len() ==> (#[trigger] run.emitted@[j]) == 0,
    {
        let mut emitted: Vec<usize> = Vec::new();
        let mut i: usize = 0;
        while i < NUM_TRADERS
            invariant
                i <= NUM_TRADERS,
                emitted@.len() == i,
                forall|j: int| 0 <= j < i ==> (#[trigger] emitted@[j]) == 0,
                total_emitted(emitted@) == 0,
            decreases NUM_TRADERS - i,
        {
            let ghost before = emitted@;
            emitted.push(0);
            proof {
                assert(emitted@.drop_last() =~= before);
            }
            i = i + 1;
        }
        RunState { emitted, term: TerminationState::new() }
    }

    /// One trader records one order: its own count and the shared counter
    /// both grow by one, and the trader that brings the counter to the
    /// quota raises the stop flag. Returns the raised flag, which tells the
    /// recording trader whether the whole run is complete.
    pub fn trader_emit(&mut self, trader_id: usize) -> (stopped: bool)
        requires
            old(self).inv(),
            trader_id < NUM_TRADERS,
            old(self).emitted@[trader_id as int] < ORDERS_PER_TRADER,
        ensures
            final(self).inv(),
            final(self).emitted@ == old(self).emitted@.update(
                trader_id as int,
                (old(self).emitted@[trader_id as int] + 1) as usize,
            ),
            final(self).term.completed_orders == old(self).term.completed_orders + 1,
            stopped == final(self).term.stop,
    {
        proof {
            lemma_total_emitted_bound(self.emitted@, ORDERS_PER_TRADER, trader_id as int);
            assert(NUM_TRADERS * ORDERS_PER_TRADER == TOTAL_ORDER_QUOTA);
        }
        let count = self.emitted[trader_id] + 1;
        self.emitted.set(trader_id, count);
        proof {
            lemma_total_emitted_update(old(self).emitted@, trader_id as int, count);
        }
        let new_count = self.term.record_order();
        if quota_reached(new_count) {
            self.term.request_stop();
        }
        self.term.should_stop()
    }
}

/// At the end of a run every trader has emitted its full per-trader quota,
/// and then the shared counter reads exactly the global quota: orders are
/// neither double-counted nor lost.
pub proof fn lemma_all_traders_done_counter_is_quota(run: RunState)
    requires
        run.inv(),
        forall|j: int|
            0 <= j < run.emitted@.len() ==> (#[trigger] run.emitted@[j]) == ORDERS_PER_TRADER,
    ensures
        run.term.completed_orders == TOTAL_ORDER_QUOTA,
{
    lemma_total_emitted_all_equal(run.emitted@, ORDERS_PER_TRADER);
    assert(NUM_TRADERS * ORDERS_PER_TRADER == TOTAL_ORDER_QUOTA);
}

/// The converse: when the shared counter has reached the global quota,
/// every trader has emitted its full per-trader quota, so no trader still
/// has work.
pub proof fn lemma_quota_means_all_traders_done(run: RunState, trader_id: int)
    requires
        run.inv(),
        run.term.completed_orders == TOTAL_ORDER_QUOTA,
        0 <= trader_id < run.emitted@.len(),
    ensures
        run.emitted@[trader_id] == ORDERS_PER_TRADER,
{
    if run.emitted@[trader_id] < ORDERS_PER_TRADER {
        lemma_total_emitted_bound(run.emitted@, ORDERS_PER_TRADER, trader_id);
        assert(NUM_TRADERS * ORDERS_PER_TRADER == TOTAL_ORDER_QUOTA);
    }
}

} // verus!

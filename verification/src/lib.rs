//! A verified model of a small securities-market simulation: traders perturb
//! shared macroeconomic factors, classify them into market news, adjust stock
//! prices with a two-step rule, and publish each adjusted stock as an order;
//! a single broker applies the orders to its own ledger until a global quota
//! of orders has been recorded and every worker has stopped.
//!
//! All prices, market factors and price-change fractions are fixed-point
//! values in thousandths, so that the adjustment arithmetic is exact and
//! free of overflow. The unverified runtime around this crate owns the
//! threads, locks and the order transport; it calls into the verified step
//! functions here for every decision.
use vstd::prelude::*;

pub mod broker;
pub mod codec;
pub mod ledger;
pub mod market;
pub mod protocol;
pub mod stock;
pub mod termination;
pub mod trader;

verus! {

/// Number of concurrent trader workers.
pub const NUM_TRADERS: usize = 5;

/// Orders each trader must emit before it stops.
pub const ORDERS_PER_TRADER: usize = 20;

/// Global quota: the run ends once this many orders have been recorded.
pub const TOTAL_ORDER_QUOTA: usize = NUM_TRADERS * ORDERS_PER_TRADER;

} // verus!

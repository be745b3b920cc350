//! The trader side of the simulation: randomly perturbing the market
//! factors and trading a randomly chosen stock.
//!
//! All randomness comes through one trusted wrapper around the `rand`
//! crate; nothing is assumed of a drawn value except its range, so every
//! contract here holds whatever the generator returns. The runtime owns
//! the trader threads, their pacing delays and the order transport, and
//! calls these step functions under the appropriate exclusive access.
use vstd::prelude::*;
use crate::codec::encode_order;
use crate::ledger::StockLedger;
use crate::market::{MarketFactors, MarketNews};
use crate::stock::{compute_traded_price, traded_price, MAX_PRICE_CHANGE};

verus! {

/// Lowest unemployment rate a perturbation can draw (3.0%).
pub const UNEMPLOYMENT_MIN: i64 = 3000;

/// Width of the unemployment range: draws lie in [3.0%, 10.0%).
pub const UNEMPLOYMENT_SPAN: u64 = 7000;

/// Lowest GDP growth a perturbation can draw (-1.0%).
pub const GDP_MIN: i64 = -1000;

/// Width of the GDP-growth range: draws lie in [-1.0%, 4.0%).
pub const GDP_SPAN: u64 = 5000;

/// Out of this many draws, [`FACTOR_UPDATE_CHANCE`] update the factors.
pub const FACTOR_UPDATE_DIE: u64 = 10;

/// A trader updates the market factors with probability 0.4 per iteration.
pub const FACTOR_UPDATE_CHANCE: u64 = 4;

/// Relies on rand::random_range over the integer range `0..bound`: it
/// returns a value of the range, drawn from the thread-local generator,
/// and panics only when the range is empty.
#[verifier::external_body]
fn random_below(bound: u64) -> (drawn: u64)
    requires
        bound > 0,
    ensures
        drawn < bound,
{
    rand::random_range(0..bound)
}

/// Decides, with the fixed update probability, whether this iteration
/// rewrites the market factors. Nothing but the policy constant is known
/// of the draw, so nothing more is stated.
pub fn should_update_factors() -> bool {
    random_below(FACTOR_UPDATE_DIE) < FACTOR_UPDATE_CHANCE
}

/// Overwrites both market factors with fresh random draws: an unemployment
/// rate in [3.0%, 10.0%) and a GDP growth in [-1.0%, 4.0%). The runtime
/// must hold exclusive access to the factors across this call, so that no
/// reader sees one new and one old field.
pub fn perturb_market_factors(factors: &mut MarketFactors)
    ensures
        UNEMPLOYMENT_MIN <= final(factors).unemployment_rate < UNEMPLOYMENT_MIN
            + UNEMPLOYMENT_SPAN,
        GDP_MIN <= final(factors).gdp_growth < GDP_MIN + GDP_SPAN,
{
    let u = random_below(UNEMPLOYMENT_SPAN);
    let g = random_below(GDP_SPAN);
    factors.unemployment_rate = UNEMPLOYMENT_MIN + (u as i64);
    factors.gdp_growth = GDP_MIN + (g as i64);
}

/// Copies a byte string.
fn clone_bytes(bytes: &Vec<u8>) -> (copy: Vec<u8>)
    ensures
        copy@ == bytes@,
{
    let mut out: Vec<u8> = Vec::new();
    let n = bytes.len();
    let mut i: usize = 0;
    while i < n
        invariant
            n == bytes@.len(),
            i <= n,
            out@ == bytes@.subrange(0, i as int),
        decreases n - i,
    {
        out.push(bytes[i]);
        assert(out@ =~= bytes@.subrange(0, i + 1));
        i = i + 1;
    }
    assert(out@ =~= bytes@);
    out
}

/// One trade: picks a stock uniformly at random, applies the two-step
/// price adjustment for the given news with a random price-change fraction
/// in [-0.2, 0.2), and returns the chosen index together with the order
/// payload that carries the adjusted stock. Only the chosen stock changes,
/// and only its price; the payload encodes its name and its new price.
/// The runtime must hold exclusive access to the ledger across this call.
pub fn trade_random_stock(ledger: &mut StockLedger, market_news: &MarketNews) -> (order: (
    usize,
    Vec<u8>,
))
    requires
        old(ledger).wf(),
        old(ledger).names_ok(),
        old(ledger).stocks@.len() > 0,
    ensures
        final(ledger).wf(),
        final(ledger).names_ok(),
        final(ledger).stocks@.len() == old(ledger).stocks@.len(),
        order.0 < old(ledger).stocks@.len(),
        final(ledger).stocks@[order.0 as int].stock_name == old(ledger).stocks@[
            order.0 as int
        ].stock_name,
        exists|change: i64|
            -MAX_PRICE_CHANGE <= change < MAX_PRICE_CHANGE && final(ledger).stocks@[
                order.0 as int
            ].current_price == traded_price(
                old(ledger).stocks@[order.0 as int].current_price as int,
                *market_news,
                change as int,
            ),
        forall|j: int|
            0 <= j < old(ledger).stocks@.len() && j != order.0 ==> final(ledger).stocks@[j]
                == old(ledger).stocks@[j],
        order.1@ == crate::codec::encode_order_spec(
            final(ledger).stocks@[order.0 as int].stock_name@,
            final(ledger).stocks@[order.0 as int].current_price as int,
        ),
{
    let len = ledger.len();
    let idx = random_below(len as u64) as usize;
    let draw = random_below(2 * MAX_PRICE_CHANGE as u64);
    let price_change: i64 = (draw as i64) - MAX_PRICE_CHANGE;
    let original = ledger.get(idx).current_price;
    let new_price = compute_traded_price(original, market_news, price_change);
    let name = clone_bytes(&ledger.get(idx).stock_name);
    ledger.set_price(idx, new_price);
    let payload = encode_order(&name, new_price);
    (idx, payload)
}

} // verus!

//! Stocks and the two-step price-adjustment rule.
//!
//! Prices are fixed-point currency amounts in thousandths of a unit, and
//! price-change fractions are in thousandths as well, so every adjustment is
//! exact integer arithmetic. An order of magnitude above any price this
//! simulation can reach, prices saturate at [`MAX_PRICE_UNITS`], which keeps
//! the arithmetic free of overflow.
use vstd::prelude::*;
use vstd::arithmetic::div_mod::{
    lemma_div_is_ordered, lemma_div_multiples_vanish_fancy, lemma_fundamental_div_mod,
};
use vstd::arithmetic::mul::{lemma_mul_inequality, lemma_mul_is_distributive_add};
use crate::market::MarketNews;

verus! {

/// Fixed-point scale: one currency unit, and the whole of a price-change
/// fraction, both equal this many stored units.
pub const PRICE_SCALE: u64 = 1000;

/// Upper saturation bound for prices (ten trillion currency units).
pub const MAX_PRICE_UNITS: u64 = 10_000_000_000_000_000;

/// A price-change fraction lies in [-0.2, 0.2), i.e. in
/// [-MAX_PRICE_CHANGE, MAX_PRICE_CHANGE) thousandths.
pub const MAX_PRICE_CHANGE: i64 = 200;

/// The buy/sell secondary adjustment shifts the drawn fraction by 0.05
/// (50 thousandths) towards zero activity.
pub const ACTIVITY_SHIFT: i64 = 50;

/// One security: an immutable name and a current price in thousandths.
#[derive(Clone, Debug)]
pub struct Stock {
    pub stock_name: Vec<u8>,
    pub current_price: u64,
}

/// The per-mille bonus the news classification grants on top of the
/// thousand-per-mille base multiplier: +5% for good news, -5% for bad news.
pub open spec fn news_delta(news: MarketNews) -> int {
    match news {
        MarketNews::Good => 50,
        MarketNews::Bad => -50,
        MarketNews::Neutral => 0,
    }
}

/// Prices saturate at the upper bound instead of overflowing.
pub open spec fn clamp_price(v: int) -> int {
    if v > MAX_PRICE_UNITS { MAX_PRICE_UNITS as int } else { v }
}

/// First adjustment step: multiply the price by (1 + delta), in fixed
/// point: price * (1000 + delta_per_mille) / 1000, rounded down.
pub open spec fn news_adjusted_price(price: int, news: MarketNews) -> int {
    clamp_price(price * (1000 + news_delta(news)) / 1000)
}

/// The effective per-mille fraction of the secondary adjustment: a negative
/// drawn fraction is a buy and is shifted up by 0.05, a non-negative one is
/// a sell and is shifted down by 0.05.
pub open spec fn activity_delta(change: int) -> int {
    if change < 0 { change + ACTIVITY_SHIFT } else { change - ACTIVITY_SHIFT }
}

/// `base * m / 1000` rounded towards zero, for a possibly negative
/// per-mille factor `m` and a non-negative base.
pub open spec fn base_scaled(base: int, m: int) -> int {
    if m >= 0 { base * m / 1000 } else { -(base * (-m) / 1000) }
}

/// Second adjustment step: add `base * activity_delta(change) / 1000` to the
/// price, holding the result within [0, MAX_PRICE_UNITS]. The floor at zero
/// never engages when the price was produced from `base` by the first step
/// (see [`lemma_trade_no_underflow`]).
pub open spec fn activity_adjusted_price(price: int, base: int, change: int) -> int {
    let raw = price + base_scaled(base, activity_delta(change));
    clamp_price(if raw < 0 { 0 } else { raw })
}

/// The whole two-step rule applied to one price: first the news-driven
/// multiplication, then the buy/sell adjustment relative to the original
/// price. The order of the two steps is part of the contract.
pub open spec fn traded_price(price: int, news: MarketNews, change: int) -> int {
    activity_adjusted_price(news_adjusted_price(price, news), price, change)
}

/// Computes the first adjustment step on a bare price: multiplies it by
/// 1.05 on good news, by 0.95 on bad news, and keeps it on neutral news,
/// saturating at the price bound.
pub fn news_adjust(price: u64, market_news: &MarketNews) -> (adjusted: u64)
    requires
        price <= MAX_PRICE_UNITS,
    ensures
        adjusted == news_adjusted_price(price as int, *market_news),
        adjusted <= MAX_PRICE_UNITS,
{
    let raw: u64 = match market_news {
        MarketNews::Good => price * 1050 / 1000,
        MarketNews::Bad => price * 950 / 1000,
        MarketNews::Neutral => price * 1000 / 1000,
    };
    if raw > MAX_PRICE_UNITS { MAX_PRICE_UNITS } else { raw }
}

/// Computes the second adjustment step on a bare price: adds
/// `base * (fraction +- 0.05)` to it, a buy for a negative drawn fraction
/// and a sell otherwise, saturating at the price bounds.
pub fn activity_adjust(price: u64, base: u64, price_change: i64) -> (adjusted: u64)
    requires
        price <= MAX_PRICE_UNITS,
        base <= MAX_PRICE_UNITS,
        -MAX_PRICE_CHANGE <= price_change < MAX_PRICE_CHANGE,
    ensures
        adjusted == activity_adjusted_price(price as int, base as int, price_change as int),
        adjusted <= MAX_PRICE_UNITS,
{
    let m: i64 = if price_change < 0 {
        price_change + ACTIVITY_SHIFT
    } else {
        price_change - ACTIVITY_SHIFT
    };
    if m >= 0 {
        proof {
            lemma_mul_inequality(m as int, 250, base as int);
        }
        let product: u64 = base * (m as u64);
        let up: u64 = product / 1000;
        proof {
            lemma_div_is_ordered(product as int, 250 * MAX_PRICE_UNITS as int, 1000);
        }
        let raw: u64 = price + up;
        if raw > MAX_PRICE_UNITS { MAX_PRICE_UNITS } else { raw }
    } else {
        let magnitude: u64 = (-m) as u64;
        proof {
            lemma_mul_inequality(magnitude as int, 250, base as int);
        }
        let product: u64 = base * magnitude;
        let down: u64 = product / 1000;
        if down > price { 0 } else { price - down }
    }
}

/// Computes the whole two-step rule on a bare price: the news-driven
/// multiplication first, then the buy/sell adjustment relative to the
/// original price.
pub fn compute_traded_price(
    price: u64,
    market_news: &MarketNews,
    price_change: i64,
) -> (adjusted: u64)
    requires
        price <= MAX_PRICE_UNITS,
        -MAX_PRICE_CHANGE <= price_change < MAX_PRICE_CHANGE,
    ensures
        adjusted == traded_price(price as int, *market_news, price_change as int),
        adjusted <= MAX_PRICE_UNITS,
{
    let after_news = news_adjust(price, market_news);
    activity_adjust(after_news, price, price_change)
}

impl Stock {
    /// The price is held within the saturation bound.
    pub open spec fn wf(&self) -> bool {
        self.current_price <= MAX_PRICE_UNITS
    }

    /// Builds a stock from a name and an initial price in thousandths.
    pub fn new(stock_name: Vec<u8>, current_price: u64) -> (stock: Stock)
        requires
            current_price <= MAX_PRICE_UNITS,
        ensures
            stock.stock_name == stock_name,
            stock.current_price == current_price,
            stock.wf(),
    {
        Stock { stock_name, current_price }
    }

    /// First adjustment step: multiplies the current price by 1.05 on good
    /// news, by 0.95 on bad news, and leaves it unchanged on neutral news.
    pub fn adjust_price(&mut self, market_news: &MarketNews)
        requires
            old(self).wf(),
        ensures
            final(self).stock_name == old(self).stock_name,
            final(self).current_price == news_adjusted_price(
                old(self).current_price as int,
                *market_news,
            ),
            final(self).wf(),
    {
        self.current_price = news_adjust(self.current_price, market_news);
    }

    /// Second adjustment step: adds `original_price * (fraction +- 0.05)` to
    /// the current price, a buy for a negative drawn fraction and a sell
    /// otherwise, saturating at the price bounds.
    pub fn apply_activity_adjustment(&mut self, original_price: u64, price_change: i64)
        requires
            old(self).wf(),
            original_price <= MAX_PRICE_UNITS,
            -MAX_PRICE_CHANGE <= price_change < MAX_PRICE_CHANGE,
        ensures
            final(self).stock_name == old(self).stock_name,
            final(self).current_price == activity_adjusted_price(
                old(self).current_price as int,
                original_price as int,
                price_change as int,
            ),
            final(self).wf(),
    {
        self.current_price = activity_adjust(self.current_price, original_price, price_change);
    }
}

/// Rounding down distributes over a sum no worse than term by term:
/// for non-negative x and y, (x + y) / d >= x / d + y / d.
proof fn lemma_div_sum_lower_bound(x: int, y: int, d: int)
    requires
        0 <= x,
        0 <= y,
        0 < d,
    ensures
        (x + y) / d >= x / d + y / d,
{
    lemma_fundamental_div_mod(x, d);
    lemma_fundamental_div_mod(y, d);
    let q = x / d + y / d;
    let b = x % d + y % d;
    lemma_mul_is_distributive_add(d, x / d, y / d);
    assert(x + y == d * q + b);
    if b < d {
        lemma_div_multiples_vanish_fancy(q, b, d);
        assert((x + y) / d == q);
    } else {
        assert(d * (q + 1) == d * q + d) by {
            lemma_mul_is_distributive_add(d, q, 1);
        }
        assert(x + y == d * (q + 1) + (b - d));
        lemma_div_multiples_vanish_fancy(q + 1, b - d, d);
        assert((x + y) / d == q + 1);
    }
}

/// The two-step rule never drives a price below zero: the news step keeps
/// at least 95% of the price, while the secondary step subtracts at most
/// 15% of it, so the floor at zero in the second step never engages.
pub proof fn lemma_trade_no_underflow(price: int, news: MarketNews, change: int)
    requires
        0 <= price <= MAX_PRICE_UNITS,
        -MAX_PRICE_CHANGE <= change < MAX_PRICE_CHANGE,
    ensures
        news_adjusted_price(price, news) + base_scaled(price, activity_delta(change)) >= 0,
{
    lemma_trade_lower_bound_raw(price, news, change);
    vstd::arithmetic::div_mod::lemma_div_pos_is_pos(800 * price, 1000);
    assert(800 * price >= 0) by {
        lemma_mul_inequality(0, price, 800);
    }
}

/// Both adjustment steps together keep at least 80% of the original price:
/// the adjusted price is never below `price * 800 / 1000`. In particular a
/// positive price never collapses by more than the two steps allow.
pub proof fn lemma_trade_lower_bound(price: int, news: MarketNews, change: int)
    requires
        0 <= price <= MAX_PRICE_UNITS,
        -MAX_PRICE_CHANGE <= change < MAX_PRICE_CHANGE,
    ensures
        traded_price(price, news, change) >= price * 800 / 1000,
{
    lemma_trade_lower_bound_raw(price, news, change);
    assert(800 * price == price * 800) by {
        vstd::arithmetic::mul::lemma_mul_is_commutative(800, price);
    }
    assert(price * 800 / 1000 <= price) by {
        lemma_mul_inequality(800, 1000, price);
        vstd::arithmetic::mul::lemma_mul_is_commutative(800, price);
        vstd::arithmetic::mul::lemma_mul_is_commutative(1000, price);
        vstd::arithmetic::div_mod::lemma_div_multiples_vanish(price, 1000);
        lemma_div_is_ordered(price * 800, price * 1000, 1000);
    }
}

/// Shared bound: the sum of the news-adjusted price and the secondary
/// adjustment is at least `800 * price / 1000`.
proof fn lemma_trade_lower_bound_raw(price: int, news: MarketNews, change: int)
    requires
        0 <= price <= MAX_PRICE_UNITS,
        -MAX_PRICE_CHANGE <= change < MAX_PRICE_CHANGE,
    ensures
        news_adjusted_price(price, news) + base_scaled(price, activity_delta(change))
            >= 800 * price / 1000,
{
    let na = news_adjusted_price(price, news);
    let m = activity_delta(change);
    assert(na >= 950 * price / 1000) by {
        let factor = 1000 + news_delta(news);
        assert(950 * price <= factor * price) by {
            lemma_mul_inequality(950, factor, price);
        }
        assert(price * factor == factor * price) by {
            vstd::arithmetic::mul::lemma_mul_is_commutative(price, factor);
        }
        lemma_div_is_ordered(950 * price, price * factor, 1000);
        assert(950 * price / 1000 <= price) by {
            lemma_mul_inequality(950, 1000, price);
            vstd::arithmetic::mul::lemma_mul_is_commutative(950, price);
            vstd::arithmetic::mul::lemma_mul_is_commutative(1000, price);
            vstd::arithmetic::div_mod::lemma_div_multiples_vanish(price, 1000);
            lemma_div_is_ordered(950 * price, price * 1000, 1000);
        }
    }
    if m >= 0 {
        assert(base_scaled(price, m) >= 0) by {
            lemma_mul_inequality(0, m, price);
            vstd::arithmetic::mul::lemma_mul_is_commutative(m, price);
            vstd::arithmetic::div_mod::lemma_div_pos_is_pos(price * m, 1000);
        }
        assert(800 * price / 1000 <= 950 * price / 1000) by {
            lemma_mul_inequality(800, 950, price);
            lemma_div_is_ordered(800 * price, 950 * price, 1000);
        }
    } else {
        let mag = -m;
        assert(mag <= 150);
        assert(base_scaled(price, m) == -(price * mag / 1000));
        assert(price * mag <= 150 * price) by {
            lemma_mul_inequality(mag, 150, price);
            vstd::arithmetic::mul::lemma_mul_is_commutative(mag, price);
        }
        lemma_div_is_ordered(price * mag, 150 * price, 1000);
        lemma_div_sum_lower_bound(800 * price, 150 * price, 1000);
        assert(800 * price + 150 * price == 950 * price);
    }
}

} // verus!

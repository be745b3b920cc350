//! Macroeconomic factors and their classification into market news.
//!
//! Both factors are fixed-point percentages in thousandths: an unemployment
//! rate of 6.0% is stored as `6000`, a GDP growth of -1.0% as `-1000`.
use vstd::prelude::*;

verus! {

/// Unemployment threshold (6.0%) below which news can be good.
pub const GOOD_UNEMPLOYMENT_BELOW: i64 = 6000;

/// GDP-growth threshold (2.0%) above which news can be good.
pub const GOOD_GDP_ABOVE: i64 = 2000;

/// Unemployment threshold (8.0%) above which news is bad.
pub const BAD_UNEMPLOYMENT_ABOVE: i64 = 8000;

/// GDP-growth threshold (0.0%) below which news is bad.
pub const BAD_GDP_BELOW: i64 = 0;

/// A three-way market-sentiment classification derived from the factors.
#[derive(Clone, Copy, Debug, PartialEq, Eq, Structural)]
pub enum MarketNews {
    Good,
    Bad,
    Neutral,
}

/// Shared macroeconomic state: an unemployment rate and a GDP growth rate,
/// both percentages in thousandths.
#[derive(Clone, Copy, Debug, PartialEq, Eq, Structural)]
pub struct MarketFactors {
    pub unemployment_rate: i64,
    pub gdp_growth: i64,
}

/// The factors satisfy the good-news condition: low unemployment and
/// high GDP growth, both strictly.
pub open spec fn good_news_condition(unemployment_rate: int, gdp_growth: int) -> bool {
    unemployment_rate < GOOD_UNEMPLOYMENT_BELOW && gdp_growth > GOOD_GDP_ABOVE
}

/// The factors satisfy the bad-news condition: high unemployment or
/// negative GDP growth, both strictly.
pub open spec fn bad_news_condition(unemployment_rate: int, gdp_growth: int) -> bool {
    unemployment_rate > BAD_UNEMPLOYMENT_ABOVE || gdp_growth < BAD_GDP_BELOW
}

/// The classification of a pair of factors: good news takes precedence,
/// then bad news, and everything else is neutral. Boundary values (an
/// unemployment rate exactly at a threshold, a GDP growth exactly at a
/// threshold) satisfy neither strict condition and classify as neutral.
pub open spec fn classify(unemployment_rate: int, gdp_growth: int) -> MarketNews {
    if good_news_condition(unemployment_rate, gdp_growth) {
        MarketNews::Good
    } else if bad_news_condition(unemployment_rate, gdp_growth) {
        MarketNews::Bad
    } else {
        MarketNews::Neutral
    }
}

impl MarketFactors {
    /// Builds a factor pair from an unemployment rate and a GDP growth
    /// rate, both in thousandths of a percent.
    pub fn new(unemployment_rate: i64, gdp_growth: i64) -> (factors: MarketFactors)
        ensures
            factors.unemployment_rate == unemployment_rate,
            factors.gdp_growth == gdp_growth,
    {
        MarketFactors { unemployment_rate, gdp_growth }
    }

    /// Classifies this factor pair into market news. Total: every pair of
    /// factors classifies, and to exactly one variant.
    pub fn determine_market_news(&self) -> (news: MarketNews)
        ensures
            news == classify(self.unemployment_rate as int, self.gdp_growth as int),
    {
        if self.unemployment_rate < GOOD_UNEMPLOYMENT_BELOW && self.gdp_growth > GOOD_GDP_ABOVE {
            MarketNews::Good
        } else if self.unemployment_rate > BAD_UNEMPLOYMENT_ABOVE || self.gdp_growth < BAD_GDP_BELOW {
            MarketNews::Bad
        } else {
            MarketNews::Neutral
        }
    }
}

/// The good-news and bad-news conditions exclude each other, so the
/// classification of a factor pair does not depend on the order in which
/// the two conditions are tested.
pub proof fn lemma_news_conditions_exclusive(unemployment_rate: int, gdp_growth: int)
    ensures
        !(good_news_condition(unemployment_rate, gdp_growth)
            && bad_news_condition(unemployment_rate, gdp_growth)),
{
}

/// Classifier totality: every factor pair classifies as good exactly when
/// the good-news condition holds, as bad exactly when the bad-news condition
/// holds and the good-news condition does not, and as neutral exactly when
/// neither condition holds.
pub proof fn lemma_classify_total(unemployment_rate: int, gdp_growth: int)
    ensures
        classify(unemployment_rate, gdp_growth) is Good
            <==> good_news_condition(unemployment_rate, gdp_growth),
        classify(unemployment_rate, gdp_growth) is Bad
            <==> (bad_news_condition(unemployment_rate, gdp_growth)
                && !good_news_condition(unemployment_rate, gdp_growth)),
        classify(unemployment_rate, gdp_growth) is Neutral
            <==> (!good_news_condition(unemployment_rate, gdp_growth)
                && !bad_news_condition(unemployment_rate, gdp_growth)),
{
}

} // verus!

//! Tests for the market classifier, the price-adjustment rule and the
//! order codec.
use market_sim::market::{MarketFactors, MarketNews};
use market_sim::stock::{compute_traded_price, Stock, MAX_PRICE_UNITS};
use market_sim::codec::{encode_order, parse_order};

#[test]
fn classify_good_news() {
    let factors = MarketFactors::new(5900, 2100);
    assert!(matches!(factors.determine_market_news(), MarketNews::Good));
}

#[test]
fn classify_bad_news_high_unemployment() {
    let factors = MarketFactors::new(8100, 2500);
    assert!(matches!(factors.determine_market_news(), MarketNews::Bad));
}

#[test]
fn classify_bad_news_negative_growth() {
    let factors = MarketFactors::new(4000, -100);
    assert!(matches!(factors.determine_market_news(), MarketNews::Bad));
}

#[test]
fn classify_neutral_middle() {
    let factors = MarketFactors::new(7000, 1000);
    assert!(matches!(factors.determine_market_news(), MarketNews::Neutral));
}

#[test]
fn classify_boundary_unemployment_six_is_neutral() {
    // unemployment exactly 6.0% fails the strict good-news condition
    let factors = MarketFactors::new(6000, 2500);
    assert!(matches!(factors.determine_market_news(), MarketNews::Neutral));
}

#[test]
fn classify_boundary_gdp_two_is_neutral() {
    // GDP growth exactly 2.0% fails the strict good-news condition
    let factors = MarketFactors::new(5000, 2000);
    assert!(matches!(factors.determine_market_news(), MarketNews::Neutral));
}

#[test]
fn classify_boundary_unemployment_eight_is_neutral() {
    // unemployment exactly 8.0% fails the strict bad-news condition
    let factors = MarketFactors::new(8000, 1000);
    assert!(matches!(factors.determine_market_news(), MarketNews::Neutral));
}

#[test]
fn classify_boundary_gdp_zero_is_neutral() {
    // GDP growth exactly 0.0% fails the strict bad-news condition
    let factors = MarketFactors::new(7000, 0);
    assert!(matches!(factors.determine_market_news(), MarketNews::Neutral));
}

#[test]
fn price_adjustment_composition_round_trips_to_base() {
    // price 100.000, good news, price change -0.1 (a buy):
    // 100.000 * 1.05 = 105.000, then + 100.000 * (-0.1 + 0.05) = -5.000,
    // back to 100.000
    let final_price = compute_traded_price(100_000, &MarketNews::Good, -100);
    assert_eq!(final_price, 100_000);
}

#[test]
fn price_adjustment_composition_via_stock_methods() {
    let mut stock = Stock::new(b"NIKE".to_vec(), 100_000);
    let original = stock.current_price;
    stock.adjust_price(&MarketNews::Good);
    assert_eq!(stock.current_price, 105_000);
    stock.apply_activity_adjustment(original, -100);
    assert_eq!(stock.current_price, 100_000);
}

#[test]
fn price_adjustment_bad_news_sell() {
    // 200.000 * 0.95 = 190.000, then + 200.000 * (0.1 - 0.05) = +10.000
    let final_price = compute_traded_price(200_000, &MarketNews::Bad, 100);
    assert_eq!(final_price, 200_000);
}

#[test]
fn price_adjustment_neutral_zero_change_is_a_sell() {
    // a zero fraction counts as a sell: + 123.456 * (0.0 - 0.05)
    let final_price = compute_traded_price(123_456, &MarketNews::Neutral, 0);
    assert_eq!(final_price, 123_456 - 6_172);
}

#[test]
fn price_adjustment_never_collapses() {
    let changes: Vec<i64> = vec![-200, -150, -100, -50, -1, 0, 1, 50, 100, 150, 199];
    let news = [MarketNews::Good, MarketNews::Bad, MarketNews::Neutral];
    for &change in changes.iter() {
        for n in news.iter() {
            for &price in [0u64, 1, 999, 123_456, MAX_PRICE_UNITS].iter() {
                let adjusted = compute_traded_price(price, n, change);
                // never below 80% of the base, never above the bound
                assert!(adjusted >= price * 800 / 1000);
                assert!(adjusted <= MAX_PRICE_UNITS);
            }
        }
    }
}

#[test]
fn price_saturates_at_the_bound() {
    // at the very top of the range both steps saturate instead of
    // overflowing
    let final_price = compute_traded_price(MAX_PRICE_UNITS, &MarketNews::Good, 100);
    assert_eq!(final_price, MAX_PRICE_UNITS);
}

#[test]
fn encode_order_exact_payload() {
    let payload = encode_order(&b"NIKE".to_vec(), 1_575_000);
    assert_eq!(payload, b"{\"stock_name\":\"NIKE\",\"current_price\":1575.000}".to_vec());
}

#[test]
fn encode_order_small_price() {
    let payload = encode_order(&b"PUMA".to_vec(), 25);
    assert_eq!(payload, b"{\"stock_name\":\"PUMA\",\"current_price\":0.025}".to_vec());
}

#[test]
fn parse_order_round_trip() {
    let names: Vec<&[u8]> = vec![b"NIKE", b"ADIDAS", b"A", b""];
    let prices: Vec<u64> = vec![0, 1, 999, 1000, 1_575_000, MAX_PRICE_UNITS];
    for name in names.iter() {
        for &price in prices.iter() {
            let payload = encode_order(&name.to_vec(), price);
            let parsed = parse_order(&payload);
            assert_eq!(parsed, Some((name.to_vec(), price)));
        }
    }
}

#[test]
fn parse_order_rejects_empty_payload() {
    assert_eq!(parse_order(&Vec::new()), None);
}

#[test]
fn parse_order_rejects_wrong_prefix() {
    let payload = b"[\"stock_name\":\"NIKE\",\"current_price\":1575.000}".to_vec();
    assert_eq!(parse_order(&payload), None);
}

#[test]
fn parse_order_rejects_unterminated_name() {
    let payload = b"{\"stock_name\":\"NIKE".to_vec();
    assert_eq!(parse_order(&payload), None);
}

#[test]
fn parse_order_rejects_escape_in_name() {
    let payload = b"{\"stock_name\":\"NI\\KE\",\"current_price\":1575.000}".to_vec();
    assert_eq!(parse_order(&payload), None);
}

#[test]
fn parse_order_rejects_leading_zero() {
    let payload = b"{\"stock_name\":\"NIKE\",\"current_price\":01575.000}".to_vec();
    assert_eq!(parse_order(&payload), None);
}

#[test]
fn parse_order_rejects_two_fraction_digits() {
    let payload = b"{\"stock_name\":\"NIKE\",\"current_price\":1575.00}".to_vec();
    assert_eq!(parse_order(&payload), None);
}

#[test]
fn parse_order_rejects_trailing_garbage() {
    let payload = b"{\"stock_name\":\"NIKE\",\"current_price\":1575.000} ".to_vec();
    assert_eq!(parse_order(&payload), None);
}

#[test]
fn parse_order_rejects_price_beyond_bound() {
    let payload = b"{\"stock_name\":\"NIKE\",\"current_price\":10000000000001.000}".to_vec();
    assert_eq!(parse_order(&payload), None);
}

#[test]
fn parse_order_rejects_wrong_field_tag() {
    let payload = b"{\"stock_name\":\"NIKE\",\"current_prize\":1575.000}".to_vec();
    assert_eq!(parse_order(&payload), None);
}

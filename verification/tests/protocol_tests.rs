//! Tests for the ledger, the termination protocol, the broker decisions
//! and whole simulated runs.
use market_sim::broker::{broker_poll_decision, process_order_payload, BrokerPollDecision, OrderOutcome};
use market_sim::codec::encode_order;
use market_sim::ledger::StockLedger;
use market_sim::market::{MarketFactors, MarketNews};
use market_sim::protocol::RunState;
use market_sim::stock::Stock;
use market_sim::termination::{quota_reached, TerminationState};
use market_sim::trader::{perturb_market_factors, should_update_factors, trade_random_stock};
use market_sim::{NUM_TRADERS, ORDERS_PER_TRADER, TOTAL_ORDER_QUOTA};

fn five_stock_ledger() -> StockLedger {
    let mut ledger = StockLedger::new();
    ledger.add_stock(Stock::new(b"NIKE".to_vec(), 1_500_000));
    ledger.add_stock(Stock::new(b"ADIDAS".to_vec(), 2_500_000));
    ledger.add_stock(Stock::new(b"PUMA".to_vec(), 3_300_000));
    ledger.add_stock(Stock::new(b"YONEX".to_vec(), 3_000_000));
    ledger.add_stock(Stock::new(b"LINING".to_vec(), 4_500_000));
    ledger
}

#[test]
fn ledger_empty_has_no_match() {
    let ledger = StockLedger::new();
    assert_eq!(ledger.len(), 0);
    assert_eq!(ledger.find_by_name(&b"NIKE".to_vec()), None);
}

#[test]
fn ledger_find_by_name() {
    let ledger = five_stock_ledger();
    assert_eq!(ledger.find_by_name(&b"PUMA".to_vec()), Some(2));
    assert_eq!(ledger.find_by_name(&b"REEBOK".to_vec()), None);
}

#[test]
fn ledger_apply_order_updates_first_match() {
    let mut ledger = five_stock_ledger();
    ledger.add_stock(Stock::new(b"NIKE".to_vec(), 9_000_000));
    assert_eq!(ledger.apply_order(&b"NIKE".to_vec(), 1_600_000), Some(0));
    assert_eq!(ledger.stocks[0].current_price, 1_600_000);
    assert_eq!(ledger.stocks[5].current_price, 9_000_000);
}

#[test]
fn ledger_apply_order_unknown_name_is_dropped() {
    let mut ledger = five_stock_ledger();
    assert_eq!(ledger.apply_order(&b"REEBOK".to_vec(), 1_600_000), None);
    for i in 0..ledger.len() {
        assert_eq!(ledger.get(i).current_price, five_stock_ledger().get(i).current_price);
    }
}

#[test]
fn termination_counter_and_quota() {
    let mut term = TerminationState::new();
    assert_eq!(term.completed_orders, 0);
    assert!(!term.should_stop());
    assert_eq!(term.record_order(), 1);
    assert_eq!(term.record_order(), 2);
    assert!(!quota_reached(TOTAL_ORDER_QUOTA - 1));
    assert!(quota_reached(TOTAL_ORDER_QUOTA));
    assert!(quota_reached(TOTAL_ORDER_QUOTA + 1));
}

#[test]
fn request_stop_is_idempotent() {
    let mut term = TerminationState::new();
    term.record_order();
    term.request_stop();
    let once = term;
    term.request_stop();
    term.request_stop();
    assert_eq!(term, once);
    assert!(term.should_stop());
    assert_eq!(term.completed_orders, once.completed_orders);
}

#[test]
fn run_counter_is_exactly_the_quota_round_robin() {
    let mut run = RunState::new();
    let mut stops_seen = 0;
    for _round in 0..ORDERS_PER_TRADER {
        for trader_id in 0..NUM_TRADERS {
            if run.trader_emit(trader_id) {
                stops_seen += 1;
            }
        }
    }
    assert_eq!(run.term.completed_orders, TOTAL_ORDER_QUOTA);
    assert!(run.term.should_stop());
    // only the very last order observes the stop it raised
    assert_eq!(stops_seen, 1);
}

#[test]
fn run_counter_is_exactly_the_quota_random_interleaving() {
    let mut run = RunState::new();
    let mut remaining: Vec<usize> = vec![ORDERS_PER_TRADER; NUM_TRADERS];
    let mut busy: Vec<usize> = (0..NUM_TRADERS).collect();
    while !busy.is_empty() {
        let pick = rand::random_range(0..busy.len());
        let trader_id = busy[pick];
        let stopped = run.trader_emit(trader_id);
        remaining[trader_id] -= 1;
        if remaining[trader_id] == 0 {
            busy.remove(pick);
        }
        if stopped {
            assert!(busy.is_empty());
        }
    }
    assert_eq!(run.term.completed_orders, TOTAL_ORDER_QUOTA);
    assert!(run.term.should_stop());
}

#[test]
fn broker_poll_decisions() {
    assert_eq!(broker_poll_decision(true, true, 0), BrokerPollDecision::Terminate);
    assert_eq!(broker_poll_decision(true, false, 0), BrokerPollDecision::Terminate);
    assert_eq!(
        broker_poll_decision(false, true, TOTAL_ORDER_QUOTA),
        BrokerPollDecision::Terminate
    );
    assert_eq!(broker_poll_decision(false, true, TOTAL_ORDER_QUOTA - 1), BrokerPollDecision::Idle);
    assert_eq!(broker_poll_decision(false, false, 0), BrokerPollDecision::ProcessOrder);
}

#[test]
fn broker_applies_known_order() {
    let mut ledger = five_stock_ledger();
    let payload = encode_order(&b"PUMA".to_vec(), 3_400_000);
    assert_eq!(process_order_payload(&mut ledger, &payload), OrderOutcome::Updated(2));
    assert_eq!(ledger.stocks[2].current_price, 3_400_000);
}

#[test]
fn broker_drops_unknown_order() {
    let mut ledger = five_stock_ledger();
    let payload = encode_order(&b"REEBOK".to_vec(), 3_400_000);
    assert_eq!(process_order_payload(&mut ledger, &payload), OrderOutcome::UnknownStock);
    assert_eq!(ledger.stocks[2].current_price, 3_300_000);
}

#[test]
fn broker_skips_malformed_order() {
    let mut ledger = five_stock_ledger();
    let payload = b"not an order".to_vec();
    assert_eq!(process_order_payload(&mut ledger, &payload), OrderOutcome::Malformed);
    for i in 0..ledger.len() {
        assert_eq!(ledger.get(i).current_price, five_stock_ledger().get(i).current_price);
    }
}

#[test]
fn perturbed_factors_stay_in_range() {
    let mut factors = MarketFactors::new(6000, 2500);
    for _ in 0..100 {
        perturb_market_factors(&mut factors);
        assert!(3000 <= factors.unemployment_rate && factors.unemployment_rate < 10_000);
        assert!(-1000 <= factors.gdp_growth && factors.gdp_growth < 4000);
        // the classifier is total on every drawn pair
        let news = factors.determine_market_news();
        assert!(matches!(news, MarketNews::Good | MarketNews::Bad | MarketNews::Neutral));
    }
}

#[test]
fn traded_stock_emits_its_own_snapshot() {
    let mut ledger = five_stock_ledger();
    for _ in 0..50 {
        let before: Vec<u64> = (0..ledger.len()).map(|i| ledger.get(i).current_price).collect();
        let (index, payload) = trade_random_stock(&mut ledger, &MarketNews::Good);
        assert!(index < ledger.len());
        // only the chosen stock changed, within the two-step bounds
        for i in 0..ledger.len() {
            if i != index {
                assert_eq!(ledger.get(i).current_price, before[i]);
            }
        }
        let new_price = ledger.get(index).current_price;
        assert!(new_price >= before[index] * 800 / 1000);
        assert!(new_price <= before[index] * 1199 / 1000 + 1);
        // the payload is exactly the snapshot of the mutated stock
        let expected = encode_order(&ledger.get(index).stock_name.clone(), new_price);
        assert_eq!(payload, expected);
    }
}

#[test]
fn whole_simulated_run_under_random_interleaving() {
    // 5 traders, 20 orders each, against a 5-stock ledger: whatever the
    // interleaving and the draws, the counter ends exactly at the quota,
    // every applied order keeps the broker ledger within bounds, and the
    // broker terminates as soon as the stop flag is up and the queue is
    // drained.
    let mut trader_ledger = five_stock_ledger();
    let mut broker_ledger = five_stock_ledger();
    let mut factors = MarketFactors::new(6000, 2500);
    let mut run = RunState::new();
    let mut queue: std::collections::VecDeque<Vec<u8>> = std::collections::VecDeque::new();
    let mut remaining: Vec<usize> = vec![ORDERS_PER_TRADER; NUM_TRADERS];
    let mut busy: Vec<usize> = (0..NUM_TRADERS).collect();
    loop {
        let stop = run.term.should_stop();
        // the broker polls between trader steps
        let payload = queue.pop_front();
        let decision = broker_poll_decision(stop, payload.is_none(), run.term.completed_orders);
        match decision {
            BrokerPollDecision::Terminate => {
                // the broker stops the moment the stop flag is up: no
                // further spinning (the quota implies every trader is done)
                assert!(stop || run.term.completed_orders >= TOTAL_ORDER_QUOTA);
                assert!(busy.is_empty());
                if let Some(p) = payload {
                    queue.push_front(p);
                }
                break;
            },
            BrokerPollDecision::Idle => {
                assert!(!stop && run.term.completed_orders < TOTAL_ORDER_QUOTA);
            },
            BrokerPollDecision::ProcessOrder => {
                let outcome = process_order_payload(&mut broker_ledger, &payload.unwrap());
                assert!(matches!(outcome, OrderOutcome::Updated(_)));
            },
        }
        // one random trader takes one step
        let pick = rand::random_range(0..busy.len());
        let trader_id = busy[pick];
        if should_update_factors() {
            perturb_market_factors(&mut factors);
        }
        let news = factors.determine_market_news();
        let (_, payload) = trade_random_stock(&mut trader_ledger, &news);
        queue.push_back(payload);
        run.trader_emit(trader_id);
        remaining[trader_id] -= 1;
        if remaining[trader_id] == 0 {
            busy.remove(pick);
        }
    }
    // drain what the broker had not yet applied when the stop arrived
    while let Some(payload) = queue.pop_front() {
        let outcome = process_order_payload(&mut broker_ledger, &payload);
        assert!(matches!(outcome, OrderOutcome::Updated(_)));
    }
    assert_eq!(run.term.completed_orders, TOTAL_ORDER_QUOTA);
    assert!(run.term.should_stop());
    for i in 0..broker_ledger.len() {
        assert!(broker_ledger.get(i).current_price <= market_sim::stock::MAX_PRICE_UNITS);
    }
}

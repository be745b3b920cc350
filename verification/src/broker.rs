//! The broker side of the simulation: deciding what each poll of the order
//! channel means, and applying received orders to the broker's own ledger.
//!
//! The runtime runs the polling loop and the channel itself; every decision
//! inside the loop is taken here. A poll hands back either an order payload
//! or nothing; the decision function says exactly when the broker keeps
//! polling and when it terminates, and the order application says exactly
//! what a payload does to the ledger.
use vstd::prelude::*;
use crate::codec::{is_encoding_of, parse_order};
use crate::ledger::{name_at, StockLedger};
use crate::TOTAL_ORDER_QUOTA;

verus! {

/// What one poll of the order channel tells the broker to do.
#[derive(Clone, Copy, Debug, PartialEq, Eq, Structural)]
pub enum BrokerPollDecision {
    /// Stop polling: the stop flag is raised, or the quota is met and the
    /// channel is drained.
    Terminate,
    /// Nothing to do this round: poll again.
    Idle,
    /// A payload arrived: apply it to the ledger, then poll again.
    ProcessOrder,
}

/// The broker's decision, from the stop flag, whether the poll came back
/// empty, and the completed-orders count: it terminates on a raised stop
/// flag, and on an empty poll once the quota is met; otherwise an empty
/// poll is just a round of idleness, and a payload is processed.
pub open spec fn poll_decision(
    stop: bool,
    payload_empty: bool,
    completed_orders: int,
) -> BrokerPollDecision {
    if stop {
        BrokerPollDecision::Terminate
    } else if payload_empty && completed_orders >= TOTAL_ORDER_QUOTA {
        BrokerPollDecision::Terminate
    } else if payload_empty {
        BrokerPollDecision::Idle
    } else {
        BrokerPollDecision::ProcessOrder
    }
}

/// Decides one poll of the order channel.
pub fn broker_poll_decision(stop: bool, payload_empty: bool, completed_orders: usize) -> (
    decision: BrokerPollDecision)
    ensures
        decision == poll_decision(stop, payload_empty, completed_orders as int),
{
    if stop {
        BrokerPollDecision::Terminate
    } else if payload_empty && completed_orders >= TOTAL_ORDER_QUOTA {
        BrokerPollDecision::Terminate
    } else if payload_empty {
        BrokerPollDecision::Idle
    } else {
        BrokerPollDecision::ProcessOrder
    }
}

/// Broker termination is immediate once the run is over: as soon as the
/// stop flag is raised, or the quota is met and a poll comes back empty,
/// the very next decision is to terminate — the broker never spins on a
/// drained channel after the stop.
pub proof fn lemma_broker_poll_terminates(stop: bool, payload_empty: bool, completed_orders: int)
    requires
        stop || (payload_empty && completed_orders >= TOTAL_ORDER_QUOTA),
    ensures
        poll_decision(stop, payload_empty, completed_orders) is Terminate,
{
}

/// What became of one received order payload.
#[derive(Clone, Copy, Debug, PartialEq, Eq, Structural)]
pub enum OrderOutcome {
    /// The payload was a well-formed order and the stock at this index of
    /// the ledger took its price.
    Updated(usize),
    /// The payload was a well-formed order for a name the ledger does not
    /// hold; it was dropped silently.
    UnknownStock,
    /// The payload was not the encoding of any order; it was skipped.
    Malformed,
}

/// Applies one received payload to the broker's ledger: a well-formed
/// order overwrites the price of the first stock with the order's name,
/// an order for an unknown name is dropped, and a malformed payload is
/// skipped. The lookup and the overwrite happen under one exclusive
/// access to the ledger.
pub fn process_order_payload(ledger: &mut StockLedger, payload: &Vec<u8>) -> (outcome:
    OrderOutcome)
    requires
        old(ledger).wf(),
    ensures
        final(ledger).wf(),
        final(ledger).stocks@.len() == old(ledger).stocks@.len(),
        match outcome {
            OrderOutcome::Updated(i) => exists|n: Seq<u8>, p: int|
                {
                    &&& #[trigger] is_encoding_of(payload@, n, p)
                    &&& i < old(ledger).stocks@.len()
                    &&& name_at(old(ledger).stocks@, i as int, n)
                    &&& forall|j: int| 0 <= j < i ==> !name_at(old(ledger).stocks@, j, n)
                    &&& final(ledger).stocks@[i as int].stock_name == old(ledger).stocks@[
                        i as int
                    ].stock_name
                    &&& final(ledger).stocks@[i as int].current_price == p
                    &&& forall|j: int|
                        0 <= j < old(ledger).stocks@.len() && j != i ==> final(ledger).stocks@[j]
                            == old(ledger).stocks@[j]
                },
            OrderOutcome::UnknownStock => final(ledger).stocks@ == old(ledger).stocks@ && exists|
                n: Seq<u8>,
                p: int,
            |
                #[trigger] is_encoding_of(payload@, n, p) && forall|j: int|
                    0 <= j < old(ledger).stocks@.len() ==> !name_at(old(ledger).stocks@, j, n),
            OrderOutcome::Malformed => final(ledger).stocks@ == old(ledger).stocks@ && forall|
                n: Seq<u8>,
                p: int,
            | !is_encoding_of(payload@, n, p),
        },
{
    match parse_order(payload) {
        Some(order) => {
            let (name, price) = order;
            match ledger.apply_order(&name, price) {
                Some(i) => OrderOutcome::Updated(i),
                None => OrderOutcome::UnknownStock,
            }
        },
        None => OrderOutcome::Malformed,
    }
}

} // verus!

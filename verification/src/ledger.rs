//! The stock ledger: a collection of named stocks with current prices.
//!
//! Both the trader side and the broker side of the simulation hold a ledger
//! of their own; the two are reconciled only through orders. Mutual
//! exclusion while a ledger is mutated is the runtime's duty; the contracts
//! here say what each exclusive operation does to the ledger.
use vstd::prelude::*;
use vstd::pervasive::VecAdditionalExecFns;
use crate::stock::{Stock, MAX_PRICE_UNITS};

verus! {

/// A ledger of stocks, looked up by index or by name.
pub struct StockLedger {
    pub stocks: Vec<Stock>,
}

/// Position `i` of the sequence holds a stock of the given name.
pub open spec fn name_at(stocks: Seq<Stock>, i: int, name: Seq<u8>) -> bool {
    stocks[i].stock_name@ == name
}

impl StockLedger {
    /// Every price in the ledger is within bounds.
    pub open spec fn wf(&self) -> bool {
        forall|i: int| 0 <= i < self.stocks@.len() ==> (#[trigger] self.stocks@[i]).wf()
    }

    /// Every stock name in the ledger can be carried in an order payload.
    pub open spec fn names_ok(&self) -> bool {
        forall|i: int|
            0 <= i < self.stocks@.len() ==> crate::codec::name_ok(
                (#[trigger] self.stocks@[i]).stock_name@,
            )
    }

    /// Builds an empty ledger.
    pub fn new() -> (ledger: StockLedger)
        ensures
            ledger.stocks@.len() == 0,
            ledger.wf(),
    {
        StockLedger { stocks: Vec::new() }
    }

    /// Appends a stock to the ledger.
    pub fn add_stock(&mut self, stock: Stock)
        requires
            old(self).wf(),
            stock.wf(),
        ensures
            final(self).stocks@ == old(self).stocks@.push(stock),
            final(self).wf(),
    {
        self.stocks.push(stock);
    }

    /// Number of stocks in the ledger.
    pub fn len(&self) -> (n: usize)
        ensures
            n == self.stocks@.len(),
    {
        self.stocks.len()
    }

    /// Reads the stock at an index.
    pub fn get(&self, index: usize) -> (stock: &Stock)
        requires
            index < self.stocks@.len(),
        ensures
            *stock == self.stocks@[index as int],
    {
        &self.stocks[index]
    }

    /// Overwrites the price of the stock at an index; the name stays.
    pub fn set_price(&mut self, index: usize, price: u64)
        requires
            old(self).wf(),
            index < old(self).stocks@.len(),
            price <= MAX_PRICE_UNITS,
        ensures
            final(self).stocks@.len() == old(self).stocks@.len(),
            final(self).stocks@[index as int].stock_name == old(self).stocks@[
                index as int
            ].stock_name,
            final(self).stocks@[index as int].current_price == price,
            forall|j: int|
                0 <= j < old(self).stocks@.len() && j != index ==> final(self).stocks@[j]
                    == old(self).stocks@[j],
            final(self).wf(),
    {
        self.stocks[index].current_price = price;
    }

    /// Finds the first stock with the given name, if any.
    pub fn find_by_name(&self, name: &Vec<u8>) -> (found: Option<usize>)
        ensures
            match found {
                Some(i) => i < self.stocks@.len() && name_at(self.stocks@, i as int, name@)
                    && (forall|j: int| 0 <= j < i ==> !name_at(self.stocks@, j, name@)),
                None => forall|j: int|
                    0 <= j < self.stocks@.len() ==> !name_at(self.stocks@, j, name@),
            },
    {
        let n = self.stocks.len();
        let mut i: usize = 0;
        while i < n
            invariant
                n == self.stocks@.len(),
                i <= n,
                forall|j: int| 0 <= j < i ==> !name_at(self.stocks@, j, name@),
            decreases n - i,
        {
            if bytes_equal(&self.stocks[i].stock_name, name) {
                return Some(i);
            }
            i = i + 1;
        }
        None
    }

    /// Applies an order to the ledger: overwrites the price of the first
    /// stock with the order's name, and drops the order silently when no
    /// stock matches.
    pub fn apply_order(&mut self, name: &Vec<u8>, price: u64) -> (updated: Option<usize>)
        requires
            old(self).wf(),
            price <= MAX_PRICE_UNITS,
        ensures
            final(self).wf(),
            final(self).stocks@.len() == old(self).stocks@.len(),
            match updated {
                Some(i) => i < old(self).stocks@.len()
                    && name_at(old(self).stocks@, i as int, name@)
                    && (forall|j: int| 0 <= j < i ==> !name_at(old(self).stocks@, j, name@))
                    && final(self).stocks@[i as int].stock_name == old(self).stocks@[
                        i as int
                    ].stock_name
                    && final(self).stocks@[i as int].current_price == price
                    && (forall|j: int|
                        0 <= j < old(self).stocks@.len() && j != i ==> final(self).stocks@[j]
                            == old(self).stocks@[j]),
                None => (forall|j: int|
                    0 <= j < old(self).stocks@.len() ==> !name_at(old(self).stocks@, j, name@))
                    && final(self).stocks@ == old(self).stocks@,
            },
    {
        match self.find_by_name(name) {
            Some(i) => {
                self.set_price(i, price);
                Some(i)
            },
            None => None,
        }
    }
}

/// Compares two byte strings for equality of their contents.
pub fn bytes_equal(a: &Vec<u8>, b: &Vec<u8>) -> (eq: bool)
    ensures
        eq == (a@ == b@),
{
    if a.len() != b.len() {
        assert(a@ != b@);
        return false;
    }
    let n = a.len();
    let mut i: usize = 0;
    while i < n
        invariant
            n == a@.len() == b@.len(),
            i <= n,
            forall|j: int| 0 <= j < i ==> a@[j] == b@[j],
        decreases n - i,
    {
        if a[i] != b[i] {
            assert(a@ != b@);
            return false;
        }
        i = i + 1;
    }
    assert(a@ =~= b@);
    true
}

} // verus!

//! Market data snapshots: quotes and per-symbol data for one point in time.

use vstd::prelude::*;

use crate::types::price::{Price, Quantity};
use crate::types::Symbol;

verus! {

/// One price level of an order book.
#[derive(Debug, Clone, Copy, PartialEq, Eq, Structural)]
pub struct OrderBookLevel {
    pub price: Price,
    pub quantity: Quantity,
}

/// A bid/ask quote at one moment, with sizes.
#[derive(Debug, Clone, Copy, PartialEq, Eq, Structural)]
pub struct Quote {
    pub bid: Price,
    pub ask: Price,
    pub bid_size: Quantity,
    pub ask_size: Quantity,
    /// Seconds since the Unix epoch.
    pub timestamp: u64,
}

impl Quote {
    /// The bid-ask spread in cents (negative when the book is crossed).
    pub fn spread(&self) -> (r: i128)
        ensures
            r == self.ask.spec_cents() - self.bid.spec_cents(),
    {
        self.ask.value() as i128 - self.bid.value() as i128
    }

    /// The mid price: the average of bid and ask, rounded down to a cent.
    pub fn mid(&self) -> (r: Price)
        ensures
            r.spec_cents() == (self.bid.spec_cents() + self.ask.spec_cents()) / 2,
    {
        let b = self.bid.value();
        let a = self.ask.value();
        let m = (b as u128 + a as u128) / 2;
        Price::from_cents(m as u64)
    }

    /// The spread as basis points of the mid price, rounded toward zero.
    pub fn spread_bps(&self) -> (r: i128)
        ensures
            ({
                let s = self.ask.spec_cents() - self.bid.spec_cents();
                let m = (self.bid.spec_cents() + self.ask.spec_cents()) / 2;
                r == if s >= 0 {
                    s * 10000 / m
                } else {
                    -((-s) * 10000 / m)
                }
            }),
    {
        let s = self.spread();
        let m = self.mid().value();
        if s >= 0 {
            (s as u128 * 10000 / m as u128) as i128
        } else {
            -(((-s) as u128 * 10000 / m as u128) as i128)
        }
    }
}

/// All the data the pipeline holds about one instrument at one moment.
#[derive(Debug)]
pub struct MarketData {
    pub symbol: Symbol,
    pub quote: Quote,
    pub last_price: Price,
    pub volume: u64,
    /// Seconds since the Unix epoch.
    pub timestamp: u64,
    pub open: Option<Price>,
    pub high: Option<Price>,
    pub low: Option<Price>,
    pub prev_close: Option<Price>,
}

impl MarketData {
    /// The move from the previous close to the last price in basis points,
    /// if a previous close is known.
    pub fn intraday_change_bps(&self) -> (r: Option<i128>)
        ensures
            ({
                match self.prev_close {
                    Some(pc) => r matches Some(v) && v == crate::types::price::spec_change_bps(
                        pc.spec_cents() as int,
                        self.last_price.spec_cents() as int,
                    ),
                    None => r is None,
                }
            }),
    {
        match self.prev_close {
            Some(pc) => Some(pc.percent_change(self.last_price)),
            None => None,
        }
    }

    /// True exactly when the last price sits at the session high.
    pub fn at_high(&self) -> (r: bool)
        ensures
            r == match self.high {
                Some(h) => self.last_price.spec_cents() == h.spec_cents(),
                None => false,
            },
    {
        match self.high {
            Some(h) => self.last_price.value() == h.value(),
            None => false,
        }
    }

    /// True exactly when the last price sits at the session low.
    pub fn at_low(&self) -> (r: bool)
        ensures
            r == match self.low {
                Some(l) => self.last_price.spec_cents() == l.spec_cents(),
                None => false,
            },
    {
        match self.low {
            Some(l) => self.last_price.value() == l.value(),
            None => false,
        }
    }
}

impl Clone for MarketData {
    /// A clone carries the same data for the same instrument.
    fn clone(&self) -> (r: Self)
        ensures
            r.symbol@ == self.symbol@,
            r.quote == self.quote,
            r.last_price == self.last_price,
            r.volume == self.volume,
            r.timestamp == self.timestamp,
            r.open == self.open,
            r.high == self.high,
            r.low == self.low,
            r.prev_close == self.prev_close,
    {
        MarketData {
            symbol: self.symbol.clone(),
            quote: self.quote,
            last_price: self.last_price,
            volume: self.volume,
            timestamp: self.timestamp,
            open: self.open,
            high: self.high,
            low: self.low,
            prev_close: self.prev_close,
        }
    }
}

/// Point-in-time data for several instruments, keyed by symbol.
/// At most one entry per symbol.
#[derive(Debug)]
pub struct MarketSnapshot {
    /// The entries, at most one per symbol (see [`MarketSnapshot::wf`]).
    pub items: Vec<MarketData>,
    /// Seconds since the Unix epoch.
    pub timestamp: u64,
}

impl MarketSnapshot {
    /// The entries in insertion order.
    pub open spec fn spec_items(self) -> Seq<MarketData> {
        self.items@
    }

    /// At most one entry per symbol.
    pub open spec fn wf(self) -> bool {
        forall|i: int, j: int|
            0 <= i < j < self.spec_items().len() ==> (#[trigger] self.spec_items()[i]).symbol@
                != (#[trigger] self.spec_items()[j]).symbol@
    }

    /// True exactly when an entry for `sym` exists.
    pub open spec fn spec_contains(self, sym: Seq<char>) -> bool {
        exists|i: int| 0 <= i < self.spec_items().len()
            && (#[trigger] self.spec_items()[i]).symbol@ == sym
    }

    /// An empty snapshot with timestamp zero.
    pub fn new() -> (r: MarketSnapshot)
        ensures
            r.spec_items().len() == 0,
            r.timestamp == 0,
            r.wf(),
    {
        MarketSnapshot { items: Vec::new(), timestamp: 0 }
    }

    /// Inserts data for `data.symbol`, replacing any earlier entry for it.
    pub fn insert(&mut self, data: MarketData)
        requires
            old(self).wf(),
        ensures
            final(self).wf(),
            final(self).timestamp == old(self).timestamp,
            final(self).spec_contains(data.symbol@),
            forall|s: Seq<char>| #[trigger]
                final(self).spec_contains(s) <==> (old(self).spec_contains(s) || s == data.symbol@),
            forall|i: int|
                0 <= i < final(self).spec_items().len()
                    && (#[trigger] final(self).spec_items()[i]).symbol@ == data.symbol@
                    ==> final(self).spec_items()[i] == data,
    {
        let n = self.items.len();
        let mut i: usize = 0;
        while i < n
            invariant
                old(self).wf(),
                n == self.spec_items().len(),
                0 <= i <= n,
                self == old(self),
                forall|j: int| 0 <= j < i ==> (#[trigger] self.spec_items()[j]).symbol@ != data.symbol@,
            decreases n - i,
        {
            if self.items[i].symbol.same_as(&data.symbol) {
                self.items.set(i, data);
                proof {
                    let olds = old(self).spec_items();
                    let news = self.spec_items();
                    assert(news =~= olds.update(i as int, data));
                    assert(forall|k: int|
                        0 <= k < news.len() ==> (#[trigger] news[k]).symbol@ == olds[k].symbol@);
                    assert forall|s: Seq<char>| #[trigger]
                        self.spec_contains(s) implies old(self).spec_contains(s) by {
                        let j = choose|j: int|
                            0 <= j < news.len() && (#[trigger] news[j]).symbol@ == s;
                        assert(olds[j].symbol@ == s);
                    };
                    assert forall|s: Seq<char>| old(self).spec_contains(s) implies #[trigger]
                        self.spec_contains(s) by {
                        let j = choose|j: int|
                            0 <= j < olds.len() && (#[trigger] olds[j]).symbol@ == s;
                        assert(news[j].symbol@ == s);
                    };
                    assert(self.spec_contains(data.symbol@)) by {
                        assert(news[i as int].symbol@ == data.symbol@);
                    };
                    assert forall|k: int|
                        0 <= k < news.len() && (#[trigger] news[k]).symbol@ == data.symbol@
                        implies news[k] == data by {
                        if k != i {
                            assert(old(self).spec_items()[k].symbol@
                                == old(self).spec_items()[i as int].symbol@);
                            if k < i {
                                assert(old(self).spec_items()[k].symbol@
                                    != old(self).spec_items()[i as int].symbol@);
                            } else {
                                assert(old(self).spec_items()[i as int].symbol@
                                    != old(self).spec_items()[k].symbol@);
                            }
                        }
                    };
                    assert forall|a: int, b: int| 0 <= a < b < news.len() implies
                        (#[trigger] news[a]).symbol@ != (#[trigger] news[b]).symbol@ by {
                        assert(old(self).spec_items()[a].symbol@
                            != old(self).spec_items()[b].symbol@);
                    };
                }
                return;
            }
            i += 1;
        }
        self.items.push(data);
        proof {
            let olds = old(self).spec_items();
            let news = self.spec_items();
            assert(news =~= olds.push(data));
            assert(news[olds.len() as int].symbol@ == data.symbol@);
            assert forall|s: Seq<char>| #[trigger]
                self.spec_contains(s) implies (old(self).spec_contains(s) || s == data.symbol@) by {
                let j = choose|j: int| 0 <= j < news.len() && (#[trigger] news[j]).symbol@ == s;
                if j < olds.len() {
                    assert(olds[j].symbol@ == s);
                }
            };
            assert forall|s: Seq<char>| old(self).spec_contains(s) implies #[trigger]
                self.spec_contains(s) by {
                let j = choose|j: int| 0 <= j < olds.len() && (#[trigger] olds[j]).symbol@ == s;
                assert(news[j].symbol@ == s);
            };
            assert forall|k: int|
                0 <= k < news.len() && (#[trigger] news[k]).symbol@ == data.symbol@
                implies news[k] == data by {
                if k < olds.len() {
                    assert(olds[k].symbol@ != data.symbol@);
                }
            };
        }
    }

    /// The entry for `symbol`, if one exists.
    pub fn get(&self, symbol: &Symbol) -> (r: Option<&MarketData>)
        ensures
            match r {
                Some(d) => self.spec_contains(symbol@) && exists|i: int|
                    0 <= i < self.spec_items().len() && self.spec_items()[i] == *d
                        && (#[trigger] self.spec_items()[i]).symbol@ == symbol@,
                None => !self.spec_contains(symbol@),
            },
    {
        let n = self.items.len();
        let mut i: usize = 0;
        while i < n
            invariant
                n == self.spec_items().len(),
                0 <= i <= n,
                forall|j: int| 0 <= j < i ==> (#[trigger] self.spec_items()[j]).symbol@ != symbol@,
            decreases n - i,
        {
            if self.items[i].symbol.same_as(symbol) {
                return Some(&self.items[i]);
            }
            i += 1;
        }
        None
    }

    /// The number of instruments in the snapshot.
    pub fn len(&self) -> (r: usize)
        ensures
            r == self.spec_items().len(),
    {
        self.items.len()
    }

    /// True exactly when the snapshot holds no instrument.
    pub fn is_empty(&self) -> (r: bool)
        ensures
            r == (self.spec_items().len() == 0),
    {
        self.items.len() == 0
    }

    /// The entry at position `i`, in insertion order.
    pub fn get_at(&self, i: usize) -> (r: &MarketData)
        requires
            i < self.spec_items().len(),
        ensures
            *r == self.spec_items()[i as int],
    {
        &self.items[i]
    }
}

} // verus!

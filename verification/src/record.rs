//! The values that flow through the feed: cached prices and price updates.
//!
//! Prices are fixed-point integers in units of one billionth (1e-9), the
//! form in which the feed delivers them.

use vstd::prelude::*;

verus! {

/// The last known price of one cache key.
#[derive(Clone, Copy, Debug, PartialEq, Eq, Structural)]
pub struct PriceRecord {
    /// The price, in units of 1e-9.
    pub price: i64,
    /// When the event happened, in nanoseconds since the Unix epoch.
    pub ts_event_ns: Option<u64>,
}

/// One price update on its way to the downstream consumer.
#[derive(Clone, Debug, PartialEq, Eq)]
pub struct PriceUpdate {
    pub symbol: String,
    /// The price, in units of 1e-9.
    pub price: i64,
    /// When the trade happened, in nanoseconds since the Unix epoch.
    pub timestamp: u64,
}

/// What a `PriceUpdate` holds, with its symbol as a sequence of characters.
pub struct PriceUpdateView {
    pub symbol: Seq<char>,
    pub price: i64,
    pub timestamp: u64,
}

impl View for PriceUpdate {
    type V = PriceUpdateView;

    open spec fn view(&self) -> PriceUpdateView {
        PriceUpdateView { symbol: self.symbol@, price: self.price, timestamp: self.timestamp }
    }
}

impl PriceUpdate {
    /// A copy of this update.
    pub fn duplicate(&self) -> (r: PriceUpdate)
        ensures
            r@ == self@,
    {
        PriceUpdate { symbol: self.symbol.clone(), price: self.price, timestamp: self.timestamp }
    }
}

} // verus!

//! The market monitor: holds the current four-asset market set and the
//! per-token quote cache, and assembles the immutable snapshot delivered to
//! the order engine after each poll. Swapping the market set clears the
//! cache, so a snapshot never mixes quotes from before and after a swap.

use vstd::prelude::*;
use crate::clock::time_remaining_at;
use crate::discovery::MarketSet;
use crate::market::{Market, TokenPrice};
use crate::money::quote_ok;
use crate::prices::{PriceBook, spec_lookup};
use crate::trader::{MarketView, PeriodSnapshot};

verus! {

/// The quote used for an optional token id: the cached quote when the id
/// is present and cached, an empty quote otherwise.
pub open spec fn spec_quote_for(book: PriceBook, token_id: Option<String>) -> TokenPrice {
    match token_id {
        Some(t) => match spec_lookup(book.entries@, t@) {
            Some(tp) => tp,
            None => TokenPrice { bid: None, ask: None },
        },
        None => TokenPrice { bid: None, ask: None },
    }
}

/// Monitor state: the market set being watched and the latest quote of
/// each polled token.
#[derive(Debug)]
pub struct MarketMonitor {
    pub markets: MarketSet,
    pub prices: PriceBook,
}

impl MarketMonitor {
    pub open spec fn wf(self) -> bool {
        self.prices.wf()
    }

    /// A monitor over the initial market set, with an empty quote cache.
    pub fn new(markets: MarketSet) -> (m: MarketMonitor)
        ensures
            m.wf(),
            m.markets == markets,
            m.prices.entries@.len() == 0,
    {
        MarketMonitor { markets, prices: PriceBook::new() }
    }

    /// Atomically swap the four markets and clear the per-token quote
    /// cache, so no later snapshot mixes old quotes with new markets.
    pub fn update_markets(&mut self, eth: Market, btc: Market, sol: Market, xrp: Market)
        ensures
            final(self).wf(),
            final(self).markets.eth == eth,
            final(self).markets.btc == btc,
            final(self).markets.sol == sol,
            final(self).markets.xrp == xrp,
            final(self).prices.entries@.len() == 0,
    {
        self.markets = MarketSet { eth, btc, sol, xrp };
        self.prices.clear();
    }

    /// Record the latest top-of-book quote observed for `token_id`.
    pub fn record_quote(&mut self, token_id: String, bid: Option<u64>, ask: Option<u64>)
        requires
            old(self).wf(),
            bid is Some ==> quote_ok(bid->0),
            ask is Some ==> quote_ok(ask->0),
        ensures
            final(self).wf(),
            final(self).markets == old(self).markets,
            final(self).prices.spec_quote(token_id@) == Some(TokenPrice { bid, ask }),
            forall|id: Seq<char>|
                id != token_id@ ==> final(self).prices.spec_quote(id) == old(
                    self,
                ).prices.spec_quote(id),
    {
        self.prices.record(token_id, TokenPrice { bid, ask });
    }

    /// The period timestamp of the currently-watched BTC market: the
    /// scheduler's notion of "the monitor's period".
    pub fn get_current_market_timestamp(&self) -> (p: u64)
        ensures
            p == self.markets.btc.period_timestamp,
    {
        self.markets.btc.period_timestamp
    }

    /// The condition ids of the currently-watched ETH and BTC markets,
    /// used to seed rediscovery so the same market is not accepted twice.
    pub fn get_current_condition_ids(&self) -> (r: (String, String))
        ensures
            r.0@ == self.markets.eth.condition_id@,
            r.1@ == self.markets.btc.condition_id@,
    {
        (self.markets.eth.condition_id.clone(), self.markets.btc.condition_id.clone())
    }

    /// The view of one market with the latest quotes of its two tokens.
    fn view_of(&self, market: &Market) -> (v: MarketView)
        requires
            self.wf(),
        ensures
            v.market == *market,
            v.up_price == spec_quote_for(self.prices, market.up_token_id),
            v.down_price == spec_quote_for(self.prices, market.down_token_id),
    {
        let up_price: TokenPrice = match &market.up_token_id {
            Some(t) => match self.prices.lookup(t.as_str()) {
                Some(tp) => tp,
                None => TokenPrice::empty(),
            },
            None => TokenPrice::empty(),
        };
        let down_price: TokenPrice = match &market.down_token_id {
            Some(t) => match self.prices.lookup(t.as_str()) {
                Some(tp) => tp,
                None => TokenPrice::empty(),
            },
            None => TokenPrice::empty(),
        };
        MarketView { market: market.clone(), up_price, down_price }
    }

    /// Assemble the snapshot delivered after a poll at time `now`: the
    /// BTC market's period, the seconds left in it (capped at a full
    /// period, zero once it has ended), and the four market views with
    /// their latest quotes.
    pub fn make_snapshot(&self, now: u64) -> (snap: PeriodSnapshot)
        requires
            self.wf(),
            self.markets.btc.period_timestamp <= u64::MAX - 900,
        ensures
            snap.period_timestamp == self.markets.btc.period_timestamp,
            snap.time_remaining_seconds <= 900,
            now >= self.markets.btc.period_timestamp + 900 ==> snap.time_remaining_seconds == 0,
            self.markets.btc.period_timestamp <= now < self.markets.btc.period_timestamp + 900
                ==> snap.time_remaining_seconds == self.markets.btc.period_timestamp + 900 - now,
            now < self.markets.btc.period_timestamp ==> snap.time_remaining_seconds == 900,
            snap.eth.market == self.markets.eth,
            snap.btc.market == self.markets.btc,
            snap.sol.market == self.markets.sol,
            snap.xrp.market == self.markets.xrp,
            snap.eth.up_price == spec_quote_for(self.prices, self.markets.eth.up_token_id),
            snap.eth.down_price == spec_quote_for(self.prices, self.markets.eth.down_token_id),
            snap.btc.up_price == spec_quote_for(self.prices, self.markets.btc.up_token_id),
            snap.btc.down_price == spec_quote_for(self.prices, self.markets.btc.down_token_id),
            snap.sol.up_price == spec_quote_for(self.prices, self.markets.sol.up_token_id),
            snap.sol.down_price == spec_quote_for(self.prices, self.markets.sol.down_token_id),
            snap.xrp.up_price == spec_quote_for(self.prices, self.markets.xrp.up_token_id),
            snap.xrp.down_price == spec_quote_for(self.prices, self.markets.xrp.down_token_id),
    {
        let p: u64 = self.markets.btc.period_timestamp;
        let remaining: u64 = time_remaining_at(p, now);
        let time_remaining_seconds: u64 = if remaining > 900 {
            900
        } else {
            remaining
        };
        PeriodSnapshot {
            period_timestamp: p,
            time_remaining_seconds,
            eth: self.view_of(&self.markets.eth),
            btc: self.view_of(&self.markets.btc),
            sol: self.view_of(&self.markets.sol),
            xrp: self.view_of(&self.markets.xrp),
        }
    }
}

} // verus!

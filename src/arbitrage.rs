//! The cross-venue profitability test.
use vstd::prelude::*;
use crate::kalshi::{cents_to_micros, KalshiMarket};
use crate::polymarket::PolymarketMarket;
use crate::quote::{Quote, Venue};

verus! {

/// Scale of `profit_pct`: millionths of a percent.
pub const PCT_SCALE: i128 = 100_000_000;

/// A crossing: buy where the ask is below the other venue's bid.
#[derive(Clone, Copy, PartialEq, Eq, Structural, Debug)]
pub struct ArbitrageOpportunity {
    pub buy_platform: Venue,
    pub sell_platform: Venue,
    /// Ask paid on the buy venue, in millionths.
    pub buy_price: i64,
    /// Bid taken on the sell venue, in millionths.
    pub sell_price: i64,
    /// `sell_price - buy_price`, in millionths.
    pub profit: i64,
    /// `profit / buy_price`, in millionths of a percent, truncated.
    pub profit_pct: i128,
}

/// The opportunity of buying at `buy_price` on `buy` and selling at
/// `sell_price` on `sell`.
pub open spec fn opportunity(buy: Venue, buy_price: i64, sell: Venue, sell_price: i64) -> ArbitrageOpportunity {
    ArbitrageOpportunity {
        buy_platform: buy,
        sell_platform: sell,
        buy_price,
        sell_price,
        profit: (sell_price - buy_price) as i64,
        profit_pct: ((sell_price - buy_price) * 100_000_000 / (buy_price as int)) as i128,
    }
}

/// The detection policy over the best prices of venues `a` and `b`, in that
/// order: first a sale on `a` against a purchase on `b`, then the reverse; a
/// zero ask means no resting ask and is never bought.
pub open spec fn crossing(a_venue: Venue, a_bid: i64, a_ask: i64, b_venue: Venue, b_bid: i64, b_ask: i64) -> Option<ArbitrageOpportunity> {
    if a_bid > b_ask && b_ask > 0 {
        Some(opportunity(b_venue, b_ask, a_venue, a_bid))
    } else if b_bid > a_ask && a_ask > 0 {
        Some(opportunity(a_venue, a_ask, b_venue, b_bid))
    } else {
        None
    }
}

pub open spec fn detect_spec(a: Quote, b: Quote) -> Option<ArbitrageOpportunity> {
    crossing(a.venue, a.best_bid, a.best_ask, b.venue, b.best_bid, b.best_ask)
}

fn make_opportunity(buy: Venue, buy_price: i64, sell: Venue, sell_price: i64) -> (r: ArbitrageOpportunity)
    requires
        0 < buy_price < sell_price,
    ensures
        r == opportunity(buy, buy_price, sell, sell_price),
{
    let profit = sell_price - buy_price;
    let pct = (profit as i128) * PCT_SCALE / (buy_price as i128);
    proof {
        assert(0 <= (profit as int) * 100_000_000 / (buy_price as int) <= (profit as int) * 100_000_000)
            by (nonlinear_arith)
            requires
                profit > 0,
                buy_price > 0,
        ;
    }
    ArbitrageOpportunity {
        buy_platform: buy,
        sell_platform: sell,
        buy_price,
        sell_price,
        profit,
        profit_pct: pct,
    }
}

fn detect_prices(a_venue: Venue, a_bid: i64, a_ask: i64, b_venue: Venue, b_bid: i64, b_ask: i64) -> (r:
    Option<ArbitrageOpportunity>)
    ensures
        r == crossing(a_venue, a_bid, a_ask, b_venue, b_bid, b_ask),
{
    if a_bid > b_ask && b_ask > 0 {
        Some(make_opportunity(b_venue, b_ask, a_venue, a_bid))
    } else if b_bid > a_ask && a_ask > 0 {
        Some(make_opportunity(a_venue, a_ask, b_venue, b_bid))
    } else {
        None
    }
}

/// Tests two canonical quotes for a crossing (see `crossing`). Pure and O(1).
pub fn detect(a: &Quote, b: &Quote) -> (r: Option<ArbitrageOpportunity>)
    ensures
        r == detect_spec(*a, *b),
{
    detect_prices(a.venue, a.best_bid, a.best_ask, b.venue, b.best_bid, b.best_ask)
}

/// Tests the polled venue's market against the pushed venue's book, the
/// polled venue first, on their best prices alone.
pub fn detect_arbitrage(kalshi: &KalshiMarket, polymarket: &PolymarketMarket) -> (r: Option<
    ArbitrageOpportunity,
>)
    ensures
        r == crossing(
            Venue::Kalshi,
            (kalshi.yes_bid as int * 10_000) as i64,
            (kalshi.yes_ask as int * 10_000) as i64,
            Venue::Polymarket,
            polymarket.best_bid,
            polymarket.best_ask,
        ),
{
    detect_prices(
        Venue::Kalshi,
        cents_to_micros(kalshi.yes_bid),
        cents_to_micros(kalshi.yes_ask),
        Venue::Polymarket,
        polymarket.best_bid,
        polymarket.best_ask,
    )
}

/// Swapping the two quotes changes nothing unless both crossings hold at
/// once: either both orders find no opportunity, or both find the same one
/// (same buy and sell venues, prices and profits).
pub proof fn lemma_detect_symmetric(a: Quote, b: Quote)
    requires
        !(a.best_bid > b.best_ask && b.best_ask > 0 && b.best_bid > a.best_ask && a.best_ask > 0),
    ensures
        detect_spec(a, b) == detect_spec(b, a),
{
}

/// The zero-ask guard: an opportunity never buys at a zero ask, and with
/// both asks zero there is none, whatever the bids.
pub proof fn lemma_zero_ask_never_bought(a: Quote, b: Quote)
    ensures
        detect_spec(a, b) is Some ==> detect_spec(a, b)->Some_0.buy_price > 0,
        a.best_ask == 0 && b.best_ask == 0 ==> detect_spec(a, b) is None,
{
}

/// With one ask zero, no opportunity is reported unless the other venue's
/// ask is positive and below the bid of the venue with the zero ask.
pub proof fn lemma_zero_ask_guard(a: Quote, b: Quote)
    requires
        a.best_ask == 0 || b.best_ask == 0,
        !(a.best_ask == 0 && b.best_ask > 0 && a.best_bid > b.best_ask),
        !(b.best_ask == 0 && a.best_ask > 0 && b.best_bid > a.best_ask),
    ensures
        detect_spec(a, b) is None,
{
}

} // verus!

use arbitrage_monitor::arbitrage::{detect, detect_arbitrage, ArbitrageOpportunity};
use arbitrage_monitor::kalshi::KalshiMarket;
use arbitrage_monitor::polymarket::PolymarketMarket;
use arbitrage_monitor::quote::{Quote, Venue};

fn quote(venue: Venue, best_bid: i64, best_ask: i64) -> Quote {
    Quote { venue, best_bid, best_ask, bid_levels: vec![], ask_levels: vec![], received_at: 0 }
}

#[test]
fn scenario_buy_a_sell_b() {
    let a = quote(Venue::Kalshi, 600_000, 620_000);
    let b = quote(Venue::Polymarket, 650_000, 630_000);
    let opp = detect(&a, &b).expect("a crossing");
    assert_eq!(
        opp,
        ArbitrageOpportunity {
            buy_platform: Venue::Kalshi,
            sell_platform: Venue::Polymarket,
            buy_price: 620_000,
            sell_price: 650_000,
            profit: 30_000,
            profit_pct: 4_838_709,
        }
    );
}

#[test]
fn scenario_no_crossing() {
    let a = quote(Venue::Kalshi, 500_000, 550_000);
    let b = quote(Venue::Polymarket, 480_000, 520_000);
    assert_eq!(detect(&a, &b), None);
    assert_eq!(detect(&b, &a), None);
}

#[test]
fn swapped_quotes_find_the_same_opportunity() {
    let a = quote(Venue::Kalshi, 600_000, 620_000);
    let b = quote(Venue::Polymarket, 650_000, 630_000);
    assert_eq!(detect(&a, &b), detect(&b, &a));
    let c = quote(Venue::Polymarket, 700_000, 0);
    assert_eq!(detect(&c, &a), detect(&a, &c));
}

#[test]
fn zero_ask_is_never_bought() {
    let a = quote(Venue::Kalshi, 900_000, 0);
    let b = quote(Venue::Polymarket, 900_000, 0);
    assert_eq!(detect(&a, &b), None);
    let c = quote(Venue::Polymarket, 950_000, 0);
    let d = quote(Venue::Kalshi, 100_000, 980_000);
    assert_eq!(detect(&c, &d), None);
}

#[test]
fn sell_on_first_venue_when_its_bid_crosses() {
    let a = quote(Venue::Kalshi, 700_000, 720_000);
    let b = quote(Venue::Polymarket, 600_000, 650_000);
    let opp = detect(&a, &b).expect("a crossing");
    assert_eq!(opp.buy_platform, Venue::Polymarket);
    assert_eq!(opp.sell_platform, Venue::Kalshi);
    assert_eq!(opp.profit, 50_000);
    assert_eq!(opp.profit_pct, 7_692_307);
}

#[test]
fn inverted_books_take_the_first_branch() {
    let a = quote(Venue::Kalshi, 800_000, 300_000);
    let b = quote(Venue::Polymarket, 700_000, 200_000);
    let ab = detect(&a, &b).expect("a crossing");
    assert_eq!(ab.buy_platform, Venue::Polymarket);
    let ba = detect(&b, &a).expect("a crossing");
    assert_eq!(ba.buy_platform, Venue::Kalshi);
}

#[test]
fn kalshi_market_against_polymarket_book() {
    let k = KalshiMarket {
        ticker: "T".to_string(),
        title: "t".to_string(),
        yes_bid: 60,
        yes_ask: 62,
        no_bid: 38,
        no_ask: 40,
        last_price: 61,
        volume_24h: 0,
        open_interest: 0,
        orderbook: None,
    };
    let p = PolymarketMarket { token_id: "x".to_string(), best_bid: 650_000, best_ask: 630_000, bids: vec![], asks: vec![] };
    let opp = detect_arbitrage(&k, &p).expect("a crossing");
    assert_eq!(opp.buy_platform, Venue::Kalshi);
    assert_eq!(opp.buy_price, 620_000);
    assert_eq!(opp.sell_price, 650_000);
}

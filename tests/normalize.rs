use arbitrage_monitor::kalshi::{cents_to_micros, invert_no_level, KalshiMarket, KalshiOrderbook};
use arbitrage_monitor::polymarket::{parse_level, parse_orderbook, subscription_message, OrderbookLevel};
use arbitrage_monitor::price::{parse_decimal, parse_or_zero};
use arbitrage_monitor::quote::{sort_levels, Level, Venue};

fn market(yes_bid: i32, yes_ask: i32, orderbook: Option<KalshiOrderbook>) -> KalshiMarket {
    KalshiMarket {
        ticker: "KXEVENT-GAM".to_string(),
        title: "Will GAM win?".to_string(),
        yes_bid,
        yes_ask,
        no_bid: 100 - yes_ask,
        no_ask: 100 - yes_bid,
        last_price: yes_bid,
        volume_24h: 0,
        open_interest: 0,
        orderbook,
    }
}

fn wire(price: &str, size: &str) -> OrderbookLevel {
    OrderbookLevel { price: price.to_string(), size: size.to_string() }
}

fn level(price: i64, size: i64) -> Level {
    Level { price, size }
}

#[test]
fn cents_become_probabilities() {
    let q = market(60, 62, None).to_quote(7);
    assert_eq!(q.venue, Venue::Kalshi);
    assert_eq!(q.best_bid, 600_000);
    assert_eq!(q.best_ask, 620_000);
    assert_eq!(q.received_at, 7);
    assert!(q.bid_levels.is_empty());
    assert!(q.ask_levels.is_empty());
}

#[test]
fn cents_conversion_is_exact() {
    assert_eq!(cents_to_micros(0), 0);
    assert_eq!(cents_to_micros(1), 10_000);
    assert_eq!(cents_to_micros(100), 1_000_000);
    assert_eq!(cents_to_micros(-5), -50_000);
}

#[test]
fn no_level_inverts_to_yes_ask() {
    assert_eq!(invert_no_level((38, 10)), level(620_000, 10_000_000));
    assert_eq!(invert_no_level((0, 1)), level(1_000_000, 1_000_000));
}

#[test]
fn kalshi_depth_is_inverted_and_sorted() {
    let ob = KalshiOrderbook { yes: vec![(55, 3), (60, 1), (58, 2)], no: vec![(38, 10), (30, 5), (40, 7)] };
    let q = market(60, 62, Some(ob)).to_quote(0);
    assert_eq!(q.bid_levels, vec![level(600_000, 1_000_000), level(580_000, 2_000_000), level(550_000, 3_000_000)]);
    assert_eq!(q.ask_levels, vec![level(600_000, 7_000_000), level(620_000, 10_000_000), level(700_000, 5_000_000)]);
}

#[test]
fn decimal_numerals_parse_to_millionths() {
    assert_eq!(parse_decimal("0.62"), Some(620_000));
    assert_eq!(parse_decimal("42"), Some(42_000_000));
    assert_eq!(parse_decimal(".5"), Some(500_000));
    assert_eq!(parse_decimal("7."), Some(7_000_000));
    assert_eq!(parse_decimal("0.001"), Some(1_000));
    assert_eq!(parse_decimal("0.1234567"), Some(123_456));
    assert_eq!(parse_decimal("1250.50"), Some(1_250_500_000));
    assert_eq!(parse_decimal("9223372036854.775807"), Some(i64::MAX));
}

#[test]
fn non_numerals_are_rejected() {
    assert_eq!(parse_decimal(""), None);
    assert_eq!(parse_decimal("."), None);
    assert_eq!(parse_decimal("1.2.3"), None);
    assert_eq!(parse_decimal("-1"), None);
    assert_eq!(parse_decimal("abc"), None);
    assert_eq!(parse_decimal("0.6x"), None);
    assert_eq!(parse_decimal("9223372036854.775808"), None);
    assert_eq!(parse_decimal("99999999999999999999"), None);
    assert_eq!(parse_or_zero("n/a"), 0);
    assert_eq!(parse_or_zero("0.5"), 500_000);
}

#[test]
fn unparsable_ask_price_becomes_zero() {
    let asks = vec![wire("0.55", "10"), wire("bad", "4"), wire("0.52", "3")];
    let book = parse_orderbook("token".to_string(), &vec![], &asks);
    assert_eq!(book.asks, vec![level(0, 4_000_000), level(520_000, 3_000_000), level(550_000, 10_000_000)]);
    assert_eq!(book.best_ask, 0);
    assert_eq!(book.best_bid, 0);
    assert_eq!(parse_level(&wire("bad", "4")), level(0, 4_000_000));
}

#[test]
fn polymarket_book_sorts_both_sides() {
    let bids = vec![wire("0.48", "100"), wire("0.50", "20"), wire("0.49", "5")];
    let asks = vec![wire("0.56", "1"), wire("0.55", "2.5")];
    let book = parse_orderbook("abc".to_string(), &bids, &asks);
    assert_eq!(book.token_id, "abc");
    assert_eq!(book.best_bid, 500_000);
    assert_eq!(book.best_ask, 550_000);
    assert_eq!(book.bids, vec![level(500_000, 20_000_000), level(490_000, 5_000_000), level(480_000, 100_000_000)]);
    assert_eq!(book.asks, vec![level(550_000, 2_500_000), level(560_000, 1_000_000)]);
    let q = book.to_quote(3);
    assert_eq!(q.venue, Venue::Polymarket);
    assert_eq!(q.best_bid, 500_000);
    assert_eq!(q.ask_levels, book.asks);
}

#[test]
fn empty_book_has_zero_best_prices() {
    let book = parse_orderbook("t".to_string(), &vec![], &vec![]);
    assert_eq!(book.best_bid, 0);
    assert_eq!(book.best_ask, 0);
    assert!(book.bids.is_empty() && book.asks.is_empty());
}

#[test]
fn equal_prices_keep_arrival_order() {
    let v = vec![level(5, 1), level(3, 2), level(5, 3), level(3, 4)];
    assert_eq!(sort_levels(&v, false), vec![level(3, 2), level(3, 4), level(5, 1), level(5, 3)]);
    assert_eq!(sort_levels(&v, true), vec![level(5, 1), level(5, 3), level(3, 2), level(3, 4)]);
}

#[test]
fn subscription_handshake_text() {
    assert_eq!(subscription_message("123"), r#"{"assets_ids":["123"],"auth":{},"type":"MARKET"}"#);
    assert_eq!(subscription_message(""), r#"{"assets_ids":[""],"auth":{},"type":"MARKET"}"#);
    let odd = "a\"b\\c\nd\u{1}";
    let expected = format!(r#"{{"assets_ids":[{}],"auth":{{}},"type":"MARKET"}}"#, serde_json::to_string(odd).unwrap());
    assert_eq!(subscription_message(odd), expected);
    assert_eq!(subscription_message(odd), r#"{"assets_ids":["a\"b\\c\nd\u0001"],"auth":{},"type":"MARKET"}"#);
}

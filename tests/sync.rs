use arbitrage_monitor::quote::{Quote, Venue};
use arbitrage_monitor::sync::{pull_due, DisplayThrottle, FeedError, MarketState, Monitor, PushOutcome};

fn quote(venue: Venue, best_bid: i64, best_ask: i64, received_at: u64) -> Quote {
    Quote { venue, best_bid, best_ask, bid_levels: vec![], ask_levels: vec![], received_at }
}

#[test]
fn failed_pull_keeps_cached_quote() {
    let mut s = MarketState::new();
    s.apply_pull(Ok(quote(Venue::Kalshi, 600_000, 620_000, 1)));
    s.apply_pull(Err(FeedError::Transport));
    let k = s.kalshi.as_ref().expect("kept");
    assert_eq!((k.best_bid, k.best_ask, k.received_at), (600_000, 620_000, 1));
    s.apply_pull(Err(FeedError::Decode));
    assert_eq!(s.kalshi.as_ref().map(|q| q.best_ask), Some(620_000));
}

#[test]
fn successful_pull_overwrites() {
    let mut s = MarketState::new();
    s.apply_pull(Ok(quote(Venue::Kalshi, 600_000, 620_000, 1)));
    s.apply_pull(Ok(quote(Venue::Kalshi, 610_000, 630_000, 2)));
    assert_eq!(s.kalshi.as_ref().map(|q| q.received_at), Some(2));
    assert!(s.polymarket.is_none());
}

#[test]
fn push_timeout_changes_nothing() {
    let mut s = MarketState::new();
    s.record(quote(Venue::Polymarket, 500_000, 520_000, 4));
    let reconnect = s.apply_push(PushOutcome::TimedOut);
    assert!(!reconnect);
    assert_eq!(s.polymarket.as_ref().map(|q| q.received_at), Some(4));
    assert!(s.kalshi.is_none());
}

#[test]
fn push_failure_asks_for_reconnect() {
    let mut s = MarketState::new();
    s.record(quote(Venue::Polymarket, 500_000, 520_000, 4));
    assert!(s.apply_push(PushOutcome::Failed(FeedError::Transport)));
    assert_eq!(s.polymarket.as_ref().map(|q| q.best_bid), Some(500_000));
    assert!(!s.apply_push(PushOutcome::Book(quote(Venue::Polymarket, 510_000, 530_000, 5))));
    assert_eq!(s.polymarket.as_ref().map(|q| q.best_bid), Some(510_000));
}

#[test]
fn evaluation_waits_for_both_venues() {
    let mut s = MarketState::new();
    s.record(quote(Venue::Polymarket, 650_000, 630_000, 1));
    assert_eq!(s.evaluate(), None);
    s.record(quote(Venue::Kalshi, 600_000, 620_000, 1));
    let opp = s.evaluate().expect("a crossing");
    assert_eq!(opp.buy_platform, Venue::Kalshi);
    assert_eq!(opp.sell_platform, Venue::Polymarket);
}

#[test]
fn pull_runs_when_interval_elapsed() {
    assert!(pull_due(500, 500));
    assert!(pull_due(501, 500));
    assert!(!pull_due(499, 500));
    assert!(pull_due(0, 0));
}

#[test]
fn throttle_shows_every_tenth_quiet_tick() {
    let mut t = DisplayThrottle::new(false);
    for _ in 0..10 {
        assert!(!t.should_display(0));
    }
    assert_eq!(t.quiet_ticks, 10);
    assert!(t.should_display(0));
    assert_eq!(t.quiet_ticks, 0);
    assert!(t.should_display(10_000));
    let mut v = DisplayThrottle::new(true);
    assert!(v.should_display(0));
}

#[test]
fn tick_reports_crossing_even_when_throttled() {
    let mut m = Monitor::new(false);
    let r = m.tick(Some(Ok(quote(Venue::Kalshi, 600_000, 620_000, 1))), PushOutcome::TimedOut, 0);
    assert!(!r.show_markets && r.opportunity.is_none() && !r.reconnect);
    let r = m.tick(None, PushOutcome::Book(quote(Venue::Polymarket, 500_000, 650_000, 1)), 0);
    assert!(!r.show_markets);
    assert!(r.opportunity.is_none());
    assert_eq!(m.throttle.quiet_ticks, 1);
    let r = m.tick(None, PushOutcome::Book(quote(Venue::Polymarket, 650_000, 630_000, 2)), 0);
    assert!(r.show_markets);
    assert_eq!(r.opportunity.map(|o| o.profit), Some(30_000));
}

#[test]
fn tick_with_timeout_and_no_pull_keeps_state() {
    let mut m = Monitor::new(true);
    m.tick(Some(Ok(quote(Venue::Kalshi, 1, 2, 1))), PushOutcome::Book(quote(Venue::Polymarket, 3, 4, 1)), 0);
    let r = m.tick(None, PushOutcome::TimedOut, 0);
    assert!(r.show_markets && !r.reconnect);
    assert_eq!(m.state.kalshi.as_ref().map(|q| q.best_bid), Some(1));
    assert_eq!(m.state.polymarket.as_ref().map(|q| q.best_bid), Some(3));
    let r = m.tick(Some(Err(FeedError::Auth)), PushOutcome::Failed(FeedError::Transport), 0);
    assert!(r.reconnect);
    assert_eq!(m.state.kalshi.as_ref().map(|q| q.best_bid), Some(1));
}

#[test]
fn tick_without_crossing_follows_throttle() {
    let mut m = Monitor::new(false);
    m.tick(Some(Ok(quote(Venue::Kalshi, 500_000, 550_000, 1))), PushOutcome::Book(quote(Venue::Polymarket, 480_000, 520_000, 1)), 0);
    assert_eq!(m.throttle.quiet_ticks, 1);
    let r = m.tick(None, PushOutcome::TimedOut, 10_000);
    assert!(r.show_markets && r.opportunity.is_none());
    assert_eq!(m.throttle.quiet_ticks, 0);
    let r = m.tick(None, PushOutcome::TimedOut, 0);
    assert!(!r.show_markets);
}

//! The merge loop's decisions: the per-venue market state, what each feed
//! outcome does to it, and what each tick reports.
//!
//! The caller performs the I/O of a tick (a pull fetch when it is due, one
//! push read bounded by `PUSH_READ_TIMEOUT_MS`) and hands the outcomes here.
use vstd::prelude::*;
use crate::arbitrage::{detect, detect_spec, ArbitrageOpportunity};
use crate::quote::{Quote, Venue};

verus! {

/// Bound on one push read.
pub const PUSH_READ_TIMEOUT_MS: u64 = 500;

/// Pause between ticks.
pub const TICK_PAUSE_MS: u64 = 10;

/// Without verbose output, the merged state is shown after this many quiet
/// ticks...
pub const DISPLAY_EVERY_TICKS: u64 = 10;

/// ...or after this long, whichever comes first.
pub const DISPLAY_INTERVAL_MS: u64 = 10_000;

/// Why a feed produced no quote.
#[derive(Clone, Copy, PartialEq, Eq, Structural, Debug)]
pub enum FeedError {
    /// Connection refused, reset or closed.
    Transport,
    /// A response of an unexpected shape.
    Decode,
    /// A request that could not be signed or was refused.
    Auth,
}

/// What one bounded push read gave.
#[derive(Clone, Debug)]
pub enum PushOutcome {
    /// A book update, normalized.
    Book(Quote),
    /// Nothing arrived within the bound.
    TimedOut,
    /// The transport failed; the subscription must be made again.
    Failed(FeedError),
}

/// The latest quote of each venue; absent until its first success.
#[derive(Clone, Debug)]
pub struct MarketState {
    pub kalshi: Option<Quote>,
    pub polymarket: Option<Quote>,
}

/// What a tick asks of its caller.
#[derive(Clone, Copy, PartialEq, Eq, Structural, Debug)]
pub struct TickReport {
    /// Show the merged state of both venues.
    pub show_markets: bool,
    /// A crossing found this tick; never throttled.
    pub opportunity: Option<ArbitrageOpportunity>,
    /// Subscribe to the push feed again before the next tick.
    pub reconnect: bool,
}

/// Throttles the display of the merged state.
#[derive(Clone, Copy, PartialEq, Eq, Structural, Debug)]
pub struct DisplayThrottle {
    pub verbose: bool,
    /// Ticks with both quotes since the state was last shown.
    pub quiet_ticks: u64,
}

/// The state and throttle that persist from tick to tick.
#[derive(Clone, Debug)]
pub struct Monitor {
    pub state: MarketState,
    pub throttle: DisplayThrottle,
}

/// `s` with `q` as the latest quote of its venue.
pub open spec fn with_quote(s: MarketState, q: Quote) -> MarketState {
    match q.venue {
        Venue::Kalshi => MarketState { kalshi: Some(q), ..s },
        Venue::Polymarket => MarketState { polymarket: Some(q), ..s },
    }
}

/// `s` after a pull fetch's outcome, or unchanged where none was made.
pub open spec fn after_pull(s: MarketState, pulled: Option<Result<Quote, FeedError>>) -> MarketState {
    match pulled {
        Some(Ok(q)) => with_quote(s, q),
        _ => s,
    }
}

/// `s` after a push read's outcome.
pub open spec fn after_push(s: MarketState, pushed: PushOutcome) -> MarketState {
    match pushed {
        PushOutcome::Book(q) => with_quote(s, q),
        _ => s,
    }
}

/// A pull fetch is due once the poll interval has elapsed since the last one.
pub fn pull_due(elapsed_ms: u64, poll_interval_ms: u64) -> (r: bool)
    ensures
        r == (elapsed_ms >= poll_interval_ms),
{
    elapsed_ms >= poll_interval_ms
}

impl MarketState {
    pub open spec fn entry(&self, v: Venue) -> Option<Quote> {
        match v {
            Venue::Kalshi => self.kalshi,
            Venue::Polymarket => self.polymarket,
        }
    }

    pub fn new() -> (r: MarketState)
        ensures
            r.kalshi.is_none(),
            r.polymarket.is_none(),
    {
        MarketState { kalshi: None, polymarket: None }
    }

    /// Stores `q` as the latest quote of its venue; the other entry stays.
    pub fn record(&mut self, q: Quote)
        ensures
            *final(self) == with_quote(*old(self), q),
            final(self).entry(q.venue) == Some(q),
    {
        match q.venue {
            Venue::Kalshi => {
                self.kalshi = Some(q);
            },
            Venue::Polymarket => {
                self.polymarket = Some(q);
            },
        }
    }

    /// Applies a pull fetch: a quote replaces its venue's entry; a failure
    /// leaves the whole state as it was.
    pub fn apply_pull(&mut self, fetched: Result<Quote, FeedError>)
        ensures
            fetched is Err ==> *final(self) == *old(self),
            *final(self) == after_pull(*old(self), Some(fetched)),
    {
        match fetched {
            Ok(q) => self.record(q),
            Err(_) => {},
        }
    }

    /// Applies a push read. A book replaces its venue's entry; a timeout
    /// changes nothing; a transport failure changes nothing and asks for a
    /// reconnect (the returned flag).
    pub fn apply_push(&mut self, outcome: PushOutcome) -> (reconnect: bool)
        ensures
            outcome is TimedOut ==> *final(self) == *old(self) && !reconnect,
            outcome is Failed ==> *final(self) == *old(self) && reconnect,
            outcome is Book ==> !reconnect,
            *final(self) == after_push(*old(self), outcome),
    {
        match outcome {
            PushOutcome::Book(q) => {
                self.record(q);
                false
            },
            PushOutcome::TimedOut => false,
            PushOutcome::Failed(_) => true,
        }
    }

    /// Runs the detector once both venues have a quote, the polled venue
    /// first.
    pub fn evaluate(&self) -> (r: Option<ArbitrageOpportunity>)
        ensures
            self.kalshi is Some && self.polymarket is Some ==> r == detect_spec(
                self.kalshi->Some_0,
                self.polymarket->Some_0,
            ),
            !(self.kalshi is Some && self.polymarket is Some) ==> r is None,
    {
        match (&self.kalshi, &self.polymarket) {
            (Some(k), Some(p)) => detect(k, p),
            _ => None,
        }
    }
}

impl DisplayThrottle {
    pub fn new(verbose: bool) -> (r: DisplayThrottle)
        ensures
            r.verbose == verbose,
            r.quiet_ticks == 0,
    {
        DisplayThrottle { verbose, quiet_ticks: 0 }
    }

    /// Whether to show the state on this tick, given the time since it was
    /// last shown; counts the quiet ticks in between.
    pub fn should_display(&mut self, since_display_ms: u64) -> (r: bool)
        ensures
            r == (old(self).verbose || old(self).quiet_ticks >= DISPLAY_EVERY_TICKS
                || since_display_ms >= DISPLAY_INTERVAL_MS),
            final(self).verbose == old(self).verbose,
            r ==> final(self).quiet_ticks == 0,
            !r ==> final(self).quiet_ticks == old(self).quiet_ticks + 1,
    {
        let r = self.verbose || self.quiet_ticks >= DISPLAY_EVERY_TICKS || since_display_ms
            >= DISPLAY_INTERVAL_MS;
        if r {
            self.quiet_ticks = 0;
        } else {
            self.quiet_ticks = self.quiet_ticks + 1;
        }
        r
    }
}

impl Monitor {
    pub fn new(verbose: bool) -> (r: Monitor)
        ensures
            r.state.kalshi.is_none(),
            r.state.polymarket.is_none(),
            r.throttle.verbose == verbose,
            r.throttle.quiet_ticks == 0,
    {
        Monitor { state: MarketState::new(), throttle: DisplayThrottle::new(verbose) }
    }

    /// One tick, after its I/O: `pulled` is the pull fetch's outcome, or
    /// `None` where none was due; `pushed` is the bounded push read's.
    /// Detection runs on the merged state once both venues have a quote, and
    /// a crossing always shows the state, throttle or not.
    pub fn tick(&mut self, pulled: Option<Result<Quote, FeedError>>, pushed: PushOutcome, since_display_ms: u64) -> (r: TickReport)
        ensures
            final(self).state == after_push(after_pull(old(self).state, pulled), pushed),
            r.reconnect == pushed is Failed,
            ({
                let both = final(self).state.kalshi is Some && final(self).state.polymarket is Some;
                &&& both ==> r.opportunity == detect_spec(
                    final(self).state.kalshi->Some_0,
                    final(self).state.polymarket->Some_0,
                )
                &&& !both ==> r.opportunity is None && !r.show_markets && final(self).throttle == old(self).throttle
                &&& both && r.opportunity is Some ==> r.show_markets
                &&& both ==> r.show_markets == (old(self).throttle.verbose || old(self).throttle.quiet_ticks
                    >= DISPLAY_EVERY_TICKS || since_display_ms >= DISPLAY_INTERVAL_MS || r.opportunity is Some)
                &&& both ==> final(self).throttle.verbose == old(self).throttle.verbose
                &&& both ==> final(self).throttle.quiet_ticks == if old(self).throttle.verbose
                    || old(self).throttle.quiet_ticks >= DISPLAY_EVERY_TICKS || since_display_ms
                    >= DISPLAY_INTERVAL_MS {
                    0
                } else {
                    old(self).throttle.quiet_ticks + 1
                }
            }),
    {
        if let Some(fetched) = pulled {
            self.state.apply_pull(fetched);
        }
        let reconnect = self.state.apply_push(pushed);
        let both = self.state.kalshi.is_some() && self.state.polymarket.is_some();
        if !both {
            return TickReport { show_markets: false, opportunity: None, reconnect };
        }
        let shown = self.throttle.should_display(since_display_ms);
        let opportunity = self.state.evaluate();
        TickReport { show_markets: shown || opportunity.is_some(), opportunity, reconnect }
    }
}

} // verus!

//! The polled venue: integer-cent quotes and a yes/no order book.
use vstd::prelude::*;
use crate::quote::{is_sorted, keeps_tie_order, sort_levels, Level, Quote, Venue, CENTS_PER_UNIT, MICROS_PER_CENT};
use crate::price::MICROS_PER_UNIT;
use crate::text::{chars_of, contains, ends_with, has_infix, has_prefix, has_suffix, lower_of, lowercase, starts_with};

verus! {

broadcast use vstd::seq_lib::group_to_multiset_ensures;

/// Depth of a binary market: resting "yes" and "no" orders as
/// `(price in cents, size in contracts)`.
#[derive(Clone, Debug)]
pub struct KalshiOrderbook {
    pub yes: Vec<(i32, i32)>,
    pub no: Vec<(i32, i32)>,
}

/// One market as the venue reports it, prices in cents.
#[derive(Clone, Debug)]
pub struct KalshiMarket {
    pub ticker: String,
    pub title: String,
    pub yes_bid: i32,
    pub yes_ask: i32,
    pub no_bid: i32,
    pub no_ask: i32,
    pub last_price: i32,
    pub volume_24h: i32,
    pub open_interest: i32,
    pub orderbook: Option<KalshiOrderbook>,
}

/// A cent price in canonical millionths.
pub open spec fn cents_micros(c: i32) -> int {
    c as int * 10_000
}

/// A resting "yes" order as a bid level.
pub open spec fn yes_bid_level(o: (i32, i32)) -> Level {
    Level { price: cents_micros(o.0) as i64, size: (o.1 as int * 1_000_000) as i64 }
}

/// A resting "no" order at `p` cents as the "yes" ask at `100 - p` cents.
pub open spec fn no_as_yes_ask(o: (i32, i32)) -> Level {
    Level { price: ((100 - o.0 as int) * 10_000) as i64, size: (o.1 as int * 1_000_000) as i64 }
}

/// Converts a price in cents into millionths.
pub fn cents_to_micros(cents: i32) -> (r: i64)
    ensures
        r as int == cents_micros(cents),
{
    cents as i64 * MICROS_PER_CENT
}

fn yes_level(o: (i32, i32)) -> (r: Level)
    ensures
        r == yes_bid_level(o),
{
    Level { price: cents_to_micros(o.0), size: o.1 as i64 * MICROS_PER_UNIT }
}

/// Inverts a "no" order into the equivalent "yes" ask.
pub fn invert_no_level(o: (i32, i32)) -> (r: Level)
    ensures
        r == no_as_yes_ask(o),
{
    Level { price: (CENTS_PER_UNIT - o.0 as i64) * MICROS_PER_CENT, size: o.1 as i64 * MICROS_PER_UNIT }
}

impl KalshiOrderbook {
    /// The "yes" orders as bid levels, best (highest) first.
    pub fn bid_levels(&self) -> (r: Vec<Level>)
        ensures
            is_sorted(r@, true),
            r@.to_multiset() == self.yes@.map_values(|o: (i32, i32)| yes_bid_level(o)).to_multiset(),
            keeps_tie_order(r@, self.yes@.map_values(|o: (i32, i32)| yes_bid_level(o))),
    {
        let mut v: Vec<Level> = Vec::new();
        let mut i: usize = 0;
        while i < self.yes.len()
            invariant
                i <= self.yes.len(),
                v@ == self.yes@.take(i as int).map_values(|o: (i32, i32)| yes_bid_level(o)),
            decreases self.yes.len() - i,
        {
            v.push(yes_level(self.yes[i]));
            proof {
                assert(self.yes@.take(i as int + 1).map_values(|o: (i32, i32)| yes_bid_level(o))
                    =~= v@);
            }
            i = i + 1;
        }
        assert(self.yes@.take(self.yes.len() as int) =~= self.yes@);
        sort_levels(&v, true)
    }

    /// The "no" orders, price-inverted, as ask levels, best (lowest) first.
    pub fn ask_levels(&self) -> (r: Vec<Level>)
        ensures
            is_sorted(r@, false),
            r@.to_multiset() == self.no@.map_values(|o: (i32, i32)| no_as_yes_ask(o)).to_multiset(),
            keeps_tie_order(r@, self.no@.map_values(|o: (i32, i32)| no_as_yes_ask(o))),
    {
        let mut v: Vec<Level> = Vec::new();
        let mut i: usize = 0;
        while i < self.no.len()
            invariant
                i <= self.no.len(),
                v@ == self.no@.take(i as int).map_values(|o: (i32, i32)| no_as_yes_ask(o)),
            decreases self.no.len() - i,
        {
            v.push(invert_no_level(self.no[i]));
            proof {
                assert(self.no@.take(i as int + 1).map_values(|o: (i32, i32)| no_as_yes_ask(o))
                    =~= v@);
            }
            i = i + 1;
        }
        assert(self.no@.take(self.no.len() as int) =~= self.no@);
        sort_levels(&v, false)
    }
}

impl KalshiMarket {
    /// The canonical quote: best prices from `yes_bid` / `yes_ask`, depth
    /// from the order book where one was fetched.
    pub fn to_quote(&self, received_at: u64) -> (r: Quote)
        ensures
            r.wf(),
            r.venue == Venue::Kalshi,
            r.best_bid as int == cents_micros(self.yes_bid),
            r.best_ask as int == cents_micros(self.yes_ask),
            r.received_at == received_at,
            self.orderbook.is_none() ==> r.bid_levels@.len() == 0 && r.ask_levels@.len() == 0,
            self.orderbook.is_some() ==> {
                let ob = self.orderbook.unwrap();
                &&& is_sorted(r.bid_levels@, true)
                &&& is_sorted(r.ask_levels@, false)
                &&& r.bid_levels@.to_multiset() == ob.yes@.map_values(
                    |o: (i32, i32)| yes_bid_level(o),
                ).to_multiset()
                &&& r.ask_levels@.to_multiset() == ob.no@.map_values(
                    |o: (i32, i32)| no_as_yes_ask(o),
                ).to_multiset()
                &&& keeps_tie_order(r.bid_levels@, ob.yes@.map_values(|o: (i32, i32)| yes_bid_level(o)))
                &&& keeps_tie_order(r.ask_levels@, ob.no@.map_values(|o: (i32, i32)| no_as_yes_ask(o)))
            },
    {
        let (bids, asks) = match &self.orderbook {
            Some(ob) => (ob.bid_levels(), ob.ask_levels()),
            None => (Vec::new(), Vec::new()),
        };
        Quote {
            venue: Venue::Kalshi,
            best_bid: cents_to_micros(self.yes_bid),
            best_ask: cents_to_micros(self.yes_ask),
            bid_levels: bids,
            ask_levels: asks,
            received_at,
        }
    }
}

/// A market listed under an event.
#[derive(Clone, Debug)]
pub struct MarketInfo {
    pub ticker: String,
    pub title: Option<String>,
}

/// The ticker ends in `-team`.
pub open spec fn suffix_hit(ticker: Seq<char>, team: Seq<char>) -> bool {
    ends_with(ticker, seq!['-'] + team)
}

/// The title starts with `will team`.
pub open spec fn subject_hit(title: Option<Seq<char>>, team: Seq<char>) -> bool {
    title is Some && starts_with(title->Some_0, seq!['w', 'i', 'l', 'l', ' '] + team)
}

/// The team is named anywhere in the ticker or the title.
pub open spec fn mention_hit(ticker: Seq<char>, title: Option<Seq<char>>, team: Seq<char>) -> bool {
    contains(ticker, team) || (title is Some && contains(title->Some_0, team))
}

/// `r` is the market for `team` among lower-cased tickers and titles: the
/// first ticker that ends in `-team`; failing that, the first title that
/// starts with `will team`; failing that, the first market that mentions the
/// team; failing all, the first market.
pub open spec fn is_pick(tickers: Seq<Seq<char>>, titles: Seq<Option<Seq<char>>>, team: Seq<char>, r: int) -> bool {
    let n = tickers.len() as int;
    if exists|i: int| 0 <= i < n && suffix_hit(#[trigger] tickers[i], team) {
        0 <= r < n && suffix_hit(tickers[r], team) && forall|j: int| 0 <= j < r ==> !suffix_hit(#[trigger] tickers[j], team)
    } else if exists|i: int| 0 <= i < n && subject_hit(#[trigger] titles[i], team) {
        0 <= r < n && subject_hit(titles[r], team) && forall|j: int| 0 <= j < r ==> !subject_hit(#[trigger] titles[j], team)
    } else if exists|i: int| 0 <= i < n && mention_hit(#[trigger] tickers[i], titles[i], team) {
        0 <= r < n && mention_hit(tickers[r], titles[r], team) && forall|j: int| 0 <= j < r ==> !mention_hit(#[trigger] tickers[j], titles[j], team)
    } else {
        r == 0
    }
}

pub open spec fn views(v: Seq<Vec<char>>) -> Seq<Seq<char>> {
    v.map_values(|c: Vec<char>| c@)
}

pub open spec fn option_views(v: Seq<Option<Vec<char>>>) -> Seq<Option<Seq<char>>> {
    v.map_values(|c: Option<Vec<char>>| match c {
        Some(t) => Some(t@),
        None => None,
    })
}

fn prefixed(head: Vec<char>, team: &Vec<char>) -> (r: Vec<char>)
    ensures
        r@ == head@ + team@,
{
    let mut r = head;
    let ghost h = r@;
    let mut i: usize = 0;
    while i < team.len()
        invariant
            i <= team.len(),
            r@ == h + team@.take(i as int),
        decreases team.len() - i,
    {
        r.push(team[i]);
        assert(h + team@.take(i as int + 1) =~= r@);
        i = i + 1;
    }
    assert(team@.take(team.len() as int) =~= team@);
    r
}

/// Picks the market for `team` (see `is_pick`) among tickers and titles
/// already lower-cased, as is `team`.
pub fn pick_market_index(tickers: &Vec<Vec<char>>, titles: &Vec<Option<Vec<char>>>, team: &Vec<char>) -> (r: usize)
    requires
        tickers.len() == titles.len(),
    ensures
        is_pick(views(tickers@), option_views(titles@), team@, r as int),
{
    let ghost tk = views(tickers@);
    let ghost tl = option_views(titles@);
    let n = tickers.len();
    let dash_team = prefixed(vec!['-'], team);
    let will_team = prefixed(vec!['w', 'i', 'l', 'l', ' '], team);
    let mut i: usize = 0;
    while i < n
        invariant
            n == tickers.len(),
            i <= n,
            tk == views(tickers@),
            dash_team@ == seq!['-'] + team@,
            forall|j: int| 0 <= j < i ==> !suffix_hit(#[trigger] tk[j], team@),
        decreases n - i,
    {
        assert(tk[i as int] == tickers@[i as int]@);
        if has_suffix(&tickers[i], &dash_team) {
            assert(suffix_hit(tk[i as int], team@));
            return i;
        }
        i = i + 1;
    }
    let mut i: usize = 0;
    while i < n
        invariant
            n == tickers.len(),
            n == titles.len(),
            i <= n,
            tl == option_views(titles@),
            will_team@ == seq!['w', 'i', 'l', 'l', ' '] + team@,
            tk == views(tickers@),
            forall|j: int| 0 <= j < n ==> !suffix_hit(#[trigger] tk[j], team@),
            forall|j: int| 0 <= j < i ==> !subject_hit(#[trigger] tl[j], team@),
        decreases n - i,
    {
        assert(tl[i as int] == match titles@[i as int] {
            Some(t) => Some(t@),
            None => None::<Seq<char>>,
        });
        match &titles[i] {
            Some(t) => {
                if has_prefix(t, &will_team) {
                    assert(subject_hit(tl[i as int], team@));
                    return i;
                }
            },
            None => {},
        }
        i = i + 1;
    }
    let mut i: usize = 0;
    while i < n
        invariant
            n == tickers.len(),
            n == titles.len(),
            i <= n,
            tk == views(tickers@),
            tl == option_views(titles@),
            forall|j: int| 0 <= j < n ==> !suffix_hit(#[trigger] tk[j], team@),
            forall|j: int| 0 <= j < n ==> !subject_hit(#[trigger] tl[j], team@),
            forall|j: int| 0 <= j < i ==> !mention_hit(#[trigger] tk[j], tl[j], team@),
        decreases n - i,
    {
        assert(tk[i as int] == tickers@[i as int]@);
        assert(tl[i as int] == match titles@[i as int] {
            Some(t) => Some(t@),
            None => None::<Seq<char>>,
        });
        let in_title = match &titles[i] {
            Some(t) => has_infix(t, team),
            None => false,
        };
        if in_title || has_infix(&tickers[i], team) {
            assert(mention_hit(tk[i as int], tl[i as int], team@));
            return i;
        }
        i = i + 1;
    }
    0
}

/// The lower-cased tickers and titles of `ms`.
pub open spec fn lower_tickers(ms: Seq<MarketInfo>) -> Seq<Seq<char>> {
    ms.map_values(|m: MarketInfo| lower_of(m.ticker@))
}

pub open spec fn lower_titles(ms: Seq<MarketInfo>) -> Seq<Option<Seq<char>>> {
    ms.map_values(|m: MarketInfo| match m.title {
        Some(t) => Some(lower_of(t@)),
        None => None,
    })
}

/// Resolves an event's markets to the ticker of the market for
/// `target_team`, compared without regard to case (see `is_pick`); with no
/// team, the first market's. `None` exactly when there are no markets.
pub fn select_market_ticker(markets: &Vec<MarketInfo>, target_team: Option<&str>) -> (r: Option<String>)
    ensures
        markets@.len() == 0 <==> r is None,
        markets@.len() > 0 && target_team is None ==> r == Some(markets@[0].ticker),
        markets@.len() > 0 && target_team is Some ==> exists|i: int| is_pick(
            lower_tickers(markets@),
            lower_titles(markets@),
            lower_of(target_team->Some_0@),
            i,
        ) && r == Some(markets@[i].ticker),
{
    if markets.len() == 0 {
        return None;
    }
    let team = match target_team {
        Some(t) => t,
        None => {
            return Some(markets[0].ticker.clone());
        },
    };
    let team_lower = chars_of(lowercase(team).as_str());
    let mut tickers: Vec<Vec<char>> = Vec::new();
    let mut titles: Vec<Option<Vec<char>>> = Vec::new();
    let mut i: usize = 0;
    while i < markets.len()
        invariant
            i <= markets.len(),
            tickers.len() == i,
            titles.len() == i,
            views(tickers@) == lower_tickers(markets@).take(i as int),
            option_views(titles@) == lower_titles(markets@).take(i as int),
        decreases markets.len() - i,
    {
        let m = &markets[i];
        let lt = lowercase(m.ticker.as_str());
        let lc = chars_of(lt.as_str());
        assert(lc@ == lower_of(markets@[i as int].ticker@));
        tickers.push(lc);
        let t = match &m.title {
            Some(t) => Some(chars_of(lowercase(t.as_str()).as_str())),
            None => None,
        };
        titles.push(t);
        assert(tickers@[i as int]@ == lower_of(markets@[i as int].ticker@));
        assert(views(tickers@) =~= lower_tickers(markets@).take(i as int + 1));
        assert(option_views(titles@) =~= lower_titles(markets@).take(i as int + 1));
        i = i + 1;
    }
    assert(lower_tickers(markets@).take(markets.len() as int) =~= lower_tickers(markets@));
    assert(lower_titles(markets@).take(markets.len() as int) =~= lower_titles(markets@));
    let k = pick_market_index(&tickers, &titles, &team_lower);
    Some(markets[k].ticker.clone())
}

} // verus!

//! The pushed venue: books of decimal-string levels.
use vstd::prelude::*;
use crate::price::{micros_or_zero, parse_or_zero};
use crate::quote::{best_price, is_sorted, keeps_tie_order, sort_levels, Level, Quote, Venue};
use crate::text::chars_of;
use vstd::string::*;

verus! {

broadcast use vstd::seq_lib::group_to_multiset_ensures;

/// One level of a book as it arrives: price and size as decimal text.
#[derive(Clone, Debug)]
pub struct OrderbookLevel {
    pub price: String,
    pub size: String,
}

/// A decoded book of one instrument, levels in canonical millionths.
#[derive(Clone, Debug)]
pub struct PolymarketMarket {
    pub token_id: String,
    pub best_bid: i64,
    pub best_ask: i64,
    /// Sorted by descending price.
    pub bids: Vec<Level>,
    /// Sorted by ascending price.
    pub asks: Vec<Level>,
}

impl PolymarketMarket {
    /// Bids sorted by descending price, asks by ascending price, and the
    /// best prices those of the first levels (zero for an empty side).
    pub open spec fn wf(&self) -> bool {
        &&& is_sorted(self.bids@, true)
        &&& is_sorted(self.asks@, false)
        &&& self.best_bid as int == best_price(self.bids@)
        &&& self.best_ask as int == best_price(self.asks@)
    }
}

/// A wire level read fail-soft: text that is no decimal numeral counts as 0.
pub open spec fn level_of(o: OrderbookLevel) -> Level {
    Level { price: micros_or_zero(o.price@) as i64, size: micros_or_zero(o.size@) as i64 }
}

pub open spec fn levels_of(s: Seq<OrderbookLevel>) -> Seq<Level> {
    s.map_values(|o: OrderbookLevel| level_of(o))
}

/// Reads one wire level; never fails.
pub fn parse_level(o: &OrderbookLevel) -> (r: Level)
    ensures
        r == level_of(*o),
{
    Level { price: parse_or_zero(o.price.as_str()), size: parse_or_zero(o.size.as_str()) }
}

fn parse_levels(v: &Vec<OrderbookLevel>) -> (r: Vec<Level>)
    ensures
        r@ == levels_of(v@),
{
    let mut out: Vec<Level> = Vec::new();
    let mut i: usize = 0;
    while i < v.len()
        invariant
            i <= v.len(),
            out@ == levels_of(v@.take(i as int)),
        decreases v.len() - i,
    {
        out.push(parse_level(&v[i]));
        proof {
            assert(levels_of(v@.take(i as int + 1)) =~= out@);
        }
        i = i + 1;
    }
    assert(v@.take(v.len() as int) =~= v@);
    out
}

fn first_price(v: &Vec<Level>) -> (r: i64)
    ensures
        r as int == best_price(v@),
{
    if v.len() > 0 {
        v[0].price
    } else {
        0
    }
}

/// Builds the book of `token_id` from the wire's bid and ask arrays: every
/// level is kept, read fail-soft, bids sorted descending and asks ascending;
/// the best prices are the first of each side, or zero for an empty side.
pub fn parse_orderbook(token_id: String, bids: &Vec<OrderbookLevel>, asks: &Vec<OrderbookLevel>) -> (r:
    PolymarketMarket)
    ensures
        r.wf(),
        r.token_id == token_id,
        is_sorted(r.bids@, true),
        is_sorted(r.asks@, false),
        r.bids@.to_multiset() == levels_of(bids@).to_multiset(),
        r.asks@.to_multiset() == levels_of(asks@).to_multiset(),
        keeps_tie_order(r.bids@, levels_of(bids@)),
        keeps_tie_order(r.asks@, levels_of(asks@)),
        r.best_bid as int == best_price(r.bids@),
        r.best_ask as int == best_price(r.asks@),
{
    let b = sort_levels(&parse_levels(bids), true);
    let a = sort_levels(&parse_levels(asks), false);
    let best_bid = first_price(&b);
    let best_ask = first_price(&a);
    PolymarketMarket { token_id, best_bid, best_ask, bids: b, asks: a }
}

impl PolymarketMarket {
    /// The canonical quote of this book.
    pub fn to_quote(&self, received_at: u64) -> (r: Quote)
        ensures
            self.wf() ==> r.wf(),
            r.venue == Venue::Polymarket,
            r.best_bid == self.best_bid,
            r.best_ask == self.best_ask,
            r.bid_levels@ == self.bids@,
            r.ask_levels@ == self.asks@,
            r.received_at == received_at,
    {
        Quote {
            venue: Venue::Polymarket,
            best_bid: self.best_bid,
            best_ask: self.best_ask,
            bid_levels: self.bids.clone(),
            ask_levels: self.asks.clone(),
            received_at,
        }
    }
}

/// A lower-case hexadecimal digit.
pub open spec fn hex_digit(v: int) -> char {
    if v < 10 {
        ('0' as int + v) as char
    } else {
        ('a' as int + v - 10) as char
    }
}

/// One character as it stands inside a JSON string: quote and backslash
/// escaped, the short escapes for backspace, form feed, newline, carriage
/// return and tab, `\u00XX` for the other control characters.
pub open spec fn json_escape_char(c: char) -> Seq<char> {
    if c == '"' {
        seq!['\\', '"']
    } else if c == '\\' {
        seq!['\\', '\\']
    } else if c == '\u{8}' {
        seq!['\\', 'b']
    } else if c == '\u{c}' {
        seq!['\\', 'f']
    } else if c == '\n' {
        seq!['\\', 'n']
    } else if c == '\r' {
        seq!['\\', 'r']
    } else if c == '\t' {
        seq!['\\', 't']
    } else if (c as int) < 0x20 {
        seq!['\\', 'u', '0', '0', hex_digit(c as int / 16), hex_digit(c as int % 16)]
    } else {
        seq![c]
    }
}

pub open spec fn json_escape(s: Seq<char>) -> Seq<char>
    decreases s.len(),
{
    if s.len() == 0 {
        Seq::empty()
    } else {
        json_escape(s.drop_last()) + json_escape_char(s.last())
    }
}

/// The subscription handshake for one instrument: an empty auth object, the
/// instrument in `assets_ids`, and the `MARKET` channel type.
pub open spec fn subscription_text(asset_id: Seq<char>) -> Seq<char> {
    seq!['{', '"', 'a', 's', 's', 'e', 't', 's', '_', 'i', 'd', 's', '"', ':', '[', '"']
        + json_escape(asset_id)
        + seq!['"', ']', ',', '"', 'a', 'u', 't', 'h', '"', ':', '{', '}', ',', '"', 't', 'y', 'p', 'e', '"', ':', '"', 'M', 'A', 'R', 'K', 'E', 'T', '"', '}']
}

fn append_escaped(out: &mut String, c: char, one: &str)
    requires
        one@ == seq![c],
    ensures
        final(out)@ == old(out)@ + json_escape_char(c),
{
    if c == '"' {
        proof { reveal_strlit("\\\""); }
        out.append("\\\"");
    } else if c == '\\' {
        proof { reveal_strlit("\\\\"); }
        out.append("\\\\");
    } else if c == '\u{8}' {
        proof { reveal_strlit("\\b"); }
        out.append("\\b");
    } else if c == '\u{c}' {
        proof { reveal_strlit("\\f"); }
        out.append("\\f");
    } else if c == '\n' {
        proof { reveal_strlit("\\n"); }
        out.append("\\n");
    } else if c == '\r' {
        proof { reveal_strlit("\\r"); }
        out.append("\\r");
    } else if c == '\t' {
        proof { reveal_strlit("\\t"); }
        out.append("\\t");
    } else if (c as u32) < 0x20 {
        let digits = "0123456789abcdef";
        proof { reveal_strlit("\\u00"); reveal_strlit("0123456789abcdef"); }
        out.append("\\u00");
        let hi = (c as u32 / 16) as usize;
        let lo = (c as u32 % 16) as usize;
        out.append(digits.substring_char(hi, hi + 1));
        out.append(digits.substring_char(lo, lo + 1));
        assert(final(out)@ =~= old(out)@ + json_escape_char(c));
    } else {
        out.append(one);
    }
}

/// Builds the subscription handshake sent once per connection (see
/// `subscription_text`).
pub fn subscription_message(asset_id: &str) -> (r: String)
    ensures
        r@ == subscription_text(asset_id@),
{
    let head = "{\"assets_ids\":[\"";
    let tail = "\"],\"auth\":{},\"type\":\"MARKET\"}";
    proof {
        reveal_strlit("{\"assets_ids\":[\"");
        reveal_strlit("\"],\"auth\":{},\"type\":\"MARKET\"}");
    }
    let mut out = String::from_str(head);
    let n = asset_id.unicode_len();
    let mut i: usize = 0;
    while i < n
        invariant
            n == asset_id@.len(),
            i <= n,
            out@ == head@ + json_escape(asset_id@.take(i as int)),
        decreases n - i,
    {
        let one = asset_id.substring_char(i, i + 1);
        assert(one@ =~= seq![asset_id@[i as int]]);
        append_escaped(&mut out, asset_id.get_char(i), one);
        assert(asset_id@.take(i as int + 1).drop_last() =~= asset_id@.take(i as int));
        assert(out@ =~= head@ + json_escape(asset_id@.take(i as int + 1)));
        i = i + 1;
    }
    assert(asset_id@.take(n as int) =~= asset_id@);
    out.append(tail);
    assert(out@ =~= subscription_text(asset_id@));
    out
}

/// The type tag of a pushed message: its `event_type` field, else its
/// `type` field.
pub fn message_tag(event_type: Option<String>, kind: Option<String>) -> (r: Option<String>)
    ensures
        r == (if event_type is Some {
            event_type
        } else {
            kind
        }),
{
    match event_type {
        Some(t) => Some(t),
        None => kind,
    }
}

pub open spec fn is_book(tag: Option<String>) -> bool {
    tag is Some && tag->Some_0@ == seq!['b', 'o', 'o', 'k']
}

/// Whether a type tag marks a book update.
pub fn is_book_tag(tag: &Option<String>) -> (r: bool)
    ensures
        r == is_book(*tag),
{
    match tag {
        Some(t) => {
            let c = chars_of(t.as_str());
            let r = c.len() == 4 && c[0] == 'b' && c[1] == 'o' && c[2] == 'o' && c[3] == 'k';
            assert(r ==> c@ =~= seq!['b', 'o', 'o', 'k']);
            r
        },
        None => false,
    }
}

/// Of the messages of one frame, given by their type tags, the first book
/// update; the others are skipped.
pub fn first_book(tags: &Vec<Option<String>>) -> (r: Option<usize>)
    ensures
        r is None <==> forall|i: int| 0 <= i < tags@.len() ==> !is_book(#[trigger] tags@[i]),
        r is Some ==> {
            let k = r->Some_0 as int;
            &&& k < tags@.len()
            &&& is_book(tags@[k])
            &&& forall|i: int| 0 <= i < k ==> !is_book(#[trigger] tags@[i])
        },
{
    let mut i: usize = 0;
    while i < tags.len()
        invariant
            i <= tags.len(),
            forall|j: int| 0 <= j < i ==> !is_book(#[trigger] tags@[j]),
        decreases tags.len() - i,
    {
        if is_book_tag(&tags[i]) {
            return Some(i);
        }
        i = i + 1;
    }
    None
}

/// A level whose price text cannot be read keeps its place in the book at
/// price zero, and every other level of that side stays in the book: in any
/// sorted side that holds the same levels as the wire array, the unreadable
/// level appears priced zero beside each of its siblings.
pub proof fn lemma_unreadable_price_is_zero(wire: Seq<OrderbookLevel>, side: Seq<Level>, descending: bool, i: int)
    requires
        0 <= i < wire.len(),
        crate::price::parsed_micros(wire[i].price@).is_none(),
        is_sorted(side, descending),
        side.to_multiset() == levels_of(wire).to_multiset(),
    ensures
        side.contains(Level { price: 0, size: micros_or_zero(wire[i].size@) as i64 }),
        forall|j: int| 0 <= j < wire.len() ==> side.contains(#[trigger] level_of(wire[j])),
        side.len() == wire.len(),
{
    assert forall|j: int| 0 <= j < wire.len() implies side.contains(#[trigger] level_of(wire[j])) by {
        assert(levels_of(wire)[j] == level_of(wire[j]));
        assert(levels_of(wire).to_multiset().count(level_of(wire[j])) > 0);
    }
    assert(level_of(wire[i]) == Level { price: 0, size: micros_or_zero(wire[i].size@) as i64 });
    vstd::seq_lib::to_multiset_len(side);
    vstd::seq_lib::to_multiset_len(levels_of(wire));
}

} // verus!

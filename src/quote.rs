//! The canonical quote and the two venue normalizers.
use vstd::prelude::*;

verus! {

broadcast use vstd::seq_lib::group_to_multiset_ensures;

/// Fixed-point units in one cent.
pub const MICROS_PER_CENT: i64 = 10_000;

/// Cents in one whole unit.
pub const CENTS_PER_UNIT: i64 = 100;

/// The two venues being compared.
#[derive(Clone, Copy, PartialEq, Eq, Structural, Debug)]
pub enum Venue {
    /// Answers polled, signed requests; quotes in integer cents.
    Kalshi,
    /// Pushes book updates over a subscription; quotes as decimal strings.
    Polymarket,
}

/// One level of a book: price and size in millionths.
#[derive(Clone, Copy, PartialEq, Eq, Structural, Debug)]
pub struct Level {
    pub price: i64,
    pub size: i64,
}

/// Canonical snapshot of one venue. A best price of zero means that no order
/// rests on that side.
#[derive(Clone, Debug)]
pub struct Quote {
    pub venue: Venue,
    pub best_bid: i64,
    pub best_ask: i64,
    /// Sorted by descending price.
    pub bid_levels: Vec<Level>,
    /// Sorted by ascending price.
    pub ask_levels: Vec<Level>,
    /// Logical time of the update, local to the venue.
    pub received_at: u64,
}

impl Quote {
    /// Bids sorted by descending price, asks by ascending price.
    pub open spec fn wf(&self) -> bool {
        is_sorted(self.bid_levels@, true) && is_sorted(self.ask_levels@, false)
    }
}

/// `a` may stand before `b` in a book sorted in the given direction.
pub open spec fn in_order(a: Level, b: Level, descending: bool) -> bool {
    if descending {
        a.price >= b.price
    } else {
        a.price <= b.price
    }
}

pub open spec fn is_sorted(s: Seq<Level>, descending: bool) -> bool {
    forall|i: int, j: int| 0 <= i < j < s.len() ==> in_order(#[trigger] s[i], #[trigger] s[j], descending)
}

/// The levels at price `q`.
pub open spec fn priced(q: i64) -> spec_fn(Level) -> bool {
    |l: Level| l.price == q
}

/// `r` keeps the order in which levels of equal price stand in `v`.
pub open spec fn keeps_tie_order(r: Seq<Level>, v: Seq<Level>) -> bool {
    forall|q: i64| #[trigger] r.filter(priced(q)) == v.filter(priced(q))
}

/// The best price of a sorted side: its first level's, or zero when empty.
pub open spec fn best_price(s: Seq<Level>) -> int {
    if s.len() > 0 {
        s[0].price as int
    } else {
        0
    }
}

fn stands_before(a: Level, b: Level, descending: bool) -> (r: bool)
    ensures
        r == in_order(a, b, descending),
{
    if descending {
        a.price >= b.price
    } else {
        a.price <= b.price
    }
}

/// Sorts levels by price, ascending or descending; levels of equal price keep
/// their order of arrival.
pub fn sort_levels(v: &Vec<Level>, descending: bool) -> (r: Vec<Level>)
    ensures
        is_sorted(r@, descending),
        r@.to_multiset() == v@.to_multiset(),
        keeps_tie_order(r@, v@),
{
    let mut r: Vec<Level> = Vec::new();
    let mut i: usize = 0;
    assert(r@ =~= v@.take(0));
    while i < v.len()
        invariant
            i <= v.len(),
            is_sorted(r@, descending),
            r@.to_multiset() == v@.take(i as int).to_multiset(),
            keeps_tie_order(r@, v@.take(i as int)),
        decreases v.len() - i,
    {
        let x = v[i];
        // Insert after every level that may stand before `x`.
        let mut p: usize = 0;
        while p < r.len() && stands_before(r[p], x, descending)
            invariant
                p <= r.len(),
                forall|k: int| 0 <= k < p ==> in_order(#[trigger] r@[k], x, descending),
            decreases r.len() - p,
        {
            p = p + 1;
        }
        let ghost old_r = r@;
        r.insert(p, x);
        proof {
            assert(r@ == old_r.insert(p as int, x));
            assert forall|a: int, b: int| 0 <= a < b < r@.len() implies in_order(
                #[trigger] r@[a],
                #[trigger] r@[b],
                descending,
            ) by {
                if b == p {
                } else if a == p {
                    assert(!in_order(old_r[p as int], x, descending));
                    assert(in_order(old_r[p as int], old_r[b - 1], descending));
                } else if a < p && b > p {
                    assert(in_order(old_r[a], x, descending));
                    assert(in_order(old_r[a], old_r[b - 1], descending));
                } else if a > p {
                    assert(in_order(old_r[a - 1], old_r[b - 1], descending));
                }
            }
            assert(v@.take(i as int + 1) =~= v@.take(i as int).push(x));
            let head = old_r.take(p as int);
            let tail = old_r.skip(p as int);
            assert(old_r =~= head + tail);
            assert(r@ =~= head + seq![x] + tail);
            assert(v@.take(i as int + 1) =~= v@.take(i as int) + seq![x]);
            assert forall|q: i64| #[trigger] r@.filter(priced(q)) == v@.take(i as int + 1).filter(priced(q)) by {
                let f = priced(q);
                Seq::filter_distributes_over_add(head + seq![x], tail, f);
                Seq::filter_distributes_over_add(head, seq![x], f);
                Seq::filter_distributes_over_add(head, tail, f);
                Seq::filter_distributes_over_add(v@.take(i as int), seq![x], f);
                reveal_with_fuel(Seq::filter, 2);
                assert(seq![x].drop_last() =~= Seq::<Level>::empty());
                assert(old_r.filter(f) == v@.take(i as int).filter(f));
                if x.price == q {
                    assert forall|k: int| 0 <= k < tail.len() implies !f(#[trigger] tail[k]) by {
                        assert(tail[k] == old_r[p + k]);
                        assert(!in_order(old_r[p as int], x, descending));
                        if k > 0 {
                            assert(in_order(old_r[p as int], old_r[p + k], descending));
                        }
                    }
                    tail.lemma_all_neg_filter_empty(f);
                    assert(seq![x].filter(f) =~= seq![x]);
                } else {
                    assert(seq![x].filter(f) =~= Seq::<Level>::empty());
                }
            }
        }
        i = i + 1;
    }
    assert(v@.take(v.len() as int) =~= v@);
    r
}

} // verus!

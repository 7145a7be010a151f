//! Resolving an event slug of the pushed venue to the instrument to watch.
use vstd::prelude::*;
use vstd::string::*;
use crate::text::{chars_of, contains, find_char, first_index_of, has_infix, lower_of, lowercase};

verus! {

/// What `serde_json::from_str::<Vec<String>>` decodes from a text: the
/// strings of a JSON array of strings, or `None`.
pub uninterp spec fn json_strings_of(s: Seq<char>) -> Option<Seq<Seq<char>>>;

pub open spec fn string_views(v: Seq<String>) -> Seq<Seq<char>> {
    v.map_values(|x: String| x@)
}

/// Relies on `serde_json::from_str` into `Vec<String>`: decodes a JSON array
/// of strings; the result depends on the text alone.
#[verifier::external_body]
fn decode_string_list(s: &str) -> (r: Option<Vec<String>>)
    ensures
        r is Some == json_strings_of(s@) is Some,
        r is Some ==> string_views(r->Some_0@) == json_strings_of(s@)->Some_0,
{
    serde_json::from_str::<Vec<String>>(s).ok()
}

/// Why a slug could not be resolved.
#[derive(Clone, Copy, PartialEq, Eq, Structural, Debug)]
pub enum SlugError {
    /// The slug has no second `-`-separated segment.
    NoAnchor,
    /// The event lists no markets.
    NoMarkets,
    /// The market's token ids are not a JSON array of strings.
    BadTokenIds,
    /// The market's outcomes are not a JSON array of strings.
    BadOutcomes,
    /// No token id stands at the chosen outcome's index.
    NoAssetId,
}

/// The second `-`-separated segment of `s`, where `s` has a `-`.
pub open spec fn second_segment(s: Seq<char>) -> Option<Seq<char>> {
    let d = first_index_of(s, '-');
    if d < s.len() {
        let rest = s.skip(d + 1);
        Some(rest.take(first_index_of(rest, '-')))
    } else {
        None
    }
}

/// The team named in a slug such as `nba-dal-hou-2026-01-31`: its second
/// segment, lower-cased.
pub fn slug_anchor(slug: &str) -> (r: Option<String>)
    ensures
        second_segment(slug@) is None <==> r is None,
        r is Some ==> r->Some_0@ == lower_of(second_segment(slug@)->Some_0),
{
    let cs = chars_of(slug);
    let d = find_char(&cs, '-', 0);
    assert(cs@.skip(0) =~= cs@);
    if d == cs.len() {
        return None;
    }
    let e = find_char(&cs, '-', d + 1);
    let seg = slug.substring_char(d + 1, e);
    assert(seg@ =~= cs@.skip(d + 1).take(first_index_of(cs@.skip(d + 1), '-')));
    Some(lowercase(seg))
}

/// Words that mark a side market (a single game, a handicap, a total...)
/// rather than the match winner.
pub open spec fn side_market_words() -> Seq<Seq<char>> {
    seq![
        seq!['g', 'a', 'm', 'e'],
        seq!['b', 'l', 'o', 'o', 'd'],
        seq!['h', 'a', 'n', 'd', 'i', 'c', 'a', 'p'],
        seq!['o', '/', 'u'],
        seq!['s', 'p', 'r', 'e', 'a', 'd'],
        seq!['t', 'o', 't', 'a', 'l'],
        seq!['h', 'a', 'l', 'f'],
        seq!['1', 'h'],
        seq!['2', 'h'],
    ]
}

/// A lower-cased question names none of the side-market words.
pub open spec fn is_winner_question(q: Seq<char>) -> bool {
    forall|k: int| 0 <= k < 9 ==> !contains(q, #[trigger] side_market_words()[k])
}

fn side_market_word(k: usize) -> (r: Vec<char>)
    requires
        k < 9,
    ensures
        r@ == side_market_words()[k as int],
{
    let r = match k {
        0 => vec!['g', 'a', 'm', 'e'],
        1 => vec!['b', 'l', 'o', 'o', 'd'],
        2 => vec!['h', 'a', 'n', 'd', 'i', 'c', 'a', 'p'],
        3 => vec!['o', '/', 'u'],
        4 => vec!['s', 'p', 'r', 'e', 'a', 'd'],
        5 => vec!['t', 'o', 't', 'a', 'l'],
        6 => vec!['h', 'a', 'l', 'f'],
        7 => vec!['1', 'h'],
        _ => vec!['2', 'h'],
    };
    assert(r@ =~= side_market_words()[k as int]);
    r
}

/// Whether a lower-cased question is the match winner's.
pub fn winner_question(q: &Vec<char>) -> (r: bool)
    ensures
        r == is_winner_question(q@),
{
    let mut k: usize = 0;
    while k < 9
        invariant
            k <= 9,
            forall|j: int| 0 <= j < k ==> !contains(q@, #[trigger] side_market_words()[j]),
        decreases 9 - k,
    {
        if has_infix(q, &side_market_word(k)) {
            return false;
        }
        k = k + 1;
    }
    true
}

/// `r` is the market to watch among lower-cased questions: the first match
/// winner's question, or else the first market.
pub open spec fn is_market_pick(questions: Seq<Seq<char>>, r: int) -> bool {
    if exists|i: int| 0 <= i < questions.len() && is_winner_question(#[trigger] questions[i]) {
        0 <= r < questions.len() && is_winner_question(questions[r]) && forall|j: int|
            0 <= j < r ==> !is_winner_question(#[trigger] questions[j])
    } else {
        r == 0
    }
}

pub open spec fn char_views(v: Seq<Vec<char>>) -> Seq<Seq<char>> {
    v.map_values(|c: Vec<char>| c@)
}

/// Picks the market to watch (see `is_market_pick`) among lower-cased
/// questions; `None` exactly when there are none.
pub fn pick_match_market(questions: &Vec<Vec<char>>) -> (r: Option<usize>)
    ensures
        questions.len() == 0 <==> r is None,
        r is Some ==> is_market_pick(char_views(questions@), r->Some_0 as int),
{
    if questions.len() == 0 {
        return None;
    }
    let ghost qs = char_views(questions@);
    let mut i: usize = 0;
    while i < questions.len()
        invariant
            i <= questions.len(),
            qs == char_views(questions@),
            forall|j: int| 0 <= j < i ==> !is_winner_question(#[trigger] qs[j]),
        decreases questions.len() - i,
    {
        assert(qs[i as int] == questions@[i as int]@);
        if winner_question(&questions[i]) {
            return Some(i);
        }
        i = i + 1;
    }
    Some(0)
}

pub open spec fn lower_all(v: Seq<String>) -> Seq<Seq<char>> {
    v.map_values(|x: String| lower_of(x@))
}

fn lower_chars_all(v: &Vec<String>) -> (r: Vec<Vec<char>>)
    ensures
        r.len() == v.len(),
        char_views(r@) == lower_all(v@),
{
    let mut r: Vec<Vec<char>> = Vec::new();
    let mut i: usize = 0;
    while i < v.len()
        invariant
            i <= v.len(),
            r.len() == i,
            char_views(r@) == lower_all(v@).take(i as int),
        decreases v.len() - i,
    {
        let l = lowercase(v[i].as_str());
        r.push(chars_of(l.as_str()));
        assert(char_views(r@) =~= lower_all(v@).take(i as int + 1));
        i = i + 1;
    }
    assert(lower_all(v@).take(v.len() as int) =~= lower_all(v@));
    r
}

/// Picks the market to watch among an event's questions, compared without
/// regard to case (see `is_market_pick`).
pub fn select_match_market(questions: &Vec<String>) -> (r: Option<usize>)
    ensures
        questions.len() == 0 <==> r is None,
        r is Some ==> is_market_pick(lower_all(questions@), r->Some_0 as int),
{
    pick_match_market(&lower_chars_all(questions))
}

/// `r` is the outcome of `anchor` among lower-cased outcomes: the first that
/// contains it, or else the first.
pub open spec fn is_outcome_pick(outcomes: Seq<Seq<char>>, anchor: Seq<char>, r: int) -> bool {
    if exists|i: int| 0 <= i < outcomes.len() && contains(#[trigger] outcomes[i], anchor) {
        0 <= r < outcomes.len() && contains(outcomes[r], anchor) && forall|j: int|
            0 <= j < r ==> !contains(#[trigger] outcomes[j], anchor)
    } else {
        r == 0
    }
}

/// The outcome of `anchor` among lower-cased outcomes (see `is_outcome_pick`).
pub open spec fn outcome_pick(outcomes: Seq<Seq<char>>, anchor: Seq<char>) -> int {
    choose|k: int| is_outcome_pick(outcomes, anchor, k)
}

proof fn lemma_outcome_pick_unique(outcomes: Seq<Seq<char>>, anchor: Seq<char>, r: int)
    requires
        is_outcome_pick(outcomes, anchor, r),
    ensures
        outcome_pick(outcomes, anchor) == r,
{
    let c = outcome_pick(outcomes, anchor);
    assert(is_outcome_pick(outcomes, anchor, c));
    if exists|i: int| 0 <= i < outcomes.len() && contains(#[trigger] outcomes[i], anchor) {
        if c < r {
            assert(!contains(outcomes[c], anchor));
        } else if r < c {
            assert(!contains(outcomes[r], anchor));
        }
    }
}

/// Picks the outcome of `anchor` (see `is_outcome_pick`) among lower-cased
/// outcomes.
pub fn pick_outcome(outcomes: &Vec<Vec<char>>, anchor: &Vec<char>) -> (r: usize)
    ensures
        r as int == outcome_pick(char_views(outcomes@), anchor@),
{
    let ghost os = char_views(outcomes@);
    let mut i: usize = 0;
    while i < outcomes.len()
        invariant
            i <= outcomes.len(),
            os == char_views(outcomes@),
            forall|j: int| 0 <= j < i ==> !contains(#[trigger] os[j], anchor@),
        decreases outcomes.len() - i,
    {
        assert(os[i as int] == outcomes@[i as int]@);
        if has_infix(&outcomes[i], anchor) {
            proof {
                lemma_outcome_pick_unique(os, anchor@, i as int);
            }
            return i;
        }
        i = i + 1;
    }
    proof {
        lemma_outcome_pick_unique(os, anchor@, 0);
    }
    0
}

/// The asset id for `anchor`: the token id at the index of the anchor's
/// outcome, outcomes compared lower-cased; `None` where no token id stands
/// at that index.
pub fn select_asset_id(token_ids: &Vec<String>, outcomes: &Vec<String>, anchor: &str) -> (r: Option<String>)
    ensures
        outcome_pick(lower_all(outcomes@), anchor@) >= 0,
        ({
            let k = outcome_pick(lower_all(outcomes@), anchor@);
            if k < token_ids@.len() {
                r == Some(token_ids@[k])
            } else {
                r is None
            }
        }),
{
    let a = chars_of(anchor);
    let k = pick_outcome(&lower_chars_all(outcomes), &a);
    if k < token_ids.len() {
        Some(token_ids[k].clone())
    } else {
        None
    }
}

/// Resolves one market of the event: decodes its token ids and outcomes
/// (JSON arrays of strings) and picks the asset id for `anchor`.
pub fn asset_for_market(clob_token_ids: &str, outcomes: &str, anchor: &str) -> (r: Result<String, SlugError>)
    ensures
        json_strings_of(clob_token_ids@) is None ==> r == Err::<String, SlugError>(SlugError::BadTokenIds),
        json_strings_of(clob_token_ids@) is Some && json_strings_of(outcomes@) is None ==> r == Err::<
            String,
            SlugError,
        >(SlugError::BadOutcomes),
        json_strings_of(clob_token_ids@) is Some && json_strings_of(outcomes@) is Some ==> {
            let ids = json_strings_of(clob_token_ids@)->Some_0;
            let os = json_strings_of(outcomes@)->Some_0;
            let k = outcome_pick(os.map_values(|o: Seq<char>| lower_of(o)), anchor@);
            if k < ids.len() {
                r is Ok && r->Ok_0@ == ids[k]
            } else {
                r == Err::<String, SlugError>(SlugError::NoAssetId)
            }
        },
{
    let ids = match decode_string_list(clob_token_ids) {
        Some(v) => v,
        None => {
            return Err(SlugError::BadTokenIds);
        },
    };
    let os = match decode_string_list(outcomes) {
        Some(v) => v,
        None => {
            return Err(SlugError::BadOutcomes);
        },
    };
    assert(lower_all(os@) =~= json_strings_of(outcomes@)->Some_0.map_values(|o: Seq<char>| lower_of(o)));
    let ghost k = outcome_pick(lower_all(os@), anchor@);
    assert(ids@.len() == string_views(ids@).len());
    match select_asset_id(&ids, &os, anchor) {
        Some(id) => {
            assert(id@ == string_views(ids@)[k]);
            Ok(id)
        },
        None => Err(SlugError::NoAssetId),
    }
}

} // verus!

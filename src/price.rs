//! Decimal prices and sizes as fixed-point integers.
//!
//! A canonical price is an `i64` count of millionths of a unit: `0.62`
//! is `620_000`, one cent is `10_000`.
use vstd::prelude::*;
use crate::text::{chars_of, find_char, first_index_of};

verus! {

/// Fixed-point units in one whole unit (1.0).
pub const MICROS_PER_UNIT: i64 = 1_000_000;

pub open spec fn is_digit(c: char) -> bool {
    '0' <= c && c <= '9'
}

pub open spec fn digit_value(c: char) -> int {
    c as int - '0' as int
}

pub open spec fn all_digits(s: Seq<char>) -> bool {
    forall|i: int| 0 <= i < s.len() ==> is_digit(#[trigger] s[i])
}

/// The number that a string of decimal digits denotes.
pub open spec fn digits_value(s: Seq<char>) -> int
    decreases s.len(),
{
    if s.len() == 0 {
        0
    } else {
        digits_value(s.drop_last()) * 10 + digit_value(s.last())
    }
}

pub open spec fn pow10(n: nat) -> int
    decreases n,
{
    if n == 0 {
        1
    } else {
        10 * pow10((n - 1) as nat)
    }
}

/// Millionths contributed by the digits after the decimal point: the first
/// six digits, padded with zeros; further digits are truncated.
pub open spec fn fraction_micros(f: Seq<char>) -> int {
    if f.len() >= 6 {
        digits_value(f.take(6))
    } else {
        digits_value(f) * pow10((6 - f.len()) as nat)
    }
}

/// The digits after the first dot (empty where there is no dot).
pub open spec fn fraction_part(s: Seq<char>) -> Seq<char> {
    if first_index_of(s, '.') < s.len() {
        s.skip(first_index_of(s, '.') + 1)
    } else {
        Seq::empty()
    }
}

/// `s` is an unsigned decimal numeral: digits, optionally followed by a dot
/// and more digits, with at least one digit in all (`42`, `0.62`, `.5`, `7.`).
pub open spec fn is_decimal(s: Seq<char>) -> bool {
    &&& s.len() > 0
    &&& all_digits(s.take(first_index_of(s, '.')))
    &&& all_digits(fraction_part(s))
    &&& (first_index_of(s, '.') < s.len() ==> s.len() >= 2)
}

/// The value in millionths, truncated toward zero, of a decimal numeral;
/// `None` for any other text.
pub open spec fn decimal_micros(s: Seq<char>) -> Option<int> {
    if is_decimal(s) {
        Some(digits_value(s.take(first_index_of(s, '.'))) * 1_000_000 + fraction_micros(fraction_part(s)))
    } else {
        None
    }
}

/// What `parse_decimal` returns: the numeral's value where it fits an `i64`.
pub open spec fn parsed_micros(s: Seq<char>) -> Option<int> {
    match decimal_micros(s) {
        Some(v) => if v <= i64::MAX {
            Some(v)
        } else {
            None
        },
        None => None,
    }
}

/// The fail-soft reading of a price or size: unparsable text counts as zero.
pub open spec fn micros_or_zero(s: Seq<char>) -> int {
    match parsed_micros(s) {
        Some(v) => v,
        None => 0,
    }
}

proof fn lemma_digits_value_nonneg(s: Seq<char>)
    requires
        all_digits(s),
    ensures
        digits_value(s) >= 0,
    decreases s.len(),
{
    if s.len() > 0 {
        lemma_digits_value_nonneg(s.drop_last());
    }
}

proof fn lemma_digits_value_prefix(s: Seq<char>, i: int)
    requires
        all_digits(s),
        0 <= i <= s.len(),
    ensures
        0 <= digits_value(s.take(i)) <= digits_value(s),
    decreases s.len() - i,
{
    if i == s.len() {
        assert(s.take(i) =~= s);
        lemma_digits_value_nonneg(s);
    } else {
        lemma_digits_value_prefix(s, i + 1);
        assert(s.take(i + 1).drop_last() =~= s.take(i));
        lemma_digits_value_nonneg(s.take(i));
    }
}

proof fn lemma_fraction_nonneg(f: Seq<char>)
    requires
        all_digits(f),
    ensures
        fraction_micros(f) >= 0,
{
    if f.len() >= 6 {
        lemma_digits_value_nonneg(f.take(6));
    } else {
        lemma_digits_value_nonneg(f);
        lemma_pow10_pos((6 - f.len()) as nat);
        assert(digits_value(f) * pow10((6 - f.len()) as nat) >= 0) by (nonlinear_arith)
            requires
                digits_value(f) >= 0,
                pow10((6 - f.len()) as nat) >= 1,
        ;
    }
}

proof fn lemma_pow10_at_most_million(n: nat)
    requires
        n <= 6,
    ensures
        pow10(n) <= 1_000_000,
{
    reveal_with_fuel(pow10, 7);
}

proof fn lemma_pow10_pos(n: nat)
    ensures
        pow10(n) >= 1,
    decreases n,
{
    if n > 0 {
        lemma_pow10_pos((n - 1) as nat);
    }
}

/// Parses an unsigned decimal numeral into millionths (see `decimal_micros`).
/// `None` where the text is no such numeral or its value exceeds `i64::MAX`.
pub fn parse_decimal(s: &str) -> (r: Option<i64>)
    ensures
        r.is_some() == parsed_micros(s@).is_some(),
        r.is_some() ==> r.unwrap() as int == parsed_micros(s@).unwrap(),
{
    let cs = chars_of(s);
    let n = cs.len();
    let ghost t = s@;
    let dot = find_char(&cs, '.', 0);
    assert(t.skip(0) =~= t);
    if n == 0 || (dot < n && n < 2) {
        return None;
    }
    let ghost ip = t.take(dot as int);
    let ghost fp = fraction_part(t);
    // Integer part.
    let cap: i128 = i64::MAX as i128;
    let mut whole: i128 = 0;
    let mut i: usize = 0;
    while i < dot
        invariant
            n == t.len(),
            t == s@,
            cs@ == t,
            dot <= n,
            i <= dot,
            ip == t.take(dot as int),
            first_index_of(t, '.') == dot,
            fp == fraction_part(t),
            all_digits(ip.take(i as int)),
            whole == digits_value(ip.take(i as int)),
            0 <= whole <= cap,
            cap == i64::MAX,
        decreases dot - i,
    {
        let c = cs[i];
        assert(ip[i as int] == c);
        if !('0' <= c && c <= '9') {
            assert(!is_digit(ip[i as int]));
            return None;
        }
        proof {
            assert(ip.take(i as int + 1).drop_last() =~= ip.take(i as int));
            assert(all_digits(ip.take(i as int + 1)));
        }
        whole = whole * 10 + (c as u32 - '0' as u32) as i128;
        if whole > cap {
            proof {
                if all_digits(ip) && all_digits(fp) {
                    lemma_digits_value_prefix(ip, i as int + 1);
                    lemma_fraction_nonneg(fp);
                    let v = digits_value(ip);
                    assert(v * 1_000_000 > cap) by (nonlinear_arith)
                        requires
                            v > cap,
                            cap > 0,
                    ;
                }
            }
            return None;
        }
        i = i + 1;
    }
    assert(ip.take(dot as int) =~= ip);
    // Fraction part: the first six digits count, the rest must be digits.
    let mut frac: i128 = 0;
    let mut kept: usize = 0;
    assert(dot == n ==> fp =~= Seq::<char>::empty());
    if dot < n {
        let mut j: usize = dot + 1;
        while j < n
            invariant
                n == t.len(),
                t == s@,
                cs@ == t,
                dot < n,
                fp == t.skip(dot + 1),
                fp.len() == n - dot - 1,
                first_index_of(t, '.') == dot,
                fp == fraction_part(t),
                dot + 1 <= j <= n,
                kept <= 6,
                kept as int == if j - dot - 1 < 6 { j - dot - 1 } else { 6 },
                all_digits(fp.take(j - dot - 1)),
                frac == digits_value(fp.take(kept as int)),
                0 <= frac < pow10(kept as nat),
                pow10(kept as nat) <= 1_000_000,
            decreases n - j,
        {
            let c = cs[j];
            assert(fp[j - dot - 1] == c);
            if !('0' <= c && c <= '9') {
                assert(!is_digit(fp[j - dot - 1]));
                return None;
            }
            proof {
                assert(all_digits(fp.take(j - dot)));
            }
            if kept < 6 {
                proof {
                    assert(fp.take(kept as int + 1).drop_last() =~= fp.take(kept as int));
                    assert(frac * 10 + 10 <= pow10(kept as nat) * 10) by (nonlinear_arith)
                        requires
                            frac < pow10(kept as nat),
                    ;
                }
                frac = frac * 10 + (c as u32 - '0' as u32) as i128;
                kept = kept + 1;
                proof {
                    lemma_pow10_at_most_million(kept as nat);
                }
            }
            j = j + 1;
        }
        assert(fp.take(fp.len() as int) =~= fp);
    }
    proof {
        reveal_with_fuel(pow10, 7);
    }
    let ghost k0 = kept;
    assert(all_digits(fp));
    assert(frac == digits_value(fp.take(kept as int)));
    assert(kept as int == if fp.len() < 6 { fp.len() as int } else { 6 });
    assert(pow10(0) == 1);
    assert((kept - k0) as nat == 0);
    assert(frac == digits_value(fp.take(k0 as int)) * pow10((kept - k0) as nat));
    proof {
        lemma_pow10_pos(kept as nat);
    }
    // Pad to six places.
    while kept < 6
        invariant
            k0 <= kept <= 6,
            frac == digits_value(fp.take(k0 as int)) * pow10((kept - k0) as nat),
            0 <= frac < pow10(kept as nat),
            pow10(kept as nat) <= 1_000_000,
        decreases 6 - kept,
    {
        let ghost d = digits_value(fp.take(k0 as int));
        let ghost p = pow10((kept - k0) as nat);
        proof {
            assert(pow10((kept + 1 - k0) as nat) == 10 * pow10((kept - k0) as nat));
            assert(pow10((kept + 1) as nat) == 10 * pow10(kept as nat));
        }
        assert(frac * 10 == d * (10 * p)) by (nonlinear_arith)
            requires
                frac == d * p,
        ;
        frac = frac * 10;
        kept = kept + 1;
        proof {
            lemma_pow10_at_most_million(kept as nat);
        }
    }
    proof {
        if fp.len() < 6 {
            assert(fp.take(k0 as int) =~= fp);
        }
    }
    assert(fraction_micros(fp) == frac);
    let total: i128 = whole * 1_000_000 + frac;
    if total > cap {
        return None;
    }
    Some(total as i64)
}

/// Reads a price or size fail-soft: zero where `parse_decimal` fails.
pub fn parse_or_zero(s: &str) -> (r: i64)
    ensures
        r as int == micros_or_zero(s@),
{
    match parse_decimal(s) {
        Some(v) => v,
        None => 0,
    }
}

} // verus!

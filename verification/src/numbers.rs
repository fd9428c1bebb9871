//! Decimal integers in text, read as `str::parse::<i64>` reads them.

use vstd::prelude::*;

use crate::text::{digit_value, is_digit};

verus! {

/// Whether every character is an ASCII digit.
pub open spec fn all_digit(s: Seq<char>) -> bool {
    forall|k: int| 0 <= k < s.len() ==> is_digit(#[trigger] s[k])
}

/// The value of a run of ASCII digits.
pub open spec fn digits_value(s: Seq<char>) -> int
    decreases s.len(),
{
    if s.len() == 0 {
        0
    } else {
        digits_value(s.drop_last()) * 10 + digit_value(s.last())
    }
}

/// `str::parse::<i64>`: an optional `+` or `-`, then one or more ASCII
/// digits whose value is within range.
pub open spec fn parse_i64_spec(s: Seq<char>) -> Option<i64> {
    if s.len() > 0 && s[0] == '-' {
        let d = s.drop_first();
        if d.len() > 0 && all_digit(d) && digits_value(d) <= i64::MAX + 1 {
            Some((-digits_value(d)) as i64)
        } else {
            None
        }
    } else {
        let d = if s.len() > 0 && s[0] == '+' {
            s.drop_first()
        } else {
            s
        };
        if d.len() > 0 && all_digit(d) && digits_value(d) <= i64::MAX {
            Some(digits_value(d) as i64)
        } else {
            None
        }
    }
}

proof fn lemma_digits_nonneg(s: Seq<char>)
    requires
        all_digit(s),
    ensures
        digits_value(s) >= 0,
    decreases s.len(),
{
    if s.len() > 0 {
        assert(all_digit(s.drop_last()));
        lemma_digits_nonneg(s.drop_last());
        assert(is_digit(s[s.len() - 1]));
    }
}

proof fn lemma_digits_mono(s: Seq<char>, j: int)
    requires
        all_digit(s),
        0 <= j <= s.len(),
    ensures
        digits_value(s.take(j)) <= digits_value(s),
    decreases s.len(),
{
    if j < s.len() {
        assert(all_digit(s.drop_last()));
        lemma_digits_mono(s.drop_last(), j);
        assert(s.drop_last().take(j) == s.take(j));
        lemma_digits_nonneg(s.drop_last());
        assert(is_digit(s[s.len() - 1]));
    } else {
        assert(s.take(j) == s);
    }
}

/// Reads the digits of `s` from `start` on, up to `limit`: `None` when one is
/// not an ASCII digit or the value exceeds `limit`.
fn digits_upto(s: &Vec<char>, start: usize, limit: i128) -> (r: Option<i128>)
    requires
        start <= s.len(),
        0 <= limit <= i64::MAX + 1,
    ensures
        r matches Some(v) ==> all_digit(s@.skip(start as int)) && v == digits_value(s@.skip(start as int)) && 0 <= v <= limit,
        r is None ==> !(all_digit(s@.skip(start as int)) && digits_value(s@.skip(start as int)) <= limit),
{
    let ghost d = s@.skip(start as int);
    let mut v: i128 = 0;
    let mut i: usize = start;
    while i < s.len()
        invariant
            start <= i <= s.len(),
            d == s@.skip(start as int),
            0 <= limit <= i64::MAX + 1,
            all_digit(d.take(i - start)),
            v == digits_value(d.take(i - start)),
            0 <= v <= limit,
        decreases s.len() - i,
    {
        let c = s[i];
        if !('0' <= c && c <= '9') {
            proof {
                assert(d[i - start] == c);
            }
            return None;
        }
        let dv: i128 = (c as u32 - '0' as u32) as i128;
        proof {
            assert(d.take(i - start + 1).drop_last() == d.take(i - start));
            assert(d.take(i - start + 1).last() == c);
            assert(all_digit(d.take(i - start + 1)));
        }
        v = v * 10 + dv;
        i = i + 1;
        if v > limit {
            proof {
                if all_digit(d) {
                    lemma_digits_mono(d, i - start);
                }
            }
            return None;
        }
    }
    assert(d.take(s.len() - start) == d);
    Some(v)
}

/// Parses a decimal `i64` as `str::parse::<i64>` does.
pub fn parse_i64(text: &str) -> (r: Option<i64>)
    ensures
        r == parse_i64_spec(text@),
{
    let s = crate::text::chars_of(text);
    if s.len() > 0 && s[0] == '-' {
        assert(s@.skip(1) == s@.drop_first());
        if s.len() == 1 {
            return None;
        }
        match digits_upto(&s, 1, 9223372036854775808) {
            Some(v) => Some((-v) as i64),
            None => None,
        }
    } else {
        let start: usize = if s.len() > 0 && s[0] == '+' { 1 } else { 0 };
        if s.len() > 0 {
            assert(s@.skip(1) == s@.drop_first());
        }
        assert(s@.skip(0) == s@);
        if start == s.len() {
            return None;
        }
        match digits_upto(&s, start, 9223372036854775807) {
            Some(v) => Some(v as i64),
            None => None,
        }
    }
}

} // verus!

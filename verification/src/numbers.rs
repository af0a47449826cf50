//! Decimal integer parsing as `str::parse` does it for `u8` and `i32`.

use vstd::prelude::*;

verus! {

pub open spec fn is_digit(c: char) -> bool {
    '0' <= c && c <= '9'
}

pub open spec fn all_digits(d: Seq<char>) -> bool {
    forall|i: int| 0 <= i < d.len() ==> is_digit(#[trigger] d[i])
}

/// The value of a decimal digit string.
pub open spec fn digits_value(d: Seq<char>) -> int
    decreases d.len(),
{
    if d.len() == 0 {
        0
    } else {
        digits_value(d.drop_last()) * 10 + (d.last() as int - '0' as int)
    }
}

/// The digits of a number text after an optional leading sign; `allow_minus`
/// says whether `-` counts as a sign (it does for signed types only).
pub open spec fn unsigned_part(s: Seq<char>, allow_minus: bool) -> Seq<char> {
    if s.len() > 0 && (s[0] == '+' || (allow_minus && s[0] == '-')) {
        s.drop_first()
    } else {
        s
    }
}

/// `str::parse::<u8>`: an optional `+`, then one or more ASCII digits whose
/// value is at most 255.
pub open spec fn spec_parse_u8(s: Seq<char>) -> Option<u8> {
    let d = unsigned_part(s, false);
    if d.len() > 0 && all_digits(d) && digits_value(d) <= 255 {
        Some(digits_value(d) as u8)
    } else {
        None
    }
}

/// `str::parse::<i32>`: an optional `+` or `-`, then one or more ASCII digits
/// whose signed value fits `i32`.
pub open spec fn spec_parse_i32(s: Seq<char>) -> Option<i32> {
    let d = unsigned_part(s, true);
    let negative = s.len() > 0 && s[0] == '-';
    let v = if negative {
        -digits_value(d)
    } else {
        digits_value(d)
    };
    if d.len() > 0 && all_digits(d) && i32::MIN <= v <= i32::MAX {
        Some(v as i32)
    } else {
        None
    }
}

proof fn lemma_digits_value_nonneg(d: Seq<char>)
    requires
        all_digits(d),
    ensures
        digits_value(d) >= 0,
    decreases d.len(),
{
    if d.len() > 0 {
        assert(all_digits(d.drop_last())) by {
            assert forall|i: int| 0 <= i < d.drop_last().len() implies is_digit(
                #[trigger] d.drop_last()[i],
            ) by {
                assert(d.drop_last()[i] == d[i]);
            }
        }
        lemma_digits_value_nonneg(d.drop_last());
        assert(is_digit(d[d.len() - 1]));
    }
}

proof fn lemma_digits_value_grows(d: Seq<char>, k: int)
    requires
        all_digits(d),
        0 <= k <= d.len(),
    ensures
        digits_value(d) >= digits_value(d.take(k)),
    decreases d.len() - k,
{
    if k < d.len() {
        lemma_digits_value_grows(d, k + 1);
        let t = d.take(k + 1);
        assert(t.drop_last() == d.take(k));
        assert(all_digits(d.take(k))) by {
            assert forall|i: int| 0 <= i < d.take(k).len() implies is_digit(
                #[trigger] d.take(k)[i],
            ) by {
                assert(d.take(k)[i] == d[i]);
            }
        }
        lemma_digits_value_nonneg(d.take(k));
        assert(is_digit(d[k]));
        assert(t.last() == d[k]);
    } else {
        assert(d.take(k) == d);
    }
}

/// The value of the ASCII digits `d`, when they are all digits and their value
/// is at most `limit`.
fn parse_digits(d: &Vec<char>, limit: u64) -> (r: Option<u64>)
    requires
        limit <= 0xffff_ffff,
    ensures
        r matches Some(v) ==> d@.len() > 0 && all_digits(d@) && v == digits_value(d@) && v
            <= limit,
        r is None ==> !(d@.len() > 0 && all_digits(d@) && digits_value(d@) <= limit),
{
    if d.len() == 0 {
        return None;
    }
    let mut value: u64 = 0;
    let mut i: usize = 0;
    while i < d.len()
        invariant
            limit <= 0xffff_ffff,
            i <= d.len(),
            all_digits(d@.take(i as int)),
            value == digits_value(d@.take(i as int)),
            value <= limit,
        decreases d.len() - i,
    {
        let c = d[i];
        assert(d@.take(i + 1).drop_last() == d@.take(i as int));
        assert(d@.take(i + 1).last() == c);
        if !('0' <= c && c <= '9') {
            assert(!is_digit(d@[i as int]));
            return None;
        }
        let digit = (c as u32 - '0' as u32) as u64;
        let next = value * 10 + digit;
        assert(all_digits(d@.take(i + 1))) by {
            assert forall|j: int| 0 <= j < d@.take(i + 1).len() implies is_digit(
                #[trigger] d@.take(i + 1)[j],
            ) by {
                if j < i {
                    assert(d@.take(i + 1)[j] == d@.take(i as int)[j]);
                }
            }
        }
        if next > limit {
            proof {
                if all_digits(d@) {
                    lemma_digits_value_grows(d@, i + 1);
                }
            }
            return None;
        }
        value = next;
        i += 1;
    }
    assert(d@.take(i as int) == d@);
    Some(value)
}

/// The characters of `s` after an optional sign (`-` only when `allow_minus`).
fn unsigned_digits(s: &Vec<char>, allow_minus: bool) -> (d: Vec<char>)
    ensures
        d@ == unsigned_part(s@, allow_minus),
{
    let start: usize = if s.len() > 0 && (s[0] == '+' || (allow_minus && s[0] == '-')) {
        1
    } else {
        0
    };
    let mut d: Vec<char> = Vec::new();
    let mut i = start;
    while i < s.len()
        invariant
            start <= i <= s.len(),
            d@ == s@.subrange(start as int, i as int),
        decreases s.len() - i,
    {
        d.push(s[i]);
        i += 1;
        assert(d@ == s@.subrange(start as int, i as int));
    }
    d
}

/// `str::parse::<u8>` over characters.
pub fn parse_u8(s: &Vec<char>) -> (r: Option<u8>)
    ensures
        r == spec_parse_u8(s@),
{
    let d = unsigned_digits(s, false);
    match parse_digits(&d, 255) {
        Some(v) => Some(v as u8),
        None => None,
    }
}

/// `str::parse::<i32>` over characters.
pub fn parse_i32(s: &Vec<char>) -> (r: Option<i32>)
    ensures
        r == spec_parse_i32(s@),
{
    let negative = s.len() > 0 && s[0] == '-';
    let d = unsigned_digits(s, true);
    if negative {
        match parse_digits(&d, 2147483648) {
            Some(v) => {
                let r = (0i64 - v as i64) as i32;
                Some(r)
            },
            None => None,
        }
    } else {
        match parse_digits(&d, 2147483647) {
            Some(v) => Some(v as i32),
            None => None,
        }
    }
}

} // verus!

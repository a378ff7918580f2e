//! Decimal numbers in text: parsing digit strings the way `str::parse` does
//! for unsigned integers, and printing small numbers.
use vstd::prelude::*;
use crate::text::{is_ascii_digit, is_digit};

verus! {

pub open spec fn digit_value(c: char) -> nat {
    ((c as u32) - ('0' as u32)) as nat
}

pub open spec fn all_digits(s: Seq<char>) -> bool {
    forall|i: int| 0 <= i < s.len() ==> is_ascii_digit(#[trigger] s[i])
}

/// The number that a string of decimal digits denotes.
pub open spec fn digits_value(s: Seq<char>) -> nat
    decreases s.len(),
{
    if s.len() == 0 {
        0
    } else {
        digits_value(s.drop_last()) * 10 + digit_value(s.last())
    }
}

/// What `str::parse::<uN>` accepts: an optional `+`, then at least one ASCII
/// digit and nothing else, with a value at most `max`.
pub open spec fn unsigned_text(s: Seq<char>) -> Seq<char> {
    if s.len() > 0 && s[0] == '+' {
        s.skip(1)
    } else {
        s
    }
}

pub open spec fn parses_unsigned(s: Seq<char>, max: nat) -> bool {
    let d = unsigned_text(s);
    &&& d.len() > 0
    &&& all_digits(d)
    &&& digits_value(d) <= max
}

pub open spec fn parse_u8_spec(s: Seq<char>) -> Option<u8> {
    if parses_unsigned(s, 255) {
        Some(digits_value(unsigned_text(s)) as u8)
    } else {
        None
    }
}

pub open spec fn parse_u32_spec(s: Seq<char>) -> Option<u32> {
    if parses_unsigned(s, 0xffff_ffff) {
        Some(digits_value(unsigned_text(s)) as u32)
    } else {
        None
    }
}

pub proof fn lemma_digits_value_grows(s: Seq<char>, i: int, j: int)
    requires
        0 <= i <= j <= s.len(),
        all_digits(s.take(j)),
    ensures
        digits_value(s.take(i)) <= digits_value(s.take(j)),
    decreases j - i,
{
    if i < j {
        assert(s.take(j).drop_last() =~= s.take(j - 1));
        assert(all_digits(s.take(j - 1))) by {
            assert forall|k: int| 0 <= k < s.take(j - 1).len() implies is_ascii_digit(
                #[trigger] s.take(j - 1)[k],
            ) by {
                assert(s.take(j - 1)[k] == s.take(j)[k]);
            }
        }
        lemma_digits_value_grows(s, i, j - 1);
    }
}

/// The value of the digits `d[from..]`, when they are all digits and the value
/// is at most `max`.
fn digits_up_to(d: &Vec<char>, from: usize, max: u64) -> (r: Option<u64>)
    requires
        from <= d.len(),
        max < 0x1_0000_0000,
    ensures
        ({
            let t = d@.skip(from as int);
            match r {
                Some(v) => t.len() > 0 && all_digits(t) && digits_value(t) <= max && v == digits_value(t),
                None => !(t.len() > 0 && all_digits(t) && digits_value(t) <= max),
            }
        }),
{
    let ghost t = d@.skip(from as int);
    if from == d.len() {
        return None;
    }
    let mut acc: u64 = 0;
    let mut i = from;
    while i < d.len()
        invariant
            from <= i <= d.len(),
            max < 0x1_0000_0000,
            t == d@.skip(from as int),
            all_digits(t.take(i - from)),
            acc == digits_value(t.take(i - from)),
            acc <= max,
        decreases d.len() - i,
    {
        let c = d[i];
        if !is_digit(c) {
            proof {
                assert(t[i - from] == c);
            }
            return None;
        }
        let ghost k = i - from;
        assert(t.take(k + 1).drop_last() =~= t.take(k));
        assert(t.take(k + 1).last() == c);
        acc = acc * 10 + ((c as u32) - ('0' as u32)) as u64;
        assert(all_digits(t.take(k + 1))) by {
            assert forall|m: int| 0 <= m < t.take(k + 1).len() implies is_ascii_digit(
                #[trigger] t.take(k + 1)[m],
            ) by {
                if m < k {
                    assert(t.take(k + 1)[m] == t.take(k)[m]);
                }
            }
        }
        i += 1;
        if acc > max {
            proof {
                if all_digits(t) {
                    assert(t.take(t.len() as int) =~= t);
                    lemma_digits_value_grows(t, i - from, t.len() as int);
                }
            }
            return None;
        }
    }
    assert(t.take(i - from) =~= t);
    Some(acc)
}

/// `str::parse::<u8>`.
pub fn parse_u8(s: &Vec<char>) -> (r: Option<u8>)
    ensures
        r == parse_u8_spec(s@),
{
    let from: usize = if s.len() > 0 && s[0] == '+' { 1 } else { 0 };
    assert(unsigned_text(s@) =~= s@.skip(from as int));
    match digits_up_to(s, from, 255) {
        Some(v) => Some(v as u8),
        None => None,
    }
}

/// `str::parse::<u32>`.
pub fn parse_u32(s: &Vec<char>) -> (r: Option<u32>)
    ensures
        r == parse_u32_spec(s@),
{
    let from: usize = if s.len() > 0 && s[0] == '+' { 1 } else { 0 };
    assert(unsigned_text(s@) =~= s@.skip(from as int));
    match digits_up_to(s, from, 0xffff_ffff) {
        Some(v) => Some(v as u32),
        None => None,
    }
}

/// The decimal text of a small number, without leading zeros.
pub open spec fn decimal_text(n: nat) -> Seq<char>
    decreases n,
{
    if n < 10 {
        seq![(n + ('0' as u32)) as char]
    } else {
        decimal_text(n / 10).push(((n % 10) + ('0' as u32)) as char)
    }
}

pub fn u8_decimal(n: u8) -> (r: Vec<char>)
    ensures
        r@ == decimal_text(n as nat),
{
    let mut r: Vec<char> = Vec::new();
    if n >= 100 {
        r.push(((n / 100) + 48) as char);
    }
    if n >= 10 {
        r.push((((n / 10) % 10) + 48) as char);
    }
    r.push(((n % 10) + 48) as char);
    proof {
        let m = n as nat;
        if m >= 100 {
            assert(decimal_text(m / 100) == seq![((m / 100) + ('0' as u32)) as char]);
            assert(decimal_text(m / 10) =~= decimal_text((m / 10) / 10).push((((m / 10) % 10) + ('0' as u32)) as char));
            assert((m / 10) / 10 == m / 100);
        } else if m >= 10 {
            assert(decimal_text(m / 10) == seq![((m / 10) + ('0' as u32)) as char]);
        }
    }
    r
}

} // verus!

//! Numbers as ASCII decimal text.

use vstd::prelude::*;

verus! {

/// `c` is one of `0..9`.
pub open spec fn is_digit(c: u8) -> bool {
    0x30 <= c <= 0x39
}

/// Every byte of `text` is a decimal digit.
pub open spec fn all_digits(text: Seq<u8>) -> bool {
    forall|i: int| 0 <= i < text.len() ==> is_digit(#[trigger] text[i])
}

/// The number that the digits of `text` make, the first being the most
/// significant. No digits make 0.
pub open spec fn digits_value(text: Seq<u8>) -> nat
    decreases text.len(),
{
    if text.len() == 0 {
        0
    } else {
        10 * digits_value(text.drop_last()) + (text.last() - 0x30) as nat
    }
}

/// `text` without the plus sign that may stand in front of it.
pub open spec fn unsigned_part(text: Seq<u8>) -> Seq<u8> {
    if text.len() > 0 && text[0] == 0x2B {
        text.skip(1)
    } else {
        text
    }
}

/// The number below 256 that `text` states in base 10: an optional plus sign
/// and then one or more digits, with nothing before, between or after them.
pub open spec fn decimal_u8(text: Seq<u8>) -> Option<u8> {
    let digits = unsigned_part(text);
    if digits.len() > 0 && all_digits(digits) && digits_value(digits) <= 255 {
        Some(digits_value(digits) as u8)
    } else {
        None
    }
}

/// `value` in base 10, without zeros in front.
pub open spec fn decimal_text(value: nat) -> Seq<u8>
    decreases value,
{
    if value < 10 {
        seq![(0x30 + value) as u8]
    } else {
        decimal_text(value / 10).push((0x30 + value % 10) as u8)
    }
}

/// More digits never make a smaller number.
pub proof fn lemma_digits_value_grows(text: Seq<u8>, n: int)
    requires
        all_digits(text),
        0 <= n <= text.len(),
    ensures
        digits_value(text.take(n)) <= digits_value(text),
    decreases text.len() - n,
{
    if n == text.len() {
        assert(text.take(n) =~= text);
    } else {
        lemma_digits_value_grows(text, n + 1);
        assert(text.take(n + 1).drop_last() =~= text.take(n));
    }
}

/// Reads a number below 256 from ASCII decimal text.
pub fn parse_u8(text: &[u8]) -> (value: Option<u8>)
    ensures
        value == decimal_u8(text@),
{
    let start: usize = if text.len() > 0 && text[0] == 0x2B {
        1
    } else {
        0
    };
    let ghost digits = unsigned_part(text@);
    if start == text.len() {
        return None;
    }
    let mut total: u32 = 0;
    let mut i: usize = start;
    while i < text.len()
        invariant
            start <= i <= text.len(),
            digits == text@.skip(start as int),
            digits == unsigned_part(text@),
            all_digits(digits.take(i - start)),
            total == digits_value(digits.take(i - start)),
            total <= 255,
        decreases text.len() - i,
    {
        let c = text[i];
        let ghost seen = digits.take(i - start);
        let ghost next = digits.take(i - start + 1);
        assert(next.drop_last() =~= seen);
        if c < 0x30 || c > 0x39 {
            assert(!is_digit(digits[i - start]));
            return None;
        }
        assert(all_digits(next));
        total = total * 10 + (c - 0x30) as u32;
        if total > 255 {
            proof {
                if all_digits(digits) {
                    lemma_digits_value_grows(digits, i - start + 1);
                }
            }
            return None;
        }
        i = i + 1;
    }
    assert(digits.take(i - start) =~= digits);
    Some(total as u8)
}

/// The decimal digit for `d`, which is below 10.
fn digit(d: u64) -> (c: u8)
    requires
        d < 10,
    ensures
        c == 0x30 + d,
{
    0x30 + d as u8
}

/// Appends `value` in base 10 to `out`.
pub fn push_decimal(out: &mut Vec<u8>, value: u64)
    ensures
        final(out)@ == old(out)@ + decimal_text(value as nat),
{
    let mut rest: u64 = value;
    let mut low: Vec<u8> = Vec::new();
    while rest >= 10
        invariant
            decimal_text(value as nat) == decimal_text(rest as nat) + low@.reverse(),
        decreases rest,
    {
        low.push(digit(rest % 10));
        rest = rest / 10;
    }
    let ghost start = out@;
    out.push(digit(rest));
    let mut i: usize = low.len();
    while i > 0
        invariant
            i <= low.len(),
            out@ == start + decimal_text(rest as nat) + low@.reverse().take(low.len() - i),
        decreases i,
    {
        i = i - 1;
        out.push(low[i]);
    }
}

/// What is written for a number is digits and nothing else.
pub proof fn lemma_decimal_text_is_digits(value: nat)
    ensures
        decimal_text(value).len() > 0,
        all_digits(decimal_text(value)),
    decreases value,
{
    if value >= 10 {
        lemma_decimal_text_is_digits(value / 10);
    }
}

/// What was written for a number reads back as that number.
pub proof fn lemma_decimal_round_trip(value: u8)
    ensures
        decimal_u8(decimal_text(value as nat)) == Some(value),
{
    reveal_with_fuel(decimal_text, 3);
    reveal_with_fuel(digits_value, 4);
}

} // verus!

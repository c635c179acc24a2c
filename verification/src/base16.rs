//! Hexadecimal text: what it decodes to, and how a number is written in it.

use vstd::prelude::*;

verus! {

/// `hex::FromHexError`, the error of `hex::decode`. Nothing is known of what
/// it holds.
#[verifier::external_type_specification]
#[verifier::external_body]
pub struct ExFromHexError(hex::FromHexError);

/// `c` is one of `0..9`, `a..f`, `A..F`.
pub open spec fn is_hex_digit(c: u8) -> bool {
    (0x30 <= c <= 0x39) || (0x41 <= c <= 0x46) || (0x61 <= c <= 0x66)
}

/// The number that the hex digit `c` stands for.
pub open spec fn hex_digit_value(c: u8) -> int {
    if 0x30 <= c <= 0x39 {
        c - 0x30
    } else if 0x41 <= c <= 0x46 {
        c - 0x41 + 10
    } else {
        c - 0x61 + 10
    }
}

/// `text` is an even number of hex digits.
pub open spec fn is_hex_text(text: Seq<u8>) -> bool {
    &&& text.len() % 2 == 0
    &&& forall|i: int| 0 <= i < text.len() ==> is_hex_digit(#[trigger] text[i])
}

/// The bytes that `text` stands for: one for each pair of digits, the first
/// digit of a pair being the upper half of its byte.
pub open spec fn hex_bytes(text: Seq<u8>) -> Seq<u8> {
    Seq::new(
        text.len() / 2,
        |i: int| (16 * hex_digit_value(text[2 * i]) + hex_digit_value(text[2 * i + 1])) as u8,
    )
}

/// `hex::decode`: the bytes that `text` stands for. It succeeds on an even
/// number of hex digits of either case, and on nothing else.
#[verifier::external_body]
pub(crate) fn hex_decode(text: &[u8]) -> (bytes: Result<Vec<u8>, hex::FromHexError>)
    ensures
        bytes is Ok <==> is_hex_text(text@),
        bytes matches Ok(b) ==> b@ == hex_bytes(text@),
{
    hex::decode(text)
}

/// The upper-case hex digit for `d`, which is below 16.
pub open spec fn hex_digit_upper(d: nat) -> u8 {
    if d < 10 {
        (0x30 + d) as u8
    } else {
        (0x41 + d - 10) as u8
    }
}

/// `value` in upper-case hex, most significant digit first, with zeros in
/// front until there are `width` digits. There is always at least one digit.
pub open spec fn hex_upper(value: nat, width: nat) -> Seq<u8>
    decreases value, width,
{
    if value < 16 && width <= 1 {
        seq![hex_digit_upper(value)]
    } else {
        hex_upper(value / 16, if width == 0 { 0 } else { (width - 1) as nat }).push(
            hex_digit_upper(value % 16),
        )
    }
}

fn digit_upper(d: u8) -> (c: u8)
    requires
        d < 16,
    ensures
        c == hex_digit_upper(d as nat),
{
    if d < 10 {
        0x30 + d
    } else {
        0x41 + (d - 10)
    }
}

/// Appends `value` in upper-case hex to `out`, with zeros in front until
/// there are `width` digits.
pub fn push_hex_upper(out: &mut Vec<u8>, value: u64, width: usize)
    ensures
        final(out)@ == old(out)@ + hex_upper(value as nat, width as nat),
{
    let mut rest: u64 = value;
    let mut need: usize = width;
    let mut low: Vec<u8> = Vec::new();
    while rest >= 16 || need > 1
        invariant
            hex_upper(value as nat, width as nat) == hex_upper(rest as nat, need as nat)
                + low@.reverse(),
        decreases rest, need,
    {
        low.push(digit_upper((rest % 16) as u8));
        rest = rest / 16;
        if need > 0 {
            need = need - 1;
        }
    }
    let ghost start = out@;
    out.push(digit_upper(rest as u8));
    let mut i: usize = low.len();
    while i > 0
        invariant
            i <= low.len(),
            out@ == start + hex_upper(rest as nat, need as nat) + low@.reverse().take(
                low.len() - i,
            ),
        decreases i,
    {
        i = i - 1;
        out.push(low[i]);
    }
}

/// The upper-case digit for `d` is a hex digit that stands for `d`.
pub proof fn lemma_hex_digit_upper(d: nat)
    requires
        d < 16,
    ensures
        is_hex_digit(hex_digit_upper(d)),
        hex_digit_value(hex_digit_upper(d)) == d,
{
}

/// The six digits of a number below 2^24, most significant first.
spec fn six_digits(value: nat) -> Seq<nat> {
    seq![
        value / 0x100000,
        value / 0x10000 % 16,
        value / 0x1000 % 16,
        value / 0x100 % 16,
        value / 0x10 % 16,
        value % 16,
    ]
}

proof fn lemma_nibbles(v: u32)
    requires
        v < 0x1000000,
    ensures
        v / 16 / 16 == v / 0x100,
        v / 16 / 16 / 16 == v / 0x1000,
        v / 16 / 16 / 16 / 16 == v / 0x10000,
        v / 16 / 16 / 16 / 16 / 16 == v / 0x100000,
        v / 0x100000 < 16,
        16 * (v / 0x100000) + v / 0x10000 % 16 == v / 0x10000,
        16 * (v / 0x1000 % 16) + v / 0x100 % 16 == v / 0x100 % 0x100,
        16 * (v / 0x10 % 16) + v % 16 == v % 0x100,
{
    assert(v / 16 / 16 == v / 0x100 && v / 16 / 16 / 16 == v / 0x1000 && v / 16 / 16 / 16 / 16 == v
        / 0x10000 && v / 16 / 16 / 16 / 16 / 16 == v / 0x100000 && v / 0x100000 < 16) by (bit_vector)
        requires
            v < 0x1000000,
    ;
    assert(16 * (v / 0x100000) + v / 0x10000 % 16 == v / 0x10000 && 16 * (v / 0x1000 % 16) + v
        / 0x100 % 16 == v / 0x100 % 0x100 && 16 * (v / 0x10 % 16) + v % 16 == v % 0x100)
        by (bit_vector)
        requires
            v < 0x1000000,
    ;
}

proof fn lemma_six_digits(value: nat)
    requires
        value < 0x1000000,
    ensures
        hex_upper(value, 6) == six_digits(value).map_values(|d: nat| hex_digit_upper(d)),
        forall|i: int| 0 <= i < 6 ==> #[trigger] six_digits(value)[i] < 16,
{
    lemma_nibbles(value as u32);
    let q1 = value / 16;
    let q2 = q1 / 16;
    let q3 = q2 / 16;
    let q4 = q3 / 16;
    let q5 = q4 / 16;
    assert(hex_upper(q5, 1) == seq![hex_digit_upper(q5)]);
    assert(hex_upper(q4, 2) == hex_upper(q5, 1).push(hex_digit_upper(q4 % 16)));
    assert(hex_upper(q3, 3) == hex_upper(q4, 2).push(hex_digit_upper(q3 % 16)));
    assert(hex_upper(q2, 4) == hex_upper(q3, 3).push(hex_digit_upper(q2 % 16)));
    assert(hex_upper(q1, 5) == hex_upper(q2, 4).push(hex_digit_upper(q1 % 16)));
    assert(hex_upper(value, 6) == hex_upper(q1, 5).push(hex_digit_upper(value % 16)));
    assert(hex_upper(value, 6) =~= six_digits(value).map_values(|d: nat| hex_digit_upper(d)));
}

proof fn lemma_three_bytes(d: Seq<nat>)
    requires
        d.len() == 6,
        forall|i: int| 0 <= i < 6 ==> #[trigger] d[i] < 16,
    ensures
        is_hex_text(d.map_values(|d: nat| hex_digit_upper(d))),
        hex_bytes(d.map_values(|d: nat| hex_digit_upper(d))) == seq![
            (16 * d[0] + d[1]) as u8,
            (16 * d[2] + d[3]) as u8,
            (16 * d[4] + d[5]) as u8,
        ],
{
    let text = d.map_values(|d: nat| hex_digit_upper(d));
    assert forall|i: int| 0 <= i < 6 implies is_hex_digit(#[trigger] text[i]) && hex_digit_value(
        text[i],
    ) == d[i] by {
        lemma_hex_digit_upper(d[i]);
    }
    assert(hex_bytes(text) =~= seq![
        (16 * d[0] + d[1]) as u8,
        (16 * d[2] + d[3]) as u8,
        (16 * d[4] + d[5]) as u8,
    ]);
}

/// A number below 2^24 is written in exactly six digits, and those decode to
/// its three bytes, most significant first.
pub proof fn lemma_hex_upper_six(value: nat)
    requires
        value < 0x1000000,
    ensures
        hex_upper(value, 6).len() == 6,
        is_hex_text(hex_upper(value, 6)),
        hex_bytes(hex_upper(value, 6)) == seq![
            (value / 0x10000) as u8,
            (value / 0x100 % 0x100) as u8,
            (value % 0x100) as u8,
        ],
{
    lemma_six_digits(value);
    lemma_three_bytes(six_digits(value));
    lemma_nibbles(value as u32);
}

} // verus!

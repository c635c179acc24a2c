//! The controller's 24-bit encoding of signed step counts.
//!
//! A count travels as six hex digits. Values from 0x800000 upwards stand for
//! negative counts, counted down from 0xFFFFFF: the sign rule is the
//! controller's own and is not two's complement.

use vstd::prelude::*;
use crate::base16::{hex_bytes, hex_decode, hex_upper, is_hex_text, lemma_hex_upper_six, push_hex_upper};
use crate::error::{result_view, Fault, ScopeError};

verus! {

/// The step count that the wire value `wire` stands for.
pub open spec fn zeiss_to_int(wire: int) -> int {
    if wire >= 0x800000 {
        -(0xFFFFFF - wire)
    } else {
        wire
    }
}

/// The wire value that stands for the step count `steps`.
pub open spec fn int_to_zeiss(steps: i64) -> int {
    if steps < 0 {
        0xFFFFFF - -((steps | 0x00F0_0000i64) as int)
    } else {
        steps as int
    }
}

/// The step counts that survive encoding and decoding.
pub open spec fn in_zeiss_range(steps: int) -> bool {
    -0x100000 <= steps < 0x800000
}

/// The step count that a wire value stands for.
pub fn zeiss_to_i64(input_num: i64) -> (result: i64)
    ensures
        result == zeiss_to_int(input_num as int),
{
    let mut result = input_num;
    if input_num >= 0x00800000 {
        result = -(0x00FFFFFF - input_num);
    }
    result
}

/// The wire value that stands for a step count.
pub fn i64_to_zeiss(input_num: i64) -> (result: i64)
    ensures
        result == int_to_zeiss(input_num),
{
    let mut result = input_num;
    if input_num < 0 {
        let forced: i64 = input_num | 0x00F00000;
        assert(input_num <= forced < 0 && forced >= -0x7FFF_FFFF_FF10_0000i64) by (bit_vector)
            requires
                forced == input_num | 0x00F00000i64,
                input_num < 0,
        ;
        result = 0x00FFFFFF - -forced;
    }
    result
}

/// Encoding leaves a count from 0 upwards as it is, and puts a negative count
/// of the range at its distance below 0xFFFFFF.
pub proof fn lemma_int_to_zeiss_in_range(steps: i64)
    requires
        in_zeiss_range(steps as int),
    ensures
        int_to_zeiss(steps) == if steps < 0 { 0xFFFFFF + steps } else { steps as int },
        0 <= int_to_zeiss(steps) < 0xFFFFFF,
{
    if steps < 0 {
        assert((steps | 0x00F0_0000i64) == steps) by (bit_vector)
            requires
                -0x100000 <= steps < 0,
        ;
    }
}

/// Decoding what was encoded gives the count back exactly for the counts from
/// -0x100000 up to 0x7FFFFF, and for no other.
pub proof fn lemma_zeiss_round_trip(steps: i64)
    ensures
        zeiss_to_int(int_to_zeiss(steps)) == steps <==> in_zeiss_range(steps as int),
{
    if steps < 0 {
        let forced = steps | 0x00F0_0000i64;
        assert(steps <= forced < 0) by (bit_vector)
            requires
                forced == steps | 0x00F0_0000i64,
                steps < 0,
        ;
        assert(forced == steps && forced >= -0x7FFFFF <==> steps >= -0x100000) by (bit_vector)
            requires
                forced == steps | 0x00F0_0000i64,
                steps < 0,
        ;
    }
}

/// The number that three bytes make, the first being the most significant.
pub open spec fn wire_value(bytes: Seq<u8>) -> int {
    bytes[0] * 0x10000 + bytes[1] * 0x100 + bytes[2]
}

/// The step count that a payload of hex digits stands for.
pub open spec fn zeiss_steps(payload: Seq<u8>) -> Result<i64, Fault> {
    if !is_hex_text(payload) {
        Err(Fault::InvalidNumber)
    } else if hex_bytes(payload).len() != 3 {
        Err(Fault::InvalidResponse)
    } else {
        Ok(zeiss_to_int(wire_value(hex_bytes(payload))) as i64)
    }
}

/// Decodes the payload of a focus response: six hex digits that make a
/// 24-bit wire value. A payload that is not hex text is no number, and one
/// that does not make three bytes has the wrong shape.
pub fn decode_zeiss(payload: &[u8]) -> (steps: Result<i64, ScopeError>)
    ensures
        result_view(steps) == zeiss_steps(payload@),
        steps matches Ok(count) ==> -0x7FFFFF <= count < 0x800000,
{
    match hex_decode(payload) {
        Err(_) => Err(ScopeError::InvalidNumber),
        Ok(bytes) => {
            if bytes.len() != 3 {
                Err(ScopeError::InvalidResponse)
            } else {
                let wire: i64 = (bytes[0] as i64) * 0x10000 + (bytes[1] as i64) * 0x100
                    + (bytes[2] as i64);
                Ok(zeiss_to_i64(wire))
            }
        },
    }
}

/// The 64 bits of `value` read as a number from 0 upwards.
pub open spec fn unsigned_bits(value: int) -> nat {
    if value < 0 {
        (value + 0x1_0000_0000_0000_0000) as nat
    } else {
        value as nat
    }
}

/// The text that stands for `steps` on the wire: its wire value in upper-case
/// hex, with zeros in front up to six digits.
pub open spec fn zeiss_text(steps: i64) -> Seq<u8> {
    hex_upper(unsigned_bits(int_to_zeiss(steps)), 6)
}

/// Encodes a step count as the hex digits of its wire value.
pub fn encode_zeiss(steps: i64) -> (text: Vec<u8>)
    ensures
        text@ == zeiss_text(steps),
{
    let wire = i64_to_zeiss(steps);
    let bits: u64 = #[verifier::truncate] (wire as u64);
    assert(bits == if wire < 0 {
        wire + 0x1_0000_0000_0000_0000
    } else {
        wire as int
    }) by (bit_vector)
        requires
            bits == wire as u64,
    ;
    let mut text: Vec<u8> = Vec::new();
    push_hex_upper(&mut text, bits, 6);
    text
}

/// A count of the range is written in six digits, and decoding them gives the
/// count back.
pub proof fn lemma_zeiss_text_round_trip(steps: i64)
    requires
        in_zeiss_range(steps as int),
    ensures
        zeiss_text(steps).len() == 6,
        zeiss_steps(zeiss_text(steps)) == Ok::<i64, Fault>(steps),
{
    lemma_int_to_zeiss_in_range(steps);
    lemma_zeiss_round_trip(steps);
    let wire = int_to_zeiss(steps);
    lemma_hex_upper_six(wire as nat);
}

} // verus!

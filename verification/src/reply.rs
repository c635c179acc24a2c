//! What the responses say.

use vstd::prelude::*;
use vstd::utf8::valid_utf8;
use crate::bytes::{append_bytes, copy_range};
use crate::decimal::{decimal_text, decimal_u8, lemma_decimal_round_trip, parse_u8};
use crate::error::{result_view, Fault, ScopeError};
use crate::frame::{echo_of, lemma_response_carries_payload, validate, validated};
use crate::text::{
    ascii_text, is_ascii_bytes, lemma_ascii_is_text, text_from_utf8, text_of, utf8_lossy,
};
use crate::zeiss::{
    decode_zeiss, in_zeiss_range, lemma_zeiss_text_round_trip, zeiss_steps, zeiss_text,
};

verus! {

/// What comes back for a command, and how it is read.
#[derive(Debug, Clone, Copy, PartialEq, Eq, Structural)]
pub enum Expect {
    /// Nothing: the command only sets a value.
    Nothing,
    /// A response that is handed out whole, as it arrived. Its echo is not
    /// checked.
    Whole,
    /// The two fields of a firmware version.
    Version,
    /// A number in decimal: a position or a level.
    Number,
    /// A step count in the controller's encoding.
    Steps,
}

/// What an exchange hands out when it is over.
#[derive(Debug, PartialEq, Eq)]
pub enum Reply {
    /// The command expected no response.
    Nothing,
    /// The response as it arrived.
    Whole(Vec<u8>),
    /// The two fields of a firmware version.
    Version(String, String),
    /// A position or a level.
    Number(u8),
    /// A step count.
    Steps(i64),
}

/// A [`Reply`] with its bytes and texts as sequences.
pub enum ReplyView {
    Nothing,
    Whole(Seq<u8>),
    Version(Seq<char>, Seq<char>),
    Number(u8),
    Steps(i64),
}

impl View for Reply {
    type V = ReplyView;

    open spec fn view(&self) -> ReplyView {
        match self {
            Reply::Nothing => ReplyView::Nothing,
            Reply::Whole(bytes) => ReplyView::Whole(bytes@),
            Reply::Version(first, second) => ReplyView::Version(first@, second@),
            Reply::Number(value) => ReplyView::Number(*value),
            Reply::Steps(count) => ReplyView::Steps(*count),
        }
    }
}

/// The byte between the two fields of a firmware version: an underscore.
pub const SEPARATOR: u8 = 0x5F;

/// `payload` has a separator at `at` and nowhere else.
pub open spec fn only_separator_at(payload: Seq<u8>, at: int) -> bool {
    &&& 0 <= at < payload.len()
    &&& payload[at] == SEPARATOR
    &&& forall|j: int| 0 <= j < payload.len() && j != at ==> payload[j] != SEPARATOR
}

/// `payload` has exactly one separator.
pub open spec fn has_one_separator(payload: Seq<u8>) -> bool {
    exists|at: int| only_separator_at(payload, at)
}

/// The two fields of a firmware version: the text before the one separator
/// and the text after it. A payload with no separator, or with more than
/// one, has the wrong shape.
pub open spec fn firmware_fields(payload: Seq<u8>) -> Result<(Seq<char>, Seq<char>), Fault> {
    if has_one_separator(payload) {
        let at = choose|at: int| only_separator_at(payload, at);
        Ok((text_of(payload.take(at)), text_of(payload.skip(at + 1))))
    } else {
        Err(Fault::InvalidResponse)
    }
}

/// Splits the payload of a firmware response into its two fields.
pub fn decode_firmware_version(payload: &[u8]) -> (version: Result<(String, String), ScopeError>)
    ensures
        result_view(version) == firmware_fields(payload@),
{
    let mut at: usize = 0;
    while at < payload.len() && payload[at] != SEPARATOR
        invariant
            at <= payload.len(),
            forall|j: int| 0 <= j < at ==> payload@[j] != SEPARATOR,
        decreases payload.len() - at,
    {
        at = at + 1;
    }
    if at == payload.len() {
        return Err(ScopeError::InvalidResponse);
    }
    let mut next: usize = at + 1;
    while next < payload.len() && payload[next] != SEPARATOR
        invariant
            at < next <= payload.len(),
            forall|j: int| at < j < next ==> payload@[j] != SEPARATOR,
        decreases payload.len() - next,
    {
        next = next + 1;
    }
    if next < payload.len() {
        assert forall|k: int| !only_separator_at(payload@, k) by {
            assert(payload@[at as int] == SEPARATOR && payload@[next as int] == SEPARATOR);
        }
        return Err(ScopeError::InvalidResponse);
    }
    assert(only_separator_at(payload@, at as int));
    let first = copy_range(payload, 0, at);
    let second = copy_range(payload, at + 1, payload.len());
    Ok((utf8_lossy(first.as_slice()), utf8_lossy(second.as_slice())))
}

/// An ASCII payload with one separator says its two fields character by
/// character.
pub proof fn lemma_firmware_fields_of_ascii(payload: Seq<u8>, at: int)
    requires
        is_ascii_bytes(payload),
        only_separator_at(payload, at),
    ensures
        firmware_fields(payload) == Ok::<(Seq<char>, Seq<char>), Fault>(
            (ascii_text(payload.take(at)), ascii_text(payload.skip(at + 1))),
        ),
{
    lemma_ascii_is_text(payload.take(at));
    lemma_ascii_is_text(payload.skip(at + 1));
}

/// The number that a payload of decimal text states. Bytes that are not
/// UTF-8 are no text; text that is not a number from 0 to 255 is no number.
pub open spec fn decimal_reply(payload: Seq<u8>) -> Result<u8, Fault> {
    if !valid_utf8(payload) {
        Err(Fault::InvalidUTF8)
    } else {
        match decimal_u8(payload) {
            Some(value) => Ok(value),
            None => Err(Fault::InvalidNumber),
        }
    }
}

/// Reads the number in the payload of a position or an aperture response.
pub fn decode_decimal(payload: &[u8]) -> (number: Result<u8, ScopeError>)
    ensures
        result_view(number) == decimal_reply(payload@),
{
    let mut copy: Vec<u8> = Vec::new();
    append_bytes(&mut copy, payload);
    match text_from_utf8(copy) {
        Err(_) => Err(ScopeError::InvalidUTF8),
        Ok(_) => {
            match parse_u8(payload) {
                Some(value) => Ok(value),
                None => Err(ScopeError::InvalidNumber),
            }
        },
    }
}

/// A number that was written in decimal reads back from a payload as that
/// number.
pub proof fn lemma_decimal_reply_round_trip(value: u8)
    ensures
        decimal_reply(decimal_text(value as nat)) == Ok::<u8, Fault>(value),
{
    reveal_with_fuel(decimal_text, 3);
    lemma_decimal_round_trip(value);
    lemma_ascii_is_text(decimal_text(value as nat));
}

/// What the response to `query` says when it is read as `expects` asks:
/// nothing where nothing is expected, the response itself where it is wanted
/// whole, and else what its payload states, once its echo has passed.
pub open spec fn reply_to(expects: Expect, query: Seq<u8>, response: Seq<u8>) -> Result<
    ReplyView,
    Fault,
> {
    match expects {
        Expect::Nothing => Ok(ReplyView::Nothing),
        Expect::Whole => Ok(ReplyView::Whole(response)),
        Expect::Version => match validated(query, response) {
            Ok(payload) => match firmware_fields(payload) {
                Ok((first, second)) => Ok(ReplyView::Version(first, second)),
                Err(fault) => Err(fault),
            },
            Err(fault) => Err(fault),
        },
        Expect::Number => match validated(query, response) {
            Ok(payload) => match decimal_reply(payload) {
                Ok(value) => Ok(ReplyView::Number(value)),
                Err(fault) => Err(fault),
            },
            Err(fault) => Err(fault),
        },
        Expect::Steps => match validated(query, response) {
            Ok(payload) => match zeiss_steps(payload) {
                Ok(count) => Ok(ReplyView::Steps(count)),
                Err(fault) => Err(fault),
            },
            Err(fault) => Err(fault),
        },
    }
}

/// Reads the response to `query` as `expects` asks.
pub fn read_reply(expects: Expect, query: &[u8], response: &[u8]) -> (reply: Result<
    Reply,
    ScopeError,
>)
    ensures
        result_view(reply) == reply_to(expects, query@, response@),
{
    match expects {
        Expect::Nothing => Ok(Reply::Nothing),
        Expect::Whole => {
            let mut whole: Vec<u8> = Vec::new();
            append_bytes(&mut whole, response);
            Ok(Reply::Whole(whole))
        },
        Expect::Version => match validate(query, response) {
            Ok(payload) => match decode_firmware_version(payload.as_slice()) {
                Ok((first, second)) => Ok(Reply::Version(first, second)),
                Err(error) => Err(error),
            },
            Err(error) => Err(error),
        },
        Expect::Number => match validate(query, response) {
            Ok(payload) => match decode_decimal(payload.as_slice()) {
                Ok(value) => Ok(Reply::Number(value)),
                Err(error) => Err(error),
            },
            Err(error) => Err(error),
        },
        Expect::Steps => match validate(query, response) {
            Ok(payload) => match decode_zeiss(payload.as_slice()) {
                Ok(count) => Ok(Reply::Steps(count)),
                Err(error) => Err(error),
            },
            Err(error) => Err(error),
        },
    }
}

/// A controller that answers with the echo, a number in decimal and a
/// terminating byte is read as that number.
pub proof fn lemma_number_comes_back(query: Seq<u8>, value: u8, last: u8)
    requires
        query.len() >= 2,
    ensures
        reply_to(Expect::Number, query, echo_of(query) + decimal_text(value as nat) + seq![last])
            == Ok::<ReplyView, Fault>(ReplyView::Number(value)),
{
    lemma_response_carries_payload(query, decimal_text(value as nat), last);
    lemma_decimal_reply_round_trip(value);
}

/// A controller that answers with the echo, a step count in its encoding and
/// a terminating byte is read as that count, for every count that the
/// encoding holds.
pub proof fn lemma_steps_come_back(query: Seq<u8>, steps: i64, last: u8)
    requires
        query.len() >= 2,
        in_zeiss_range(steps as int),
    ensures
        reply_to(Expect::Steps, query, echo_of(query) + zeiss_text(steps) + seq![last]) == Ok::<
            ReplyView,
            Fault,
        >(ReplyView::Steps(steps)),
{
    lemma_response_carries_payload(query, zeiss_text(steps), last);
    lemma_zeiss_text_round_trip(steps);
}

} // verus!

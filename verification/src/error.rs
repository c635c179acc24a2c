//! The failures that the engine reports.

use vstd::prelude::*;
use vstd::string::*;
use crate::decimal::{decimal_text, lemma_decimal_text_is_digits, push_decimal};
use crate::text::{ascii_text, lemma_ascii_is_text, utf8_or_empty};

verus! {

/// Why a request could not be made or a response could not be used.
#[derive(Debug, PartialEq, Eq)]
pub enum ScopeError {
    /// Fewer than two bytes came back.
    EmptyResponse,
    /// The response does not start with the command code in swapped order.
    /// Holds the prefix that was expected and the one that arrived, as text.
    QueryValidation(String, String),
    /// The payload does not have the shape that the operation expects.
    InvalidResponse,
    /// The payload is not a number in the encoding that the operation expects.
    InvalidNumber,
    /// The payload is not UTF-8.
    InvalidUTF8,
    /// The transport could not be opened, written or read.
    CommunicationFailure,
    /// A position that the turret does not have was asked for. Holds the
    /// position and the highest one that the turret has.
    OutOfRange(u64, u64),
}

/// What a [`ScopeError`] says, with its texts as sequences of characters.
pub enum Fault {
    EmptyResponse,
    QueryValidation(Seq<char>, Seq<char>),
    InvalidResponse,
    InvalidNumber,
    InvalidUTF8,
    CommunicationFailure,
    OutOfRange(u64, u64),
}

impl View for ScopeError {
    type V = Fault;

    open spec fn view(&self) -> Fault {
        match self {
            ScopeError::EmptyResponse => Fault::EmptyResponse,
            ScopeError::QueryValidation(expected, actual) => Fault::QueryValidation(
                expected@,
                actual@,
            ),
            ScopeError::InvalidResponse => Fault::InvalidResponse,
            ScopeError::InvalidNumber => Fault::InvalidNumber,
            ScopeError::InvalidUTF8 => Fault::InvalidUTF8,
            ScopeError::CommunicationFailure => Fault::CommunicationFailure,
            ScopeError::OutOfRange(value, limit) => Fault::OutOfRange(*value, *limit),
        }
    }
}

/// What `result` says, with its value and the texts of its error as the
/// sequences that they stand for.
pub open spec fn result_view<T: View>(result: Result<T, ScopeError>) -> Result<T::V, Fault> {
    match result {
        Ok(value) => Ok(value@),
        Err(error) => Err(error@),
    }
}

impl Fault {
    /// The sentence that tells of this failure.
    pub open spec fn message(self) -> Seq<char> {
        match self {
            Fault::EmptyResponse => "received response was empty"@,
            Fault::QueryValidation(expected, actual) => "query validation failed; "@ + expected
                + " != "@ + actual,
            Fault::InvalidResponse => "the response receieved was invalid"@,
            Fault::InvalidNumber => "the response contained an unparseable number"@,
            Fault::InvalidUTF8 => "the response was not valid UTF-8"@,
            Fault::CommunicationFailure => "communication with the device failed"@,
            Fault::OutOfRange(value, limit) => "value provided was out of the valid range; "@
                + ascii_text(decimal_text(value as nat)) + " > "@ + ascii_text(
                decimal_text(limit as nat),
            ),
        }
    }
}

/// `value` in base 10, as text.
fn decimal_string(value: u64) -> (text: String)
    ensures
        text@ == ascii_text(decimal_text(value as nat)),
{
    let mut digits: Vec<u8> = Vec::new();
    push_decimal(&mut digits, value);
    proof {
        lemma_decimal_text_is_digits(value as nat);
        lemma_ascii_is_text(digits@);
    }
    utf8_or_empty(digits)
}

impl ScopeError {
    /// The sentence that tells of this failure.
    pub fn message(&self) -> (text: String)
        ensures
            text@ == self@.message(),
    {
        match self {
            ScopeError::EmptyResponse => String::from_str("received response was empty"),
            ScopeError::QueryValidation(expected, actual) => {
                let mut text = String::from_str("query validation failed; ");
                text.append(expected.as_str());
                text.append(" != ");
                text.append(actual.as_str());
                text
            },
            ScopeError::InvalidResponse => String::from_str("the response receieved was invalid"),
            ScopeError::InvalidNumber => String::from_str(
                "the response contained an unparseable number",
            ),
            ScopeError::InvalidUTF8 => String::from_str("the response was not valid UTF-8"),
            ScopeError::CommunicationFailure => String::from_str(
                "communication with the device failed",
            ),
            ScopeError::OutOfRange(value, limit) => {
                let mut text = String::from_str("value provided was out of the valid range; ");
                let first = decimal_string(*value);
                text.append(first.as_str());
                text.append(" > ");
                let second = decimal_string(*limit);
                text.append(second.as_str());
                text
            },
        }
    }
}

} // verus!

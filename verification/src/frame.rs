//! Command frames and the check of the echoed command code.
//!
//! A command leaves as its ASCII text and one carriage return. The controller
//! answers with the two letters of the command code in swapped order, then
//! the payload, then a terminating byte. The swapped code is all that ties a
//! response to its command: the protocol has no checksum and no sequence
//! number.

use vstd::prelude::*;
use crate::bytes::{append_bytes, copy_range};
use crate::error::{result_view, Fault, ScopeError};
use crate::text::{text_or_empty, utf8_or_empty};

verus! {

/// The byte that ends a command and a response: a carriage return.
pub const TERMINATOR: u8 = 13;

/// `command` as it goes out: its bytes and the terminator.
pub open spec fn framed(command: Seq<u8>) -> Seq<u8> {
    command.push(TERMINATOR)
}

/// The frame for `command`: its bytes and the terminator.
pub fn frame(command: &[u8]) -> (bytes: Vec<u8>)
    ensures
        bytes@ == framed(command@),
{
    let mut bytes: Vec<u8> = Vec::new();
    append_bytes(&mut bytes, command);
    bytes.push(TERMINATOR);
    bytes
}

/// The prefix that answers `command`: the two bytes of its code, swapped. A
/// command of fewer than two bytes has no code, and nothing answers it.
pub open spec fn echo_of(command: Seq<u8>) -> Seq<u8> {
    if command.len() >= 2 {
        seq![command[1], command[0]]
    } else {
        command
    }
}

/// What `response` carries: its bytes after the two of the echo, without the
/// last one, which ends it.
pub open spec fn payload_of(response: Seq<u8>) -> Seq<u8> {
    if response.len() >= 3 {
        response.subrange(2, response.len() - 1)
    } else {
        Seq::empty()
    }
}

/// What a response to `command` is taken for: too short to hold an echo, the
/// payload of a response that starts with the echo, or the mismatch of one
/// that does not, with the prefix expected and the one found.
pub open spec fn validated(command: Seq<u8>, response: Seq<u8>) -> Result<Seq<u8>, Fault> {
    if response.len() < 2 {
        Err(Fault::EmptyResponse)
    } else if response.take(2) == echo_of(command) {
        Ok(payload_of(response))
    } else {
        Err(Fault::QueryValidation(text_or_empty(echo_of(command)), text_or_empty(response.take(2))))
    }
}

/// Checks that `response` answers `query` and hands out its payload.
pub fn validate(query: &[u8], response: &[u8]) -> (payload: Result<Vec<u8>, ScopeError>)
    ensures
        result_view(payload) == validated(query@, response@),
{
    if response.len() < 2 {
        return Err(ScopeError::EmptyResponse);
    }
    let mut expected: Vec<u8> = Vec::new();
    if query.len() >= 2 {
        expected.push(query[1]);
        expected.push(query[0]);
    } else {
        append_bytes(&mut expected, query);
    }
    assert(expected@ =~= echo_of(query@));
    let actual = copy_range(response, 0, 2);
    let matches = expected.len() == 2 && expected[0] == actual[0] && expected[1] == actual[1];
    assert(matches == (actual@ == expected@)) by {
        if matches {
            assert(actual@ =~= expected@);
        }
    }
    if matches {
        let end = if response.len() >= 3 {
            response.len() - 1
        } else {
            2
        };
        let payload = copy_range(response, 2, end);
        assert(payload@ =~= payload_of(response@));
        Ok(payload)
    } else {
        Err(ScopeError::QueryValidation(utf8_or_empty(expected), utf8_or_empty(actual)))
    }
}

/// A response of two bytes or more passes for a command exactly when it
/// starts with the two bytes of the command code in swapped order. Any other
/// start is a mismatch.
pub proof fn lemma_echo_validation(command: Seq<u8>, response: Seq<u8>)
    requires
        command.len() >= 2,
        response.len() >= 2,
    ensures
        response[0] == command[1] && response[1] == command[0] ==> validated(command, response)
            == Ok::<Seq<u8>, Fault>(payload_of(response)),
        !(response[0] == command[1] && response[1] == command[0]) ==> validated(command, response)
            == Err::<Seq<u8>, Fault>(
            Fault::QueryValidation(
                text_or_empty(seq![command[1], command[0]]),
                text_or_empty(seq![response[0], response[1]]),
            ),
        ),
{
    assert(response.take(2) =~= seq![response[0], response[1]]);
}

/// A response that is made of the echo of the command code, a payload and
/// one more byte passes, and its payload is that payload.
pub proof fn lemma_response_carries_payload(command: Seq<u8>, payload: Seq<u8>, last: u8)
    requires
        command.len() >= 2,
    ensures
        validated(command, echo_of(command) + payload + seq![last]) == Ok::<Seq<u8>, Fault>(
            payload,
        ),
{
    let response = echo_of(command) + payload + seq![last];
    assert(response.take(2) =~= echo_of(command));
    assert(payload_of(response) =~= payload);
}

} // verus!

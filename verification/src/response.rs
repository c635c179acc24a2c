//! The buffer in which a response is assembled.

use vstd::prelude::*;
use crate::bytes::append_bytes;

verus! {

/// The bytes of one response, in the order in which they arrived, together
/// with their number.
#[derive(Debug)]
pub struct ScopeResponse {
    response: Vec<u8>,
    response_size: usize,
}

impl View for ScopeResponse {
    type V = Seq<u8>;

    closed spec fn view(&self) -> Seq<u8> {
        self.response@
    }
}

impl ScopeResponse {
    #[verifier::type_invariant]
    spec fn counted(self) -> bool {
        self.response_size == self.response@.len()
    }

    /// A response of which nothing has arrived yet.
    pub fn new() -> (empty: ScopeResponse)
        ensures
            empty@ == Seq::<u8>::empty(),
    {
        ScopeResponse { response: Vec::new(), response_size: 0 }
    }

    /// The number of bytes that have arrived.
    pub fn len(&self) -> (count: usize)
        ensures
            count == self@.len(),
    {
        proof {
            use_type_invariant(self);
        }
        self.response_size
    }

    /// The bytes that have arrived.
    pub fn bytes(&self) -> (bytes: &[u8])
        ensures
            bytes@ == self@,
    {
        self.response.as_slice()
    }

    /// Adds a chunk that was read after all that is already here.
    pub fn append(&mut self, chunk: &[u8])
        ensures
            final(self)@ == old(self)@ + chunk@,
    {
        let mut taken = ScopeResponse::new();
        core::mem::swap(self, &mut taken);
        let ScopeResponse { response: mut bytes, response_size: _ } = taken;
        append_bytes(&mut bytes, chunk);
        let count = bytes.len();
        *self = ScopeResponse { response: bytes, response_size: count };
    }
}

} // verus!

//! Arbitrary-precision integers as two's complement big-endian bytes.
//!
//! The bytes are a raw representation: no constructor normalises them, so
//! they may hold leading bytes that a shorter encoding would not need, and
//! they go to the database as they are.

use vstd::prelude::*;

verus! {

/// An integer of any size.
#[derive(Debug, Clone, PartialEq, Eq)]
pub struct Varint {
    inner: Vec<u8>,
}

impl View for Varint {
    type V = Seq<u8>;

    closed spec fn view(&self) -> Seq<u8> {
        self.inner@
    }
}

impl Varint {
    /// The integer that the bytes spell; they are kept as they are.
    pub fn new_varint(inner: Vec<u8>) -> (r: Varint)
        ensures
            r@ == inner@,
    {
        Varint { inner }
    }

    /// The bytes of the integer.
    pub fn bytes(&self) -> (r: &Vec<u8>)
        ensures
            r@ == self@,
    {
        &self.inner
    }
}

} // verus!

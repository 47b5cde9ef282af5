//! Fixed-point decimals: an unscaled integer, as two's complement
//! big-endian bytes of any length, and a scale.

use vstd::prelude::*;
use crate::ascii::{
    ascii_bytes, ascii_string, decimal_text, hex_text, push_ascii, push_decimal, push_hex,
    lemma_decimal_text_ascii, lemma_hex_text_ascii,
};

verus! {

/// A fixed-point decimal: the unscaled integer times ten to the power of
/// minus the scale.
#[derive(Debug, Clone, PartialEq, Eq)]
pub struct Decimal {
    int_val: Vec<u8>,
    scale: i32,
}

impl View for Decimal {
    type V = (Seq<u8>, i32);

    /// The bytes of the unscaled integer and the scale.
    closed spec fn view(&self) -> (Seq<u8>, i32) {
        (self.int_val@, self.scale)
    }
}

impl Decimal {
    /// The bytes are kept as they are: no leading byte is added or removed.
    pub fn new(int_val: Vec<u8>, scale: i32) -> (r: Self)
        ensures
            r@ == (int_val@, scale),
    {
        Self { int_val, scale }
    }

    /// The bytes of the unscaled integer.
    pub fn int_val(&self) -> (r: &Vec<u8>)
        ensures
            r@ == self@.0,
    {
        &self.int_val
    }

    /// The scale.
    pub fn scale(&self) -> (r: i32)
        ensures
            r == self@.1,
    {
        self.scale
    }

    /// The text of this decimal: the bytes of the unscaled integer as
    /// hexadecimal digits, the letter `e`, and the scale in decimal.
    pub open spec fn text(self) -> Seq<char> {
        hex_text(self@.0) + "e"@ + decimal_text(self@.1 as int)
    }

    /// Returns the string representation of the decimal.
    pub fn to_string(&self) -> (r: String)
        ensures
            r@ == self.text(),
    {
        let mut out: Vec<u8> = Vec::new();
        proof {
            reveal_strlit("e");
            lemma_hex_text_ascii(self@.0);
            lemma_decimal_text_ascii(self@.1 as int);
        }
        push_hex(&mut out, self.int_val.as_slice());
        push_ascii(&mut out, "e");
        push_decimal(&mut out, self.scale as i64);
        assert(out@ =~= ascii_bytes(self.text()));
        ascii_string(out, Ghost(self.text()))
    }
}

} // verus!

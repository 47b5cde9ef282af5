//! Numbers as text: decimal and hexadecimal digits, built as ASCII bytes.

use vstd::prelude::*;
use vstd::utf8::{
    decode_utf8, encode_utf8, encode_utf8_decode_utf8, encode_utf8_valid_utf8, is_ascii_chars,
    is_ascii_chars_encode_utf8, valid_utf8,
};
use crate::text::text_from_utf8;
use crate::wire::append_bytes;

verus! {

/// The character of the decimal digit `d`.
pub open spec fn digit_char(d: nat) -> char {
    (0x30 + d) as char
}

/// The character of the hexadecimal digit `d`, in lower case.
pub open spec fn hex_char(d: nat) -> char {
    if d < 10 {
        (0x30 + d) as char
    } else {
        (0x61 + d - 10) as char
    }
}

/// The decimal digits of `n`, without leading zeros.
pub open spec fn decimal_digits(n: nat) -> Seq<char>
    decreases n,
{
    if n < 10 {
        seq![digit_char(n)]
    } else {
        decimal_digits(n / 10).push(digit_char(n % 10))
    }
}

/// The decimal text of `v`: a minus sign before a negative number.
pub open spec fn decimal_text(v: int) -> Seq<char> {
    if v < 0 {
        seq!['-'] + decimal_digits((-v) as nat)
    } else {
        decimal_digits(v as nat)
    }
}

/// The two hexadecimal digits of the byte `b`.
pub open spec fn hex_byte(b: u8) -> Seq<char> {
    seq![hex_char((b / 16) as nat), hex_char((b % 16) as nat)]
}

/// The hexadecimal digits of the bytes `s`, two for each byte.
pub open spec fn hex_text(s: Seq<u8>) -> Seq<char>
    decreases s.len(),
{
    if s.len() == 0 {
        Seq::empty()
    } else {
        hex_text(s.drop_last()) + hex_byte(s.last())
    }
}

/// The bytes of ASCII text, one for each character.
pub open spec fn ascii_bytes(chars: Seq<char>) -> Seq<u8> {
    Seq::new(chars.len(), |i: int| chars[i] as u8)
}

/// Decimal digits are ASCII, and every number has at least one.
pub proof fn lemma_decimal_digits_ascii(n: nat)
    ensures
        is_ascii_chars(decimal_digits(n)),
        decimal_digits(n).len() >= 1,
    decreases n,
{
    if n >= 10 {
        lemma_decimal_digits_ascii(n / 10);
    }
}

/// Hexadecimal digits are ASCII, and every byte has two.
pub proof fn lemma_hex_text_ascii(s: Seq<u8>)
    ensures
        is_ascii_chars(hex_text(s)),
        hex_text(s).len() == 2 * s.len(),
    decreases s.len(),
{
    if s.len() > 0 {
        lemma_hex_text_ascii(s.drop_last());
    }
}

/// The decimal text of a number is ASCII.
pub proof fn lemma_decimal_text_ascii(v: int)
    ensures
        is_ascii_chars(decimal_text(v)),
{
    if v < 0 {
        lemma_decimal_digits_ascii((-v) as nat);
    } else {
        lemma_decimal_digits_ascii(v as nat);
    }
}

/// ASCII text and its bytes are the same text in UTF-8.
pub proof fn lemma_ascii_is_utf8(chars: Seq<char>)
    requires
        is_ascii_chars(chars),
    ensures
        encode_utf8(chars) == ascii_bytes(chars),
        valid_utf8(ascii_bytes(chars)),
        decode_utf8(ascii_bytes(chars)) == chars,
{
    is_ascii_chars_encode_utf8(chars);
    assert(encode_utf8(chars) =~= ascii_bytes(chars));
    encode_utf8_valid_utf8(chars);
    encode_utf8_decode_utf8(chars);
}

/// Appends the decimal digits of `n` to `out`.
pub fn push_digits(out: &mut Vec<u8>, n: u64)
    ensures
        final(out)@ == old(out)@ + ascii_bytes(decimal_digits(n as nat)),
    decreases n,
{
    if n >= 10 {
        push_digits(out, n / 10);
    }
    out.push(0x30u8 + (n % 10) as u8);
    assert(final(out)@ =~= old(out)@ + ascii_bytes(decimal_digits(n as nat)));
}

/// Appends the decimal text of `v` to `out`.
pub fn push_decimal(out: &mut Vec<u8>, v: i64)
    ensures
        final(out)@ == old(out)@ + ascii_bytes(decimal_text(v as int)),
{
    if v < 0 {
        out.push(0x2Du8);
        let magnitude: u64 = if v == i64::MIN {
            0x8000_0000_0000_0000u64
        } else {
            (-v) as u64
        };
        push_digits(out, magnitude);
        assert(final(out)@ =~= old(out)@ + ascii_bytes(decimal_text(v as int)));
    } else {
        push_digits(out, v as u64);
    }
}

fn hex_digit(d: u8) -> (r: u8)
    requires
        d < 16,
    ensures
        r == hex_char(d as nat) as u8,
{
    if d < 10 {
        0x30u8 + d
    } else {
        0x61u8 + (d - 10)
    }
}

/// Appends the hexadecimal digits of the bytes `s` to `out`.
pub fn push_hex(out: &mut Vec<u8>, s: &[u8])
    ensures
        final(out)@ == old(out)@ + ascii_bytes(hex_text(s@)),
{
    let n: usize = s.len();
    let mut i: usize = 0;
    assert(old(out)@ + ascii_bytes(hex_text(s@.subrange(0, 0))) =~= old(out)@);
    while i < n
        invariant
            n == s@.len(),
            i <= n,
            out@ == old(out)@ + ascii_bytes(hex_text(s@.subrange(0, i as int))),
        decreases n - i,
    {
        let b: u8 = s[i];
        out.push(hex_digit(b / 16));
        out.push(hex_digit(b % 16));
        proof {
            let t = s@.subrange(0, i + 1);
            assert(t.drop_last() =~= s@.subrange(0, i as int));
            assert(out@ =~= old(out)@ + ascii_bytes(hex_text(t)));
        }
        i = i + 1;
    }
    assert(s@.subrange(0, n as int) =~= s@);
}

/// Appends the bytes of the ASCII text `s` to `out`.
pub fn push_ascii(out: &mut Vec<u8>, s: &str)
    requires
        is_ascii_chars(s@),
    ensures
        final(out)@ == old(out)@ + ascii_bytes(s@),
{
    proof {
        lemma_ascii_is_utf8(s@);
    }
    append_bytes(out, s.as_bytes());
}

/// The text whose ASCII bytes are `bytes`.
pub(crate) fn ascii_string(bytes: Vec<u8>, Ghost(chars): Ghost<Seq<char>>) -> (r: String)
    requires
        is_ascii_chars(chars),
        bytes@ == ascii_bytes(chars),
    ensures
        r@ == chars,
{
    proof {
        lemma_ascii_is_utf8(chars);
    }
    match text_from_utf8(bytes) {
        Some(s) => s,
        None => String::new(),
    }
}

} // verus!

//! The framing of values on the wire: a signed 32-bit length, then that
//! many bytes; a negative length stands for a null and has no bytes.

use vstd::prelude::*;
use vstd::slice::slice_subrange;
use crate::be::{
    be_bytes, be_value, to_signed, to_unsigned, push_be, read_be, signed_of, unsigned_of,
    lemma_be_bytes_len, lemma_be_value_of_bytes, lemma_pow256_values, lemma_signed_round_trip,
};

verus! {

/// The greatest length that a length prefix can hold.
pub const MAX_LENGTH: usize = 0x7FFF_FFFF;

/// The four bytes of the signed 32-bit number `n`.
pub open spec fn int_bytes(n: int) -> Seq<u8> {
    be_bytes(to_unsigned(n, 4), 4)
}

/// The bytes of a cell: of a null where `body` is `None`.
pub open spec fn cell_bytes(body: Option<Seq<u8>>) -> Seq<u8> {
    match body {
        None => int_bytes(-1),
        Some(b) => int_bytes(b.len() as int) + b,
    }
}

/// The signed 32-bit number at the start of `s`, and what follows it.
pub open spec fn read_int(s: Seq<u8>) -> Option<(int, Seq<u8>)> {
    if s.len() < 4 {
        None
    } else {
        Some((to_signed(be_value(s.subrange(0, 4)), 4), s.subrange(4, s.len() as int)))
    }
}

/// The cell at the start of `s`, and what follows it; `None` where `s`
/// ends before the cell does.
pub open spec fn read_cell(s: Seq<u8>) -> Option<(Option<Seq<u8>>, Seq<u8>)> {
    match read_int(s) {
        None => None,
        Some((n, rest)) => if n < 0 {
            Some((None, rest))
        } else if rest.len() < n {
            None
        } else {
            Some((Some(rest.subrange(0, n)), rest.subrange(n, rest.len() as int)))
        },
    }
}

/// A length prefix takes four bytes.
pub proof fn lemma_int_bytes_len(n: int)
    ensures
        int_bytes(n).len() == 4,
{
    lemma_be_bytes_len(to_unsigned(n, 4), 4);
}

/// A number that was written is read back, whatever follows it.
pub proof fn lemma_read_int_round_trip(n: int, tail: Seq<u8>)
    requires
        -0x8000_0000 <= n < 0x8000_0000,
    ensures
        read_int(int_bytes(n) + tail) == Some((n, tail)),
{
    lemma_pow256_values();
    lemma_int_bytes_len(n);
    lemma_signed_round_trip(n, 4);
    lemma_be_value_of_bytes(to_unsigned(n, 4), 4);
    let s = int_bytes(n) + tail;
    assert(s.subrange(0, 4) =~= int_bytes(n));
    assert(s.subrange(4, s.len() as int) =~= tail);
}

/// A cell that was written is read back, whatever follows it.
pub proof fn lemma_read_cell_round_trip(body: Option<Seq<u8>>, tail: Seq<u8>)
    requires
        body is Some ==> body->0.len() <= MAX_LENGTH,
    ensures
        read_cell(cell_bytes(body) + tail) == Some((body, tail)),
{
    match body {
        None => {
            lemma_read_int_round_trip(-1, tail);
        },
        Some(b) => {
            lemma_read_int_round_trip(b.len() as int, b + tail);
            assert(cell_bytes(body) + tail =~= int_bytes(b.len() as int) + (b + tail));
            assert((b + tail).subrange(0, b.len() as int) =~= b);
            assert((b + tail).subrange(b.len() as int, (b + tail).len() as int) =~= tail);
        },
    }
}

/// Appends the bytes of `src` to `out`.
pub fn append_bytes(out: &mut Vec<u8>, src: &[u8])
    ensures
        final(out)@ == old(out)@ + src@,
{
    let n: usize = src.len();
    let mut i: usize = 0;
    while i < n
        invariant
            n == src@.len(),
            i <= n,
            out@ == old(out)@ + src@.subrange(0, i as int),
        decreases n - i,
    {
        out.push(src[i]);
        i = i + 1;
        assert(out@ =~= old(out)@ + src@.subrange(0, i as int));
    }
    assert(src@.subrange(0, n as int) =~= src@);
}

/// Appends the four bytes of `n` to `out`.
pub fn push_int(out: &mut Vec<u8>, n: i32)
    ensures
        final(out)@ == old(out)@ + int_bytes(n as int),
{
    proof {
        lemma_pow256_values();
    }
    let u: u128 = unsigned_of(n as i64, 4);
    push_be(out, u, 4);
}

/// Appends the cell of a null to `out`.
pub fn push_null(out: &mut Vec<u8>)
    ensures
        final(out)@ == old(out)@ + cell_bytes(None),
{
    push_int(out, -1);
}

/// Appends the cell that holds `body` to `out`.
pub fn push_cell(out: &mut Vec<u8>, body: &[u8])
    requires
        body@.len() <= MAX_LENGTH,
    ensures
        final(out)@ == old(out)@ + cell_bytes(Some(body@)),
{
    push_int(out, body.len() as i32);
    append_bytes(out, body);
    assert(final(out)@ =~= old(out)@ + cell_bytes(Some(body@)));
}

/// Reads the signed 32-bit number at `pos`; gives it with the position
/// behind it.
pub fn take_int(s: &[u8], pos: usize) -> (r: Option<(i32, usize)>)
    requires
        pos <= s@.len(),
    ensures
        match (read_int(s@.subrange(pos as int, s@.len() as int)), r) {
            (None, None) => true,
            (Some((n, rest)), Some((m, next))) => m == n && next == pos + 4 && next <= s@.len()
                && rest == s@.subrange(next as int, s@.len() as int),
            _ => false,
        },
{
    let len: usize = s.len();
    let ghost t = s@.subrange(pos as int, s@.len() as int);
    if len - pos < 4 {
        return None;
    }
    let u: u128 = read_be(s, pos, 4);
    proof {
        lemma_pow256_values();
        assert(t.subrange(0, 4) =~= s@.subrange(pos as int, pos + 4));
        assert(t.subrange(4, t.len() as int) =~= s@.subrange(pos + 4, s@.len() as int));
    }
    let n: i64 = signed_of(u, 4);
    Some((n as i32, pos + 4))
}

/// Reads the cell at `pos`; gives its body, `None` for a null, with the
/// position behind the cell.
pub fn take_cell<'a>(s: &'a [u8], pos: usize) -> (r: Option<(Option<&'a [u8]>, usize)>)
    requires
        pos <= s@.len(),
    ensures
        match (read_cell(s@.subrange(pos as int, s@.len() as int)), r) {
            (None, None) => true,
            (Some((body, rest)), Some((found, next))) => next <= s@.len() && rest == s@.subrange(
                next as int,
                s@.len() as int,
            ) && match (body, found) {
                (None, None) => true,
                (Some(b), Some(f)) => f@ == b,
                _ => false,
            },
            _ => false,
        },
{
    let len: usize = s.len();
    match take_int(s, pos) {
        None => None,
        Some((n, start)) => {
            if n < 0 {
                Some((None, start))
            } else {
                let size: usize = n as usize;
                if len - start < size {
                    None
                } else {
                    let body = slice_subrange(s, start, start + size);
                    proof {
                        let rest = s@.subrange(start as int, s@.len() as int);
                        assert(rest.subrange(0, n as int) =~= body@);
                        assert(rest.subrange(n as int, rest.len() as int) =~= s@.subrange(
                            start + size,
                            s@.len() as int,
                        ));
                    }
                    Some((Some(body), start + size))
                }
            }
        },
    }
}

} // verus!

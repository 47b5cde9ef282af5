//! Variable-length signed integers: a zigzag step, then a first byte whose
//! leading one bits count the bytes that follow.

use vstd::prelude::*;
use crate::be::{be_bytes, be_value, pow256, modulus, push_be, read_be, lemma_pow256_values, lemma_pow256_monotonic, lemma_be_bytes_len, lemma_be_value_bound, lemma_be_value_of_bytes};

verus! {

/// The non-negative number that stands for `v`: 0, -1, 1, -2, ... become 0, 1, 2, 3, ...
pub open spec fn zigzag(v: int) -> nat {
    if v >= 0 {
        (2 * v) as nat
    } else {
        (-2 * v - 1) as nat
    }
}

/// The inverse of `zigzag`.
pub open spec fn unzigzag(u: nat) -> int {
    if u % 2 == 0 {
        (u / 2) as int
    } else {
        -((u / 2) as int) - 1
    }
}

/// How many bytes follow the first byte of the shortest encoding of `v`.
pub open spec fn vint_extra(v: nat) -> nat {
    if v < 0x80 {
        0
    } else if v < 0x4000 {
        1
    } else if v < 0x20_0000 {
        2
    } else if v < 0x1000_0000 {
        3
    } else if v < 0x8_0000_0000 {
        4
    } else if v < 0x400_0000_0000 {
        5
    } else if v < 0x2_0000_0000_0000 {
        6
    } else if v < 0x100_0000_0000_0000 {
        7
    } else {
        8
    }
}

/// The byte whose `n` highest bits are one and whose other bits are zero.
pub open spec fn vint_prefix(n: nat) -> nat {
    if n == 0 {
        0x00
    } else if n == 1 {
        0x80
    } else if n == 2 {
        0xC0
    } else if n == 3 {
        0xE0
    } else if n == 4 {
        0xF0
    } else if n == 5 {
        0xF8
    } else if n == 6 {
        0xFC
    } else if n == 7 {
        0xFE
    } else {
        0xFF
    }
}

/// The number of leading one bits of `b`.
pub open spec fn leading_ones(b: u8) -> nat {
    if b < 0x80 {
        0
    } else if b < 0xC0 {
        1
    } else if b < 0xE0 {
        2
    } else if b < 0xF0 {
        3
    } else if b < 0xF8 {
        4
    } else if b < 0xFC {
        5
    } else if b < 0xFE {
        6
    } else if b < 0xFF {
        7
    } else {
        8
    }
}

/// The shortest encoding of the unsigned number `v`.
pub open spec fn unsigned_vint_bytes(v: nat) -> Seq<u8> {
    let n = vint_extra(v);
    seq![(vint_prefix(n) + v / pow256(n)) as u8] + be_bytes(v % pow256(n), n)
}

/// The unsigned number at the start of `s` and the bytes it takes, or
/// `None` where `s` ends before the number does.
pub open spec fn unsigned_vint_parse(s: Seq<u8>) -> Option<(nat, nat)> {
    if s.len() == 0 {
        None
    } else {
        let n = leading_ones(s[0]);
        if s.len() < 1 + n {
            None
        } else {
            Some(
                (
                    ((s[0] as nat - vint_prefix(n)) * pow256(n) + be_value(
                        s.subrange(1, 1 + n as int),
                    )) as nat,
                    1 + n,
                ),
            )
        }
    }
}

/// The encoding of the signed number `v`.
pub open spec fn vint_bytes(v: int) -> Seq<u8> {
    unsigned_vint_bytes(zigzag(v))
}

/// The signed number at the start of `s` and the bytes it takes.
pub open spec fn vint_parse(s: Seq<u8>) -> Option<(int, nat)> {
    match unsigned_vint_parse(s) {
        None => None,
        Some((u, k)) => Some((unzigzag(u), k)),
    }
}

/// The zigzag step loses nothing.
pub proof fn lemma_zigzag_round_trip(v: int)
    ensures
        unzigzag(zigzag(v)) == v,
{
}

/// A number that is parsed fits 64 bits and takes from one to nine of
/// the bytes at hand.
pub proof fn lemma_unsigned_vint_parse_bound(s: Seq<u8>)
    ensures
        match unsigned_vint_parse(s) {
            None => true,
            Some((u, k)) => u < 0x1_0000_0000_0000_0000 && 1 <= k <= 9 && k <= s.len(),
        },
{
    if s.len() > 0 {
        let n = leading_ones(s[0]);
        if s.len() >= 1 + n {
            lemma_pow256_values();
            lemma_be_value_bound(s.subrange(1, 1 + n as int));
            let high = s[0] as nat - vint_prefix(n);
            let p = pow256(n);
            if n == 0 {
                assert(high * p == high) by (nonlinear_arith)
                    requires
                        p == 1,
                ;
            } else if n == 8 {
                assert(high * p == 0) by (nonlinear_arith)
                    requires
                        high == 0,
                ;
            } else {
                assert(high * p + p <= 0x1_0000_0000_0000_0000) by (nonlinear_arith)
                    requires
                        (n == 1 && high < 0x40 && p == 0x100) || (n == 2 && high < 0x20 && p
                            == 0x1_0000) || (n == 3 && high < 0x10 && p == 0x100_0000) || (n == 4
                            && high < 0x08 && p == 0x1_0000_0000) || (n == 5 && high < 0x04 && p
                            == 0x100_0000_0000) || (n == 6 && high < 0x02 && p
                            == 0x1_0000_0000_0000) || (n == 7 && high < 0x01 && p
                            == 0x100_0000_0000_0000),
                ;
            }
        }
    }
}

/// The first byte of the shortest encoding shows how many bytes follow it.
pub proof fn lemma_vint_first_byte(v: nat)
    requires
        v < 0x1_0000_0000_0000_0000,
    ensures
        vint_prefix(vint_extra(v)) + v / pow256(vint_extra(v)) < 256,
        leading_ones((vint_prefix(vint_extra(v)) + v / pow256(vint_extra(v))) as u8) == vint_extra(
            v,
        ),
{
    lemma_pow256_values();
    let n = vint_extra(v);
    if n == 0 {
        assert(v / 1 == v);
    } else if n == 1 {
        assert(v / 0x100 < 0x40);
    } else if n == 2 {
        assert(v / 0x1_0000 < 0x20);
    } else if n == 3 {
        assert(v / 0x100_0000 < 0x10);
    } else if n == 4 {
        assert(v / 0x1_0000_0000 < 0x08);
    } else if n == 5 {
        assert(v / 0x100_0000_0000 < 0x04);
    } else if n == 6 {
        assert(v / 0x1_0000_0000_0000 < 0x02);
    } else if n == 7 {
        assert(v / 0x100_0000_0000_0000 < 0x01);
    } else {
        assert(v / 0x1_0000_0000_0000_0000 == 0);
    }
}

/// Parsing the encoding of `v`, whatever follows it, gives `v` back.
pub proof fn lemma_unsigned_vint_round_trip(v: nat, rest: Seq<u8>)
    requires
        v < 0x1_0000_0000_0000_0000,
    ensures
        unsigned_vint_bytes(v).len() == 1 + vint_extra(v),
        unsigned_vint_parse(unsigned_vint_bytes(v) + rest) == Some((v, 1 + vint_extra(v))),
{
    let n = vint_extra(v);
    let tail = be_bytes(v % pow256(n), n);
    let first = (vint_prefix(n) + v / pow256(n)) as u8;
    let s = unsigned_vint_bytes(v) + rest;
    lemma_pow256_values();
    lemma_be_bytes_len(v % pow256(n), n);
    lemma_be_value_of_bytes(v % pow256(n), n);
    lemma_vint_first_byte(v);
    assert(s[0] == first);
    assert(s.subrange(1, 1 + n as int) =~= tail);
    assert(first as nat - vint_prefix(n) == v / pow256(n));
    assert((v / pow256(n)) * pow256(n) + v % pow256(n) == v) by (nonlinear_arith)
        requires
            pow256(n) > 0,
    ;
}

/// Parsing the encoding of a signed 64-bit number, whatever follows it,
/// gives the number back.
pub proof fn lemma_vint_round_trip(v: int, rest: Seq<u8>)
    requires
        -0x8000_0000_0000_0000 <= v < 0x8000_0000_0000_0000,
    ensures
        vint_bytes(v).len() == 1 + vint_extra(zigzag(v)),
        vint_parse(vint_bytes(v) + rest) == Some((v, 1 + vint_extra(zigzag(v)))),
{
    lemma_unsigned_vint_round_trip(zigzag(v), rest);
}

fn zigzag_of(v: i64) -> (r: u64)
    ensures
        r == zigzag(v as int),
{
    if v >= 0 {
        2 * (v as u64)
    } else {
        let w: u64 = (-(v + 1)) as u64;
        2 * w + 1
    }
}

fn unzigzag_of(u: u64) -> (r: i64)
    ensures
        r == unzigzag(u as nat),
{
    if u % 2 == 0 {
        (u / 2) as i64
    } else {
        -((u / 2) as i64) - 1
    }
}

fn extra_of(v: u64) -> (r: usize)
    ensures
        r == vint_extra(v as nat),
{
    if v < 0x80 {
        0
    } else if v < 0x4000 {
        1
    } else if v < 0x20_0000 {
        2
    } else if v < 0x1000_0000 {
        3
    } else if v < 0x8_0000_0000 {
        4
    } else if v < 0x400_0000_0000 {
        5
    } else if v < 0x2_0000_0000_0000 {
        6
    } else if v < 0x100_0000_0000_0000 {
        7
    } else {
        8
    }
}

fn prefix_of(n: usize) -> (r: u8)
    requires
        n <= 8,
    ensures
        r == vint_prefix(n as nat),
{
    if n == 0 {
        0x00
    } else if n == 1 {
        0x80
    } else if n == 2 {
        0xC0
    } else if n == 3 {
        0xE0
    } else if n == 4 {
        0xF0
    } else if n == 5 {
        0xF8
    } else if n == 6 {
        0xFC
    } else if n == 7 {
        0xFE
    } else {
        0xFF
    }
}

fn leading_ones_of(b: u8) -> (r: usize)
    ensures
        r == leading_ones(b),
        r <= 8,
{
    if b < 0x80 {
        0
    } else if b < 0xC0 {
        1
    } else if b < 0xE0 {
        2
    } else if b < 0xF0 {
        3
    } else if b < 0xF8 {
        4
    } else if b < 0xFC {
        5
    } else if b < 0xFE {
        6
    } else if b < 0xFF {
        7
    } else {
        8
    }
}

/// Appends the encoding of `v` to `out`.
pub fn push_vint(out: &mut Vec<u8>, v: i64)
    ensures
        final(out)@ == old(out)@ + vint_bytes(v as int),
{
    let u: u64 = zigzag_of(v);
    let n: usize = extra_of(u);
    let m: u128 = modulus(n);
    proof {
        lemma_pow256_values();
    }
    let high: u128 = u as u128 / m;
    let first: u8 = (prefix_of(n) as u128 + high) as u8;
    out.push(first);
    push_be(out, u as u128 % m, n);
    assert(final(out)@ =~= old(out)@ + vint_bytes(v as int));
}

/// Reads the signed number that starts at `start`; gives it with the
/// position behind it, or `None` where `s` ends too early.
pub fn read_vint(s: &[u8], start: usize) -> (r: Option<(i64, usize)>)
    requires
        start <= s@.len(),
    ensures
        match (vint_parse(s@.subrange(start as int, s@.len() as int)), r) {
            (None, None) => true,
            (Some((v, k)), Some((value, next))) => value == v && next == start + k && next
                <= s@.len(),
            _ => false,
        },
{
    let len: usize = s.len();
    let ghost t = s@.subrange(start as int, s@.len() as int);
    if start == len {
        return None;
    }
    let first: u8 = s[start];
    let n: usize = leading_ones_of(first);
    assert(t[0] == first);
    if len - start < 1 + n {
        return None;
    }
    let low: u128 = read_be(s, start + 1, n);
    proof {
        lemma_pow256_values();
        lemma_pow256_monotonic(n as nat, 8);
        assert(t.subrange(1, 1 + n as int) =~= s@.subrange(start + 1, start + 1 + n));
        lemma_unsigned_vint_parse_bound(t);
    }
    let m: u128 = modulus(n);
    let high: u128 = (first - prefix_of(n)) as u128;
    let u: u128 = high * m + low;
    Some((unzigzag_of(u as u64), start + 1 + n))
}

} // verus!

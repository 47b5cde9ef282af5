//! Fixed-width big-endian integers, unsigned and two's complement.

use vstd::prelude::*;

verus! {

/// 256 to the power `n`.
pub open spec fn pow256(n: nat) -> nat
    decreases n,
{
    if n == 0 {
        1
    } else {
        256 * pow256((n - 1) as nat)
    }
}

/// The `n` bytes, most significant first, of `v` modulo `256^n`.
pub open spec fn be_bytes(v: nat, n: nat) -> Seq<u8>
    decreases n,
{
    if n == 0 {
        Seq::empty()
    } else {
        be_bytes(v / 256, (n - 1) as nat).push((v % 256) as u8)
    }
}

/// The number that the bytes of `s` spell, most significant first.
pub open spec fn be_value(s: Seq<u8>) -> nat
    decreases s.len(),
{
    if s.len() == 0 {
        0
    } else {
        be_value(s.drop_last()) * 256 + s.last() as nat
    }
}

/// The residue modulo `256^n` that stands for `v` in two's complement.
pub open spec fn to_unsigned(v: int, n: nat) -> nat {
    if v >= 0 {
        v as nat
    } else {
        (v + pow256(n)) as nat
    }
}

/// The two's complement reading of the residue `u` modulo `256^n`.
pub open spec fn to_signed(u: nat, n: nat) -> int {
    if 2 * u < pow256(n) {
        u as int
    } else {
        u - pow256(n)
    }
}

/// Whether `v` fits a two's complement integer of `n` bytes.
pub open spec fn fits_signed(v: int, n: nat) -> bool {
    -(pow256(n) as int) <= 2 * v < pow256(n) as int
}

/// The powers of 256 that the widths in use need.
pub proof fn lemma_pow256_values()
    ensures
        pow256(0) == 1,
        pow256(1) == 0x100,
        pow256(2) == 0x1_0000,
        pow256(3) == 0x100_0000,
        pow256(4) == 0x1_0000_0000,
        pow256(5) == 0x100_0000_0000,
        pow256(6) == 0x1_0000_0000_0000,
        pow256(7) == 0x100_0000_0000_0000,
        pow256(8) == 0x1_0000_0000_0000_0000,
        pow256(16) == 0x1_0000_0000_0000_0000_0000_0000_0000_0000,
{
    reveal_with_fuel(pow256, 17);
}

/// Each power of 256 is 256 times the one before it, and none is zero.
pub proof fn lemma_pow256_step(n: nat)
    ensures
        pow256(n + 1) == 256 * pow256(n),
        pow256(n) >= 1,
    decreases n,
{
    if n > 0 {
        lemma_pow256_step((n - 1) as nat);
    }
}

/// The powers of 256 grow with the exponent.
pub proof fn lemma_pow256_monotonic(a: nat, b: nat)
    requires
        a <= b,
    ensures
        pow256(a) <= pow256(b),
    decreases b,
{
    if a < b {
        lemma_pow256_monotonic(a, (b - 1) as nat);
        lemma_pow256_step((b - 1) as nat);
    }
}

/// A number written in `n` bytes takes `n` bytes.
pub proof fn lemma_be_bytes_len(v: nat, n: nat)
    ensures
        be_bytes(v, n).len() == n,
    decreases n,
{
    if n > 0 {
        lemma_be_bytes_len(v / 256, (n - 1) as nat);
    }
}

/// What `n` bytes spell lies below `256^n`.
pub proof fn lemma_be_value_bound(s: Seq<u8>)
    ensures
        be_value(s) < pow256(s.len()),
    decreases s.len(),
{
    if s.len() > 0 {
        lemma_be_value_bound(s.drop_last());
        lemma_pow256_step((s.len() - 1) as nat);
    }
}

/// Reading what was written gives the number back.
pub proof fn lemma_be_value_of_bytes(v: nat, n: nat)
    requires
        v < pow256(n),
    ensures
        be_value(be_bytes(v, n)) == v,
    decreases n,
{
    if n > 0 {
        let m = (n - 1) as nat;
        lemma_pow256_step(m);
        lemma_be_value_of_bytes(v / 256, m);
        lemma_be_bytes_len(v / 256, m);
        assert(be_bytes(v, n).drop_last() =~= be_bytes(v / 256, m));
    }
}

/// Writing what was read gives the bytes back.
pub proof fn lemma_be_bytes_of_value(s: Seq<u8>)
    ensures
        be_bytes(be_value(s), s.len()) == s,
    decreases s.len(),
{
    if s.len() > 0 {
        lemma_be_bytes_of_value(s.drop_last());
        let hi = be_value(s.drop_last());
        let lo = s.last() as nat;
        assert((hi * 256 + lo) / 256 == hi);
        assert((hi * 256 + lo) % 256 == lo);
        assert(be_bytes(be_value(s), s.len()) =~= s);
    } else {
        assert(be_bytes(be_value(s), s.len()) =~= s);
    }
}

/// Two's complement and back is the identity on what fits.
pub proof fn lemma_signed_round_trip(v: int, n: nat)
    requires
        fits_signed(v, n),
    ensures
        to_unsigned(v, n) < pow256(n),
        to_signed(to_unsigned(v, n), n) == v,
{
    lemma_pow256_step(n);
}

/// Appends the `n` low bytes of `v` to `out`, most significant first.
pub fn push_be(out: &mut Vec<u8>, v: u128, n: usize)
    requires
        n <= 16,
    ensures
        final(out)@ == old(out)@ + be_bytes(v as nat, n as nat),
    decreases n,
{
    if n > 0 {
        push_be(out, v / 256, n - 1);
        out.push((v % 256) as u8);
        assert(final(out)@ =~= old(out)@ + be_bytes(v as nat, n as nat));
    } else {
        assert(final(out)@ =~= old(out)@ + be_bytes(v as nat, n as nat));
    }
}

/// Reads the `n` bytes of `s` that start at `start` as one number.
pub fn read_be(s: &[u8], start: usize, n: usize) -> (r: u128)
    requires
        n <= 16,
        start + n <= s@.len(),
    ensures
        r == be_value(s@.subrange(start as int, start + n)),
        r < pow256(n as nat),
{
    let len: usize = s.len();
    let mut acc: u128 = 0;
    let mut i: usize = 0;
    proof {
        lemma_pow256_values();
    }
    while i < n
        invariant
            n <= 16,
            start + n <= s@.len(),
            s@.len() == len,
            i <= n,
            acc == be_value(s@.subrange(start as int, start + i)),
            acc < pow256(i as nat),
        decreases n - i,
    {
        proof {
            lemma_pow256_step(i as nat);
            lemma_pow256_monotonic((i + 1) as nat, 16);
            lemma_pow256_values();
            let t = s@.subrange(start as int, start + i + 1);
            assert(t.drop_last() =~= s@.subrange(start as int, start + i));
        }
        acc = acc * 256 + s[start + i] as u128;
        i = i + 1;
    }
    acc
}

/// The residue that stands for `v` in two's complement of `n` bytes.
pub fn unsigned_of(v: i64, n: usize) -> (r: u128)
    requires
        1 <= n <= 8,
        fits_signed(v as int, n as nat),
    ensures
        r == to_unsigned(v as int, n as nat),
        r < pow256(n as nat),
{
    proof {
        lemma_pow256_values();
        lemma_pow256_monotonic(n as nat, 8);
        lemma_pow256_step(n as nat);
    }
    if v >= 0 {
        v as u128
    } else {
        let m: i128 = modulus(n) as i128;
        (v as i128 + m) as u128
    }
}

/// `256^n` for a width of up to eight bytes.
pub fn modulus(n: usize) -> (r: u128)
    requires
        n <= 8,
    ensures
        r == pow256(n as nat),
{
    proof {
        lemma_pow256_values();
    }
    let mut r: u128 = 1;
    let mut i: usize = 0;
    while i < n
        invariant
            n <= 8,
            i <= n,
            r == pow256(i as nat),
        decreases n - i,
    {
        proof {
            lemma_pow256_step(i as nat);
            lemma_pow256_monotonic((i + 1) as nat, 8);
            lemma_pow256_values();
        }
        r = r * 256;
        i = i + 1;
    }
    r
}

/// The two's complement reading of a residue of `n` bytes.
pub fn signed_of(u: u128, n: usize) -> (r: i64)
    requires
        1 <= n <= 8,
        u < pow256(n as nat),
    ensures
        r == to_signed(u as nat, n as nat),
        fits_signed(r as int, n as nat),
{
    proof {
        lemma_pow256_values();
        lemma_pow256_monotonic(n as nat, 8);
        lemma_pow256_step(n as nat);
    }
    let m: u128 = modulus(n);
    if 2 * u < m {
        u as i64
    } else {
        (u as i128 - m as i128) as i64
    }
}

} // verus!

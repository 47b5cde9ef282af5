//! Binary floating-point numbers as bit patterns: the widening of a
//! single-precision number to double precision, in integer arithmetic.

use vstd::prelude::*;

verus! {

/// The exponent and fraction bits of the double that equals the
/// subnormal single with significand `m`, doubled `e` times so far: the
/// significand is doubled until its leading bit reaches the hidden place,
/// and the exponent sinks by one for each doubling.
pub open spec fn subnormal_bits(m: nat, e: nat) -> nat
    decreases 0x100_0000 - m,
{
    if m == 0 || m >= 0x80_0000 {
        ((897 - e) * 0x10_0000_0000_0000 + (m - 0x80_0000) * 0x2000_0000) as nat
    } else {
        subnormal_bits(2 * m, e + 1)
    }
}

/// The bits of the double-precision number that equals the
/// single-precision number with the bits `b`. Infinities stay infinities
/// and a not-a-number keeps its sign and its payload.
pub open spec fn widen_bits(b: u32) -> u64 {
    let sign = (b / 0x8000_0000) as nat;
    let exponent = ((b / 0x80_0000) % 0x100) as nat;
    let fraction = (b % 0x80_0000) as nat;
    (sign * 0x8000_0000_0000_0000 + magnitude_bits(exponent, fraction)) as u64
}

fn widen_subnormal(fraction: u64) -> (r: u64)
    requires
        0 < fraction < 0x80_0000,
    ensures
        r == subnormal_bits(fraction as nat, 0),
        r < 0x8000_0000_0000_0000,
{
    let mut m: u64 = fraction;
    let mut e: u64 = 0;
    while m < 0x80_0000
        invariant
            0 < m < 0x100_0000,
            doubled(e as nat) <= m,
            e <= 23,
            subnormal_bits(m as nat, e as nat) == subnormal_bits(fraction as nat, 0),
        decreases 0x100_0000 - m,
    {
        proof {
            lemma_doubled_grows(e as nat);
        }
        m = 2 * m;
        e = e + 1;
    }
    (897 - e) * 0x10_0000_0000_0000 + (m - 0x80_0000) * 0x2000_0000
}

/// One, doubled `e` times.
spec fn doubled(e: nat) -> nat
    decreases e,
{
    if e == 0 {
        1
    } else {
        2 * doubled((e - 1) as nat)
    }
}

proof fn lemma_doubled_grows(e: nat)
    ensures
        e >= 23 ==> doubled(e) >= 0x80_0000,
    decreases e,
{
    if e > 23 {
        lemma_doubled_grows((e - 1) as nat);
    } else if e == 23 {
        reveal_with_fuel(doubled, 24);
    }
}

/// The widening of the single-precision bits `b`.
pub fn widen(b: u32) -> (r: u64)
    ensures
        r == widen_bits(b),
{
    let sign: u64 = (b / 0x8000_0000) as u64;
    let exponent: u64 = ((b / 0x80_0000) % 0x100) as u64;
    let fraction: u64 = (b % 0x80_0000) as u64;
    let magnitude: u64 = if exponent == 0xFF {
        0x7FF * 0x10_0000_0000_0000 + fraction * 0x2000_0000
    } else if exponent != 0 {
        (exponent + 896) * 0x10_0000_0000_0000 + fraction * 0x2000_0000
    } else if fraction == 0 {
        0
    } else {
        widen_subnormal(fraction)
    };
    sign * 0x8000_0000_0000_0000 + magnitude
}

/// The exponent and fraction bits of the double that equals the
/// single-precision number with the exponent field `exponent` and the
/// fraction field `fraction`.
pub open spec fn magnitude_bits(exponent: nat, fraction: nat) -> nat {
    if exponent == 0xFF {
        0x7FF * 0x10_0000_0000_0000 + fraction * 0x2000_0000
    } else if exponent != 0 {
        (exponent + 896) * 0x10_0000_0000_0000 + fraction * 0x2000_0000
    } else if fraction == 0 {
        0
    } else {
        subnormal_bits(fraction, 0)
    }
}

proof fn lemma_doubled_bound(e: nat)
    ensures
        doubled(e) >= 1,
        e >= 24 ==> doubled(e) >= 0x100_0000,
    decreases e,
{
    if e > 24 {
        lemma_doubled_bound((e - 1) as nat);
    } else if e == 24 {
        reveal_with_fuel(doubled, 25);
    } else if e > 0 {
        lemma_doubled_bound((e - 1) as nat);
    }
}

/// A subnormal significand, doubled until its leading bit is in place:
/// how often it is doubled, and what it then is.
proof fn lemma_subnormal_form(m: nat, e: nat) -> (r: (nat, nat))
    requires
        0 < m < 0x100_0000,
        doubled(e) <= m,
    ensures
        ({
            let (j, scaled) = r;
            &&& scaled == m * doubled(j)
            &&& 0x80_0000 <= scaled < 0x100_0000
            &&& e + j <= 23
            &&& (m < 0x80_0000 ==> j >= 1)
            &&& subnormal_bits(m, e) == (897 - (e + j)) * 0x10_0000_0000_0000 + (scaled - 0x80_0000)
                * 0x2000_0000
        }),
    decreases 0x100_0000 - m,
{
    lemma_doubled_bound(e);
    if m >= 0x80_0000 {
        assert(m * doubled(0) == m) by (nonlinear_arith)
            requires
                doubled(0) == 1,
        ;
        (0, m)
    } else {
        let (j, scaled) = lemma_subnormal_form(2 * m, e + 1);
        let d = doubled(j);
        assert((2 * m) * d == m * (2 * d)) by (nonlinear_arith);
        (j + 1, scaled)
    }
}

proof fn lemma_magnitude_parts(exponent: nat, fraction: nat) -> (r: (nat, nat))
    requires
        exponent < 0x100,
        fraction < 0x80_0000,
    ensures
        ({
            let (high, low) = r;
            &&& magnitude_bits(exponent, fraction) == high * 0x10_0000_0000_0000 + low
            &&& low < 0x10_0000_0000_0000
            &&& high < 0x800
            &&& (exponent == 0xFF ==> high == 0x7FF && low == fraction * 0x2000_0000)
            &&& (0 < exponent < 0xFF ==> high == exponent + 896 && low == fraction * 0x2000_0000)
            &&& (exponent == 0 && fraction == 0 ==> high == 0 && low == 0)
            &&& (exponent == 0 && fraction != 0 ==> 874 <= high <= 896 && exists|j: nat|
                1 <= j <= 23 && high == 897 - j && low == (fraction * doubled(j) - 0x80_0000)
                    * 0x2000_0000 && 0x80_0000 <= fraction * #[trigger] doubled(j) < 0x100_0000)
        }),
{
    if exponent == 0xFF {
        (0x7FF, fraction * 0x2000_0000)
    } else if exponent != 0 {
        (exponent + 896, fraction * 0x2000_0000)
    } else if fraction == 0 {
        (0, 0)
    } else {
        assert(doubled(0) == 1);
        let (j, scaled) = lemma_subnormal_form(fraction, 0);
        ((897 - j) as nat, ((scaled - 0x80_0000) * 0x2000_0000) as nat)
    }
}

/// Widening loses nothing: two single-precision numbers with the same
/// double are the same number, bit for bit.
pub proof fn lemma_widen_is_injective(a: u32, b: u32)
    requires
        widen_bits(a) == widen_bits(b),
    ensures
        a == b,
{
    let sa = (a / 0x8000_0000) as nat;
    let ea = ((a / 0x80_0000) % 0x100) as nat;
    let fa = (a % 0x80_0000) as nat;
    let sb = (b / 0x8000_0000) as nat;
    let eb = ((b / 0x80_0000) % 0x100) as nat;
    let fb = (b % 0x80_0000) as nat;
    let (ha, la) = lemma_magnitude_parts(ea, fa);
    let (hb, lb) = lemma_magnitude_parts(eb, fb);
    let ma = magnitude_bits(ea, fa);
    let mb = magnitude_bits(eb, fb);
    assert(widen_bits(a) == (sa * 0x8000_0000_0000_0000 + ma) as u64);
    assert(widen_bits(b) == (sb * 0x8000_0000_0000_0000 + mb) as u64);
    assert(ma < 0x8000_0000_0000_0000);
    assert(mb < 0x8000_0000_0000_0000);
    assert(sa == sb && ma == mb);
    assert(ha == hb && la == lb);
    if ea == 0 && fa != 0 {
        let ja = choose|j: nat|
            1 <= j <= 23 && ha == 897 - j && la == (fa * doubled(j) - 0x80_0000) * 0x2000_0000
                && 0x80_0000 <= fa * #[trigger] doubled(j) < 0x100_0000;
        let jb = choose|j: nat|
            1 <= j <= 23 && hb == 897 - j && lb == (fb * doubled(j) - 0x80_0000) * 0x2000_0000
                && 0x80_0000 <= fb * #[trigger] doubled(j) < 0x100_0000;
        assert(ja == jb);
        let d = doubled(ja);
        lemma_doubled_bound(ja);
        assert(fa * d == fb * d);
        assert(fa == fb) by (nonlinear_arith)
            requires
                fa * d == fb * d,
                d >= 1,
        ;
    }
    assert(ea == eb && fa == fb);
    assert(a == sa * 0x8000_0000 + ea * 0x80_0000 + fa);
    assert(b == sb * 0x8000_0000 + eb * 0x80_0000 + fb);
}

} // verus!

//! Intensities travel through the library as the bit patterns of IEEE-754
//! single-precision numbers. The spec functions here read those patterns as
//! exact dyadic values, so scaling and comparison are stated without any
//! floating-point arithmetic.
use vstd::arithmetic::power2::{lemma2_to64, lemma2_to64_rest, lemma_pow2_unfold, pow2};
use vstd::prelude::*;

verus! {

/// Largest value a scaled intensity can take.
pub const MAX_LEVEL: u16 = 150;

/// Bit pattern of `1.0`.
pub const ONE_BITS: u32 = 0x3f80_0000;

/// Bit pattern of positive infinity; every larger pattern without the sign
/// bit is a NaN.
pub const INFINITY_BITS: u32 = 0x7f80_0000;

/// The sign bit of a bit pattern (1 for negative numbers and negative zero).
pub open spec fn sign_of(bits: u32) -> int {
    bits as int / 0x8000_0000
}

/// The biased exponent field.
pub open spec fn exponent_of(bits: u32) -> int {
    (bits as int / 0x80_0000) % 256
}

/// The stored fraction field.
pub open spec fn fraction_of(bits: u32) -> int {
    bits as int % 0x80_0000
}

/// Whether the number is greater than zero (NaN is not).
pub open spec fn is_positive(bits: u32) -> bool {
    sign_of(bits) == 0 && bits != 0 && bits <= INFINITY_BITS
}

/// What a number adds to a running maximum that starts at zero: NaN and
/// numbers that are not positive add nothing. Among non-negative numbers the
/// order of the bit patterns is the numeric order.
pub open spec fn magnitude(bits: u32) -> u32 {
    if is_positive(bits) {
        bits
    } else {
        0
    }
}

/// The largest number of `s`, zero when none is positive.
pub open spec fn max_level(s: Seq<u32>) -> u32
    decreases s.len(),
{
    if s.len() == 0 {
        0
    } else {
        let m = max_level(s.drop_last());
        let x = magnitude(s.last());
        if x > m {
            x
        } else {
            m
        }
    }
}

/// `x` limited to `[0, MAX_LEVEL]`.
pub open spec fn clamp_level(x: int) -> int {
    if x < 0 {
        0
    } else if x > MAX_LEVEL {
        MAX_LEVEL as int
    } else {
        x
    }
}

/// The significand of a finite positive number, as an integer.
pub open spec fn significand_of(bits: u32) -> int {
    if exponent_of(bits) == 0 {
        fraction_of(bits)
    } else {
        fraction_of(bits) + 0x80_0000
    }
}

/// The power of two that the significand is multiplied by.
pub open spec fn power_of(bits: u32) -> int {
    if exponent_of(bits) == 0 {
        -149
    } else {
        exponent_of(bits) - 150
    }
}

/// The number of binary digits of `n`.
pub open spec fn bit_len(n: nat) -> nat
    decreases n,
{
    if n == 0 {
        0
    } else {
        1 + bit_len(n / 2)
    }
}

/// `n / d` rounded to the nearest integer, ties to the even one.
pub open spec fn div_round_even(n: int, d: int) -> int {
    let q = n / d;
    let r = n % d;
    if 2 * r > d || (2 * r == d && q % 2 == 1) {
        q + 1
    } else {
        q
    }
}

/// `n` rounded to 24 significant binary digits, ties to even: the rounding
/// of a single-precision product, whose exact value is `n` times a power of
/// two.
pub open spec fn single_rounded(n: nat) -> int {
    let len = bit_len(n);
    if len <= 24 {
        n as int
    } else {
        let d = pow2((len - 24) as nat) as int;
        div_round_even(n as int, d) * d
    }
}

/// `base * value(bits)` as single precision computes it (the exact product
/// rounded to 24 significant digits, ties to even), then rounded to the
/// nearest integer with ties away from zero, then limited to
/// `[0, MAX_LEVEL]`. A product that is not positive gives 0; NaN gives 0;
/// infinity gives `MAX_LEVEL` unless `base` is 0.
pub open spec fn scaled(base: int, bits: u32) -> int {
    if !is_positive(bits) {
        0
    } else if exponent_of(bits) == 255 {
        if base == 0 {
            0
        } else {
            MAX_LEVEL as int
        }
    } else {
        let n = single_rounded((base * significand_of(bits)) as nat);
        let e = power_of(bits);
        if e >= 0 {
            clamp_level(n * pow2(e as nat))
        } else {
            clamp_level((n + pow2((-e - 1) as nat)) / (pow2((-e) as nat) as int))
        }
    }
}

proof fn lemma_bit_len_bound(n: nat, k: nat)
    requires
        n < pow2(k),
    ensures
        bit_len(n) <= k,
    decreases k,
{
    if n > 0 {
        if k == 0 {
            lemma2_to64();
        } else {
            lemma_pow2_unfold(k);
            lemma_bit_len_bound(n / 2, (k - 1) as nat);
        }
    }
}

/// `n` rounded to 24 significant binary digits, see `single_rounded`.
pub(crate) fn round_to_single(n: u64) -> (r: u64)
    requires
        n < 0x100_0000_0000,
    ensures
        r as int == single_rounded(n as nat),
        r < 0x200_0000_0000,
{
    let mut len: u32 = 0;
    let mut t: u64 = n;
    proof {
        lemma2_to64_rest();
        lemma_bit_len_bound(n as nat, 40);
    }
    while t > 0
        invariant
            len + bit_len(t as nat) == bit_len(n as nat),
            bit_len(n as nat) <= 40,
        decreases t,
    {
        t = t / 2;
        len = len + 1;
    }
    if len <= 24 {
        return n;
    }
    let d: u64 = pow2_u64(len - 24);
    proof {
        lemma2_to64();
        if len - 24 < 16 {
            vstd::arithmetic::power2::lemma_pow2_strictly_increases((len - 24) as nat, 16);
        }
        vstd::arithmetic::power2::lemma_pow2_pos((len - 24) as nat);
    }
    let q: u64 = n / d;
    let rem: u64 = n % d;
    let rounded: u64 = if 2 * rem > d || (2 * rem == d && q % 2 == 1) {
        q + 1
    } else {
        q
    };
    proof {
        vstd::arithmetic::div_mod::lemma_fundamental_div_mod(n as int, d as int);
        assert(rounded * d <= n + d) by (nonlinear_arith)
            requires
                n == d * q + rem,
                rounded <= q + 1,
                rem >= 0,
        ;
    }
    rounded * d
}

/// `2^e` as a machine integer.
pub(crate) fn pow2_u64(e: u32) -> (r: u64)
    requires
        e < 64,
    ensures
        r as nat == pow2(e as nat),
{
    let mut r: u64 = 1;
    let mut i: u32 = 0;
    proof {
        vstd::arithmetic::power2::lemma2_to64();
    }
    while i < e
        invariant
            i <= e < 64,
            r as nat == pow2(i as nat),
        decreases e - i,
    {
        proof {
            lemma_pow2_unfold((i + 1) as nat);
            vstd::arithmetic::power2::lemma_pow2_strictly_increases((i + 1) as nat, 64);
            vstd::arithmetic::power2::lemma2_to64();
        }
        r = r * 2;
        i = i + 1;
    }
    r
}

} // verus!

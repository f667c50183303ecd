//! The mathematical model of the two IEEE 754 bit-pattern encodings.
//!
//! A binary32 value is a `u32` holding, from the top bit down, a sign bit, an
//! 8-bit biased exponent and a 23-bit fraction; binary64 is the analogous
//! `u64` layout with an 11-bit exponent and a 52-bit fraction.  The spec
//! functions here read those fields arithmetically and give every encoding an
//! integer *scaled value*: for a finite binary32 the value of the encoding
//! times `pow2(149)`, for a finite binary64 the value times `pow2(1074)`
//! (every finite value of the width is an integer multiple of the smallest
//! subnormal, so the scaled value is exact).  Infinities continue the same
//! formula past the finite range, which keeps the scaled value strictly
//! increasing in the encoded magnitude; contracts only compare them.

use vstd::arithmetic::power2::*;
use vstd::prelude::*;

verus! {

// ---------------------------------------------------------------- binary32

/// The sign bit of a binary32 encoding (0 or 1).
pub open spec fn sign32(b: u32) -> u32 {
    b / 0x8000_0000
}

/// The magnitude bits of a binary32 encoding: biased exponent and fraction.
pub open spec fn mag32(b: u32) -> u32 {
    b % 0x8000_0000
}

/// The biased exponent field of a binary32 encoding.
pub open spec fn exp32(b: u32) -> u32 {
    mag32(b) / 0x0080_0000
}

/// The fraction field of a binary32 encoding.
pub open spec fn frac32(b: u32) -> u32 {
    mag32(b) % 0x0080_0000
}

/// Whether a binary32 encoding is a NaN.
pub open spec fn is_nan32(b: u32) -> bool {
    exp32(b) == 255 && frac32(b) != 0
}

/// Whether a binary32 encoding is an infinity.
pub open spec fn is_inf32(b: u32) -> bool {
    exp32(b) == 255 && frac32(b) == 0
}

/// Whether a binary32 encoding is finite (zero, subnormal or normal).
pub open spec fn is_finite32(b: u32) -> bool {
    exp32(b) != 255
}

/// The scaled value of a magnitude: for finite magnitudes, the value of the
/// encoding times `pow2(149)`; strictly increasing in the magnitude bits.
pub open spec fn mag_val32(m: u32) -> int {
    if m / 0x0080_0000 == 0 {
        m as int
    } else {
        (0x0080_0000 + m % 0x0080_0000) * pow2((m / 0x0080_0000 - 1) as nat)
    }
}

/// The signed scaled value of a binary32 encoding: for a finite encoding,
/// its value times `pow2(149)`.
pub open spec fn val32(b: u32) -> int {
    if sign32(b) == 1 {
        -mag_val32(mag32(b))
    } else {
        mag_val32(mag32(b))
    }
}

/// The sign-magnitude order key of a binary32 encoding.  For encodings that
/// are not NaN it orders exactly as the scaled value does
/// (`crate::laws::lemma_ord32_orders_val32`), with the two zero encodings
/// both at key zero.
pub open spec fn ord32(b: u32) -> int {
    if sign32(b) == 1 {
        -(mag32(b) as int)
    } else {
        mag32(b) as int
    }
}

/// Computes the order key of a binary32 encoding.
pub(crate) fn ord32_exec(b: u32) -> (r: i64)
    ensures
        r as int == ord32(b),
{
    if b >= 0x8000_0000 {
        -((b - 0x8000_0000) as i64)
    } else {
        b as i64
    }
}

// ---------------------------------------------------------------- binary64

/// The sign bit of a binary64 encoding (0 or 1).
pub open spec fn sign64(b: u64) -> u64 {
    b / 0x8000_0000_0000_0000
}

/// The magnitude bits of a binary64 encoding: biased exponent and fraction.
pub open spec fn mag64(b: u64) -> u64 {
    b % 0x8000_0000_0000_0000
}

/// The biased exponent field of a binary64 encoding.
pub open spec fn exp64(b: u64) -> u64 {
    mag64(b) / 0x0010_0000_0000_0000
}

/// The fraction field of a binary64 encoding.
pub open spec fn frac64(b: u64) -> u64 {
    mag64(b) % 0x0010_0000_0000_0000
}

/// Whether a binary64 encoding is a NaN.
pub open spec fn is_nan64(b: u64) -> bool {
    exp64(b) == 2047 && frac64(b) != 0
}

/// Whether a binary64 encoding is an infinity.
pub open spec fn is_inf64(b: u64) -> bool {
    exp64(b) == 2047 && frac64(b) == 0
}

/// Whether a binary64 encoding is finite (zero, subnormal or normal).
pub open spec fn is_finite64(b: u64) -> bool {
    exp64(b) != 2047
}

/// The scaled value of a magnitude: for finite magnitudes, the value of the
/// encoding times `pow2(1074)`; strictly increasing in the magnitude bits.
pub open spec fn mag_val64(m: u64) -> int {
    if m / 0x0010_0000_0000_0000 == 0 {
        m as int
    } else {
        (0x0010_0000_0000_0000 + m % 0x0010_0000_0000_0000) * pow2(
            (m / 0x0010_0000_0000_0000 - 1) as nat,
        )
    }
}

/// The signed scaled value of a binary64 encoding: for a finite encoding,
/// its value times `pow2(1074)`.
pub open spec fn val64(b: u64) -> int {
    if sign64(b) == 1 {
        -mag_val64(mag64(b))
    } else {
        mag_val64(mag64(b))
    }
}

/// The sign-magnitude order key of a binary64 encoding.  For encodings that
/// are not NaN it orders exactly as the scaled value does
/// (`crate::laws::lemma_ord64_orders_val64`), with the two zero encodings
/// both at key zero.
pub open spec fn ord64(b: u64) -> int {
    if sign64(b) == 1 {
        -(mag64(b) as int)
    } else {
        mag64(b) as int
    }
}

/// Computes the order key of a binary64 encoding.
pub(crate) fn ord64_exec(b: u64) -> (r: i64)
    ensures
        r as int == ord64(b),
{
    if b >= 0x8000_0000_0000_0000 {
        -((b - 0x8000_0000_0000_0000) as i64)
    } else {
        b as i64
    }
}

// ------------------------------------------------------------ exec helpers

/// Computes `pow2(k)` for `k < 64`.
pub(crate) fn pow2_u64(k: u64) -> (r: u64)
    requires
        k < 64,
    ensures
        r as nat == pow2(k as nat),
{
    proof {
        lemma2_to64();
    }
    let mut i: u64 = 0;
    let mut r: u64 = 1;
    while i < k
        invariant
            i <= k,
            k < 64,
            r as nat == pow2(i as nat),
        decreases k - i,
    {
        proof {
            lemma_pow2_adds(i as nat, 1);
            lemma2_to64();
            if i + 1 < 63 {
                lemma_pow2_strictly_increases((i + 1) as nat, 63);
            }
            lemma2_to64_rest();
        }
        r = r * 2;
        i = i + 1;
    }
    r
}

/// Computes `pow2(k)` for `k < 128`.
pub(crate) fn pow2_u128(k: u64) -> (r: u128)
    requires
        k < 128,
    ensures
        r as nat == pow2(k as nat),
{
    proof {
        lemma2_to64();
    }
    let mut i: u64 = 0;
    let mut r: u128 = 1;
    while i < k
        invariant
            i <= k,
            k < 128,
            r as nat == pow2(i as nat),
        decreases k - i,
    {
        proof {
            lemma_pow2_adds(i as nat, 1);
            lemma2_to64();
            if i + 1 < 127 {
                lemma_pow2_strictly_increases((i + 1) as nat, 127);
            }
            lemma_pow2_adds(63, 64);
            lemma_pow2_adds(64, 64);
            lemma2_to64_rest();
        }
        r = r * 2;
        i = i + 1;
    }
    r
}

/// Computes the integer square root of `n` by bisection.
pub(crate) fn isqrt_u128(n: u128) -> (r: u128)
    requires
        n < 0x40000_0000_0000_0000_0000_0000_0000,
    ensures
        r * r <= n,
        n < (r + 1) * (r + 1),
{
    let mut lo: u128 = 0;
    let mut hi: u128 = 0x200_0000_0000_0000;
    while hi - lo > 1
        invariant
            lo < hi,
            hi <= 0x200_0000_0000_0000,
            lo * lo <= n,
            n < hi * hi,
        decreases hi - lo,
    {
        let mid: u128 = lo + (hi - lo) / 2;
        proof {
            vstd::arithmetic::mul::lemma_mul_upper_bound(
                mid as int,
                0x200_0000_0000_0000,
                mid as int,
                0x200_0000_0000_0000,
            );
        }
        let sq: u128 = mid * mid;
        if sq <= n {
            lo = mid;
        } else {
            hi = mid;
        }
    }
    lo
}

/// Computes the position of the highest set bit of `m`: the `p` with
/// `pow2(p) <= m < pow2(p + 1)`.
pub(crate) fn msb_u64(m: u64) -> (p: u64)
    requires
        m >= 1,
    ensures
        p < 64,
        pow2(p as nat) <= m < pow2((p + 1) as nat),
{
    proof {
        lemma2_to64();
    }
    let mut p: u64 = 0;
    let mut t: u64 = m;
    while t >= 2
        invariant
            m >= 1,
            p < 64,
            t as int == m as int / pow2(p as nat) as int,
            t >= 1,
        decreases t,
    {
        proof {
            lemma_pow2_pos(p as nat);
            vstd::arithmetic::div_mod::lemma_fundamental_div_mod(
                m as int,
                pow2(p as nat) as int,
            );
            vstd::arithmetic::div_mod::lemma_mod_division_less_than_divisor(m as int, pow2(p as nat) as int);
            vstd::arithmetic::mul::lemma_mul_inequality(2, t as int, pow2(p as nat) as int);
            lemma_pow2_adds(p as nat, 1);
            lemma2_to64();
            // m >= 2 * pow2(p) == pow2(p + 1), and m < pow2(64), so p + 1 < 64
            if p + 1 > 64 {
                lemma_pow2_strictly_increases(64, (p + 1) as nat);
            }
            lemma2_to64_rest();
            vstd::arithmetic::div_mod::lemma_div_denominator(
                m as int,
                pow2(p as nat) as int,
                2,
            );
        }
        t = t / 2;
        p = p + 1;
    }
    proof {
        lemma_pow2_pos(p as nat);
        vstd::arithmetic::div_mod::lemma_fundamental_div_mod(m as int, pow2(p as nat) as int);
        vstd::arithmetic::div_mod::lemma_mod_division_less_than_divisor(m as int, pow2(p as nat) as int);
        lemma_pow2_adds(p as nat, 1);
    }
    p
}

} // verus!

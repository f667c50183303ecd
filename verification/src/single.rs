//! The single-precision (binary32) value type.

use crate::repr::{
    exp32, frac32, is_finite32, is_finite64, is_inf32, is_inf64, is_nan32, is_nan64, mag32, mag64,
    msb_u64, ord32, ord32_exec, pow2_u64, sign32, sign64, val32, val64,
};
use vstd::arithmetic::mul::{lemma_mul_inequality, lemma_mul_is_associative,
    lemma_mul_strict_inequality};
use vstd::arithmetic::power2::*;
use vstd::prelude::*;

verus! {

/// The binary32 encoding of 1.
pub const ONE_BITS_32: u32 = 0x3F80_0000;

/// The binary32 encoding of -1.
pub const NEG_ONE_BITS_32: u32 = 0xBF80_0000;

/// The canonical quiet NaN binary32 encoding.
pub const NAN_BITS_32: u32 = 0x7FC0_0000;

/// The binary32 encoding nearest to pi / 2.
pub const QUARTER_TURN_BITS_32: u32 = 0x3FC9_0FDB;

/// The binary32 encoding nearest to pi.
pub const HALF_TURN_BITS_32: u32 = 0x4049_0FDB;

/// The binary32 encoding nearest to 2 * pi.
pub const FULL_TURN_BITS_32: u32 = 0x40C9_0FDB;

/// The binary32 encoding nearest to pi / 180, the factor taking degrees
/// to radians.
pub const DEG_TO_RAD_BITS_32: u32 = 0x3C8E_FA35;

/// The binary32 encoding nearest to 180 / pi, the factor taking radians
/// to degrees.
pub const RAD_TO_DEG_BITS_32: u32 = 0x4265_2EE0;

/// What `Binary32::min` returns: the other operand if one is NaN, else the
/// operand with the smaller value, the left one when the values tie.
pub open spec fn min_bits32(a: u32, b: u32) -> u32 {
    if is_nan32(a) {
        b
    } else if is_nan32(b) {
        a
    } else if ord32(a) <= ord32(b) {
        a
    } else {
        b
    }
}

/// What `Binary32::max` returns: the other operand if one is NaN, else the
/// operand with the greater value, the left one when the values tie.
pub open spec fn max_bits32(a: u32, b: u32) -> u32 {
    if is_nan32(a) {
        b
    } else if is_nan32(b) {
        a
    } else if ord32(a) >= ord32(b) {
        a
    } else {
        b
    }
}

/// What `Binary32::signum` returns: NaN for NaN, else 1 or -1 by the sign
/// bit (so 1 for positive zero and -1 for negative zero).
pub open spec fn signum_bits32(b: u32) -> u32 {
    if is_nan32(b) {
        NAN_BITS_32
    } else if sign32(b) == 1 {
        NEG_ONE_BITS_32
    } else {
        ONE_BITS_32
    }
}

/// What `Binary32::neg` returns: the encoding with the sign bit flipped.
pub open spec fn neg_bits32(b: u32) -> u32 {
    if b >= 0x8000_0000 {
        (b - 0x8000_0000) as u32
    } else {
        (b + 0x8000_0000) as u32
    }
}

/// Whether `r` encodes the binary32 value nearest the real square root of
/// the positive finite nonzero value `x` encodes: `r` is positive and
/// normal, and the square root of `x` lies strictly between `r` less half
/// an ulp and `r` plus half an ulp.  Squaring those bounds states this in
/// integers over the scaled values; a tie cannot arise, because the square
/// of a halfway point never has few enough significant bits to be a
/// binary32 value.
pub open spec fn rounds_to_sqrt32(x: u32, r: u32) -> bool {
    &&& is_finite32(r)
    &&& sign32(r) == 0
    &&& exp32(r) >= 2
    &&& (val32(r) - pow2((exp32(r) - 2) as nat)) * (val32(r) - pow2((exp32(r) - 2) as nat)) < val32(
        x,
    ) * pow2(149)
    &&& val32(x) * pow2(149) < (val32(r) + pow2((exp32(r) - 2) as nat)) * (val32(r) + pow2(
        (exp32(r) - 2) as nat,
    ))
}

/// An IEEE 754 binary32 value, held as its bit pattern.  Derived equality
/// compares bit patterns (so it distinguishes the two zeros and does not
/// make NaN unequal to itself); value comparison goes through
/// [`crate::repr::val32`] and [`crate::repr::ord32`].
#[derive(Clone, Copy, PartialEq, Eq, Structural, Debug)]
pub struct Binary32 {
    /// The bit pattern: sign, biased exponent, fraction.
    pub bits: u32,
}

impl Binary32 {
    /// Builds the value with the given bit pattern.
    pub fn from_bits(bits: u32) -> (r: Self)
        ensures
            r.bits == bits,
    {
        Binary32 { bits }
    }

    /// Returns the bit pattern.
    pub fn to_bits(self) -> (r: u32)
        ensures
            r == self.bits,
    {
        self.bits
    }

    /// Whether this value is a NaN.
    pub fn is_nan(self) -> (r: bool)
        ensures
            r == is_nan32(self.bits),
    {
        let m: u32 = self.bits % 0x8000_0000;
        m / 0x0080_0000 == 255 && m % 0x0080_0000 != 0
    }

    /// Returns 1.
    pub fn one() -> (r: Self)
        ensures
            r.bits == ONE_BITS_32,
            val32(r.bits) == pow2(149),
    {
        proof {
            lemma2_to64();
            lemma_pow2_adds(23, 126);
        }
        Binary32 { bits: ONE_BITS_32 }
    }

    /// Returns 0 (positive zero).
    pub fn zero() -> (r: Self)
        ensures
            r.bits == 0u32,
            val32(r.bits) == 0,
    {
        Binary32 { bits: 0 }
    }

    /// The lesser of the two values; if exactly one operand is a NaN the
    /// other is returned, as the native minimum does.
    pub fn min(self, other: Self) -> (r: Self)
        ensures
            r.bits == min_bits32(self.bits, other.bits),
            r == self || r == other,
    {
        if self.is_nan() {
            other
        } else if other.is_nan() {
            self
        } else if ord32_exec(self.bits) <= ord32_exec(other.bits) {
            self
        } else {
            other
        }
    }

    /// The greater of the two values; if exactly one operand is a NaN the
    /// other is returned, as the native maximum does.
    pub fn max(self, other: Self) -> (r: Self)
        ensures
            r.bits == max_bits32(self.bits, other.bits),
            r == self || r == other,
    {
        if self.is_nan() {
            other
        } else if other.is_nan() {
            self
        } else if ord32_exec(self.bits) >= ord32_exec(other.bits) {
            self
        } else {
            other
        }
    }

    /// The sign of the value: 1 for positive values and positive zero, -1
    /// for negative values and negative zero, NaN for NaN.
    pub fn signum(self) -> (r: Self)
        ensures
            r.bits == signum_bits32(self.bits),
    {
        if self.is_nan() {
            Binary32 { bits: NAN_BITS_32 }
        } else if self.bits >= 0x8000_0000 {
            Binary32 { bits: NEG_ONE_BITS_32 }
        } else {
            Binary32 { bits: ONE_BITS_32 }
        }
    }

    /// The value with the opposite sign.
    pub fn neg(self) -> (r: Self)
        ensures
            r.bits == neg_bits32(self.bits),
            is_finite32(self.bits) ==> is_finite32(r.bits) && val32(r.bits) == -val32(self.bits),
            is_nan32(self.bits) == is_nan32(r.bits),
    {
        if self.bits >= 0x8000_0000 {
            Binary32 { bits: self.bits - 0x8000_0000 }
        } else {
            Binary32 { bits: self.bits + 0x8000_0000 }
        }
    }

    /// Radians in a quarter turn: the binary32 value nearest pi / 2.
    pub fn quarter_turn() -> (r: Self)
        ensures
            r.bits == QUARTER_TURN_BITS_32,
    {
        Binary32 { bits: QUARTER_TURN_BITS_32 }
    }

    /// Radians in a half turn: the binary32 value nearest pi.
    pub fn half_turn() -> (r: Self)
        ensures
            r.bits == HALF_TURN_BITS_32,
    {
        Binary32 { bits: HALF_TURN_BITS_32 }
    }

    /// Radians in a full turn: the binary32 value nearest 2 * pi, which is
    /// exactly twice [`Binary32::half_turn`]
    /// (`crate::laws::lemma_full_turn_doubles_half_turn_32`).
    pub fn full_turn() -> (r: Self)
        ensures
            r.bits == FULL_TURN_BITS_32,
    {
        Binary32 { bits: FULL_TURN_BITS_32 }
    }

    /// The IEEE 754 product of the two values, rounded to nearest, ties to
    /// even.
    pub fn mul(self, other: Self) -> (r: Self)
        ensures
            r.bits == crate::soft::prod_bits32(self.bits, other.bits),
    {
        Binary32 { bits: crate::soft::mul32(self.bits, other.bits) }
    }

    /// The IEEE 754 sum of the two values, rounded to nearest, ties to
    /// even.
    pub fn add(self, other: Self) -> (r: Self)
        ensures
            r.bits == crate::soft::sum_bits32(self.bits, other.bits),
    {
        Binary32 { bits: crate::soft::add32(self.bits, other.bits) }
    }

    /// Degrees taken to radians: the product of the value and the binary32
    /// encoding nearest pi / 180.
    pub fn deg_to_rad(self) -> (r: Self)
        ensures
            r.bits == crate::soft::prod_bits32(self.bits, DEG_TO_RAD_BITS_32),
    {
        self.mul(Binary32 { bits: DEG_TO_RAD_BITS_32 })
    }

    /// Radians taken to degrees: the product of the value and the binary32
    /// encoding nearest 180 / pi.
    pub fn rad_to_deg(self) -> (r: Self)
        ensures
            r.bits == crate::soft::prod_bits32(self.bits, RAD_TO_DEG_BITS_32),
    {
        self.mul(Binary32 { bits: RAD_TO_DEG_BITS_32 })
    }

    /// The same value in double precision.  Widening is exact: for a finite
    /// value the binary64 result has exactly the scaled value of the
    /// binary32 argument, rescaled between the two widths' units.
    pub fn widen(self) -> (r: crate::double::Binary64)
        ensures
            is_nan32(self.bits) ==> is_nan64(r.bits),
            is_inf32(self.bits) ==> is_inf64(r.bits),
            is_finite32(self.bits) ==> is_finite64(r.bits) && val64(r.bits) == val32(self.bits)
                * pow2(925),
            !is_nan32(self.bits) ==> sign64(r.bits) == sign32(self.bits),
    {
        let b: u32 = self.bits;
        let s: u64 = (b / 0x8000_0000) as u64;
        let m: u32 = b % 0x8000_0000;
        let e: u64 = (m / 0x0080_0000) as u64;
        let f: u64 = (m % 0x0080_0000) as u64;
        if e == 255 {
            if f != 0 {
                // NaN widens to the canonical quiet NaN with the same sign
                crate::double::Binary64 {
                    bits: s * 0x8000_0000_0000_0000 + crate::double::NAN_BITS_64,
                }
            } else {
                crate::double::Binary64 { bits: s * 0x8000_0000_0000_0000 + 0x7FF0_0000_0000_0000 }
            }
        } else if e == 0 {
            if f == 0 {
                let r = crate::double::Binary64 { bits: s * 0x8000_0000_0000_0000 };
                proof {
                    assert(mag64(r.bits) == 0);
                    assert(val64(r.bits) == 0);
                    assert(val32(b) == 0);
                }
                r
            } else {
                // subnormal: normalize the fraction into a binary64 normal
                let p: u64 = msb_u64(f);
                proof {
                    lemma2_to64();
                    if p > 23 {
                        lemma_pow2_strictly_increases(23, p as nat);
                    }
                }
                let shift: u64 = pow2_u64(52 - p);
                proof {
                    lemma_pow2_pos((52 - p) as nat);
                    lemma_pow2_adds((p + 1) as nat, (52 - p) as nat);
                    lemma_pow2_adds(p as nat, (52 - p) as nat);
                    lemma_mul_strict_inequality(
                        f as int,
                        pow2((p + 1) as nat) as int,
                        pow2((52 - p) as nat) as int,
                    );
                    lemma_mul_inequality(
                        pow2(p as nat) as int,
                        f as int,
                        pow2((52 - p) as nat) as int,
                    );
                    lemma2_to64_rest();
                }
                let m64: u64 = f * shift;
                let r = crate::double::encode_norm64(s == 1, m64, p + 874);
                proof {
                    lemma_pow2_adds((52 - p) as nat, (p + 873) as nat);
                    lemma_mul_is_associative(
                        f as int,
                        pow2((52 - p) as nat) as int,
                        pow2((p + 873) as nat) as int,
                    );
                    vstd::arithmetic::mul::lemma_mul_unary_negation(f as int, pow2(925) as int);
                }
                r
            }
        } else {
            // normal: shift the significand up and rebias the exponent
            let m64: u64 = (0x0080_0000 + f) * 0x2000_0000;
            proof {
                lemma2_to64();
                lemma2_to64_rest();
                assert(0x0010_0000_0000_0000 <= (0x0080_0000 + f) * 0x2000_0000
                    < 0x0020_0000_0000_0000) by (nonlinear_arith)
                    requires
                        f < 0x0080_0000,
                ;
            }
            let r = crate::double::encode_norm64(s == 1, m64, e + 896);
            proof {
                lemma_pow2_adds(29, (e + 895) as nat);
                lemma_pow2_adds((e - 1) as nat, 925);
                lemma_mul_is_associative(
                    (0x0080_0000 + f) as int,
                    0x2000_0000,
                    pow2((e + 895) as nat) as int,
                );
                assert(0x2000_0000 * pow2((e + 895) as nat) == pow2((e + 924) as nat));
                assert(pow2((e - 1) as nat) * pow2(925) == pow2((e + 924) as nat));
                lemma_mul_is_associative(
                    (0x0080_0000 + f) as int,
                    pow2((e - 1) as nat) as int,
                    pow2(925) as int,
                );
                vstd::arithmetic::mul::lemma_mul_unary_negation(
                    (0x0080_0000 + f) as int * pow2((e - 1) as nat) as int,
                    pow2(925) as int,
                );
            }
            r
        }
    }

    /// The square root: NaN for NaN and for negative values, the argument
    /// itself for the two zeros and for positive infinity, and for a
    /// positive finite value the binary32 value nearest the real square
    /// root (ties cannot arise, so the rounding direction never matters).
    #[verifier::rlimit(60)]
    pub fn sqrt(self) -> (r: Self)
        ensures
            is_nan32(self.bits) ==> r.bits == NAN_BITS_32,
            sign32(self.bits) == 1 && mag32(self.bits) != 0 ==> r.bits == NAN_BITS_32,
            mag32(self.bits) == 0 ==> r == self,
            is_inf32(self.bits) && sign32(self.bits) == 0 ==> r == self,
            sign32(self.bits) == 0 && is_finite32(self.bits) && mag32(self.bits) != 0
                ==> rounds_to_sqrt32(self.bits, r.bits),
    {
        let b: u32 = self.bits;
        let m: u32 = b % 0x8000_0000;
        if m == 0 {
            // either zero comes back unchanged
            return self;
        }
        if b >= 0x8000_0000 {
            // negative values, negative NaN included
            return Binary32 { bits: NAN_BITS_32 };
        }
        let e: u32 = m / 0x0080_0000;
        let f: u32 = m % 0x0080_0000;
        if e == 255 {
            if f != 0 {
                return Binary32 { bits: NAN_BITS_32 };
            }
            return self;
        }
        // positive finite nonzero: the value is mm * pow2(eoff) in units of
        // pow2(-149)
        let mm: u64 = if e == 0 {
            f as u64
        } else {
            0x0080_0000u64 + f as u64
        };
        let eoff: u64 = if e == 0 {
            0
        } else {
            (e - 1) as u64
        };
        let p: u64 = msb_u64(mm);
        proof {
            lemma2_to64();
            if p > 24 {
                lemma_pow2_strictly_increases(24, p as nat);
            }
            assert(p <= 23);
        }
        // spread the significand to 47 or 48 bits so that the exponent of
        // the remaining scale, t2 - 250 - 149, is even
        let t1: u64 = eoff + 55 + p;
        let odd: bool = t1 % 2 == 1;
        let sh: u64 = if odd {
            47 - p
        } else {
            46 - p
        };
        let t2: u64 = if odd {
            t1 - 1
        } else {
            t1
        };
        let shifted: u64 = pow2_u64(sh);
        proof {
            lemma_pow2_pos(sh as nat);
            lemma_pow2_adds((p + 1) as nat, sh as nat);
            lemma_pow2_adds(p as nat, sh as nat);
            lemma_mul_strict_inequality(
                mm as int,
                pow2((p + 1) as nat) as int,
                pow2(sh as nat) as int,
            );
            lemma_mul_inequality(pow2(p as nat) as int, mm as int, pow2(sh as nat) as int);
            lemma2_to64_rest();
            assert(pow2((p + sh) as nat) >= pow2(46)) by {
                if p + sh > 46 {
                    lemma_pow2_strictly_increases(46, (p + sh) as nat);
                }
            }
        }
        let m2: u64 = mm * shifted;
        let q0w: u128 = crate::repr::isqrt_u128(m2 as u128);
        proof {
            assert(q0w < 0x0100_0000) by (nonlinear_arith)
                requires
                    q0w * q0w <= m2 as u128,
                    (m2 as u128) < 0x1_0000_0000_0000,
            ;
            assert(q0w >= 0x0080_0000) by (nonlinear_arith)
                requires
                    (m2 as u128) < (q0w + 1) * (q0w + 1),
                    (m2 as u128) >= 0x4000_0000_0000,
            ;
        }
        let q0: u64 = q0w as u64;
        let q1: u64 = if m2 > q0 * q0 + q0 {
            q0 + 1
        } else {
            q0
        };
        let qer: (u64, u64) = if q1 == 0x0100_0000 {
            (0x0080_0000u64, t2 / 2 + 26)
        } else {
            (q1, t2 / 2 + 25)
        };
        let q: u64 = qer.0;
        let er: u64 = qer.1;
        let rr = encode_norm32(false, q as u32, er as u32);
        proof {
            let a = (er - 2) as nat;
            let qi = q as int;
            let m2i = m2 as int;
            let q0i = q0 as int;
            // the result's scaled value and half-ulp
            lemma_pow2_pos(a);
            lemma_pow2_pos(2 * a);
            lemma_pow2_adds(a, 1);
            assert(val32(rr.bits) == qi * (pow2(a) as int * 2));
            assert(val32(rr.bits) == 2 * qi * pow2(a)) by (nonlinear_arith)
                requires
                    val32(rr.bits) == qi * (pow2(a) as int * 2),
            ;
            // the argument's scaled value, rescaled onto the same grid
            assert(val32(b) == mm as int * pow2(eoff as nat));
            lemma_pow2_adds(eoff as nat, 149);
            lemma_pow2_adds(sh as nat, (t2 + 48) as nat);
            assert(sh + t2 + 48 == eoff + 149);
            assert(m2i * pow2((t2 + 48) as nat) == val32(b) * pow2(149)) by (nonlinear_arith)
                requires
                    m2i == mm as int * pow2(sh as nat),
                    val32(b) == mm as int * pow2(eoff as nat),
                    pow2(sh as nat) * pow2((t2 + 48) as nat) == pow2(eoff as nat) * pow2(149),
            ;
            // the two strict bounds, in units of pow2(2 * a)
            lemma_pow2_adds(a, a);
            if q1 == 0x0100_0000 {
                // rounding stepped into the next binade
                assert(t2 + 48 == 2 * a);
                assert((2 * qi - 1) * (2 * qi - 1) < m2i && m2i < (2 * qi + 1) * (2 * qi + 1))
                    by (nonlinear_arith)
                    requires
                        qi == 0x0080_0000,
                        q0i == 0x0100_0000 - 1,
                        m2i > q0i * q0i + q0i,
                        m2i < 0x1_0000_0000_0000,
                ;
                assert((2 * qi * pow2(a) - pow2(a)) * (2 * qi * pow2(a) - pow2(a)) < m2i * pow2(
                    2 * a,
                )) by (nonlinear_arith)
                    requires
                        (2 * qi - 1) * (2 * qi - 1) < m2i,
                        pow2(a) * pow2(a) == pow2(2 * a),
                        pow2(a) > 0,
                ;
                assert(m2i * pow2(2 * a) < (2 * qi * pow2(a) + pow2(a)) * (2 * qi * pow2(a)
                    + pow2(a))) by (nonlinear_arith)
                    requires
                        m2i < (2 * qi + 1) * (2 * qi + 1),
                        pow2(a) * pow2(a) == pow2(2 * a),
                        pow2(a) > 0,
                ;
                assert(m2i * pow2((t2 + 48) as nat) == m2i * pow2(2 * a));
            } else {
                assert(t2 + 48 == 2 * a + 2);
                lemma_pow2_adds(2 * a, 2);
                assert((2 * qi - 1) * (2 * qi - 1) < 4 * m2i && 4 * m2i < (2 * qi + 1) * (2 * qi
                    + 1)) by (nonlinear_arith)
                    requires
                        q0i >= 1,
                        q0i * q0i <= m2i,
                        m2i < (q0i + 1) * (q0i + 1),
                        qi == if m2i > q0i * q0i + q0i {
                            q0i + 1
                        } else {
                            q0i
                        },
                ;
                assert((2 * qi * pow2(a) - pow2(a)) * (2 * qi * pow2(a) - pow2(a)) < m2i * pow2(
                    2 * a + 2,
                )) by (nonlinear_arith)
                    requires
                        (2 * qi - 1) * (2 * qi - 1) < 4 * m2i,
                        pow2(a) * pow2(a) == pow2(2 * a),
                        pow2(2 * a + 2) == pow2(2 * a) * 4,
                        pow2(a) > 0,
                ;
                assert(m2i * pow2(2 * a + 2) < (2 * qi * pow2(a) + pow2(a)) * (2 * qi * pow2(a)
                    + pow2(a))) by (nonlinear_arith)
                    requires
                        4 * m2i < (2 * qi + 1) * (2 * qi + 1),
                        pow2(a) * pow2(a) == pow2(2 * a),
                        pow2(2 * a + 2) == pow2(2 * a) * 4,
                        pow2(a) > 0,
                ;
                assert(m2i * pow2((t2 + 48) as nat) == m2i * pow2(2 * a + 2));
            }
        }
        rr
    }

    /// The value nearest the given integer, rounded to nearest, ties to
    /// even.
    pub fn from_i32(t: i32) -> (r: Self)
        ensures
            r.bits == crate::soft::single_of_int(t as i128),
    {
        Binary32 { bits: crate::soft::single_from_int(t as i128) }
    }

    /// The value nearest the given integer, rounded to nearest, ties to
    /// even.
    pub fn from_u32(t: u32) -> (r: Self)
        ensures
            r.bits == crate::soft::single_of_int(t as i128),
    {
        Binary32 { bits: crate::soft::single_from_int(t as i128) }
    }

    /// The value nearest the given integer, rounded to nearest, ties to
    /// even.
    pub fn from_isize(t: isize) -> (r: Self)
        ensures
            r.bits == crate::soft::single_of_int(t as i128),
    {
        Binary32 { bits: crate::soft::single_from_int(t as i128) }
    }
}

/// Encodes a normal binary32 value: a significand in
/// `[pow2(23), pow2(24))` with a biased exponent in `[1, 254]`, negated
/// when `neg` is set.  The scaled value of the result is exactly the
/// significand times `pow2(eb - 1)`.
pub(crate) fn encode_norm32(neg: bool, m: u32, eb: u32) -> (r: Binary32)
    requires
        0x0080_0000 <= m < 0x0100_0000,
        1 <= eb <= 254,
    ensures
        is_finite32(r.bits),
        exp32(r.bits) == eb,
        sign32(r.bits) == if neg {
            1u32
        } else {
            0u32
        },
        val32(r.bits) == if neg {
            -(m as int * pow2((eb - 1) as nat))
        } else {
            m as int * pow2((eb - 1) as nat)
        },
{
    let sgn: u32 = if neg {
        0x8000_0000
    } else {
        0
    };
    let bits: u32 = sgn + eb * 0x0080_0000 + (m - 0x0080_0000);
    proof {
        assert(eb * 0x0080_0000 <= 254 * 0x0080_0000);
        assert(mag32(bits) == eb * 0x0080_0000 + (m - 0x0080_0000));
        assert(exp32(bits) == eb);
        assert(frac32(bits) == m - 0x0080_0000);
    }
    Binary32 { bits }
}

impl crate::Min for Binary32 {
    fn min(self, other: Self) -> Self {
        Binary32::min(self, other)
    }
}

impl crate::Max for Binary32 {
    fn max(self, other: Self) -> Self {
        Binary32::max(self, other)
    }
}

impl crate::Signum for Binary32 {
    fn signum(self) -> Self {
        Binary32::signum(self)
    }
}

impl crate::One for Binary32 {
    fn one() -> Self {
        Binary32::one()
    }
}

impl crate::Sqrt for Binary32 {
    fn sqrt(self) -> Self {
        Binary32::sqrt(self)
    }
}

impl crate::Zero for Binary32 {
    fn zero() -> Self {
        Binary32::zero()
    }
}

impl crate::Radians for Binary32 {
    fn quarter_turn() -> Self {
        Binary32::quarter_turn()
    }

    fn half_turn() -> Self {
        Binary32::half_turn()
    }

    fn full_turn() -> Self {
        Binary32::full_turn()
    }

    fn deg_to_rad(self) -> Self {
        Binary32::deg_to_rad(self)
    }

    fn rad_to_deg(self) -> Self {
        Binary32::rad_to_deg(self)
    }
}

impl crate::Cast<Binary32> for Binary32 {
    /// Casting a width to itself returns the value unchanged.
    fn cast(self) -> Binary32 {
        self
    }
}

impl crate::Cast<crate::double::Binary64> for Binary32 {
    fn cast(self) -> crate::double::Binary64 {
        self.widen()
    }
}

impl crate::FromPrimitive for Binary32 {
    fn from_isize(t: isize) -> Self {
        Binary32::from_isize(t)
    }

    fn from_u32(t: u32) -> Self {
        Binary32::from_u32(t)
    }

    fn from_i32(t: i32) -> Self {
        Binary32::from_i32(t)
    }
}

} // verus!

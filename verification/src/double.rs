//! The double-precision (binary64) value type.

use crate::repr::{
    exp64, frac64, is_finite64, is_inf64, is_nan64, mag64, msb_u64, ord64, ord64_exec, pow2_u64,
    sign64, val64,
};
use vstd::arithmetic::mul::{lemma_mul_inequality, lemma_mul_is_associative,
    lemma_mul_strict_inequality};
use vstd::arithmetic::power2::*;
use vstd::prelude::*;

verus! {

/// The binary64 encoding of 1.
pub const ONE_BITS_64: u64 = 0x3FF0_0000_0000_0000;

/// The binary64 encoding of -1.
pub const NEG_ONE_BITS_64: u64 = 0xBFF0_0000_0000_0000;

/// The canonical quiet NaN binary64 encoding.
pub const NAN_BITS_64: u64 = 0x7FF8_0000_0000_0000;

/// The binary64 encoding nearest to pi / 2.
pub const QUARTER_TURN_BITS_64: u64 = 0x3FF9_21FB_5444_2D18;

/// The binary64 encoding nearest to pi.
pub const HALF_TURN_BITS_64: u64 = 0x4009_21FB_5444_2D18;

/// The binary64 encoding nearest to 2 * pi.
pub const FULL_TURN_BITS_64: u64 = 0x4019_21FB_5444_2D18;

/// The binary64 encoding nearest to pi / 180, the factor taking degrees
/// to radians.
pub const DEG_TO_RAD_BITS_64: u64 = 0x3F91_DF46_A252_9D39;

/// The binary64 encoding nearest to 180 / pi, the factor taking radians
/// to degrees.
pub const RAD_TO_DEG_BITS_64: u64 = 0x404C_A5DC_1A63_C1F8;

/// What `Binary64::min` returns: the other operand if one is NaN, else the
/// operand with the smaller value, the left one when the values tie.
pub open spec fn min_bits64(a: u64, b: u64) -> u64 {
    if is_nan64(a) {
        b
    } else if is_nan64(b) {
        a
    } else if ord64(a) <= ord64(b) {
        a
    } else {
        b
    }
}

/// What `Binary64::max` returns: the other operand if one is NaN, else the
/// operand with the greater value, the left one when the values tie.
pub open spec fn max_bits64(a: u64, b: u64) -> u64 {
    if is_nan64(a) {
        b
    } else if is_nan64(b) {
        a
    } else if ord64(a) >= ord64(b) {
        a
    } else {
        b
    }
}

/// What `Binary64::signum` returns: NaN for NaN, else 1 or -1 by the sign
/// bit (so 1 for positive zero and -1 for negative zero).
pub open spec fn signum_bits64(b: u64) -> u64 {
    if is_nan64(b) {
        NAN_BITS_64
    } else if sign64(b) == 1 {
        NEG_ONE_BITS_64
    } else {
        ONE_BITS_64
    }
}

/// What `Binary64::neg` returns: the encoding with the sign bit flipped.
pub open spec fn neg_bits64(b: u64) -> u64 {
    if b >= 0x8000_0000_0000_0000 {
        (b - 0x8000_0000_0000_0000) as u64
    } else {
        (b + 0x8000_0000_0000_0000) as u64
    }
}

/// Whether `r` encodes the binary64 value nearest the real square root of
/// the positive finite nonzero value `x` encodes: `r` is positive and
/// normal, and the square root of `x` lies strictly between `r` less half
/// an ulp and `r` plus half an ulp.  Squaring those bounds states this in
/// integers over the scaled values; a tie cannot arise, because the square
/// of a halfway point never has few enough significant bits to be a
/// binary64 value.
pub open spec fn rounds_to_sqrt64(x: u64, r: u64) -> bool {
    &&& is_finite64(r)
    &&& sign64(r) == 0
    &&& exp64(r) >= 2
    &&& (val64(r) - pow2((exp64(r) - 2) as nat)) * (val64(r) - pow2((exp64(r) - 2) as nat)) < val64(
        x,
    ) * pow2(1074)
    &&& val64(x) * pow2(1074) < (val64(r) + pow2((exp64(r) - 2) as nat)) * (val64(r) + pow2(
        (exp64(r) - 2) as nat,
    ))
}

/// An IEEE 754 binary64 value, held as its bit pattern.  Derived equality
/// compares bit patterns (so it distinguishes the two zeros and does not
/// make NaN unequal to itself); value comparison goes through
/// [`crate::repr::val64`] and [`crate::repr::ord64`].
#[derive(Clone, Copy, PartialEq, Eq, Structural, Debug)]
pub struct Binary64 {
    /// The bit pattern: sign, biased exponent, fraction.
    pub bits: u64,
}

impl Binary64 {
    /// Builds the value with the given bit pattern.
    pub fn from_bits(bits: u64) -> (r: Self)
        ensures
            r.bits == bits,
    {
        Binary64 { bits }
    }

    /// Returns the bit pattern.
    pub fn to_bits(self) -> (r: u64)
        ensures
            r == self.bits,
    {
        self.bits
    }

    /// Whether this value is a NaN.
    pub fn is_nan(self) -> (r: bool)
        ensures
            r == is_nan64(self.bits),
    {
        let m: u64 = self.bits % 0x8000_0000_0000_0000;
        m / 0x0010_0000_0000_0000 == 2047 && m % 0x0010_0000_0000_0000 != 0
    }

    /// Returns 1.
    pub fn one() -> (r: Self)
        ensures
            r.bits == ONE_BITS_64,
            val64(r.bits) == pow2(1074),
    {
        proof {
            lemma2_to64();
            lemma2_to64_rest();
            lemma_pow2_adds(52, 1022);
        }
        Binary64 { bits: ONE_BITS_64 }
    }

    /// Returns 0 (positive zero).
    pub fn zero() -> (r: Self)
        ensures
            r.bits == 0u64,
            val64(r.bits) == 0,
    {
        Binary64 { bits: 0 }
    }

    /// The lesser of the two values; if exactly one operand is a NaN the
    /// other is returned, as the native minimum does.
    pub fn min(self, other: Self) -> (r: Self)
        ensures
            r.bits == min_bits64(self.bits, other.bits),
            r == self || r == other,
    {
        if self.is_nan() {
            other
        } else if other.is_nan() {
            self
        } else if ord64_exec(self.bits) <= ord64_exec(other.bits) {
            self
        } else {
            other
        }
    }

    /// The greater of the two values; if exactly one operand is a NaN the
    /// other is returned, as the native maximum does.
    pub fn max(self, other: Self) -> (r: Self)
        ensures
            r.bits == max_bits64(self.bits, other.bits),
            r == self || r == other,
    {
        if self.is_nan() {
            other
        } else if other.is_nan() {
            self
        } else if ord64_exec(self.bits) >= ord64_exec(other.bits) {
            self
        } else {
            other
        }
    }

    /// The sign of the value: 1 for positive values and positive zero, -1
    /// for negative values and negative zero, NaN for NaN.
    pub fn signum(self) -> (r: Self)
        ensures
            r.bits == signum_bits64(self.bits),
    {
        if self.is_nan() {
            Binary64 { bits: NAN_BITS_64 }
        } else if self.bits >= 0x8000_0000_0000_0000 {
            Binary64 { bits: NEG_ONE_BITS_64 }
        } else {
            Binary64 { bits: ONE_BITS_64 }
        }
    }

    /// The value with the opposite sign.
    pub fn neg(self) -> (r: Self)
        ensures
            r.bits == neg_bits64(self.bits),
            is_finite64(self.bits) ==> is_finite64(r.bits) && val64(r.bits) == -val64(self.bits),
            is_nan64(self.bits) == is_nan64(r.bits),
    {
        if self.bits >= 0x8000_0000_0000_0000 {
            Binary64 { bits: self.bits - 0x8000_0000_0000_0000 }
        } else {
            Binary64 { bits: self.bits + 0x8000_0000_0000_0000 }
        }
    }

    /// Radians in a quarter turn: the binary64 value nearest pi / 2.
    pub fn quarter_turn() -> (r: Self)
        ensures
            r.bits == QUARTER_TURN_BITS_64,
    {
        Binary64 { bits: QUARTER_TURN_BITS_64 }
    }

    /// Radians in a half turn: the binary64 value nearest pi.
    pub fn half_turn() -> (r: Self)
        ensures
            r.bits == HALF_TURN_BITS_64,
    {
        Binary64 { bits: HALF_TURN_BITS_64 }
    }

    /// Radians in a full turn: the binary64 value nearest 2 * pi, which is
    /// exactly twice [`Binary64::half_turn`]
    /// (`crate::laws::lemma_full_turn_doubles_half_turn_64`).
    pub fn full_turn() -> (r: Self)
        ensures
            r.bits == FULL_TURN_BITS_64,
    {
        Binary64 { bits: FULL_TURN_BITS_64 }
    }

    /// The IEEE 754 product of the two values, rounded to nearest, ties to
    /// even.
    pub fn mul(self, other: Self) -> (r: Self)
        ensures
            r.bits == crate::soft::prod_bits64(self.bits, other.bits),
    {
        Binary64 { bits: crate::soft::mul64(self.bits, other.bits) }
    }

    /// The IEEE 754 sum of the two values, rounded to nearest, ties to
    /// even.
    pub fn add(self, other: Self) -> (r: Self)
        ensures
            r.bits == crate::soft::sum_bits64(self.bits, other.bits),
    {
        Binary64 { bits: crate::soft::add64(self.bits, other.bits) }
    }

    /// Degrees taken to radians: the product of the value and the binary64
    /// encoding nearest pi / 180.
    pub fn deg_to_rad(self) -> (r: Self)
        ensures
            r.bits == crate::soft::prod_bits64(self.bits, DEG_TO_RAD_BITS_64),
    {
        self.mul(Binary64 { bits: DEG_TO_RAD_BITS_64 })
    }

    /// Radians taken to degrees: the product of the value and the binary64
    /// encoding nearest 180 / pi.
    pub fn rad_to_deg(self) -> (r: Self)
        ensures
            r.bits == crate::soft::prod_bits64(self.bits, RAD_TO_DEG_BITS_64),
    {
        self.mul(Binary64 { bits: RAD_TO_DEG_BITS_64 })
    }

    /// The nearest single-precision value, rounded to nearest, ties to
    /// even.
    pub fn narrow(self) -> (r: crate::single::Binary32)
        ensures
            r.bits == crate::soft::narrow_bits(self.bits),
    {
        crate::single::Binary32 { bits: crate::soft::narrow64(self.bits) }
    }

    /// The square root: NaN for NaN and for negative values, the argument
    /// itself for the two zeros and for positive infinity, and for a
    /// positive finite value the binary64 value nearest the real square
    /// root (ties cannot arise, so the rounding direction never matters).
    #[verifier::rlimit(60)]
    pub fn sqrt(self) -> (r: Self)
        ensures
            is_nan64(self.bits) ==> r.bits == NAN_BITS_64,
            sign64(self.bits) == 1 && mag64(self.bits) != 0 ==> r.bits == NAN_BITS_64,
            mag64(self.bits) == 0 ==> r == self,
            is_inf64(self.bits) && sign64(self.bits) == 0 ==> r == self,
            sign64(self.bits) == 0 && is_finite64(self.bits) && mag64(self.bits) != 0
                ==> rounds_to_sqrt64(self.bits, r.bits),
    {
        let b: u64 = self.bits;
        let m: u64 = b % 0x8000_0000_0000_0000;
        if m == 0 {
            // either zero comes back unchanged
            return self;
        }
        if b >= 0x8000_0000_0000_0000 {
            // negative values, negative NaN included
            return Binary64 { bits: NAN_BITS_64 };
        }
        let e: u64 = m / 0x0010_0000_0000_0000;
        let f: u64 = m % 0x0010_0000_0000_0000;
        if e == 2047 {
            if f != 0 {
                return Binary64 { bits: NAN_BITS_64 };
            }
            return self;
        }
        // positive finite nonzero: the value is mm * pow2(eoff) in units of
        // pow2(-1074)
        let mm: u64 = if e == 0 {
            f
        } else {
            0x0010_0000_0000_0000u64 + f
        };
        let eoff: u64 = if e == 0 {
            0
        } else {
            e - 1
        };
        let p: u64 = msb_u64(mm);
        proof {
            lemma2_to64();
            lemma2_to64_rest();
            if p > 53 {
                lemma_pow2_strictly_increases(53, p as nat);
            }
            assert(p <= 52);
        }
        // spread the significand to 105 or 106 bits so that the exponent of
        // the remaining scale is even
        let t1: u64 = eoff + p;
        let odd: bool = t1 % 2 == 1;
        let sh: u64 = if odd {
            105 - p
        } else {
            104 - p
        };
        let t2: u64 = if odd {
            t1 - 1
        } else {
            t1
        };
        let shifted: u128 = crate::repr::pow2_u128(sh);
        proof {
            lemma_pow2_pos(sh as nat);
            lemma_pow2_adds((p + 1) as nat, sh as nat);
            lemma_pow2_adds(p as nat, sh as nat);
            lemma_mul_strict_inequality(
                mm as int,
                pow2((p + 1) as nat) as int,
                pow2(sh as nat) as int,
            );
            lemma_mul_inequality(pow2(p as nat) as int, mm as int, pow2(sh as nat) as int);
            lemma_pow2_adds(52, 52);
            lemma_pow2_adds(53, 53);
            assert(pow2((p + sh) as nat) >= pow2(104)) by {
                if p + sh > 104 {
                    lemma_pow2_strictly_increases(104, (p + sh) as nat);
                }
            }
            if p + 1 + sh < 106 {
                lemma_pow2_strictly_increases((p + 1 + sh) as nat, 106);
            }
            assert(pow2(104) == 0x10000000000000 * 0x10000000000000);
            assert(pow2(106) == 0x20000000000000 * 0x20000000000000);
        }
        let m2: u128 = (mm as u128) * shifted;
        let q0w: u128 = crate::repr::isqrt_u128(m2);
        proof {
            assert(q0w < 0x0020_0000_0000_0000) by (nonlinear_arith)
                requires
                    q0w * q0w <= m2,
                    m2 < 0x0020_0000_0000_0000u128 * 0x0020_0000_0000_0000,
            ;
            assert(q0w >= 0x0010_0000_0000_0000) by (nonlinear_arith)
                requires
                    m2 < (q0w + 1) * (q0w + 1),
                    m2 >= 0x0010_0000_0000_0000u128 * 0x0010_0000_0000_0000,
            ;
        }
        let q0: u128 = q0w;
        let q1: u128 = if m2 > q0 * q0 + q0 {
            q0 + 1
        } else {
            q0
        };
        let qer: (u64, u64) = if q1 == 0x0020_0000_0000_0000 {
            (0x0010_0000_0000_0000u64, t2 / 2 + 487)
        } else {
            (q1 as u64, t2 / 2 + 486)
        };
        let q: u64 = qer.0;
        let er: u64 = qer.1;
        let rr = encode_norm64(false, q, er);
        proof {
            let a = (er - 2) as nat;
            let qi = q as int;
            let m2i = m2 as int;
            let q0i = q0 as int;
            // the result's scaled value and half-ulp
            lemma_pow2_pos(a);
            lemma_pow2_pos(2 * a);
            lemma_pow2_adds(a, 1);
            assert(val64(rr.bits) == qi * (pow2(a) as int * 2));
            assert(val64(rr.bits) == 2 * qi * pow2(a)) by (nonlinear_arith)
                requires
                    val64(rr.bits) == qi * (pow2(a) as int * 2),
            ;
            // the argument's scaled value, rescaled onto the same grid
            assert(val64(b) == mm as int * pow2(eoff as nat));
            lemma_pow2_adds(eoff as nat, 1074);
            lemma_pow2_adds(sh as nat, (t2 + 970) as nat);
            assert(sh + t2 + 970 == eoff + 1074);
            assert(m2i * pow2((t2 + 970) as nat) == val64(b) * pow2(1074)) by (nonlinear_arith)
                requires
                    m2i == mm as int * pow2(sh as nat),
                    val64(b) == mm as int * pow2(eoff as nat),
                    pow2(sh as nat) * pow2((t2 + 970) as nat) == pow2(eoff as nat) * pow2(1074),
            ;
            // the two strict bounds, in units of pow2(2 * a)
            lemma_pow2_adds(a, a);
            if q1 == 0x0020_0000_0000_0000 {
                // rounding stepped into the next binade
                assert(t2 + 970 == 2 * a);
                assert((2 * qi - 1) * (2 * qi - 1) < m2i && m2i < (2 * qi + 1) * (2 * qi + 1))
                    by (nonlinear_arith)
                    requires
                        qi == 0x0010_0000_0000_0000,
                        q0i == 0x0020_0000_0000_0000 - 1,
                        m2i > q0i * q0i + q0i,
                        m2i < 0x0020_0000_0000_0000u128 as int * 0x0020_0000_0000_0000,
                ;
                assert((2 * qi * pow2(a) - pow2(a)) * (2 * qi * pow2(a) - pow2(a)) < m2i * pow2(
                    2 * a,
                )) by (nonlinear_arith)
                    requires
                        (2 * qi - 1) * (2 * qi - 1) < m2i,
                        pow2(a) * pow2(a) == pow2(2 * a),
                        pow2(a) > 0,
                ;
                assert(m2i * pow2(2 * a) < (2 * qi * pow2(a) + pow2(a)) * (2 * qi * pow2(a)
                    + pow2(a))) by (nonlinear_arith)
                    requires
                        m2i < (2 * qi + 1) * (2 * qi + 1),
                        pow2(a) * pow2(a) == pow2(2 * a),
                        pow2(a) > 0,
                ;
            } else {
                assert(t2 + 970 == 2 * a + 2);
                lemma_pow2_adds(2 * a, 2);
                assert((2 * qi - 1) * (2 * qi - 1) < 4 * m2i && 4 * m2i < (2 * qi + 1) * (2 * qi
                    + 1)) by (nonlinear_arith)
                    requires
                        q0i >= 1,
                        q0i * q0i <= m2i,
                        m2i < (q0i + 1) * (q0i + 1),
                        qi == if m2i > q0i * q0i + q0i {
                            q0i + 1
                        } else {
                            q0i
                        },
                ;
                assert((2 * qi * pow2(a) - pow2(a)) * (2 * qi * pow2(a) - pow2(a)) < m2i * pow2(
                    2 * a + 2,
                )) by (nonlinear_arith)
                    requires
                        (2 * qi - 1) * (2 * qi - 1) < 4 * m2i,
                        pow2(a) * pow2(a) == pow2(2 * a),
                        pow2(2 * a + 2) == pow2(2 * a) * 4,
                        pow2(a) > 0,
                ;
                assert(m2i * pow2(2 * a + 2) < (2 * qi * pow2(a) + pow2(a)) * (2 * qi * pow2(a)
                    + pow2(a))) by (nonlinear_arith)
                    requires
                        4 * m2i < (2 * qi + 1) * (2 * qi + 1),
                        pow2(a) * pow2(a) == pow2(2 * a),
                        pow2(2 * a + 2) == pow2(2 * a) * 4,
                        pow2(a) > 0,
                ;
            }
        }
        rr
    }

    /// The value of the given integer, which double precision represents
    /// exactly.
    pub fn from_i32(t: i32) -> (r: Self)
        ensures
            is_finite64(r.bits),
            val64(r.bits) == t * pow2(1074),
    {
        if t == 0 {
            Binary64 { bits: 0 }
        } else {
            let neg: bool = t < 0;
            let m0: u64 = if t < 0 {
                (-(t as i64)) as u64
            } else {
                t as u64
            };
            let r = Self::exact_from_mag(neg, m0);
            proof {
                vstd::arithmetic::mul::lemma_mul_unary_negation(m0 as int, pow2(1074) as int);
            }
            r
        }
    }

    /// The value of the given integer, which double precision represents
    /// exactly.
    pub fn from_u32(t: u32) -> (r: Self)
        ensures
            is_finite64(r.bits),
            val64(r.bits) == t * pow2(1074),
    {
        if t == 0 {
            Binary64 { bits: 0 }
        } else {
            Self::exact_from_mag(false, t as u64)
        }
    }

    /// The value nearest the given integer, rounded to nearest, ties to
    /// even.
    pub fn from_isize(t: isize) -> (r: Self)
        ensures
            r.bits == crate::soft::double_of_int(t as i128),
    {
        Binary64 { bits: crate::soft::double_from_int(t as i128) }
    }

    /// Encodes a nonzero integer magnitude below `pow2(53)`, which double
    /// precision holds exactly.
    pub(crate) fn exact_from_mag(neg: bool, m0: u64) -> (r: Self)
        requires
            1 <= m0 < 0x0020_0000_0000_0000,
        ensures
            is_finite64(r.bits),
            val64(r.bits) == if neg {
                -(m0 as int * pow2(1074))
            } else {
                m0 as int * pow2(1074)
            },
    {
        let p: u64 = msb_u64(m0);
        proof {
            lemma2_to64();
            lemma2_to64_rest();
            if p > 52 {
                lemma_pow2_strictly_increases(53, p as nat);
            }
            if p == 52 {
                assert(pow2(52) <= m0);
            }
        }
        if p == 52 {
            let r = encode_norm64(neg, m0, 1075);
            proof {
                lemma_pow2_adds(0, 1074);
            }
            r
        } else {
            let shift: u64 = pow2_u64(52 - p);
            proof {
                lemma_pow2_pos((52 - p) as nat);
                lemma_pow2_adds((p + 1) as nat, (52 - p) as nat);
                lemma_pow2_adds(p as nat, (52 - p) as nat);
                lemma_mul_strict_inequality(
                    m0 as int,
                    pow2((p + 1) as nat) as int,
                    pow2((52 - p) as nat) as int,
                );
                lemma_mul_inequality(
                    pow2(p as nat) as int,
                    m0 as int,
                    pow2((52 - p) as nat) as int,
                );
            }
            let m: u64 = m0 * shift;
            let r = encode_norm64(neg, m, p + 1023);
            proof {
                lemma_pow2_adds((52 - p) as nat, (p + 1022) as nat);
                lemma_mul_is_associative(
                    m0 as int,
                    pow2((52 - p) as nat) as int,
                    pow2((p + 1022) as nat) as int,
                );
            }
            r
        }
    }
}

/// Encodes a normal binary64 value: a significand in
/// `[pow2(52), pow2(53))` with a biased exponent in `[1, 2046]`, negated
/// when `neg` is set.  The scaled value of the result is exactly the
/// significand times `pow2(eb - 1)`.
pub(crate) fn encode_norm64(neg: bool, m: u64, eb: u64) -> (r: Binary64)
    requires
        0x0010_0000_0000_0000 <= m < 0x0020_0000_0000_0000,
        1 <= eb <= 2046,
    ensures
        is_finite64(r.bits),
        exp64(r.bits) == eb,
        sign64(r.bits) == if neg {
            1u64
        } else {
            0u64
        },
        val64(r.bits) == if neg {
            -(m as int * pow2((eb - 1) as nat))
        } else {
            m as int * pow2((eb - 1) as nat)
        },
{
    let sgn: u64 = if neg {
        0x8000_0000_0000_0000
    } else {
        0
    };
    let bits: u64 = sgn + eb * 0x0010_0000_0000_0000 + (m - 0x0010_0000_0000_0000);
    proof {
        assert(eb * 0x0010_0000_0000_0000 <= 2046 * 0x0010_0000_0000_0000);
        assert(mag64(bits) == eb * 0x0010_0000_0000_0000 + (m - 0x0010_0000_0000_0000));
        assert(exp64(bits) == eb);
        assert(frac64(bits) == m - 0x0010_0000_0000_0000);
    }
    Binary64 { bits }
}

impl crate::Min for Binary64 {
    fn min(self, other: Self) -> Self {
        Binary64::min(self, other)
    }
}

impl crate::Max for Binary64 {
    fn max(self, other: Self) -> Self {
        Binary64::max(self, other)
    }
}

impl crate::Signum for Binary64 {
    fn signum(self) -> Self {
        Binary64::signum(self)
    }
}

impl crate::One for Binary64 {
    fn one() -> Self {
        Binary64::one()
    }
}

impl crate::Sqrt for Binary64 {
    fn sqrt(self) -> Self {
        Binary64::sqrt(self)
    }
}

impl crate::Zero for Binary64 {
    fn zero() -> Self {
        Binary64::zero()
    }
}

impl crate::Radians for Binary64 {
    fn quarter_turn() -> Self {
        Binary64::quarter_turn()
    }

    fn half_turn() -> Self {
        Binary64::half_turn()
    }

    fn full_turn() -> Self {
        Binary64::full_turn()
    }

    fn deg_to_rad(self) -> Self {
        Binary64::deg_to_rad(self)
    }

    fn rad_to_deg(self) -> Self {
        Binary64::rad_to_deg(self)
    }
}

impl crate::Cast<Binary64> for Binary64 {
    /// Casting a width to itself returns the value unchanged.
    fn cast(self) -> Binary64 {
        self
    }
}

impl crate::Cast<crate::single::Binary32> for Binary64 {
    fn cast(self) -> crate::single::Binary32 {
        self.narrow()
    }
}

impl crate::FromPrimitive for Binary64 {
    fn from_isize(t: isize) -> Self {
        Binary64::from_isize(t)
    }

    fn from_u32(t: u32) -> Self {
        Binary64::from_u32(t)
    }

    fn from_i32(t: i32) -> Self {
        Binary64::from_i32(t)
    }
}

} // verus!

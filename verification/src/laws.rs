//! The general laws of the facade, proved once and for all widths.

use crate::double::{Binary64, FULL_TURN_BITS_64, HALF_TURN_BITS_64, QUARTER_TURN_BITS_64, max_bits64, min_bits64};
use crate::repr::{mag32, mag64, mag_val32, mag_val64, ord32, ord64, sign32, sign64, val32, val64, is_nan32, is_nan64};
use crate::single::{Binary32, FULL_TURN_BITS_32, HALF_TURN_BITS_32, QUARTER_TURN_BITS_32, max_bits32, min_bits32};
use vstd::arithmetic::div_mod::*;
use vstd::arithmetic::mul::*;
use vstd::arithmetic::power2::*;
use vstd::prelude::*;

verus! {

/// The scaled value of a magnitude is never negative, and is zero only for
/// the zero magnitude.
proof fn lemma_mag_val32_pos(m: u32)
    ensures
        mag_val32(m) >= 0,
        m > 0 ==> mag_val32(m) > 0,
{
    if m / 0x0080_0000 != 0 {
        lemma_pow2_pos((m / 0x0080_0000 - 1) as nat);
        lemma_mul_strictly_positive(
            0x0080_0000 + m % 0x0080_0000,
            pow2((m / 0x0080_0000 - 1) as nat) as int,
        );
    }
}

/// The scaled value of a binary32 magnitude grows strictly with the
/// magnitude bits.
proof fn lemma_mag_val32_strict(m1: u32, m2: u32)
    requires
        m1 < m2,
    ensures
        mag_val32(m1) < mag_val32(m2),
{
    let e1 = (m1 / 0x0080_0000) as int;
    let f1 = (m1 % 0x0080_0000) as int;
    let e2 = (m2 / 0x0080_0000) as int;
    let f2 = (m2 % 0x0080_0000) as int;
    lemma_div_is_ordered(m1 as int, m2 as int, 0x0080_0000);
    lemma_fundamental_div_mod(m1 as int, 0x0080_0000);
    lemma_fundamental_div_mod(m2 as int, 0x0080_0000);
    if e1 == e2 {
        if e1 != 0 {
            lemma_pow2_pos((e1 - 1) as nat);
            lemma_mul_strict_inequality(
                0x0080_0000 + f1,
                0x0080_0000 + f2,
                pow2((e1 - 1) as nat) as int,
            );
        }
    } else {
        // e1 < e2, so the whole first binade sits below the second value
        lemma_pow2_pos((e2 - 1) as nat);
        lemma_mul_inequality(1, pow2((e2 - 1) as nat) as int, 0x0080_0000);
        lemma_mul_inequality(
            0x0080_0000,
            0x0080_0000 + f2,
            pow2((e2 - 1) as nat) as int,
        );
        if e1 == 0 {
            assert(mag_val32(m1) == f1);
        } else {
            lemma_pow2_pos((e1 - 1) as nat);
            lemma_mul_strict_inequality(
                0x0080_0000 + f1,
                0x0100_0000,
                pow2((e1 - 1) as nat) as int,
            );
            lemma2_to64();
            lemma_pow2_adds(24, (e1 - 1) as nat);
            assert(0x0100_0000 * pow2((e1 - 1) as nat) == pow2((e1 + 23) as nat));
            if e1 + 23 < e2 + 22 {
                lemma_pow2_strictly_increases((e1 + 23) as nat, (e2 + 22) as nat);
            }
            lemma_pow2_adds(23, (e2 - 1) as nat);
            assert(pow2((e2 + 22) as nat) == 0x0080_0000 * pow2((e2 - 1) as nat));
        }
    }
}

/// Strictly smaller order key means strictly smaller scaled value, for any
/// two binary32 encodings.
proof fn lemma_ord32_val32_strict(a: u32, b: u32)
    requires
        ord32(a) < ord32(b),
    ensures
        val32(a) < val32(b),
{
    lemma_mag_val32_pos(mag32(a));
    lemma_mag_val32_pos(mag32(b));
    if sign32(a) == 1 && sign32(b) == 1 {
        lemma_mag_val32_strict(mag32(b), mag32(a));
    } else if sign32(a) == 1 && sign32(b) != 1 {
        if mag32(a) == 0 {
            lemma_mag_val32_strict(0, mag32(b));
        }
    } else {
        lemma_mag_val32_strict(mag32(a), mag32(b));
    }
}

/// The sign-magnitude order key of a binary32 encoding orders encodings
/// exactly as their scaled values; in particular, for finite encodings, as
/// the real values they encode.
pub proof fn lemma_ord32_orders_val32(a: u32, b: u32)
    ensures
        (ord32(a) <= ord32(b)) == (val32(a) <= val32(b)),
        (ord32(a) == ord32(b)) == (val32(a) == val32(b)),
{
    if ord32(a) < ord32(b) {
        lemma_ord32_val32_strict(a, b);
    } else if ord32(b) < ord32(a) {
        lemma_ord32_val32_strict(b, a);
    } else {
        // equal keys: same sign and magnitude, or two zeros
        lemma_mag_val32_pos(mag32(a));
        lemma_mag_val32_pos(mag32(b));
    }
}

/// The scaled value of a magnitude is never negative, and is zero only for
/// the zero magnitude.
proof fn lemma_mag_val64_pos(m: u64)
    ensures
        mag_val64(m) >= 0,
        m > 0 ==> mag_val64(m) > 0,
{
    if m / 0x0010_0000_0000_0000 != 0 {
        lemma_pow2_pos((m / 0x0010_0000_0000_0000 - 1) as nat);
        lemma_mul_strictly_positive(
            0x0010_0000_0000_0000 + m % 0x0010_0000_0000_0000,
            pow2((m / 0x0010_0000_0000_0000 - 1) as nat) as int,
        );
    }
}

/// The scaled value of a binary64 magnitude grows strictly with the
/// magnitude bits.
proof fn lemma_mag_val64_strict(m1: u64, m2: u64)
    requires
        m1 < m2,
    ensures
        mag_val64(m1) < mag_val64(m2),
{
    let e1 = (m1 / 0x0010_0000_0000_0000) as int;
    let f1 = (m1 % 0x0010_0000_0000_0000) as int;
    let e2 = (m2 / 0x0010_0000_0000_0000) as int;
    let f2 = (m2 % 0x0010_0000_0000_0000) as int;
    lemma_div_is_ordered(m1 as int, m2 as int, 0x0010_0000_0000_0000);
    lemma_fundamental_div_mod(m1 as int, 0x0010_0000_0000_0000);
    lemma_fundamental_div_mod(m2 as int, 0x0010_0000_0000_0000);
    if e1 == e2 {
        if e1 != 0 {
            lemma_pow2_pos((e1 - 1) as nat);
            lemma_mul_strict_inequality(
                0x0010_0000_0000_0000 + f1,
                0x0010_0000_0000_0000 + f2,
                pow2((e1 - 1) as nat) as int,
            );
        }
    } else {
        lemma_pow2_pos((e2 - 1) as nat);
        lemma_mul_inequality(1, pow2((e2 - 1) as nat) as int, 0x0010_0000_0000_0000);
        lemma_mul_inequality(
            0x0010_0000_0000_0000,
            0x0010_0000_0000_0000 + f2,
            pow2((e2 - 1) as nat) as int,
        );
        if e1 == 0 {
            assert(mag_val64(m1) == f1);
        } else {
            lemma_pow2_pos((e1 - 1) as nat);
            lemma_mul_strict_inequality(
                0x0010_0000_0000_0000 + f1,
                0x0020_0000_0000_0000,
                pow2((e1 - 1) as nat) as int,
            );
            lemma2_to64();
            lemma2_to64_rest();
            lemma_pow2_adds(53, (e1 - 1) as nat);
            assert(0x0020_0000_0000_0000 * pow2((e1 - 1) as nat) == pow2((e1 + 52) as nat));
            if e1 + 52 < e2 + 51 {
                lemma_pow2_strictly_increases((e1 + 52) as nat, (e2 + 51) as nat);
            }
            lemma_pow2_adds(52, (e2 - 1) as nat);
            assert(pow2((e2 + 51) as nat) == 0x0010_0000_0000_0000 * pow2((e2 - 1) as nat));
        }
    }
}

/// Strictly smaller order key means strictly smaller scaled value, for any
/// two binary64 encodings.
proof fn lemma_ord64_val64_strict(a: u64, b: u64)
    requires
        ord64(a) < ord64(b),
    ensures
        val64(a) < val64(b),
{
    lemma_mag_val64_pos(mag64(a));
    lemma_mag_val64_pos(mag64(b));
    if sign64(a) == 1 && sign64(b) == 1 {
        lemma_mag_val64_strict(mag64(b), mag64(a));
    } else if sign64(a) == 1 && sign64(b) != 1 {
        if mag64(a) == 0 {
            lemma_mag_val64_strict(0, mag64(b));
        }
    } else {
        lemma_mag_val64_strict(mag64(a), mag64(b));
    }
}

/// The sign-magnitude order key of a binary64 encoding orders encodings
/// exactly as their scaled values; in particular, for finite encodings, as
/// the real values they encode.
pub proof fn lemma_ord64_orders_val64(a: u64, b: u64)
    ensures
        (ord64(a) <= ord64(b)) == (val64(a) <= val64(b)),
        (ord64(a) == ord64(b)) == (val64(a) == val64(b)),
{
    if ord64(a) < ord64(b) {
        lemma_ord64_val64_strict(a, b);
    } else if ord64(b) < ord64(a) {
        lemma_ord64_val64_strict(b, a);
    } else {
        lemma_mag_val64_pos(mag64(a));
        lemma_mag_val64_pos(mag64(b));
    }
}

/// For operands that are not NaN, minimum and maximum are commutative in
/// the values they pick, each returns one of its operands, and the minimum
/// never exceeds the maximum.
pub proof fn lemma_min_max_32(a: Binary32, b: Binary32)
    requires
        !is_nan32(a.bits),
        !is_nan32(b.bits),
    ensures
        min_bits32(a.bits, b.bits) == a.bits || min_bits32(a.bits, b.bits) == b.bits,
        max_bits32(a.bits, b.bits) == a.bits || max_bits32(a.bits, b.bits) == b.bits,
        val32(min_bits32(a.bits, b.bits)) == val32(min_bits32(b.bits, a.bits)),
        val32(max_bits32(a.bits, b.bits)) == val32(max_bits32(b.bits, a.bits)),
        val32(min_bits32(a.bits, b.bits)) <= val32(max_bits32(a.bits, b.bits)),
{
    lemma_ord32_orders_val32(a.bits, b.bits);
    lemma_ord32_orders_val32(b.bits, a.bits);
}

/// For operands that are not NaN, minimum and maximum are commutative in
/// the values they pick, each returns one of its operands, and the minimum
/// never exceeds the maximum.
pub proof fn lemma_min_max_64(a: Binary64, b: Binary64)
    requires
        !is_nan64(a.bits),
        !is_nan64(b.bits),
    ensures
        min_bits64(a.bits, b.bits) == a.bits || min_bits64(a.bits, b.bits) == b.bits,
        max_bits64(a.bits, b.bits) == a.bits || max_bits64(a.bits, b.bits) == b.bits,
        val64(min_bits64(a.bits, b.bits)) == val64(min_bits64(b.bits, a.bits)),
        val64(max_bits64(a.bits, b.bits)) == val64(max_bits64(b.bits, a.bits)),
        val64(min_bits64(a.bits, b.bits)) <= val64(max_bits64(a.bits, b.bits)),
{
    lemma_ord64_orders_val64(a.bits, b.bits);
    lemma_ord64_orders_val64(b.bits, a.bits);
}

/// A half turn of radians is exactly twice a quarter turn: halving a
/// normal binary32 value only steps the exponent, so no rounding is
/// involved.
pub proof fn lemma_quarter_turn_halves_half_turn_32()
    ensures
        val32(HALF_TURN_BITS_32) == 2 * val32(QUARTER_TURN_BITS_32),
{
    lemma_pow2_adds(126, 1);
    lemma2_to64();
    assert((0x0080_0000 + 0x0049_0FDB) * pow2(127) == 2 * ((0x0080_0000 + 0x0049_0FDB) * pow2(
        126,
    ))) by {
        lemma_mul_is_associative((0x0080_0000 + 0x0049_0FDB) as int, pow2(126) as int, 2);
    }
}

/// A half turn of radians is exactly twice a quarter turn: halving a
/// normal binary64 value only steps the exponent, so no rounding is
/// involved.
pub proof fn lemma_quarter_turn_halves_half_turn_64()
    ensures
        val64(HALF_TURN_BITS_64) == 2 * val64(QUARTER_TURN_BITS_64),
{
    lemma_pow2_adds(1022, 1);
    lemma2_to64();
    assert((0x0010_0000_0000_0000 + 0x0009_21FB_5444_2D18) * pow2(1023) == 2 * ((
    0x0010_0000_0000_0000 + 0x0009_21FB_5444_2D18) * pow2(1022))) by {
        lemma_mul_is_associative(
            (0x0010_0000_0000_0000 + 0x0009_21FB_5444_2D18) as int,
            pow2(1022) as int,
            2,
        );
    }
}

/// A full turn of radians is exactly twice a half turn: doubling a normal
/// binary32 value only steps the exponent, so no rounding is involved.
pub proof fn lemma_full_turn_doubles_half_turn_32()
    ensures
        val32(FULL_TURN_BITS_32) == 2 * val32(HALF_TURN_BITS_32),
{
    lemma_pow2_adds(127, 1);
    lemma2_to64();
    assert((0x0080_0000 + 0x0049_0FDB) * pow2(128) == 2 * ((0x0080_0000 + 0x0049_0FDB) * pow2(
        127,
    ))) by {
        lemma_mul_is_associative((0x0080_0000 + 0x0049_0FDB) as int, pow2(127) as int, 2);
    }
}

/// A full turn of radians is exactly twice a half turn: doubling a normal
/// binary64 value only steps the exponent, so no rounding is involved.
pub proof fn lemma_full_turn_doubles_half_turn_64()
    ensures
        val64(FULL_TURN_BITS_64) == 2 * val64(HALF_TURN_BITS_64),
{
    lemma_pow2_adds(1023, 1);
    lemma2_to64();
    assert((0x0010_0000_0000_0000 + 0x0009_21FB_5444_2D18) * pow2(1024) == 2 * ((
    0x0010_0000_0000_0000 + 0x0009_21FB_5444_2D18) * pow2(1023))) by {
        lemma_mul_is_associative(
            (0x0010_0000_0000_0000 + 0x0009_21FB_5444_2D18) as int,
            pow2(1023) as int,
            2,
        );
    }
}

} // verus!

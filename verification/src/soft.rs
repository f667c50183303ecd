//! Trusted wrappers around deterministic software implementations of the
//! correctly rounded IEEE 754 operations that cannot be carried out on bit
//! patterns by short verified code: multiplication, addition, narrowing and
//! integer conversion.
//!
//! Each operation's result is a function of the argument bit patterns alone,
//! so it is given an uninterpreted name that the callers' contracts repeat
//! exactly; nothing else is assumed of it.

use vstd::prelude::*;

verus! {

/// The binary32 encoding of the IEEE 754 product (round to nearest, ties to
/// even) of two binary32 encodings.
pub uninterp spec fn prod_bits32(a: u32, b: u32) -> u32;

/// The binary64 encoding of the IEEE 754 product (round to nearest, ties to
/// even) of two binary64 encodings.
pub uninterp spec fn prod_bits64(a: u64, b: u64) -> u64;

/// The binary32 encoding of the IEEE 754 sum (round to nearest, ties to
/// even) of two binary32 encodings.
pub uninterp spec fn sum_bits32(a: u32, b: u32) -> u32;

/// The binary64 encoding of the IEEE 754 sum (round to nearest, ties to
/// even) of two binary64 encodings.
pub uninterp spec fn sum_bits64(a: u64, b: u64) -> u64;

/// The binary32 encoding of a binary64 encoding's value, rounded to
/// nearest, ties to even.
pub uninterp spec fn narrow_bits(a: u64) -> u32;

/// The binary32 encoding of an integer's value, rounded to nearest, ties
/// to even.
pub uninterp spec fn single_of_int(v: i128) -> u32;

/// The binary64 encoding of an integer's value, rounded to nearest, ties
/// to even.
pub uninterp spec fn double_of_int(v: i128) -> u64;

/// Relies on rustc_apfloat's binary32 multiplication,
/// `rustc_apfloat::Float::mul_r` on `ieee::Single` with
/// `Round::NearestTiesToEven`: deterministic software IEEE 754 arithmetic,
/// a function of the two bit patterns alone.
#[verifier::external_body]
pub(crate) fn mul32(a: u32, b: u32) -> (r: u32)
    ensures
        r == prod_bits32(a, b),
{
    let x = <rustc_apfloat::ieee::Single as rustc_apfloat::Float>::from_bits(a as u128);
    let y = <rustc_apfloat::ieee::Single as rustc_apfloat::Float>::from_bits(b as u128);
    let p = rustc_apfloat::Float::mul_r(x, y, rustc_apfloat::Round::NearestTiesToEven);
    rustc_apfloat::Float::to_bits(p.value) as u32
}

/// Relies on rustc_apfloat's binary64 multiplication,
/// `rustc_apfloat::Float::mul_r` on `ieee::Double` with
/// `Round::NearestTiesToEven`: deterministic software IEEE 754 arithmetic,
/// a function of the two bit patterns alone.
#[verifier::external_body]
pub(crate) fn mul64(a: u64, b: u64) -> (r: u64)
    ensures
        r == prod_bits64(a, b),
{
    let x = <rustc_apfloat::ieee::Double as rustc_apfloat::Float>::from_bits(a as u128);
    let y = <rustc_apfloat::ieee::Double as rustc_apfloat::Float>::from_bits(b as u128);
    let p = rustc_apfloat::Float::mul_r(x, y, rustc_apfloat::Round::NearestTiesToEven);
    rustc_apfloat::Float::to_bits(p.value) as u64
}

/// Relies on rustc_apfloat's binary32 addition,
/// `rustc_apfloat::Float::add_r` on `ieee::Single` with
/// `Round::NearestTiesToEven`: deterministic software IEEE 754 arithmetic,
/// a function of the two bit patterns alone.
#[verifier::external_body]
pub(crate) fn add32(a: u32, b: u32) -> (r: u32)
    ensures
        r == sum_bits32(a, b),
{
    let x = <rustc_apfloat::ieee::Single as rustc_apfloat::Float>::from_bits(a as u128);
    let y = <rustc_apfloat::ieee::Single as rustc_apfloat::Float>::from_bits(b as u128);
    let s = rustc_apfloat::Float::add_r(x, y, rustc_apfloat::Round::NearestTiesToEven);
    rustc_apfloat::Float::to_bits(s.value) as u32
}

/// Relies on rustc_apfloat's binary64 addition,
/// `rustc_apfloat::Float::add_r` on `ieee::Double` with
/// `Round::NearestTiesToEven`: deterministic software IEEE 754 arithmetic,
/// a function of the two bit patterns alone.
#[verifier::external_body]
pub(crate) fn add64(a: u64, b: u64) -> (r: u64)
    ensures
        r == sum_bits64(a, b),
{
    let x = <rustc_apfloat::ieee::Double as rustc_apfloat::Float>::from_bits(a as u128);
    let y = <rustc_apfloat::ieee::Double as rustc_apfloat::Float>::from_bits(b as u128);
    let s = rustc_apfloat::Float::add_r(x, y, rustc_apfloat::Round::NearestTiesToEven);
    rustc_apfloat::Float::to_bits(s.value) as u64
}

/// Relies on rustc_apfloat's binary64-to-binary32 conversion,
/// `rustc_apfloat::FloatConvert::convert_r` from `ieee::Double` to
/// `ieee::Single` with `Round::NearestTiesToEven`: deterministic software
/// IEEE 754 rounding, a function of the bit pattern alone.
#[verifier::external_body]
pub(crate) fn narrow64(a: u64) -> (r: u32)
    ensures
        r == narrow_bits(a),
{
    let x = <rustc_apfloat::ieee::Double as rustc_apfloat::Float>::from_bits(a as u128);
    let mut loses_info: bool = false;
    let n: rustc_apfloat::StatusAnd<rustc_apfloat::ieee::Single> =
        rustc_apfloat::FloatConvert::convert_r(
        x,
        rustc_apfloat::Round::NearestTiesToEven,
        &mut loses_info,
    );
    rustc_apfloat::Float::to_bits(n.value) as u32
}

/// Relies on rustc_apfloat's integer-to-binary32 conversion,
/// `rustc_apfloat::Float::from_i128_r` on `ieee::Single` with
/// `Round::NearestTiesToEven`: deterministic software IEEE 754 rounding, a
/// function of the integer alone.
#[verifier::external_body]
pub(crate) fn single_from_int(v: i128) -> (r: u32)
    ensures
        r == single_of_int(v),
{
    let s = <rustc_apfloat::ieee::Single as rustc_apfloat::Float>::from_i128_r(
        v,
        rustc_apfloat::Round::NearestTiesToEven,
    );
    rustc_apfloat::Float::to_bits(s.value) as u32
}

/// Relies on rustc_apfloat's integer-to-binary64 conversion,
/// `rustc_apfloat::Float::from_i128_r` on `ieee::Double` with
/// `Round::NearestTiesToEven`: deterministic software IEEE 754 rounding, a
/// function of the integer alone.
#[verifier::external_body]
pub(crate) fn double_from_int(v: i128) -> (r: u64)
    ensures
        r == double_of_int(v),
{
    let s = <rustc_apfloat::ieee::Double as rustc_apfloat::Float>::from_i128_r(
        v,
        rustc_apfloat::Round::NearestTiesToEven,
    );
    rustc_apfloat::Float::to_bits(s.value) as u64
}

} // verus!

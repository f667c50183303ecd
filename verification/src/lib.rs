//! A capability facade for floating-point style numerics.
//!
//! Each operation of interest (minimum, maximum, sign, power, square root,
//! trigonometry, radian conversion, identity values, primitive conversion,
//! cross-width casting) is its own small trait, so that generic numeric code
//! can depend on exactly the operations it needs; the [`Float`] trait bundles
//! them all for fully generic code.
//!
//! The crate carries two verified value types, [`single::Binary32`] and
//! [`double::Binary64`], which hold IEEE 754 binary32 / binary64 values by
//! their bit patterns.  Every operation whose result the IEEE encoding pins
//! down exactly (comparisons, sign handling, the radian constants, widening,
//! small integer conversion, the square root) is implemented directly on the
//! bit patterns and verified against a mathematical value model ([`repr`]).
//! The remaining correctly rounded operations (multiplication, addition,
//! narrowing, wide integer conversion) are delegated to a deterministic
//! software implementation behind the trusted wrappers in [`soft`].

use vstd::prelude::*;

pub mod double;
pub mod laws;
pub mod repr;
pub mod single;
pub mod soft;

verus! {

/// Minimum value.
pub trait Min {
    /// Returns the minimum value of self or other.
    fn min(self, other: Self) -> Self where Self: Sized;
}

/// Maximum value.
pub trait Max {
    /// Returns the maximum value of self or other.
    fn max(self, other: Self) -> Self where Self: Sized;
}

/// The sign of the number.
pub trait Signum {
    /// Returns a number representing the sign of self.
    fn signum(self) -> Self where Self: Sized;
}

/// Floating number power.
pub trait Powf {
    /// Returns floating power of the number.
    fn powf(self, other: Self) -> Self where Self: Sized;
}

/// Useful constants for radians.
pub trait Radians {
    /// Returns radians corresponding to 90 degrees.
    fn quarter_turn() -> Self where Self: Sized;

    /// Returns radians corresponding to 180 degrees.
    fn half_turn() -> Self where Self: Sized;

    /// Returns radians corresponding to 360 degrees.
    fn full_turn() -> Self where Self: Sized;

    /// Converts a value to radians from degrees.
    fn deg_to_rad(self) -> Self where Self: Sized;

    /// Converts a value to degrees from radians.
    fn rad_to_deg(self) -> Self where Self: Sized;
}

/// Number 1.
pub trait One {
    /// Returns 1.
    fn one() -> Self where Self: Sized;
}

/// Number 0.
pub trait Zero {
    /// Returns 0.
    fn zero() -> Self where Self: Sized;
}

/// Square root.
pub trait Sqrt {
    /// Returns the square root.
    fn sqrt(self) -> Self where Self: Sized;
}

/// Basic trigonometry functions.
pub trait Trig {
    /// Returns sine of self.
    fn sin(self) -> Self where Self: Sized;
    /// Returns cosine of self.
    fn cos(self) -> Self where Self: Sized;
    /// Returns tangent of self.
    fn tan(self) -> Self where Self: Sized;
    /// Returns inverse sine of self.
    fn asin(self) -> Self where Self: Sized;
    /// Returns inverse cosine of self.
    fn acos(self) -> Self where Self: Sized;
    /// Returns inverse tangent of self.
    fn atan(self) -> Self where Self: Sized;
    /// Returns the four quadrant arctangent of self (y) and other (x).
    fn atan2(self, other: Self) -> Self where Self: Sized;
    /// Returns hyperbolic sine of self.
    fn sinh(self) -> Self where Self: Sized;
    /// Returns hyperbolic cosine of self.
    fn cosh(self) -> Self where Self: Sized;
    /// Returns hyperbolic tangent of self.
    fn tanh(self) -> Self where Self: Sized;
    /// Returns inverse hyperbolic sine of self.
    fn asinh(self) -> Self where Self: Sized;
    /// Returns inverse hyperbolic cosine of self.
    fn acosh(self) -> Self where Self: Sized;
    /// Returns inverse hyperbolic tangent of self.
    fn atanh(self) -> Self where Self: Sized;
}

/// Casts into another type.
pub trait Cast<T> {
    /// Casts into the other type.
    fn cast(self) -> T where Self: Sized;
}

/// Trait for converting from different numeric types.
pub trait FromPrimitive {
    /// Converts from an isize.
    fn from_isize(t: isize) -> Self where Self: Sized;
    /// Converts from a u32.
    fn from_u32(t: u32) -> Self where Self: Sized;
    /// Converts from an i32.
    fn from_i32(t: i32) -> Self where Self: Sized;
}

/// Convenience trait for floats: everything a generic numeric algorithm needs.
pub trait Float:
    'static + Send + Sync + Sized + Copy + Radians + One + Zero + Sqrt + FromPrimitive + Min + Max
    + Signum + Powf + Trig + PartialEq + PartialOrd {
}

impl<T> Float for T where
    T: 'static + Send + Sync + Sized + Copy + Radians + One + Zero + Sqrt + FromPrimitive + Min
        + Max + Signum + Powf + Trig + PartialEq + PartialOrd,
{
}

} // verus!

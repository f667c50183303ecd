//! Behavioural tests for the facade, checked against native floating point.

use float_facade::double::Binary64;
use float_facade::single::Binary32;
use float_facade::{Cast, FromPrimitive, Max, Min, One, Radians, Signum, Sqrt, Zero};

fn b32(x: f32) -> Binary32 {
    Binary32::from_bits(x.to_bits())
}

fn f32_of(b: Binary32) -> f32 {
    f32::from_bits(b.to_bits())
}

fn b64(x: f64) -> Binary64 {
    Binary64::from_bits(x.to_bits())
}

fn f64_of(b: Binary64) -> f64 {
    f64::from_bits(b.to_bits())
}

#[test]
fn test_f32_sqrt() {
    let a = 4.0_f32;
    let b = f32_of(<Binary32 as Sqrt>::sqrt(b32(a)));
    assert!((b - 2.0_f32).abs() < f32::EPSILON)
}

#[test]
fn test_f64_sqrt() {
    let a = 4.0_f64;
    let b = f64_of(<Binary64 as Sqrt>::sqrt(b64(a)));
    assert!((b - 2.0_f64).abs() < f64::EPSILON)
}

#[test]
fn test_sqrt_of_four_is_exactly_two() {
    assert_eq!(b32(4.0).sqrt().to_bits(), 2.0_f32.to_bits());
    assert_eq!(b64(4.0).sqrt().to_bits(), 2.0_f64.to_bits());
}

#[test]
fn test_sqrt_matches_native() {
    for x in [2.0_f32, 0.5, 1.0e-40, 3.4e38, 152.4, 1.0, f32::from_bits(1)] {
        assert_eq!(b32(x).sqrt().to_bits(), x.sqrt().to_bits());
    }
    for x in [2.0_f64, 0.5, 1.0e-310, 1.7e308, 152.4, 1.0, f64::from_bits(1)] {
        assert_eq!(b64(x).sqrt().to_bits(), x.sqrt().to_bits());
    }
}

#[test]
fn test_sqrt_special_cases() {
    assert_eq!(b32(0.0).sqrt().to_bits(), 0.0_f32.to_bits());
    assert_eq!(b32(-0.0).sqrt().to_bits(), (-0.0_f32).to_bits());
    assert_eq!(b32(f32::INFINITY).sqrt().to_bits(), f32::INFINITY.to_bits());
    assert!(f32_of(b32(-1.0).sqrt()).is_nan());
    assert!(f32_of(b32(f32::NAN).sqrt()).is_nan());
    assert_eq!(b64(-0.0).sqrt().to_bits(), (-0.0_f64).to_bits());
    assert!(f64_of(b64(-2.0).sqrt()).is_nan());
}

#[test]
fn test_sqrt_squared_within_one_ulp() {
    for x in [2.0_f32, 3.0, 0.7, 1234.5] {
        let root = b32(x).sqrt();
        let squared = f32_of(root.mul(root));
        let ulp = f32::from_bits(x.to_bits() + 1) - x;
        assert!((squared - x).abs() <= ulp);
    }
    for x in [2.0_f64, 3.0, 0.7, 1234.5] {
        let root = b64(x).sqrt();
        let squared = f64_of(root.mul(root));
        let ulp = f64::from_bits(x.to_bits() + 1) - x;
        assert!((squared - x).abs() <= ulp);
    }
}

#[test]
fn test_f32_deg_to_rad() {
    let degrees = 23.0_f32;
    let radians = f32_of(b32(degrees).deg_to_rad());
    assert!((radians - 0.401_425).abs() < 1e-5_f32);
}

#[test]
fn test_f64_deg_to_rad() {
    let degrees = 60.0_f64;
    let radians = f64_of(b64(degrees).deg_to_rad());
    assert!((radians - std::f64::consts::FRAC_PI_3).abs() < 1e-12_f64);
}

#[test]
fn test_deg_to_rad_matches_native_f32() {
    for x in [0.0_f32, 1.0, 23.0, -90.0, 180.0, 1.0e-40, 3.4e38] {
        let native = x * (std::f32::consts::PI / 180.0_f32);
        assert_eq!(b32(x).deg_to_rad().to_bits(), native.to_bits());
    }
}

#[test]
fn test_rad_to_deg_matches_native_f32() {
    for x in [0.0_f32, 1.0, -2.5, std::f32::consts::PI] {
        let native = x * (180.0_f32 / std::f32::consts::PI);
        assert_eq!(b32(x).rad_to_deg().to_bits(), native.to_bits());
    }
}

#[test]
fn test_deg_to_rad_matches_native_f64() {
    for x in [0.0_f64, 1.0, 60.0, -90.0, 180.0, 1.0e-310, 1.7e308] {
        let native = x * (std::f64::consts::PI / 180.0_f64);
        assert_eq!(b64(x).deg_to_rad().to_bits(), native.to_bits());
    }
}

#[test]
fn test_rad_to_deg_matches_native_f64() {
    for x in [0.0_f64, 1.0, -2.5, std::f64::consts::PI] {
        let native = x * (180.0_f64 / std::f64::consts::PI);
        assert_eq!(b64(x).rad_to_deg().to_bits(), native.to_bits());
    }
}

#[test]
fn test_deg_rad_round_trip() {
    let x = 1.0_f32;
    let back = f32_of(b32(x).rad_to_deg().deg_to_rad());
    assert!((back - x).abs() < 1e-6_f32);
    let y = 2.5_f64;
    let back64 = f64_of(b64(y).rad_to_deg().deg_to_rad());
    assert!((back64 - y).abs() < 1e-14_f64);
}

#[test]
fn test_half_turn_is_native_pi() {
    assert_eq!(Binary32::half_turn().to_bits(), std::f32::consts::PI.to_bits());
    assert_eq!(Binary64::half_turn().to_bits(), std::f64::consts::PI.to_bits());
    assert_eq!(
        Binary32::quarter_turn().to_bits(),
        std::f32::consts::FRAC_PI_2.to_bits(),
    );
    assert_eq!(
        Binary64::quarter_turn().to_bits(),
        std::f64::consts::FRAC_PI_2.to_bits(),
    );
}

#[test]
fn test_full_turn_is_twice_half_turn() {
    let full32 = f32_of(Binary32::full_turn());
    assert_eq!(full32.to_bits(), (2.0_f32 * std::f32::consts::PI).to_bits());
    let full64 = f64_of(Binary64::full_turn());
    assert_eq!(full64.to_bits(), (2.0_f64 * std::f64::consts::PI).to_bits());
}

#[test]
fn test_one_is_multiplicative_identity() {
    for x in [3.7_f32, -12345.678, 0.25, 1.0e-40] {
        let r = <Binary32 as One>::one().mul(b32(x));
        assert_eq!(r.to_bits(), x.to_bits());
    }
    for x in [3.7_f64, -12345.678, 0.25, 1.0e-310] {
        let r = <Binary64 as One>::one().mul(b64(x));
        assert_eq!(r.to_bits(), x.to_bits());
    }
}

#[test]
fn test_zero_is_additive_identity() {
    for x in [3.7_f32, -5.25, 1.0e-40, f32::INFINITY] {
        let r = <Binary32 as Zero>::zero().add(b32(x));
        assert_eq!(r.to_bits(), x.to_bits());
    }
    for x in [3.7_f64, -5.25, 1.0e-310] {
        let r = <Binary64 as Zero>::zero().add(b64(x));
        assert_eq!(r.to_bits(), x.to_bits());
    }
}

#[test]
fn test_mul_matches_native() {
    let pairs = [(2.0_f32, 3.0_f32), (0.1, 0.2), (-1.5, 1.0e38), (1.0e-40, 0.5)];
    for (x, y) in pairs {
        assert_eq!(b32(x).mul(b32(y)).to_bits(), (x * y).to_bits());
    }
    let pairs64 = [(2.0_f64, 3.0_f64), (0.1, 0.2), (-1.5, 1.0e308), (5.0e-324, 0.5)];
    for (x, y) in pairs64 {
        assert_eq!(b64(x).mul(b64(y)).to_bits(), (x * y).to_bits());
    }
}

#[test]
fn test_add_matches_native() {
    let pairs = [(1.0_f32, 2.0_f32), (0.1, 0.2), (1.0e38, 3.4e38), (-0.0, 0.0)];
    for (x, y) in pairs {
        assert_eq!(b32(x).add(b32(y)).to_bits(), (x + y).to_bits());
    }
    let pairs64 = [(1.0_f64, 2.0_f64), (0.1, 0.2), (1.0e308, 1.7e308)];
    for (x, y) in pairs64 {
        assert_eq!(b64(x).add(b64(y)).to_bits(), (x + y).to_bits());
    }
}

#[test]
fn test_cast_same_width_is_identity() {
    for x in [0.0_f32, -0.0, 7.5, f32::NAN, f32::INFINITY] {
        let a = b32(x);
        let r: Binary32 = Cast::<Binary32>::cast(a);
        assert_eq!(r.to_bits(), a.to_bits());
    }
    for x in [0.0_f64, -0.0, 7.5, f64::NAN] {
        let a = b64(x);
        let r: Binary64 = Cast::<Binary64>::cast(a);
        assert_eq!(r.to_bits(), a.to_bits());
    }
}

#[test]
fn test_narrow_then_widen_is_bounded_not_exact() {
    let x = 0.1_f64;
    let narrowed: Binary32 = Cast::<Binary32>::cast(b64(x));
    let back_w: Binary64 = Cast::<Binary64>::cast(narrowed);
    let back = f64_of(back_w);
    // precision is lost, but the error stays within the narrow width's
    // relative precision
    assert!(back != x);
    assert!((back - x).abs() <= x.abs() * f32::EPSILON as f64);
}

#[test]
fn test_widen_matches_native() {
    for x in [0.1_f32, -2.5, 0.0, -0.0, f32::INFINITY, f32::from_bits(1), 1.0e-40] {
        let widened = b32(x).widen();
        assert_eq!(widened.to_bits(), (x as f64).to_bits());
    }
    let nan_widened = b32(f32::NAN).widen();
    assert!(f64_of(nan_widened).is_nan());
}

#[test]
fn test_narrow_matches_native() {
    for x in [0.1_f64, -2.5, 1.0e300, -1.0e-320, 0.0, -0.0, f64::INFINITY] {
        let narrowed = b64(x).narrow();
        assert_eq!(narrowed.to_bits(), (x as f32).to_bits());
    }
}

#[test]
fn test_min_max_examples() {
    assert_eq!(f32_of(b32(3.0).min(b32(5.0))), 3.0_f32);
    assert_eq!(f32_of(b32(3.0).max(b32(5.0))), 5.0_f32);
    assert_eq!(f64_of(b64(3.0).min(b64(5.0))), 3.0_f64);
    assert_eq!(f64_of(b64(3.0).max(b64(5.0))), 5.0_f64);
}

#[test]
fn test_min_max_commute_and_order() {
    let pairs = [(1.5_f32, -2.25_f32), (0.0, -0.0), (7.0, 7.0), (f32::INFINITY, 3.0)];
    for (x, y) in pairs {
        let lo = f32_of(b32(x).min(b32(y)));
        let lo_swapped = f32_of(b32(y).min(b32(x)));
        let hi = f32_of(b32(x).max(b32(y)));
        let hi_swapped = f32_of(b32(y).max(b32(x)));
        assert_eq!(lo, lo_swapped);
        assert_eq!(hi, hi_swapped);
        assert!(lo <= hi);
    }
}

#[test]
fn test_min_max_match_native_nan_handling() {
    let r = b32(f32::NAN).min(b32(2.0));
    assert_eq!(f32_of(r), f32::NAN.min(2.0));
    let r = b32(2.0).max(b32(f32::NAN));
    assert_eq!(f32_of(r), 2.0_f32.max(f32::NAN));
    let r = b64(f64::NAN).min(b64(-3.0));
    assert_eq!(f64_of(r), f64::NAN.min(-3.0));
    let both_nan = b32(f32::NAN).min(b32(f32::NAN));
    assert!(f32_of(both_nan).is_nan());
}

#[test]
fn test_signum_examples() {
    assert_eq!(f32_of(b32(-7.5).signum()), -1.0_f32);
    assert_eq!(f64_of(b64(-7.5).signum()), -1.0_f64);
    assert_eq!(f32_of(b32(3.25).signum()), 1.0_f32);
    assert_eq!(f32_of(b32(0.0).signum()), 1.0_f32);
    assert_eq!(f32_of(b32(-0.0).signum()), -1.0_f32);
    assert_eq!(f32_of(b32(f32::INFINITY).signum()), 1.0_f32);
    assert!(f32_of(b32(f32::NAN).signum()).is_nan());
}

#[test]
fn test_neg_flips_sign() {
    assert_eq!(b32(3.5).neg().to_bits(), (-3.5_f32).to_bits());
    assert_eq!(b32(-0.0).neg().to_bits(), 0.0_f32.to_bits());
    assert_eq!(b64(-1.0e308).neg().to_bits(), 1.0e308_f64.to_bits());
}

#[test]
fn test_from_primitive_matches_native() {
    assert_eq!(Binary32::from_i32(-7).to_bits(), (-7i32 as f32).to_bits());
    assert_eq!(
        Binary32::from_u32(4_000_000_001).to_bits(),
        (4_000_000_001u32 as f32).to_bits(),
    );
    assert_eq!(
        Binary32::from_isize(123_456_789_123_456_789).to_bits(),
        (123_456_789_123_456_789isize as f32).to_bits(),
    );
    assert_eq!(Binary64::from_i32(i32::MIN).to_bits(), (i32::MIN as f64).to_bits());
    assert_eq!(Binary64::from_u32(u32::MAX).to_bits(), (u32::MAX as f64).to_bits());
    assert_eq!(
        Binary64::from_isize(1_152_921_504_606_846_977).to_bits(),
        (1_152_921_504_606_846_977isize as f64).to_bits(),
    );
    assert_eq!(
        <Binary32 as FromPrimitive>::from_i32(41).to_bits(),
        (41i32 as f32).to_bits(),
    );
    assert_eq!(
        <Binary64 as FromPrimitive>::from_isize(-9).to_bits(),
        (-9isize as f64).to_bits(),
    );
}

#[test]
fn test_trait_dispatch_matches_inherent() {
    let a = b32(4.0);
    let c = b32(9.0);
    assert_eq!(<Binary32 as Min>::min(a, c).to_bits(), a.min(c).to_bits());
    assert_eq!(<Binary32 as Max>::max(a, c).to_bits(), a.max(c).to_bits());
    assert_eq!(<Binary32 as Signum>::signum(a).to_bits(), a.signum().to_bits());
    assert_eq!(<Binary32 as Radians>::half_turn().to_bits(), Binary32::half_turn().to_bits());
    assert_eq!(<Binary64 as Radians>::deg_to_rad(b64(60.0)).to_bits(), b64(60.0).deg_to_rad().to_bits());
    assert_eq!(<Binary64 as One>::one().to_bits(), 1.0_f64.to_bits());
    assert_eq!(<Binary32 as Zero>::zero().to_bits(), 0.0_f32.to_bits());
}

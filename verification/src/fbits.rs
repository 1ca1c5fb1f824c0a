//! IEEE 754 binary32 values, handled as their raw bit patterns.
//!
//! The crate stores every real-valued quantity as the `u32` holding the
//! bits of a binary32 number. Ordering two such numbers never needs
//! floating-point hardware: apart from NaN (never less than anything)
//! and the two zeros (equal to each other), binary32 orders as
//! sign-and-magnitude integers. The spec functions here write that
//! ordering down and the executable functions compute it, so every
//! comparison the simulation makes is ordinary verified integer code.

use vstd::prelude::*;

verus! {

/// Bits of `0.0f32`.
pub const F32_ZERO_BITS: u32 = 0x0000_0000;

/// Bits of `1.0f32`.
pub const F32_ONE_BITS: u32 = 0x3F80_0000;

/// Bits of `0.2f32`.
pub const F32_ONE_FIFTH_BITS: u32 = 0x3E4C_CCCD;

/// Bits of `0.22f32`: the tail-off window of a fish swim cycle.
pub const F32_TAIL_OFF_BITS: u32 = 0x3E61_47AE;

/// Bits of `0.3f32`.
pub const F32_PLANET_VEL_MULT_BITS: u32 = 0x3E99_999A;

/// Bits of `0.6f32`: a moon's particle lifetime.
pub const F32_MOON_LIFETIME_BITS: u32 = 0x3F19_999A;

/// Bits of `0.8f32`: a fresh fish's first cycle length.
pub const F32_FISH_FIRST_CYCLE_BITS: u32 = 0x3F4C_CCCD;

/// Bits of `0.85f32`: a star's particle lifetime.
pub const F32_STAR_LIFETIME_BITS: u32 = 0x3F59_999A;

/// Bits of `0.9f32`: a planet's particle lifetime.
pub const F32_PLANET_LIFETIME_BITS: u32 = 0x3F66_6666;

/// Bits of `1.1f32`: the shortest idle cycle a fish draws.
pub const F32_IDLE_CYCLE_MIN_BITS: u32 = 0x3F8C_CCCD;

/// Bits of `1.4f32`: the shortest swim cycle a fish draws.
pub const F32_SWIM_CYCLE_MIN_BITS: u32 = 0x3FB3_3333;

/// Bits of `1.6f32`: the idle fin-flap period.
pub const F32_IDLE_ANIM_TIME_BITS: u32 = 0x3FCC_CCCD;

/// Bits of `2.3f32`: the bound on a fish's swim cycle draw.
pub const F32_SWIM_CYCLE_MAX_BITS: u32 = 0x4013_3333;

/// Bits of `2.4f32`: the bound on a fish's idle cycle draw.
pub const F32_IDLE_CYCLE_MAX_BITS: u32 = 0x4019_999A;

/// Bits of `2.8f32`: the idle fin-flap timer start.
pub const F32_IDLE_ANIM_TIMER_BITS: u32 = 0x4033_3333;

/// Bits of `16.0f32`: fish sprite tile height and tail width.
pub const F32_SIXTEEN_BITS: u32 = 0x4180_0000;

/// Bits of `32.0f32`: fish sprite body width and tail column.
pub const F32_THIRTY_TWO_BITS: u32 = 0x4200_0000;

/// A bit pattern is NaN when the exponent is all ones and the mantissa
/// is not zero, that is, when its magnitude bits exceed those of
/// infinity.
pub open spec fn f32_is_nan_bits(a: u32) -> bool {
    a & 0x7FFF_FFFF > 0x7F80_0000
}

/// IEEE equality: NaN equals nothing, the two zeros are equal, and any
/// other value is equal only to its own bit pattern.
pub open spec fn f32_eq_bits(a: u32, b: u32) -> bool {
    !f32_is_nan_bits(a) && !f32_is_nan_bits(b) && ((a & 0x7FFF_FFFF == 0 && b & 0x7FFF_FFFF == 0)
        || a == b)
}

/// IEEE `<`: false on NaN, the zeros tie, a negative is below a
/// positive, positives order by their bits, negatives the other way
/// round.
pub open spec fn f32_lt_bits(a: u32, b: u32) -> bool {
    if f32_is_nan_bits(a) || f32_is_nan_bits(b) {
        false
    } else if a & 0x7FFF_FFFF == 0 && b & 0x7FFF_FFFF == 0 {
        false
    } else if (a >= 0x8000_0000) != (b >= 0x8000_0000) {
        a >= 0x8000_0000
    } else if a >= 0x8000_0000 {
        (a & 0x7FFF_FFFF) > (b & 0x7FFF_FFFF)
    } else {
        a < b
    }
}

pub open spec fn f32_le_bits(a: u32, b: u32) -> bool {
    f32_lt_bits(a, b) || f32_eq_bits(a, b)
}

pub open spec fn f32_gt_bits(a: u32, b: u32) -> bool {
    f32_lt_bits(b, a)
}

pub open spec fn f32_ge_bits(a: u32, b: u32) -> bool {
    f32_le_bits(b, a)
}

/// Whether the binary32 with bits `a` is less than the one with bits
/// `b`, by integer arithmetic alone.
pub fn f32_lt(a: u32, b: u32) -> (r: bool)
    ensures
        r == f32_lt_bits(a, b),
{
    let mag_a: u32 = a & 0x7FFF_FFFF;
    let mag_b: u32 = b & 0x7FFF_FFFF;
    if mag_a > 0x7F80_0000 || mag_b > 0x7F80_0000 {
        false
    } else if mag_a == 0 && mag_b == 0 {
        false
    } else if (a >= 0x8000_0000) != (b >= 0x8000_0000) {
        a >= 0x8000_0000
    } else if a >= 0x8000_0000 {
        mag_a > mag_b
    } else {
        a < b
    }
}

/// Whether the binary32 with bits `a` is less than or equal to the one
/// with bits `b`.
pub fn f32_le(a: u32, b: u32) -> (r: bool)
    ensures
        r == f32_le_bits(a, b),
{
    let mag_a: u32 = a & 0x7FFF_FFFF;
    let mag_b: u32 = b & 0x7FFF_FFFF;
    if mag_a > 0x7F80_0000 || mag_b > 0x7F80_0000 {
        false
    } else if mag_a == 0 && mag_b == 0 {
        true
    } else if a == b {
        true
    } else if (a >= 0x8000_0000) != (b >= 0x8000_0000) {
        a >= 0x8000_0000
    } else if a >= 0x8000_0000 {
        mag_a > mag_b
    } else {
        a < b
    }
}

/// Whether the binary32 with bits `a` is greater than the one with
/// bits `b`.
pub fn f32_gt(a: u32, b: u32) -> (r: bool)
    ensures
        r == f32_gt_bits(a, b),
{
    f32_lt(b, a)
}

/// Whether the binary32 with bits `a` is greater than or equal to the
/// one with bits `b`.
pub fn f32_ge(a: u32, b: u32) -> (r: bool)
    ensures
        r == f32_ge_bits(a, b),
{
    f32_le(b, a)
}

} // verus!

//! Saturating and clamping integer conversions shared by the decoder and
//! the detector.
use vstd::prelude::*;

verus! {

/// The value of `x` clamped into the signed 64-bit range.
pub open spec fn clamp_i64(x: int) -> i64 {
    if x > i64::MAX as int {
        i64::MAX
    } else if x < i64::MIN as int {
        i64::MIN
    } else {
        x as i64
    }
}

/// The value of `x` clamped into the signed 128-bit range.
pub open spec fn clamp_i128(x: int) -> i128 {
    if x > i128::MAX as int {
        i128::MAX
    } else if x < i128::MIN as int {
        i128::MIN
    } else {
        x as i128
    }
}

/// The positive part of `v`.
pub open spec fn positive_part(v: int) -> int {
    if v > 0 { v } else { 0 }
}

/// The magnitude of the negative part of `v`.
pub open spec fn negative_part(v: int) -> int {
    if v < 0 { -v } else { 0 }
}

/// Narrows a 128-bit value to 64 bits, saturating at either bound.
pub fn i128_to_i64(value: i128) -> (r: i64)
    ensures
        r == clamp_i64(value as int),
{
    if value > i64::MAX as i128 {
        i64::MAX
    } else if value < i64::MIN as i128 {
        i64::MIN
    } else {
        value as i64
    }
}

/// Adds two 64-bit values, saturating at either bound.
pub fn saturating_add_i64(a: i64, b: i64) -> (r: i64)
    ensures
        r == clamp_i64(a + b),
{
    i128_to_i64(a as i128 + b as i128)
}

/// Adds two 128-bit values, saturating at either bound.
pub fn saturating_add_i128(a: i128, b: i128) -> (r: i128)
    ensures
        r == clamp_i128(a + b),
{
    if b > 0 && a > i128::MAX - b {
        i128::MAX
    } else if b < 0 && a < i128::MIN - b {
        i128::MIN
    } else {
        a + b
    }
}

/// Subtracts two 128-bit values, saturating at either bound.
pub fn saturating_sub_i128(a: i128, b: i128) -> (r: i128)
    ensures
        r == clamp_i128(a - b),
{
    if b < 0 && a > i128::MAX + b {
        i128::MAX
    } else if b > 0 && a < i128::MIN + b {
        i128::MIN
    } else {
        a - b
    }
}

/// The amount received when `value` is a signed balance change: the value
/// itself when positive, else zero.
pub fn positive_amount(value: i64) -> (r: u64)
    ensures
        r == positive_part(value as int),
{
    if value > 0 {
        value as u64
    } else {
        0
    }
}

/// The amount given up when `value` is a signed balance change: its
/// magnitude when negative, else zero. Defined for `i64::MIN` as well.
pub fn negative_amount(value: i64) -> (r: u64)
    ensures
        r == negative_part(value as int),
{
    if value < 0 {
        (-(value as i128)) as u64
    } else {
        0
    }
}

/// The magnitude of `value`, defined for `i64::MIN` as well.
pub fn magnitude(value: i64) -> (r: u64)
    ensures
        r as int == if value < 0 { -(value as int) } else { value as int },
{
    if value < 0 {
        (-(value as i128)) as u64
    } else {
        value as u64
    }
}

} // verus!

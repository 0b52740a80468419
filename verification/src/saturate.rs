//! Saturating and clamping integer conversions used throughout the renderer.
use vstd::prelude::*;

verus! {

/// Saturating product of two `u32` values, as an integer.
pub open spec fn sat_mul_u32(a: int, b: int) -> int {
    if a * b > u32::MAX { u32::MAX as int } else { a * b }
}

/// Saturating sum of two `u32` values, as an integer.
pub open spec fn sat_add_u32(a: int, b: int) -> int {
    if a + b > u32::MAX { u32::MAX as int } else { a + b }
}

/// Saturating product of two `usize` values, as an integer.
pub open spec fn sat_mul_usize(a: int, b: int) -> int {
    if a * b > usize::MAX { usize::MAX as int } else { a * b }
}

/// `a * b` in `u32`, saturating at `u32::MAX`.
pub fn mul_u32_saturating(a: u32, b: u32) -> (r: u32)
    ensures
        r == sat_mul_u32(a as int, b as int),
{
    match a.checked_mul(b) {
        Some(p) => p,
        None => u32::MAX,
    }
}

/// `a * b` in `usize`, saturating at `usize::MAX`.
pub fn mul_usize_saturating(a: usize, b: usize) -> (r: usize)
    ensures
        r == sat_mul_usize(a as int, b as int),
{
    match a.checked_mul(b) {
        Some(p) => p,
        None => usize::MAX,
    }
}

/// Narrows a `u32` to `u16`, clamping values above `u16::MAX`.
pub fn clamp_to_u16(v: u32) -> (r: u16)
    ensures
        r == (if v > u16::MAX { u16::MAX as int } else { v as int }),
{
    if v > 65535u32 {
        65535u16
    } else {
        v as u16
    }
}

} // verus!

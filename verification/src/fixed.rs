//! Fixed-point numbers.
//!
//! Real quantities (seconds, hertz, radians, metres, normalised amplitudes) are
//! held as a signed count of billionths: the number `x` is stored as
//! `x * UNIT`. Sums and products of such numbers are exact integers, so every
//! rule of this crate is a statement about integers.

use vstd::prelude::*;

verus! {

/// A fixed-point number: a count of billionths.
pub type Fixed = i64;

/// The fixed-point representation of one.
pub const UNIT: i64 = 1_000_000_000;

/// `x` has no fractional part.
pub open spec fn is_whole(x: Fixed) -> bool {
    x as int % UNIT as int == 0
}

/// The largest integer not above the number that `x` stands for.
pub open spec fn whole_part(x: Fixed) -> int {
    x as int / UNIT as int
}

/// The nearest value that a [`Fixed`] can hold.
pub open spec fn saturate(x: int) -> Fixed {
    if x > i64::MAX as int {
        i64::MAX
    } else if x < i64::MIN as int {
        i64::MIN
    } else {
        x as i64
    }
}

/// Tells whether `x` has no fractional part.
pub fn has_no_fraction(x: Fixed) -> (r: bool)
    ensures
        r == is_whole(x),
{
    x % UNIT == 0
}

/// The whole part of a non-negative number.
pub(crate) fn whole_of(x: Fixed) -> (r: u64)
    requires
        x >= 0,
    ensures
        r == whole_part(x),
{
    (x / UNIT) as u64
}

/// Adds two numbers; a sum beyond the range of [`Fixed`] stays at the bound
/// that it crossed.
pub fn saturating_sum(a: Fixed, b: Fixed) -> (r: Fixed)
    ensures
        r == saturate(a + b),
{
    let wide: i128 = a as i128 + b as i128;
    if wide > i64::MAX as i128 {
        i64::MAX
    } else if wide < i64::MIN as i128 {
        i64::MIN
    } else {
        wide as i64
    }
}

} // verus!

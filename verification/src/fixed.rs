//! Fixed-point scalars: an `i32` that counts thousandths.

use vstd::prelude::*;

verus! {

/// How many steps make one unit.
pub const UNIT: i32 = 1000;

/// `v` brought into the range of an `i32`: values beyond an end are put at
/// that end.
pub open spec fn saturated(v: int) -> int {
    if v > i32::MAX as int {
        i32::MAX as int
    } else if v < i32::MIN as int {
        i32::MIN as int
    } else {
        v
    }
}

/// Brings a wide value into the range of an `i32`.
pub fn saturate(v: i64) -> (r: i32)
    ensures
        r == saturated(v as int),
{
    if v > i32::MAX as i64 {
        i32::MAX
    } else if v < i32::MIN as i64 {
        i32::MIN
    } else {
        v as i32
    }
}

/// The sum of two scalars, put at an end of the range where it would leave it.
pub fn add_saturating(a: i32, b: i32) -> (r: i32)
    ensures
        r == saturated(a + b),
{
    saturate(a as i64 + b as i64)
}

/// The difference of two scalars, put at an end of the range where it would
/// leave it.
pub fn sub_saturating(a: i32, b: i32) -> (r: i32)
    ensures
        r == saturated(a - b),
{
    saturate(a as i64 - b as i64)
}

/// The negative of a scalar; that of the least `i32` is the greatest.
pub fn neg_saturating(a: i32) -> (r: i32)
    ensures
        r == saturated(-a),
{
    saturate(-(a as i64))
}

/// Half of `v`, rounded towards zero.
pub open spec fn half_of(v: int) -> int {
    if v >= 0 {
        v / 2
    } else {
        -((-v) / 2)
    }
}

/// Half of a scalar, rounded towards zero.
pub fn half(v: i32) -> (r: i32)
    ensures
        r == half_of(v as int),
{
    v / 2
}

} // verus!

//! Checked conversions between the integer types of sizes, positions and
//! coordinates.

use vstd::prelude::*;

verus! {

/// `num_traits::ToPrimitive::to_i64` on a `usize`: the same number as an `i64`
/// when it is at most `i64::MAX`, and `None` otherwise.
#[verifier::external_body]
pub(crate) fn usize_to_i64(v: usize) -> (r: Option<i64>)
    ensures
        r == (if v <= i64::MAX {
            Some(v as i64)
        } else {
            None
        }),
{
    num_traits::ToPrimitive::to_i64(&v)
}

/// `num_traits::ToPrimitive::to_i32` on a `usize`: the same number as an `i32`
/// when it is at most `i32::MAX`, and `None` otherwise.
#[verifier::external_body]
pub(crate) fn usize_to_i32(v: usize) -> (r: Option<i32>)
    ensures
        r == (if v <= i32::MAX {
            Some(v as i32)
        } else {
            None
        }),
{
    num_traits::ToPrimitive::to_i32(&v)
}

/// `num_traits::ToPrimitive::to_usize` on a `usize`: always the number itself.
#[verifier::external_body]
pub(crate) fn usize_to_usize(v: usize) -> (r: Option<usize>)
    ensures
        r == Some(v),
{
    num_traits::ToPrimitive::to_usize(&v)
}

/// `num_traits::ToPrimitive::to_usize` on an `i32`: the same number as a
/// `usize` when it is not negative, and `None` when it is.
#[verifier::external_body]
pub(crate) fn i32_to_usize(v: i32) -> (r: Option<usize>)
    ensures
        r == (if 0 <= v {
            Some(v as usize)
        } else {
            None
        }),
{
    num_traits::ToPrimitive::to_usize(&v)
}

/// `num_traits::ToPrimitive::to_i64` on an `i32`: always the same number as an `i64`.
#[verifier::external_body]
pub(crate) fn i32_to_i64(v: i32) -> (r: Option<i64>)
    ensures
        r == Some(v as i64),
{
    num_traits::ToPrimitive::to_i64(&v)
}

/// `num_traits::ToPrimitive::to_i32` on an `i64`: the same number as an `i32`
/// when it lies within the range of `i32`, and `None` otherwise.
#[verifier::external_body]
pub(crate) fn i64_to_i32(v: i64) -> (r: Option<i32>)
    ensures
        r == (if i32::MIN <= v <= i32::MAX {
            Some(v as i32)
        } else {
            None
        }),
{
    num_traits::ToPrimitive::to_i32(&v)
}

} // verus!

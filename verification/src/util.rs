//! Small helpers shared by the game logic.

use core::cmp::Ordering;
use vstd::prelude::*;
use vstd::std_specs::cmp::PartialOrdSpec;

verus! {

/// The value that [`clamp_range`] yields, stated over the partial order of `T`.
///
/// The upper bound is tested first, so when `min` lies above `max` a value
/// above `max` still yields `max`.
pub open spec fn clamped<T: PartialOrd>(min: T, val: T, max: T) -> T {
    if val.partial_cmp_spec(&max) == Some(Ordering::Greater) {
        max
    } else if val.partial_cmp_spec(&min) == Some(Ordering::Less) {
        min
    } else {
        val
    }
}

/// Limits `val` to the range from `min` to `max`.
///
/// Yields `max` when `val` is greater than `max`, else `min` when `val` is
/// less than `min`, else `val` itself. Incomparable values pass through
/// unchanged.
pub fn clamp_range<T: PartialOrd>(min: T, val: T, max: T) -> (r: T)
    ensures
        T::obeys_partial_cmp_spec() ==> r == clamped(min, val, max),
{
    if val > max {
        max
    } else if val < min {
        min
    } else {
        val
    }
}

/// The path under which an asset is found: the path as given.
pub fn get_file_path(path: String) -> (found: String)
    ensures
        found@ == path@,
{
    path
}

/// On integers, clamping to an ordered range is the usual three-way choice
/// and the result lies inside the range.
pub proof fn lemma_clamped_i32(min: i32, val: i32, max: i32)
    ensures
        val > max ==> clamped(min, val, max) == max,
        val <= max && val < min ==> clamped(min, val, max) == min,
        min <= val <= max ==> clamped(min, val, max) == val,
        min <= max ==> min <= clamped(min, val, max) <= max,
{
}

} // verus!

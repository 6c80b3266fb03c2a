//! Arithmetic that stops at the ends of a type's range.

use vstd::prelude::*;

verus! {

/// `v`, held within the range of an `i32`.
pub open spec fn held(v: int) -> int {
    if v < i32::MIN {
        i32::MIN as int
    } else if v > i32::MAX {
        i32::MAX as int
    } else {
        v
    }
}

/// The `i32` nearest to `v`.
pub fn hold(v: i64) -> (r: i32)
    ensures
        r == held(v as int),
{
    if v < i32::MIN as i64 {
        i32::MIN
    } else if v > i32::MAX as i64 {
        i32::MAX
    } else {
        v as i32
    }
}

} // verus!

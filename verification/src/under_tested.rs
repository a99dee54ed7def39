//! A crate with one tested and one untested function.
use vstd::prelude::*;

verus! {

/// Multiplies by two.
pub fn double(x: i32) -> (r: i32)
    requires
        i32::MIN <= 2 * x <= i32::MAX,
    ensures
        r == 2 * x,
{
    x * 2
}

/// Multiplies by three.
pub fn triple(x: i32) -> (r: i32)
    requires
        i32::MIN <= 3 * x <= i32::MAX,
    ensures
        r == 3 * x,
{
    x * 3
}

} // verus!

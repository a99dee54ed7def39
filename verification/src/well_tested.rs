//! A crate whose one function is fully covered by its tests.
use vstd::prelude::*;

verus! {

/// Multiplies by two.
pub fn double(x: i32) -> (r: i32)
    requires
        i32::MIN <= 2 * x <= i32::MAX,
    ensures
        r == 2 * x,
{
    x * 2
}

} // verus!

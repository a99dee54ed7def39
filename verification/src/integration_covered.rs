//! A crate whose only coverage lives in an integration suite.
use vstd::prelude::*;

verus! {

/// Multiplies by seven.
pub fn scale(x: i32) -> (r: i32)
    requires
        i32::MIN <= 7 * x <= i32::MAX,
    ensures
        r == 7 * x,
{
    x * 7
}

} // verus!

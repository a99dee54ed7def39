//! A crate whose one function is covered by unit and integration tests.
use vstd::prelude::*;

verus! {

/// The guard value, one.
pub fn guarded() -> (r: usize)
    ensures
        r == 1,
{
    1
}

} // verus!

//! Addition, for callers from other languages.

use vstd::prelude::*;

verus! {

/// The sum of two numbers. The sum has to fit.
pub fn add(a: u32, b: u32) -> (sum: u32)
    requires
        a + b <= u32::MAX,
    ensures
        sum == a + b,
{
    a + b
}

} // verus!

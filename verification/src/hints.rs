use vstd::prelude::*;

verus! {

/// Marks a condition that is usually true; returns it unchanged.
#[must_use]
pub fn likely(b: bool) -> (r: bool)
    ensures
        r == b,
{
    b
}

/// Marks a condition that is usually false; returns it unchanged.
#[must_use]
pub fn unlikely(b: bool) -> (r: bool)
    ensures
        r == b,
{
    b
}

} // verus!

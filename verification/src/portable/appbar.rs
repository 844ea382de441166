//! No screen edge to reserve.
use vstd::prelude::*;

verus! {

pub fn reserve_top(_hwnd: isize) -> (r: Result<(), String>)
    ensures
        r is Ok,
{
    Ok(())
}

pub fn release(_hwnd: isize) {
}

} // verus!

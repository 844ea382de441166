//! No native panel.
use vstd::prelude::*;

verus! {

pub fn hwnd() -> (r: Option<isize>)
    ensures
        r is None,
{
    None
}

} // verus!

//! No WLAN radio to switch.
use vstd::prelude::*;

verus! {

pub fn set_enabled(_enabled: bool) -> (r: Result<(), String>)
    ensures
        r matches Err(e) && e@ == "Wi-Fi control is Windows-only"@,
{
    Err(String::from_str("Wi-Fi control is Windows-only"))
}

} // verus!

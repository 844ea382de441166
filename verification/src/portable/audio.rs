//! Volume control without Core Audio.
use vstd::prelude::*;

verus! {

pub fn get_master_volume() -> (r: Result<u8, String>)
    ensures
        r matches Err(e) && e@ == "audio control is Windows-only"@,
{
    Err(String::from_str("audio control is Windows-only"))
}

pub fn set_master_volume(_value: u8) -> (r: Result<u8, String>)
    ensures
        r matches Err(e) && e@ == "audio control is Windows-only"@,
{
    Err(String::from_str("audio control is Windows-only"))
}

} // verus!

//! The master volume request the Core Audio bridge accepts.
use vstd::prelude::*;

verus! {

/// A master volume level must be a percentage.
pub fn volume_request(value: u8) -> (r: Result<u8, String>)
    ensures
        value <= 100 ==> r == Ok::<u8, String>(value),
        value > 100 ==> (r matches Err(e) && e@ == "volume must be between 0 and 100"@),
{
    if value > 100 {
        Err(String::from_str("volume must be between 0 and 100"))
    } else {
        Ok(value)
    }
}

} // verus!

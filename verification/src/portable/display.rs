//! No monitors to enumerate.
use crate::windows::display::MonitorRecord;
use vstd::prelude::*;

pub use crate::windows::display::RectInfo;

verus! {

pub fn enumerate() -> (r: Result<Vec<MonitorRecord>, String>)
    ensures
        r matches Ok(v) && v@.len() == 0,
{
    Ok(Vec::new())
}

pub fn primary() -> (r: Result<MonitorRecord, String>)
    ensures
        r matches Err(e) && e@ == "display enumeration is Windows-only"@,
{
    Err(String::from_str("display enumeration is Windows-only"))
}

} // verus!

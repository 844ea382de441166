//! No windows to list, activate or close.
use crate::windows::windows_list::WindowEntry;
use vstd::prelude::*;

verus! {

pub fn list() -> (r: Result<Vec<WindowEntry>, String>)
    ensures
        r matches Ok(v) && v@.len() == 0,
{
    Ok(Vec::new())
}

pub fn activate(_handle: &str) -> (r: Result<(), String>)
    ensures
        r matches Err(e) && e@ == "window activation is Windows-only"@,
{
    Err(String::from_str("window activation is Windows-only"))
}

pub fn close(_handle: &str) -> (r: Result<(), String>)
    ensures
        r matches Err(e) && e@ == "window closing is Windows-only"@,
{
    Err(String::from_str("window closing is Windows-only"))
}

} // verus!

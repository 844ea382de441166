//! No application catalog.
use crate::windows::apps::AppEntry;
use vstd::prelude::*;

verus! {

pub fn list() -> (r: Result<Vec<AppEntry>, String>)
    ensures
        r matches Ok(v) && v@.len() == 0,
{
    Ok(Vec::new())
}

pub fn launch(_app_id: &str) -> (r: Result<(), String>)
    ensures
        r matches Err(e) && e@ == "application launching is Windows-only"@,
{
    Err(String::from_str("application launching is Windows-only"))
}

} // verus!

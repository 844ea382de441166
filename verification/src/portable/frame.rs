//! No native frames to style.
use crate::shell::AppearanceState;
use vstd::prelude::*;

verus! {

pub fn apply_to_top_level_windows(_appearance: &AppearanceState) -> (r: Result<usize, String>)
    ensures
        r == Ok::<usize, String>(0),
{
    Ok(0)
}

pub fn reset_top_level_windows() {
}

pub fn start_frame_watcher<T: Send + Sync + 'static>(_state: std::sync::Arc<T>) {
}

} // verus!

//! No virtual desktops.
use crate::windows::virtual_desktop::WindowWorkspaceInfo;
use vstd::prelude::*;

verus! {

pub fn window_info(_hwnd: isize) -> (r: Result<WindowWorkspaceInfo, String>)
    ensures
        r matches Err(e) && e@ == "virtual desktops are Windows-only"@,
{
    Err(String::from_str("virtual desktops are Windows-only"))
}

pub fn navigate(_direction: i32) -> (r: Result<(), String>)
    ensures
        r matches Err(e) && e@ == "virtual desktops are Windows-only"@,
{
    Err(String::from_str("virtual desktops are Windows-only"))
}

/// Nothing is ever moved, so nothing is journaled.
#[derive(Clone, Copy, Debug, Default)]
pub struct WorkspaceMoveJournal;

impl WorkspaceMoveJournal {
    pub fn move_window(&self, _handle: &str, _target_desktop_id: &str) -> (r: Result<(), String>)
        ensures
            r matches Err(e) && e@ == "virtual desktops are Windows-only"@,
    {
        Err(String::from_str("virtual desktops are Windows-only"))
    }

    pub fn undo_last(&self) -> (r: Result<Option<String>, String>)
        ensures
            r matches Ok(v) && v is None,
    {
        Ok(None)
    }

    pub fn pending_count(&self) -> (r: usize)
        ensures
            r == 0,
    {
        0
    }
}

} // verus!

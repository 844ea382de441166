//! The screen edge that the panel reserves as an AppBar.
use crate::windows::display::Rect;
use vstd::prelude::*;

verus! {

pub const ABM_NEW: u32 = 0x00000000;
pub const ABM_REMOVE: u32 = 0x00000001;
pub const ABM_QUERYPOS: u32 = 0x00000002;
pub const ABM_SETPOS: u32 = 0x00000003;
pub const ABE_TOP: u32 = 1;

/// Only a real panel window can reserve an edge.
pub fn check_panel(hwnd: isize) -> (r: Result<(), String>)
    ensures
        hwnd == 0 ==> (r matches Err(e) && e@ == "invalid panel HWND"@),
        hwnd != 0 ==> r is Ok,
{
    if hwnd == 0 {
        Err(String::from_str("invalid panel HWND"))
    } else {
        Ok(())
    }
}

/// The panel's height in physical pixels, at least 1.
pub open spec fn panel_height_spec(panel: Rect) -> int {
    if panel.bottom - panel.top >= 1 { panel.bottom - panel.top } else { 1 }
}

pub fn panel_height(panel: Rect) -> (r: i32)
    requires
        i32::MIN <= panel.bottom - panel.top <= i32::MAX,
    ensures
        r == panel_height_spec(panel),
{
    let h = panel.bottom - panel.top;
    if h >= 1 {
        h
    } else {
        1
    }
}

/// The band requested at the top of the panel's monitor: the monitor's full
/// width, the panel's height. Coordinates are physical, so monitors left of
/// or above the primary one (negative origins) reserve their own edge.
pub fn requested_band(monitor: Rect, height: i32) -> (r: Rect)
    requires
        i32::MIN <= monitor.top + height <= i32::MAX,
    ensures
        r == (Rect { left: monitor.left, top: monitor.top, right: monitor.right, bottom: (monitor.top + height) as i32 }),
{
    Rect { left: monitor.left, top: monitor.top, right: monitor.right, bottom: monitor.top + height }
}

/// The band after Windows adjusted its top edge: the panel's height again
/// below that edge.
pub fn settled_band(queried: Rect, height: i32) -> (r: Rect)
    requires
        i32::MIN <= queried.top + height <= i32::MAX,
    ensures
        r == (Rect { bottom: (queried.top + height) as i32, ..queried }),
{
    Rect { bottom: queried.top + height, ..queried }
}

/// What `ABM_SETPOS`'s answer means.
pub fn setpos_result(answer: usize) -> (r: Result<(), String>)
    ensures
        answer == 0 ==> (r matches Err(e) && e@ == "SHAppBarMessage(ABM_SETPOS) failed"@),
        answer != 0 ==> r is Ok,
{
    if answer == 0 {
        Err(String::from_str("SHAppBarMessage(ABM_SETPOS) failed"))
    } else {
        Ok(())
    }
}

} // verus!

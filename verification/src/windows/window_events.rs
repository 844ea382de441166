//! Which WinEvents make the shell refresh its window list.
use vstd::prelude::*;

verus! {

pub const EVENT_SYSTEM_MINIMIZESTART: u32 = 0x0016;
pub const EVENT_SYSTEM_MINIMIZEEND: u32 = 0x0017;
pub const EVENT_OBJECT_CREATE: u32 = 0x8000;
pub const EVENT_OBJECT_NAMECHANGE: u32 = 0x800C;
pub const OBJID_WINDOW: i32 = 0;

/// A window event counts when it is about a window, and object events only
/// when the object is the window itself.
pub fn should_refresh(hwnd: isize, event: u32, object_id: i32) -> (r: bool)
    ensures
        r == (hwnd != 0 && !(event >= EVENT_OBJECT_CREATE && object_id != OBJID_WINDOW)),
{
    hwnd != 0 && !(event >= EVENT_OBJECT_CREATE && object_id != OBJID_WINDOW)
}

} // verus!

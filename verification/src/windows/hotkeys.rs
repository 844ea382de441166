//! The Alt+F1 hotkey that opens Activities.
use vstd::prelude::*;

verus! {

pub const ACTIVITIES_HOTKEY_ID: i32 = 0x4657;
pub const MOD_ALT: u32 = 0x0001;
pub const MOD_NOREPEAT: u32 = 0x4000;
pub const VK_F1: u32 = 0x70;
pub const WM_HOTKEY: u32 = 0x0312;

#[derive(Clone, Copy, Debug, PartialEq, Eq)]
pub struct Point {
    pub x: i32,
    pub y: i32,
}

/// A window message, as `GetMessageW` fills it.
#[derive(Clone, Copy, Debug, PartialEq, Eq)]
pub struct Msg {
    pub hwnd: isize,
    pub message: u32,
    pub wparam: usize,
    pub lparam: isize,
    pub time: u32,
    pub point: Point,
    pub private: u32,
}

/// Whether a message is the press of our own registered hotkey.
pub fn is_activities_hotkey(message: &Msg) -> (r: bool)
    ensures
        r == (message.message == WM_HOTKEY && message.wparam == ACTIVITIES_HOTKEY_ID as usize),
{
    message.message == WM_HOTKEY && message.wparam == ACTIVITIES_HOTKEY_ID as usize
}

/// The outcome of starting the hotkey thread: whether it registered the
/// hotkey, or `None` when it did not report in time.
pub fn registration_result(registered: Option<bool>) -> (r: Result<(), String>)
    ensures
        registered == Some(true) ==> r is Ok,
        registered == Some(false) ==> (r matches Err(e)
            && e@ == "Alt+F1 is already reserved by another application"@),
        registered is None ==> (r matches Err(e) && e@ == "hotkey thread did not initialize"@),
{
    match registered {
        Some(true) => Ok(()),
        Some(false) => Err(String::from_str("Alt+F1 is already reserved by another application")),
        None => Err(String::from_str("hotkey thread did not initialize")),
    }
}

} // verus!

//! The open-window list of Activities: which top-level windows it shows,
//! how each is described, and the checks before activating or closing one.
use crate::text::{signed_decimal, signed_decimal_of, string_from_chars, trim, trim_chars};
use crate::windows::virtual_desktop::WindowWorkspaceInfo;
use crate::windows::wifi::{decode_utf16_lossy, utf16_lossy};
use vstd::prelude::*;

verus! {

pub const WS_EX_TOOLWINDOW: isize = 0x00000080;
pub const DWM_CLOAKED_SHELL: i32 = 0x2;
pub const SW_RESTORE: i32 = 9;
pub const WM_CLOSE: u32 = 0x0010;

/// One window as Activities lists it.
#[derive(Clone, Debug)]
pub struct WindowEntry {
    pub handle: String,
    pub title: String,
    pub minimized: bool,
    pub desktop_id: Option<String>,
    pub on_current_workspace: bool,
}

/// What Windows says of a top-level window that decides whether it is listed.
#[derive(Clone, Copy, Debug)]
pub struct ListWindowFacts {
    pub hwnd: isize,
    pub visible: bool,
    pub owner: isize,
    pub ex_style: isize,
    pub pid: u32,
    /// The shell's own process id.
    pub own_pid: u32,
    /// `DWMWA_CLOAKED`, when it could be read.
    pub cloaked: Option<i32>,
    pub title_length: i32,
}

/// A window is listed when it is visible, unowned, no tool window, belongs
/// to another process, is not cloaked (except by the shell, as windows on
/// other desktops are), and has a title.
pub open spec fn list_eligible(f: ListWindowFacts) -> bool {
    &&& f.hwnd != 0
    &&& f.visible
    &&& f.owner == 0
    &&& f.ex_style & WS_EX_TOOLWINDOW == 0
    &&& f.pid != 0
    &&& f.pid != f.own_pid
    &&& !(f.cloaked matches Some(c) && c != 0 && c & DWM_CLOAKED_SHELL == 0)
    &&& f.title_length > 0
}

/// Activities lists only a visible, unowned, non-tool top-level window with
/// a title, of another process, that is not cloaked by anyone but the shell;
/// a hidden window, in particular, is never listed. A window with all of
/// that is listed.
pub proof fn lemma_listed_windows(f: ListWindowFacts)
    ensures
        !f.visible ==> !list_eligible(f),
        f.hwnd == 0 ==> !list_eligible(f),
        f.owner != 0 ==> !list_eligible(f),
        f.ex_style & 0x80 != 0 ==> !list_eligible(f),
        f.pid == 0 || f.pid == f.own_pid ==> !list_eligible(f),
        f.title_length <= 0 ==> !list_eligible(f),
        (f.cloaked matches Some(c) && c != 0 && c & 2 == 0) ==> !list_eligible(f),
        f.visible && f.hwnd != 0 && f.owner == 0 && f.ex_style & 0x80 == 0 && f.pid != 0 && f.pid != f.own_pid
            && f.title_length > 0 && (f.cloaked is None || f.cloaked == Some(0i32) || f.cloaked == Some(2i32))
            ==> list_eligible(f),
{
    assert(2i32 & 2i32 == 2) by (bit_vector);
}

pub fn eligible(f: &ListWindowFacts) -> (r: bool)
    ensures
        r == list_eligible(*f),
        r ==> f.visible && f.hwnd != 0 && f.owner == 0 && f.title_length > 0 && f.pid != f.own_pid,
{
    if f.hwnd == 0 || !f.visible || f.owner != 0 {
        return false;
    }
    if f.ex_style & WS_EX_TOOLWINDOW != 0 {
        return false;
    }
    if f.pid == 0 || f.pid == f.own_pid {
        return false;
    }
    match f.cloaked {
        Some(c) => {
            if c != 0 && c & DWM_CLOAKED_SHELL == 0 {
                return false;
            }
        },
        None => {},
    }
    f.title_length > 0
}

/// The listed title: the UTF-16 text decoded lossily and trimmed.
pub open spec fn title_of(units: Seq<u16>) -> Seq<char> {
    trim(utf16_lossy(units))
}

/// The entry of an eligible window from the title text Windows copied out;
/// windows whose title is blank are not listed.
pub fn window_entry(hwnd: isize, title: &[u16], minimized: bool) -> (r: Option<WindowEntry>)
    ensures
        title_of(title@).len() == 0 ==> r is None,
        title_of(title@).len() > 0 ==> (r matches Some(e) && e.handle@ == signed_decimal(hwnd as int)
            && e.title@ == title_of(title@) && e.minimized == minimized && e.desktop_id is None
            && e.on_current_workspace),
{
    let decoded = decode_utf16_lossy(title);
    let trimmed = trim_chars(decoded.as_slice());
    if trimmed.len() == 0 {
        return None;
    }
    let handle = signed_decimal_of(hwnd);
    Some(WindowEntry {
        handle: string_from_chars(handle.as_slice()),
        title: string_from_chars(trimmed.as_slice()),
        minimized,
        desktop_id: None,
        on_current_workspace: true,
    })
}

/// Adds what the desktop manager said of a window; without an answer the
/// window stays listed as on the current workspace with no desktop id.
pub fn attach_workspace(entry: &mut WindowEntry, info: Option<WindowWorkspaceInfo>)
    ensures
        final(entry).handle@ == old(entry).handle@,
        final(entry).title@ == old(entry).title@,
        final(entry).minimized == old(entry).minimized,
        info is None ==> (final(entry).on_current_workspace == old(entry).on_current_workspace
            && (final(entry).desktop_id is None <==> old(entry).desktop_id is None)
            && (old(entry).desktop_id is Some ==> final(entry).desktop_id.unwrap()@ == old(
            entry,
        ).desktop_id.unwrap()@)),
        info matches Some(w) ==> (final(entry).on_current_workspace == w.on_current_workspace
            && final(entry).desktop_id is Some && final(entry).desktop_id.unwrap()@ == w.desktop_id@),
{
    match info {
        Some(w) => {
            entry.desktop_id = Some(w.desktop_id);
            entry.on_current_workspace = w.on_current_workspace;
        },
        None => {},
    }
}

/// The outcome of listing: an error when the window enumeration failed.
pub fn list_result(enumerated: bool, windows: Vec<WindowEntry>) -> (r: Result<Vec<WindowEntry>, String>)
    ensures
        !enumerated ==> (r matches Err(e) && e@ == "EnumWindows failed"@),
        enumerated ==> (r matches Ok(v) && v@ == windows@),
{
    if enumerated {
        Ok(windows)
    } else {
        Err(String::from_str("EnumWindows failed"))
    }
}

/// The outcome of activating a window: it must still exist, and Windows
/// must accept bringing it to the foreground.
pub fn activate_result(hwnd: isize, alive: bool, foregrounded: bool) -> (r: Result<(), String>)
    ensures
        (hwnd == 0 || !alive) ==> (r matches Err(e) && e@ == "window is no longer available"@),
        (hwnd != 0 && alive && !foregrounded) ==> (r matches Err(e)
            && e@ == "Windows refused to foreground the requested window"@),
        (hwnd != 0 && alive && foregrounded) ==> r is Ok,
{
    if hwnd == 0 || !alive {
        Err(String::from_str("window is no longer available"))
    } else if !foregrounded {
        Err(String::from_str("Windows refused to foreground the requested window"))
    } else {
        Ok(())
    }
}

/// The outcome of closing a window: it must still exist and be one that the
/// list shows, and Windows must accept the close message.
pub fn close_result(hwnd: isize, alive: bool, listed: bool, posted: bool) -> (r: Result<(), String>)
    ensures
        (hwnd == 0 || !alive || !listed) ==> (r matches Err(e) && e@ == "window is no longer available"@),
        (hwnd != 0 && alive && listed && !posted) ==> (r matches Err(e)
            && e@ == "Windows refused to close the requested window"@),
        (hwnd != 0 && alive && listed && posted) ==> r is Ok,
{
    if hwnd == 0 || !alive || !listed {
        Err(String::from_str("window is no longer available"))
    } else if !posted {
        Err(String::from_str("Windows refused to close the requested window"))
    } else {
        Ok(())
    }
}

} // verus!

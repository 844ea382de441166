//! GNOME-style caption controls drawn over a foreign window's own caption
//! buttons: which windows get them, where they sit, how they are drawn and
//! which system command a click sends.
use crate::shell::ThemeMode;
use crate::windows::display::Rect;
use crate::windows::frame::colorref;
use vstd::prelude::*;

pub use crate::windows::panel::x_from_lparam;

verus! {

pub const SC_MINIMIZE: usize = 0xF020;
pub const SC_MAXIMIZE: usize = 0xF030;
pub const SC_CLOSE: usize = 0xF060;
pub const SC_RESTORE: usize = 0xF120;
pub const WS_EX_TOOLWINDOW: isize = 0x0000_0080;
pub const WS_EX_NOACTIVATE: isize = 0x0800_0000;

/// Controls are drawn dark unless the shell is in its light theme.
pub fn is_dark(theme: ThemeMode) -> (r: bool)
    ensures
        r == (theme != ThemeMode::Light),
{
    !matches!(theme, ThemeMode::Light)
}

/// The colours of the controls: background, glyphs, button discs.
#[derive(Clone, Copy, Debug, PartialEq, Eq, Structural)]
pub struct ControlColors {
    pub background: u32,
    pub foreground: u32,
    pub button: u32,
}

pub fn control_colors(dark: bool) -> (r: ControlColors)
    ensures
        dark ==> r == (ControlColors {
            background: crate::windows::frame::colorref_spec(46, 46, 50),
            foreground: crate::windows::frame::colorref_spec(255, 255, 255),
            button: crate::windows::frame::colorref_spec(66, 66, 71),
        }),
        !dark ==> r == (ControlColors {
            background: crate::windows::frame::colorref_spec(255, 255, 255),
            foreground: crate::windows::frame::colorref_spec(32, 32, 34),
            button: crate::windows::frame::colorref_spec(235, 235, 238),
        }),
{
    if dark {
        ControlColors { background: colorref(46, 46, 50), foreground: colorref(255, 255, 255), button: colorref(66, 66, 71) }
    } else {
        ControlColors { background: colorref(255, 255, 255), foreground: colorref(32, 32, 34), button: colorref(235, 235, 238) }
    }
}

/// The control strip's width, at least 3 pixels, and the width of each of
/// its three buttons, at least 1.
pub open spec fn strip_width(client_width: i32) -> int {
    if client_width >= 3 { client_width as int } else { 3 }
}

pub open spec fn segment_width(client_width: i32) -> int {
    let s = strip_width(client_width) / 3;
    if s >= 1 { s } else { 1 }
}

/// Where the three discs sit: their centres, the shared vertical centre and
/// radius.
#[derive(Clone, Copy, Debug, PartialEq, Eq, Structural)]
pub struct ControlLayout {
    pub segment: i32,
    pub radius: i32,
    pub center_y: i32,
    pub first_x: i32,
    pub second_x: i32,
    pub third_x: i32,
}

pub open spec fn clamp(v: int, lo: int, hi: int) -> int {
    if v < lo { lo } else if v > hi { hi } else { v }
}

pub open spec fn layout_of(client_width: i32, client_height: i32) -> (int, int, int, Seq<int>) {
    let segment = segment_width(client_width);
    let height: int = if client_height >= 1 { client_height as int } else { 1 };
    let diameter = clamp(height - 10, 18, 26);
    (segment, diameter / 2, height / 2, seq![segment / 2, segment + segment / 2, 2 * segment + segment / 2])
}

/// The disc layout for a client area `client_width` by `client_height`.
pub fn control_layout(client_width: i32, client_height: i32) -> (r: ControlLayout)
    ensures
        ({
            let (segment, radius, center_y, centers) = layout_of(client_width, client_height);
            &&& r.segment == segment
            &&& r.radius == radius
            &&& r.center_y == center_y
            &&& r.first_x == centers[0]
            &&& r.second_x == centers[1]
            &&& r.third_x == centers[2]
        }),
{
    let width: i32 = if client_width >= 3 { client_width } else { 3 };
    let height: i32 = if client_height >= 1 { client_height } else { 1 };
    let third = width / 3;
    let segment: i32 = if third >= 1 { third } else { 1 };
    let d0: i32 = height - 10;
    let diameter: i32 = if d0 < 18 { 18 } else if d0 > 26 { 26 } else { d0 };
    ControlLayout {
        segment,
        radius: diameter / 2,
        center_y: height / 2,
        first_x: segment / 2,
        second_x: segment + segment / 2,
        third_x: 2 * segment + segment / 2,
    }
}

/// The system command for a click at `x` on a strip `client_width` wide:
/// the left third minimizes, the middle one maximizes (or restores a
/// maximized window), the right one closes; clicks beyond the ends count for
/// the end buttons.
pub open spec fn command_for(client_width: i32, x: i32, zoomed: bool) -> usize {
    let width = strip_width(client_width);
    let at = clamp(x as int, 0, width - 1);
    let index = at / segment_width(client_width);
    if index == 0 {
        SC_MINIMIZE
    } else if index == 1 {
        if zoomed { SC_RESTORE } else { SC_MAXIMIZE }
    } else {
        SC_CLOSE
    }
}

pub fn caption_command(client_width: i32, x: i32, zoomed: bool) -> (r: usize)
    ensures
        r == command_for(client_width, x, zoomed),
{
    let width: i32 = if client_width >= 3 { client_width } else { 3 };
    let third = width / 3;
    let segment: i32 = if third >= 1 { third } else { 1 };
    let at: i32 = if x < 0 { 0 } else if x > width - 1 { width - 1 } else { x };
    let index = at / segment;
    if index == 0 {
        SC_MINIMIZE
    } else if index == 1 {
        if zoomed {
            SC_RESTORE
        } else {
            SC_MAXIMIZE
        }
    } else {
        SC_CLOSE
    }
}

/// Every click sends one of the window's own caption commands, and clicks
/// left of the strip minimize while clicks right of it close.
pub proof fn lemma_click_sends_caption_command(client_width: i32, x: i32, zoomed: bool)
    ensures
        command_for(client_width, x, zoomed) == SC_MINIMIZE || command_for(client_width, x, zoomed)
            == SC_MAXIMIZE || command_for(client_width, x, zoomed) == SC_RESTORE || command_for(
            client_width,
            x,
            zoomed,
        ) == SC_CLOSE,
        x < 0 ==> command_for(client_width, x, zoomed) == SC_MINIMIZE,
        x >= strip_width(client_width) ==> command_for(client_width, x, zoomed) == SC_CLOSE,
{
    let width = strip_width(client_width);
    let s = segment_width(client_width);
    if x >= width {
        assert((width - 1) / s >= 2) by (nonlinear_arith)
            requires
                width >= 3,
                s == width / 3,
        ;
    }
}

/// What Windows says of a top-level window that decides whether it gets the
/// controls.
#[derive(Clone, Copy, Debug)]
pub struct OverlayWindowFacts {
    pub hwnd: isize,
    pub visible: bool,
    pub iconic: bool,
    pub owner: isize,
    pub ex_style: isize,
    pub pid: u32,
    /// The shell's own process id.
    pub own_pid: u32,
    /// `DWMWA_CLOAKED`, when it could be read.
    pub cloaked: Option<i32>,
    /// `DWMWA_CAPTION_BUTTON_BOUNDS`, when it could be read.
    pub buttons: Option<Rect>,
}

/// A window gets controls when it is a visible, restored, unowned, activating
/// application window of another process, not cloaked, with caption buttons
/// of some size.
pub open spec fn overlay_eligible(f: OverlayWindowFacts) -> bool {
    &&& f.hwnd != 0
    &&& f.visible
    &&& !f.iconic
    &&& f.owner == 0
    &&& f.ex_style & WS_EX_TOOLWINDOW == 0
    &&& f.ex_style & WS_EX_NOACTIVATE == 0
    &&& f.pid != 0
    &&& f.pid != f.own_pid
    &&& !(f.cloaked matches Some(c) && c != 0)
    &&& f.buttons matches Some(b) && b.right > b.left && b.bottom > b.top
}

pub fn eligible(f: &OverlayWindowFacts) -> (r: bool)
    ensures
        r == overlay_eligible(*f),
{
    if f.hwnd == 0 || !f.visible || f.iconic || f.owner != 0 {
        return false;
    }
    if f.ex_style & WS_EX_TOOLWINDOW != 0 || f.ex_style & WS_EX_NOACTIVATE != 0 {
        return false;
    }
    if f.pid == 0 || f.pid == f.own_pid {
        return false;
    }
    match f.cloaked {
        Some(c) => {
            if c != 0 {
                return false;
            }
        },
        None => {},
    }
    match f.buttons {
        Some(b) => b.right > b.left && b.bottom > b.top,
        None => false,
    }
}

/// Where the controls go: over the caption buttons, whose bounds DWM gives
/// relative to the window's extended frame.
pub open spec fn overlay_rect_spec(frame: Rect, buttons: Rect) -> Option<Rect> {
    if buttons.right - buttons.left <= 0 || buttons.bottom - buttons.top <= 0 {
        None
    } else {
        Some(Rect {
            left: (frame.left + buttons.left) as i32,
            top: (frame.top + buttons.top) as i32,
            right: (frame.left + buttons.right) as i32,
            bottom: (frame.top + buttons.bottom) as i32,
        })
    }
}

/// The screen rectangle of the controls for a window, from its extended
/// frame bounds and caption button bounds. Every coordinate must fit `i32`.
pub fn overlay_rect(frame: Rect, buttons: Rect) -> (r: Option<Rect>)
    requires
        i32::MIN <= buttons.right - buttons.left <= i32::MAX,
        i32::MIN <= buttons.bottom - buttons.top <= i32::MAX,
        i32::MIN <= frame.left + buttons.left <= i32::MAX,
        i32::MIN <= frame.top + buttons.top <= i32::MAX,
        i32::MIN <= frame.left + buttons.right <= i32::MAX,
        i32::MIN <= frame.top + buttons.bottom <= i32::MAX,
    ensures
        r == overlay_rect_spec(frame, buttons),
{
    let width = buttons.right - buttons.left;
    let height = buttons.bottom - buttons.top;
    if width <= 0 || height <= 0 {
        return None;
    }
    Some(Rect {
        left: frame.left + buttons.left,
        top: frame.top + buttons.top,
        right: frame.left + buttons.right,
        bottom: frame.top + buttons.bottom,
    })
}

} // verus!

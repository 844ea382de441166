//! The native top panel: its DPI-scaled geometry, what a click on it opens,
//! the clock text, and the messages of a failed relayout.
use crate::text::{concat_str, decimal_digits, decimal_of, string_from_chars};
use vstd::prelude::*;

verus! {

/// The panel's logical height, in pixels at 96 DPI.
pub const PANEL_HEIGHT: i32 = 32;
pub const TIMER_CLOCK: usize = 1;

/// What a click on the panel opens.
#[derive(Clone, Copy, Debug, PartialEq, Eq, Structural)]
pub enum PanelAction {
    Activities,
    DateMenu,
    QuickSettings,
}

/// The low word of an `LPARAM`, read as a signed 16-bit coordinate
/// (`GET_X_LPARAM`).
pub open spec fn low_word_signed(lparam: isize) -> int {
    let low = ((lparam as u32) & 0xffffu32) as int;
    if low >= 0x8000 { low - 0x10000 } else { low }
}

pub fn x_from_lparam(lparam: isize) -> (r: i32)
    ensures
        r == low_word_signed(lparam),
{
    let low: u32 = (lparam as u32) & 0xffff;
    assert(low <= 0xffff) by (bit_vector)
        requires
            low == (lparam as u32) & 0xffff,
    ;
    if low >= 0x8000 {
        low as i32 - 0x10000
    } else {
        low as i32
    }
}

/// `value / 32` rounded to the nearest integer, halves away from zero.
pub open spec fn round_div32(value: int) -> int {
    if value >= 0 { (value + 16) / 32 } else { -((-value + 16) / 32) }
}

/// A logical length scaled to a panel of `panel_height` physical pixels
/// (the panel is 32 logical pixels high), rounded, and held to `i32`.
pub open spec fn scaled(value: i32, panel_height: i32) -> int {
    let p: int = if panel_height >= 1 { panel_height as int } else { 1 };
    let v = round_div32(value * p);
    if v > i32::MAX { i32::MAX as int } else if v < i32::MIN { i32::MIN as int } else { v }
}

/// Scales a logical length to the panel's DPI. The product of the two
/// values must be exact in a double (under 2^53 in size).
pub fn scale_to_panel(value: i32, panel_height: i32) -> (r: i32)
    requires
        -0x20_0000_0000_0000 < value * (if panel_height >= 1 { panel_height as int } else { 1 })
            < 0x20_0000_0000_0000,
    ensures
        r == scaled(value, panel_height),
{
    let p: i64 = if panel_height >= 1 { panel_height as i64 } else { 1 };
    let product: i64 = value as i64 * p;
    let v: i64 = if product >= 0 { (product + 16) / 32 } else { -((-product + 16) / 32) };
    if v > i32::MAX as i64 {
        i32::MAX
    } else if v < i32::MIN as i64 {
        i32::MIN
    } else {
        v as i32
    }
}

/// Halving as Rust's `i32` division does: toward zero.
pub open spec fn half(w: i32) -> int {
    if w >= 0 { w / 2 } else { -((-w) / 2) }
}

fn half_of(w: i32) -> (r: i32)
    ensures
        r == half(w),
{
    if w >= 0 {
        w / 2
    } else {
        let m: i64 = -(w as i64);
        -((m / 2) as i32)
    }
}

/// What a click at `x` on a panel `width` by `height` pixels opens: the
/// Activities button at the left edge, the date menu around the centre, the
/// Quick Settings at the right edge.
pub open spec fn click_action(x: i32, width: i32, height: i32) -> Option<PanelAction> {
    if x <= scaled(58, height) {
        Some(PanelAction::Activities)
    } else if x >= half(width) - 125 && x <= half(width) + 125 {
        Some(PanelAction::DateMenu)
    } else if x >= width - 165 {
        Some(PanelAction::QuickSettings)
    } else {
        None
    }
}

/// The centre of a panel `width` pixels wide, as `width / 2` gives it.
pub open spec fn centre(width: i32) -> int {
    if width >= 0 { width as int / 2 } else { -((-(width as int)) / 2) }
}

/// Where a click lands: up to the (DPI-scaled, 58-pixel) Activities button
/// it opens Activities; beyond it, within 125 pixels of the centre on either
/// side (a region of 251 pixels, symmetric about the centre) it opens the
/// date menu; otherwise, within the 165 pixels at the right edge it opens
/// Quick Settings; anywhere else it does nothing.
pub proof fn lemma_click_regions(x: i32, width: i32, height: i32)
    ensures
        x <= scaled(58, height) ==> click_action(x, width, height) == Some(PanelAction::Activities),
        x > scaled(58, height) && centre(width) - 125 <= x <= centre(width) + 125 ==> click_action(x, width, height)
            == Some(PanelAction::DateMenu),
        x > scaled(58, height) && (x < centre(width) - 125 || x > centre(width) + 125) && x >= width - 165
            ==> click_action(x, width, height) == Some(PanelAction::QuickSettings),
        x > scaled(58, height) && (x < centre(width) - 125 || x > centre(width) + 125) && x < width - 165
            ==> click_action(x, width, height) is None,
{
}

pub fn panel_action(x: i32, width: i32, height: i32) -> (r: Option<PanelAction>)
    requires
        -0x20_0000_0000_0000 < 58 * (if height >= 1 { height as int } else { 1 }) < 0x20_0000_0000_0000,
    ensures
        r == click_action(x, width, height),
{
    let h = half_of(width);
    if x <= scale_to_panel(58, height) {
        Some(PanelAction::Activities)
    } else if x as i64 >= h as i64 - 125 && x as i64 <= h as i64 + 125 {
        Some(PanelAction::DateMenu)
    } else if x as i64 >= width as i64 - 165 {
        Some(PanelAction::QuickSettings)
    } else {
        None
    }
}

/// A rectangle of the panel's client area.
#[derive(Clone, Copy, Debug, PartialEq, Eq, Structural)]
pub struct PanelRect {
    pub left: i32,
    pub top: i32,
    pub right: i32,
    pub bottom: i32,
}

/// Where the panel draws: the clock, the status icons, the workspace pill
/// and the dot beside it (the pill's corner radius alongside).
#[derive(Clone, Copy, Debug, PartialEq, Eq, Structural)]
pub struct PanelLayout {
    pub clock: PanelRect,
    pub status: PanelRect,
    pub pill: PanelRect,
    pub pill_radius: i32,
    pub dot: PanelRect,
}

/// The layout of a panel `width` by `height` pixels.
pub open spec fn layout_spec(width: i32, height: i32) -> PanelLayout {
    PanelLayout {
        clock: PanelRect {
            left: (half(width) - scaled(120, height)) as i32,
            top: 0,
            right: (half(width) + scaled(120, height)) as i32,
            bottom: height,
        },
        status: PanelRect {
            left: (width - scaled(150, height)) as i32,
            top: 0,
            right: (width - scaled(12, height)) as i32,
            bottom: height,
        },
        pill: PanelRect {
            left: scaled(12, height) as i32,
            top: scaled(12, height) as i32,
            right: scaled(30, height) as i32,
            bottom: scaled(20, height) as i32,
        },
        pill_radius: scaled(8, height) as i32,
        dot: PanelRect {
            left: scaled(36, height) as i32,
            top: scaled(14, height) as i32,
            right: (scaled(36, height) + scaled(5, height)) as i32,
            bottom: (scaled(14, height) + scaled(5, height)) as i32,
        },
    }
}

/// The panel's layout. Every edge must fit in `i32`.
pub fn panel_layout(width: i32, height: i32) -> (r: PanelLayout)
    requires
        i32::MIN <= half(width) - scaled(120, height) <= i32::MAX,
        i32::MIN <= half(width) + scaled(120, height) <= i32::MAX,
        i32::MIN <= width - scaled(150, height) <= i32::MAX,
        i32::MIN <= width - scaled(12, height) <= i32::MAX,
        i32::MIN <= scaled(36, height) + scaled(5, height) <= i32::MAX,
        i32::MIN <= scaled(14, height) + scaled(5, height) <= i32::MAX,
    ensures
        r == layout_spec(width, height),
{
    let h = half_of(width);
    let s120 = scale_to_panel(120, height);
    let s150 = scale_to_panel(150, height);
    let s12 = scale_to_panel(12, height);
    let s30 = scale_to_panel(30, height);
    let s20 = scale_to_panel(20, height);
    let s8 = scale_to_panel(8, height);
    let s36 = scale_to_panel(36, height);
    let s14 = scale_to_panel(14, height);
    let s5 = scale_to_panel(5, height);
    PanelLayout {
        clock: PanelRect { left: h - s120, top: 0, right: h + s120, bottom: height },
        status: PanelRect { left: width - s150, top: 0, right: width - s12, bottom: height },
        pill: PanelRect { left: s12, top: s12, right: s30, bottom: s20 },
        pill_radius: s8,
        dot: PanelRect { left: s36, top: s14, right: s36 + s5, bottom: s14 + s5 },
    }
}

/// The month's three-letter name; anything but 1 to 11 reads as December.
pub open spec fn month_abbrev(month: u16) -> Seq<char> {
    if month == 1 { "Jan"@ } else if month == 2 { "Feb"@ } else if month == 3 { "Mar"@ }
    else if month == 4 { "Apr"@ } else if month == 5 { "May"@ } else if month == 6 { "Jun"@ }
    else if month == 7 { "Jul"@ } else if month == 8 { "Aug"@ } else if month == 9 { "Sep"@ }
    else if month == 10 { "Oct"@ } else if month == 11 { "Nov"@ } else { "Dec"@ }
}

fn month_name(month: u16) -> (r: &'static str)
    ensures
        r@ == month_abbrev(month),
{
    match month {
        1 => "Jan",
        2 => "Feb",
        3 => "Mar",
        4 => "Apr",
        5 => "May",
        6 => "Jun",
        7 => "Jul",
        8 => "Aug",
        9 => "Sep",
        10 => "Oct",
        11 => "Nov",
        _ => "Dec",
    }
}

/// A number in at least two digits (`{:02}`).
pub open spec fn two_digits(v: u16) -> Seq<char> {
    if v < 10 { seq!['0'] + decimal_digits(v as nat) } else { decimal_digits(v as nat) }
}

fn two_digits_of(v: u16) -> (r: String)
    ensures
        r@ == two_digits(v),
{
    let d = decimal_of(v as u64);
    let s = string_from_chars(d.as_slice());
    if v < 10 {
        proof {
            reveal_strlit("0");
        }
        concat_str("0", s.as_str())
    } else {
        s
    }
}

/// The local time that the clock shows.
#[derive(Clone, Copy, Debug, Default)]
pub struct ClockTime {
    pub month: u16,
    pub day: u16,
    pub hour: u16,
    pub minute: u16,
}

/// `<Mon> <day>  <hh>:<mm>`.
pub open spec fn clock_text(t: ClockTime) -> Seq<char> {
    month_abbrev(t.month) + " "@ + decimal_digits(t.day as nat) + "  "@ + two_digits(t.hour) + ":"@
        + two_digits(t.minute)
}

/// The panel clock's text.
pub fn clock_label(time: ClockTime) -> (r: String)
    ensures
        r@ == clock_text(time),
{
    let d = decimal_of(time.day as u64);
    let day = string_from_chars(d.as_slice());
    let a = concat_str(month_name(time.month), " ");
    let b = concat_str(a.as_str(), day.as_str());
    let c = concat_str(b.as_str(), "  ");
    let hh = two_digits_of(time.hour);
    let e = concat_str(c.as_str(), hh.as_str());
    let f = concat_str(e.as_str(), ":");
    let mm = two_digits_of(time.minute);
    concat_str(f.as_str(), mm.as_str())
}

/// The Wi-Fi and volume glyphs, then the battery glyph when there is one.
pub open spec fn status_text(battery: Seq<char>) -> Seq<char> {
    "\u{E701}  \u{E767}"@ + (if battery.len() > 0 { "  "@ + battery } else { Seq::empty() })
}

pub fn status_icons(battery: &str) -> (r: String)
    ensures
        r@ == status_text(battery@),
{
    let base = String::from_str("\u{E701}  \u{E767}");
    if battery.unicode_len() > 0 {
        let spaced = concat_str(base.as_str(), "  ");
        concat_str(spaced.as_str(), battery)
    } else {
        proof {
            assert(base@ + Seq::<char>::empty() =~= base@);
        }
        base
    }
}

/// The panel window, when one is up (a handle of 0 means none).
pub fn hwnd(stored: isize) -> (r: Option<isize>)
    ensures
        r == (if stored != 0 { Some(stored) } else { None }),
{
    if stored != 0 {
        Some(stored)
    } else {
        None
    }
}

/// The outcome of putting the panel back where it was after a failed
/// relayout: whether its position came back, and what re-reserving its
/// screen edge gave.
pub fn rollback_result(position_restored: bool, appbar: &Result<(), String>) -> (r: Result<(), String>)
    ensures
        position_restored && appbar is Ok ==> r is Ok,
        !position_restored && appbar is Ok ==> (r matches Err(e) && e@
            == "failed to restore native panel geometry after relayout failure; AppBar was re-reserved"@),
        position_restored && appbar is Err ==> (r matches Err(e) && e@
            == "native panel geometry was restored but AppBar recovery failed: "@ + appbar->Err_0@),
        !position_restored && appbar is Err ==> (r matches Err(e) && e@
            == "native panel geometry and AppBar recovery both failed: "@ + appbar->Err_0@),
{
    match appbar {
        Ok(()) => {
            if position_restored {
                Ok(())
            } else {
                Err(String::from_str(
                    "failed to restore native panel geometry after relayout failure; AppBar was re-reserved",
                ))
            }
        },
        Err(error) => {
            if position_restored {
                Err(concat_str("native panel geometry was restored but AppBar recovery failed: ", error.as_str()))
            } else {
                Err(concat_str("native panel geometry and AppBar recovery both failed: ", error.as_str()))
            }
        },
    }
}

/// The error of a relayout whose `SetWindowPos` failed, given how the
/// rollback went.
pub fn position_failure(rollback: &Result<(), String>) -> (r: String)
    ensures
        rollback is Ok ==> r@ == "SetWindowPos failed for native panel; previous layout was restored"@,
        rollback is Err ==> r@ == "SetWindowPos failed for native panel; rollback failed: "@ + rollback->Err_0@,
{
    match rollback {
        Ok(()) => String::from_str("SetWindowPos failed for native panel; previous layout was restored"),
        Err(e) => concat_str("SetWindowPos failed for native panel; rollback failed: ", e.as_str()),
    }
}

/// The error of a relayout whose AppBar reservation failed with `error`,
/// given how the rollback went.
pub fn reservation_failure(error: &str, rollback: &Result<(), String>) -> (r: String)
    ensures
        rollback is Ok ==> r@ == "native panel AppBar reservation failed; previous layout was restored: "@
            + error@,
        rollback is Err ==> r@ == "native panel AppBar reservation failed: "@ + error@ + "; rollback failed: "@
            + rollback->Err_0@,
{
    match rollback {
        Ok(()) => concat_str("native panel AppBar reservation failed; previous layout was restored: ", error),
        Err(e) => {
            let a = concat_str("native panel AppBar reservation failed: ", error);
            let b = concat_str(a.as_str(), "; rollback failed: ");
            concat_str(b.as_str(), e.as_str())
        },
    }
}

} // verus!

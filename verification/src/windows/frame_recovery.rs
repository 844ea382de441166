//! Crash recovery of native frames: the journal snapshot of a window's
//! original DWM attributes and what a separate watchdog process may put back.
use crate::windows::frame::{colorref, colorref_spec, AttrWrite, OriginalFrame, DWMWA_COLOR_NONE, DWMWCP_ROUND};
use crate::text::{chars_of, is_str, parse_unsigned, unsigned_in};
use vstd::prelude::*;

verus! {

pub const WAIT_OBJECT_0: u32 = 0;

/// A window's attributes before the shell touched them, with the identity of
/// the process that owned it (id and creation time).
#[derive(Clone, Copy, Debug, PartialEq, Eq, Structural)]
pub struct Snapshot {
    pub hwnd: isize,
    pub pid: u32,
    pub created: u64,
    pub dark: Option<i32>,
    pub corner: Option<i32>,
    pub border: Option<u32>,
    pub caption: Option<u32>,
    pub text: Option<u32>,
}

/// The recovery record of a journaled window: its handle, the id and
/// creation time of the process that owned it, and the attributes first
/// observed.
pub fn snapshot_of(hwnd: isize, original: &OriginalFrame, created: u64) -> (r: Snapshot)
    ensures
        r == (Snapshot {
            hwnd,
            pid: original.pid,
            created,
            dark: original.dark,
            corner: original.corner,
            border: original.border,
            caption: original.caption,
            text: original.text,
        }),
{
    Snapshot {
        hwnd,
        pid: original.pid,
        created,
        dark: original.dark,
        corner: original.corner,
        border: original.border,
        caption: original.caption,
        text: original.text,
    }
}

/// A window's attributes as DWM reports them when the watchdog runs
/// (`None` where they could not be read).
#[derive(Clone, Copy, Debug, PartialEq, Eq, Structural)]
pub struct CurrentAttributes {
    pub dark: Option<i32>,
    pub corner: Option<i32>,
    pub border: Option<u32>,
    pub caption: Option<u32>,
    pub text: Option<u32>,
}

/// Values that only the shell's styling writes: anything else was set by the
/// owning application and is left alone.
pub open spec fn ours_dark(v: i32) -> bool {
    v == 0 || v == 1
}

pub open spec fn ours_corner(v: i32) -> bool {
    v == DWMWCP_ROUND
}

pub open spec fn ours_border(v: u32) -> bool {
    v == DWMWA_COLOR_NONE
}

pub open spec fn ours_caption(v: u32) -> bool {
    v == colorref_spec(46, 46, 50) || v == colorref_spec(255, 255, 255)
}

pub open spec fn ours_text(v: u32) -> bool {
    v == colorref_spec(255, 255, 255) || v == colorref_spec(32, 32, 34)
}

/// Whether one attribute is put back: its original was journaled, its
/// current value could be read, is one of ours and differs from the original.
pub open spec fn restores_i32(original: Option<i32>, current: Option<i32>, ours: bool) -> bool {
    original is Some && current is Some && ours && current.unwrap() != original.unwrap()
}

pub open spec fn restores_u32(original: Option<u32>, current: Option<u32>, ours: bool) -> bool {
    original is Some && current is Some && ours && current.unwrap() != original.unwrap()
}

/// The writes that put a window's journaled attributes back, in the order
/// dark mode, corners, border, caption, text.
pub open spec fn recovery_writes(s: Snapshot, c: CurrentAttributes) -> Seq<AttrWrite> {
    (if restores_i32(s.dark, c.dark, c.dark is Some && ours_dark(c.dark.unwrap())) {
        seq![AttrWrite::Dark(s.dark.unwrap())]
    } else {
        seq![]
    }) + (if restores_i32(s.corner, c.corner, c.corner is Some && ours_corner(c.corner.unwrap())) {
        seq![AttrWrite::Corner(s.corner.unwrap())]
    } else {
        seq![]
    }) + (if restores_u32(s.border, c.border, c.border is Some && ours_border(c.border.unwrap())) {
        seq![AttrWrite::Border(s.border.unwrap())]
    } else {
        seq![]
    }) + (if restores_u32(s.caption, c.caption, c.caption is Some && ours_caption(c.caption.unwrap())) {
        seq![AttrWrite::Caption(s.caption.unwrap())]
    } else {
        seq![]
    }) + (if restores_u32(s.text, c.text, c.text is Some && ours_text(c.text.unwrap())) {
        seq![AttrWrite::Text(s.text.unwrap())]
    } else {
        seq![]
    })
}

fn push_when(out: &mut Vec<AttrWrite>, cond: bool, w: AttrWrite)
    ensures
        final(out)@ == old(out)@ + (if cond { seq![w] } else { seq![] }),
{
    if cond {
        out.push(w);
    }
    assert(final(out)@ =~= old(out)@ + (if cond { seq![w] } else { seq![] }));
}

/// The writes that restore a journaled window.
pub fn recovery_plan(snapshot: &Snapshot, current: &CurrentAttributes) -> (r: Vec<AttrWrite>)
    ensures
        r@ == recovery_writes(*snapshot, *current),
{
    let caption_dark = colorref(46, 46, 50);
    let white = colorref(255, 255, 255);
    let text_dark = colorref(32, 32, 34);
    let mut out: Vec<AttrWrite> = Vec::new();
    match (snapshot.dark, current.dark) {
        (Some(o), Some(c)) => push_when(&mut out, (c == 0 || c == 1) && c != o, AttrWrite::Dark(o)),
        _ => push_when(&mut out, false, AttrWrite::Dark(0)),
    }
    match (snapshot.corner, current.corner) {
        (Some(o), Some(c)) => push_when(&mut out, c == DWMWCP_ROUND && c != o, AttrWrite::Corner(o)),
        _ => push_when(&mut out, false, AttrWrite::Corner(0)),
    }
    match (snapshot.border, current.border) {
        (Some(o), Some(c)) => push_when(&mut out, c == DWMWA_COLOR_NONE && c != o, AttrWrite::Border(o)),
        _ => push_when(&mut out, false, AttrWrite::Border(0)),
    }
    match (snapshot.caption, current.caption) {
        (Some(o), Some(c)) => push_when(
            &mut out,
            (c == caption_dark || c == white) && c != o,
            AttrWrite::Caption(o),
        ),
        _ => push_when(&mut out, false, AttrWrite::Caption(0)),
    }
    match (snapshot.text, current.text) {
        (Some(o), Some(c)) => push_when(&mut out, (c == white || c == text_dark) && c != o, AttrWrite::Text(o)),
        _ => push_when(&mut out, false, AttrWrite::Text(0)),
    }
    assert(out@ =~= recovery_writes(*snapshot, *current));
    out
}

/// The watchdog never overwrites a value that the owning application set:
/// every write puts back the journaled original of an attribute whose
/// current value is one of the shell's own, and differs from it.
pub proof fn lemma_recovery_only_undoes_our_styling(s: Snapshot, c: CurrentAttributes)
    ensures
        forall|i: int| 0 <= i < recovery_writes(s, c).len() ==> match #[trigger] recovery_writes(s, c)[i] {
            AttrWrite::Dark(v) => s.dark == Some(v) && c.dark is Some && ours_dark(c.dark.unwrap()) && c.dark.unwrap() != v,
            AttrWrite::Corner(v) => s.corner == Some(v) && c.corner is Some && ours_corner(c.corner.unwrap()) && c.corner.unwrap() != v,
            AttrWrite::Border(v) => s.border == Some(v) && c.border is Some && ours_border(c.border.unwrap()) && c.border.unwrap() != v,
            AttrWrite::Caption(v) => s.caption == Some(v) && c.caption is Some && ours_caption(c.caption.unwrap()) && c.caption.unwrap() != v,
            AttrWrite::Text(v) => s.text == Some(v) && c.text is Some && ours_text(c.text.unwrap()) && c.text.unwrap() != v,
        },
{
    let w = recovery_writes(s, c);
    let a = if restores_i32(s.dark, c.dark, c.dark is Some && ours_dark(c.dark.unwrap())) { seq![AttrWrite::Dark(s.dark.unwrap())] } else { seq![] };
    let b = if restores_i32(s.corner, c.corner, c.corner is Some && ours_corner(c.corner.unwrap())) { seq![AttrWrite::Corner(s.corner.unwrap())] } else { seq![] };
    let d = if restores_u32(s.border, c.border, c.border is Some && ours_border(c.border.unwrap())) { seq![AttrWrite::Border(s.border.unwrap())] } else { seq![] };
    let e = if restores_u32(s.caption, c.caption, c.caption is Some && ours_caption(c.caption.unwrap())) { seq![AttrWrite::Caption(s.caption.unwrap())] } else { seq![] };
    let f = if restores_u32(s.text, c.text, c.text is Some && ours_text(c.text.unwrap())) { seq![AttrWrite::Text(s.text.unwrap())] } else { seq![] };
    assert(w == a + b + d + e + f);
    assert forall|i: int| 0 <= i < w.len() implies match #[trigger] w[i] {
        AttrWrite::Dark(v) => s.dark == Some(v) && c.dark is Some && ours_dark(c.dark.unwrap()) && c.dark.unwrap() != v,
        AttrWrite::Corner(v) => s.corner == Some(v) && c.corner is Some && ours_corner(c.corner.unwrap()) && c.corner.unwrap() != v,
        AttrWrite::Border(v) => s.border == Some(v) && c.border is Some && ours_border(c.border.unwrap()) && c.border.unwrap() != v,
        AttrWrite::Caption(v) => s.caption == Some(v) && c.caption is Some && ours_caption(c.caption.unwrap()) && c.caption.unwrap() != v,
        AttrWrite::Text(v) => s.text == Some(v) && c.text is Some && ours_text(c.text.unwrap()) && c.text.unwrap() != v,
    } by {
        if i < a.len() {
            assert(w[i] == a[i]);
        } else if i < a.len() + b.len() {
            assert(w[i] == b[i - a.len()]);
        } else if i < a.len() + b.len() + d.len() {
            assert(w[i] == d[i - a.len() - b.len()]);
        } else if i < a.len() + b.len() + d.len() + e.len() {
            assert(w[i] == e[i - a.len() - b.len() - d.len()]);
        } else {
            assert(w[i] == f[i - a.len() - b.len() - d.len() - e.len()]);
        }
    }
}

/// Whether a journaled window may be touched: it still exists and belongs to
/// the very process (same id, same creation time) whose window was styled.
pub fn may_recover(snapshot: &Snapshot, is_window: bool, current_pid: u32, created: Option<u64>) -> (r: bool)
    ensures
        r == (snapshot.hwnd != 0 && is_window && current_pid == snapshot.pid && created == Some(
            snapshot.created,
        )),
{
    snapshot.hwnd != 0 && is_window && current_pid == snapshot.pid && match created {
        Some(c) => c == snapshot.created,
        None => false,
    }
}

/// A `FILETIME` as one 64-bit count.
pub fn filetime(high: u32, low: u32) -> (r: u64)
    ensures
        r == high as int * 0x1_0000_0000 + low as int,
{
    let r = ((high as u64) << 32) | low as u64;
    assert(r == high as u64 * 0x1_0000_0000 + low as u64) by (bit_vector)
        requires
            r == ((high as u64) << 32) | low as u64,
    ;
    r
}

/// A process's creation time as `GetProcessTimes` reports it: none for
/// process id 0, or when the process could not be opened or queried.
pub fn creation_time(pid: u32, opened: bool, queried: bool, high: u32, low: u32) -> (r: Option<u64>)
    ensures
        (pid == 0 || !opened || !queried) ==> r is None,
        (pid != 0 && opened && queried) ==> r == Some((high as int * 0x1_0000_0000 + low as int) as u64),
{
    if pid == 0 || !opened || !queried {
        None
    } else {
        Some(filetime(high, low))
    }
}

/// Whether the watchdog should restore now: the shell's process is gone
/// (it could not be opened, or waiting on it ended with its exit).
pub fn shell_stopped(opened: bool, wait_result: u32) -> (r: bool)
    ensures
        r == (!opened || wait_result == WAIT_OBJECT_0),
{
    !opened || wait_result == WAIT_OBJECT_0
}

/// What the frame watchdog is asked to do, from its first two command-line
/// arguments after the program name: nothing unless the first is
/// `--restore-frames-after`; then the shell's process id, when it reads as a
/// `u32`.
pub fn guardian_request(flag: Option<&str>, pid: Option<&str>) -> (r: Option<Option<u32>>)
    ensures
        !(flag matches Some(f) && f@ == "--restore-frames-after"@) ==> r is None,
        (flag matches Some(f) && f@ == "--restore-frames-after"@) ==> r == Some(match pid {
            Some(p) => match unsigned_in(p@, 10, u32::MAX as nat) {
                Some(v) => Some(v as u32),
                None => None,
            },
            None => None::<u32>,
        }),
{
    let is_guardian = match flag {
        Some(f) => {
            let c = chars_of(f);
            is_str(c.as_slice(), "--restore-frames-after")
        },
        None => false,
    };
    if !is_guardian {
        return None;
    }
    match pid {
        Some(p) => {
            let c = chars_of(p);
            match parse_unsigned(c.as_slice(), 10, 0xffff_ffff) {
                Some(v) => Some(Some(v as u32)),
                None => Some(None),
            }
        },
        None => Some(None),
    }
}

} // verus!


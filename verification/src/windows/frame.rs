//! Reversible native frame styling: which DWM attributes the shell writes
//! on a foreign top-level window, and the journal that restores exactly the
//! attributes it changed.
use crate::shell::{AppearanceState, ThemeMode};
use crate::text::{chars_of, ends_with_chars, has_suffix, is_str};
use vstd::prelude::*;

verus! {

pub const DWMWCP_ROUND: i32 = 2;
pub const DWMWA_COLOR_NONE: u32 = 0xFFFF_FFFE;

/// A Win32 COLORREF: red in the low byte, then green, then blue.
pub open spec fn colorref_spec(r: u8, g: u8, b: u8) -> u32 {
    (r as int + 256 * (g as int) + 65536 * (b as int)) as u32
}

pub fn colorref(r: u8, g: u8, b: u8) -> (c: u32)
    ensures
        c == colorref_spec(r, g, b),
{
    let c = (r as u32) | ((g as u32) << 8) | ((b as u32) << 16);
    assert(c == (r as u32) + 256 * (g as u32) + 65536 * (b as u32)) by (bit_vector)
        requires
            c == (r as u32) | ((g as u32) << 8) | ((b as u32) << 16),
    ;
    c
}

/// The DWM values a theme asks for; `None` leaves that attribute to Windows.
#[derive(Clone, Copy, Debug, PartialEq, Eq, Structural)]
pub struct FramePalette {
    pub dark: Option<i32>,
    pub caption: Option<u32>,
    pub text: Option<u32>,
}

pub open spec fn palette_spec(theme: ThemeMode) -> FramePalette {
    match theme {
        ThemeMode::Dark => FramePalette {
            dark: Some(1),
            caption: Some(colorref_spec(46, 46, 50)),
            text: Some(colorref_spec(255, 255, 255)),
        },
        ThemeMode::Light => FramePalette {
            dark: Some(0),
            caption: Some(colorref_spec(255, 255, 255)),
            text: Some(colorref_spec(32, 32, 34)),
        },
        ThemeMode::System => FramePalette { dark: None, caption: None, text: None },
    }
}

/// The frame colours of each theme: Light gives dark text `#202022` on a
/// white caption, Dark gives white text on a `#2E2E32` caption, System
/// leaves all three to Windows. Where a caption colour is set, the text
/// colour differs from it, so titles stay readable.
pub proof fn lemma_palette_colours(theme: ThemeMode)
    ensures
        theme == ThemeMode::Light ==> palette_spec(theme) == (FramePalette {
            dark: Some(0),
            caption: Some(0x00FF_FFFFu32),
            text: Some(0x0022_2020u32),
        }),
        theme == ThemeMode::Dark ==> palette_spec(theme) == (FramePalette {
            dark: Some(1),
            caption: Some(0x0032_2E2Eu32),
            text: Some(0x00FF_FFFFu32),
        }),
        theme == ThemeMode::System ==> palette_spec(theme) == (FramePalette { dark: None, caption: None, text: None }),
        palette_spec(theme).caption is Some ==> palette_spec(theme).text is Some && palette_spec(theme).text
            != palette_spec(theme).caption,
{
}

/// The frame palette of an appearance. The system theme leaves dark mode and
/// caption colours to Windows.
pub fn palette(appearance: &AppearanceState) -> (r: FramePalette)
    ensures
        r == palette_spec(appearance.theme),
{
    match appearance.theme {
        ThemeMode::Dark => FramePalette {
            dark: Some(1),
            caption: Some(colorref(46, 46, 50)),
            text: Some(colorref(255, 255, 255)),
        },
        ThemeMode::Light => FramePalette {
            dark: Some(0),
            caption: Some(colorref(255, 255, 255)),
            text: Some(colorref(32, 32, 34)),
        },
        ThemeMode::System => FramePalette { dark: None, caption: None, text: None },
    }
}

/// A window's attributes as first observed (`None` where DWM would not
/// report one), and which of them the shell has since changed.
#[derive(Clone, Copy, Debug, PartialEq, Eq, Structural)]
pub struct OriginalFrame {
    pub pid: u32,
    pub dark: Option<i32>,
    pub corner: Option<i32>,
    pub border: Option<u32>,
    pub caption: Option<u32>,
    pub text: Option<u32>,
    pub changed_dark: bool,
    pub changed_corner: bool,
    pub changed_border: bool,
    pub changed_caption: bool,
    pub changed_text: bool,
}

/// One DWM attribute write.
#[derive(Clone, Copy, Debug, PartialEq, Eq, Structural)]
pub enum AttrWrite {
    Dark(i32),
    Corner(i32),
    Border(u32),
    Caption(u32),
    Text(u32),
}

/// A journal entry for a newly observed window: nothing changed yet.
pub fn observed(
    pid: u32,
    dark: Option<i32>,
    corner: Option<i32>,
    border: Option<u32>,
    caption: Option<u32>,
    text: Option<u32>,
) -> (r: OriginalFrame)
    ensures
        r == (OriginalFrame {
            pid,
            dark,
            corner,
            border,
            caption,
            text,
            changed_dark: false,
            changed_corner: false,
            changed_border: false,
            changed_caption: false,
            changed_text: false,
        }),
{
    OriginalFrame {
        pid,
        dark,
        corner,
        border,
        caption,
        text,
        changed_dark: false,
        changed_corner: false,
        changed_border: false,
        changed_caption: false,
        changed_text: false,
    }
}

/// The writes that put back the dark-mode, caption and text values the shell
/// changed, each to the value first observed.
pub open spec fn color_restore_writes(o: OriginalFrame) -> Seq<AttrWrite> {
    (if o.changed_dark && o.dark is Some { seq![AttrWrite::Dark(o.dark.unwrap())] } else { seq![] })
    + (if o.changed_caption && o.caption is Some { seq![AttrWrite::Caption(o.caption.unwrap())] } else { seq![] })
    + (if o.changed_text && o.text is Some { seq![AttrWrite::Text(o.text.unwrap())] } else { seq![] })
}

/// The entry once its colours are restored: those changes are forgotten.
pub open spec fn colors_restored(o: OriginalFrame) -> OriginalFrame {
    OriginalFrame { changed_dark: false, changed_caption: false, changed_text: false, ..o }
}

/// The writes that undo every change the shell made to a window.
pub open spec fn frame_restore_writes(o: OriginalFrame) -> Seq<AttrWrite> {
    color_restore_writes(o)
    + (if o.changed_corner && o.corner is Some { seq![AttrWrite::Corner(o.corner.unwrap())] } else { seq![] })
    + (if o.changed_border && o.border is Some { seq![AttrWrite::Border(o.border.unwrap())] } else { seq![] })
}

fn push_if(out: &mut Vec<AttrWrite>, cond: bool, w: AttrWrite)
    ensures
        final(out)@ == old(out)@ + (if cond { seq![w] } else { seq![] }),
{
    if cond {
        out.push(w);
    }
    assert(final(out)@ =~= old(out)@ + (if cond { seq![w] } else { seq![] }));
}

/// Restoring the colours of an entry: the writes to make and the entry after.
pub fn restore_colors(original: &OriginalFrame) -> (r: (Vec<AttrWrite>, OriginalFrame))
    ensures
        r.0@ == color_restore_writes(*original),
        r.1 == colors_restored(*original),
{
    let mut out: Vec<AttrWrite> = Vec::new();
    push_if(&mut out, original.changed_dark && original.dark.is_some(),
        AttrWrite::Dark(match original.dark { Some(v) => v, None => 0 }));
    push_if(&mut out, original.changed_caption && original.caption.is_some(),
        AttrWrite::Caption(match original.caption { Some(v) => v, None => 0 }));
    push_if(&mut out, original.changed_text && original.text.is_some(),
        AttrWrite::Text(match original.text { Some(v) => v, None => 0 }));
    assert(out@ =~= color_restore_writes(*original));
    let after = OriginalFrame {
        changed_dark: false,
        changed_caption: false,
        changed_text: false,
        ..*original
    };
    (out, after)
}

/// The writes that undo every change the shell made to a window.
pub fn restore_frame(original: &OriginalFrame) -> (r: Vec<AttrWrite>)
    ensures
        r@ == frame_restore_writes(*original),
{
    let (mut out, _) = restore_colors(original);
    push_if(&mut out, original.changed_corner && original.corner.is_some(),
        AttrWrite::Corner(match original.corner { Some(v) => v, None => 0 }));
    push_if(&mut out, original.changed_border && original.border.is_some(),
        AttrWrite::Border(match original.border { Some(v) => v, None => 0 }));
    out
}


/// Every restoring write puts back a value the shell changed, with the value
/// first observed: the journal never writes anything it did not change.
pub proof fn lemma_restore_writes_only_changed(o: OriginalFrame)
    ensures
        forall|i: int| 0 <= i < frame_restore_writes(o).len() ==> match #[trigger] frame_restore_writes(o)[i] {
            AttrWrite::Dark(v) => o.changed_dark && o.dark == Some(v),
            AttrWrite::Corner(v) => o.changed_corner && o.corner == Some(v),
            AttrWrite::Border(v) => o.changed_border && o.border == Some(v),
            AttrWrite::Caption(v) => o.changed_caption && o.caption == Some(v),
            AttrWrite::Text(v) => o.changed_text && o.text == Some(v),
        },
{
    let w = frame_restore_writes(o);
    assert forall|i: int| 0 <= i < w.len() implies match #[trigger] w[i] {
        AttrWrite::Dark(v) => o.changed_dark && o.dark == Some(v),
        AttrWrite::Corner(v) => o.changed_corner && o.corner == Some(v),
        AttrWrite::Border(v) => o.changed_border && o.border == Some(v),
        AttrWrite::Caption(v) => o.changed_caption && o.caption == Some(v),
        AttrWrite::Text(v) => o.changed_text && o.text == Some(v),
    } by {
        let a = if o.changed_dark && o.dark is Some { seq![AttrWrite::Dark(o.dark.unwrap())] } else { seq![] };
        let b = if o.changed_caption && o.caption is Some { seq![AttrWrite::Caption(o.caption.unwrap())] } else { seq![] };
        let c = if o.changed_text && o.text is Some { seq![AttrWrite::Text(o.text.unwrap())] } else { seq![] };
        let d = if o.changed_corner && o.corner is Some { seq![AttrWrite::Corner(o.corner.unwrap())] } else { seq![] };
        let e = if o.changed_border && o.border is Some { seq![AttrWrite::Border(o.border.unwrap())] } else { seq![] };
        assert(w == a + b + c + d + e);
        if i < a.len() {
            assert(w[i] == a[i]);
        } else if i < a.len() + b.len() {
            assert(w[i] == b[i - a.len()]);
        } else if i < a.len() + b.len() + c.len() {
            assert(w[i] == c[i - a.len() - b.len()]);
        } else if i < a.len() + b.len() + c.len() + d.len() {
            assert(w[i] == d[i - a.len() - b.len() - c.len()]);
        } else {
            assert(w[i] == e[i - a.len() - b.len() - c.len() - d.len()]);
        }
    }
}

/// The writes that style a window for a palette: only attributes whose
/// original value was observed, so each can be put back.
pub open spec fn style_writes_spec(p: FramePalette, o: OriginalFrame) -> Seq<AttrWrite> {
    (if p.dark is Some && o.dark is Some { seq![AttrWrite::Dark(p.dark.unwrap())] } else { seq![] })
    + (if o.corner is Some { seq![AttrWrite::Corner(DWMWCP_ROUND)] } else { seq![] })
    + (if p.caption is Some && o.caption is Some { seq![AttrWrite::Caption(p.caption.unwrap())] } else { seq![] })
    + (if p.text is Some && o.text is Some { seq![AttrWrite::Text(p.text.unwrap())] } else { seq![] })
    + (if o.border is Some { seq![AttrWrite::Border(DWMWA_COLOR_NONE)] } else { seq![] })
}

/// A styling pass over one window: first the writes that undo an earlier
/// explicit theme (only when the palette leaves dark mode to Windows), then
/// the styling writes; `entry` is the journal entry once the undo is done.
pub struct StylePlan {
    pub restore: Vec<AttrWrite>,
    pub style: Vec<AttrWrite>,
    pub entry: OriginalFrame,
}

pub fn style_window(p: &FramePalette, original: &OriginalFrame) -> (r: StylePlan)
    ensures
        p.dark is None ==> r.restore@ == color_restore_writes(*original) && r.entry == colors_restored(*original),
        p.dark is Some ==> r.restore@.len() == 0 && r.entry == *original,
        r.style@ == style_writes_spec(*p, r.entry),
{
    let (restore, entry) = if p.dark.is_none() {
        restore_colors(original)
    } else {
        (Vec::new(), *original)
    };
    let mut style: Vec<AttrWrite> = Vec::new();
    push_if(&mut style, p.dark.is_some() && entry.dark.is_some(),
        AttrWrite::Dark(match p.dark { Some(v) => v, None => 0 }));
    push_if(&mut style, entry.corner.is_some(), AttrWrite::Corner(DWMWCP_ROUND));
    push_if(&mut style, p.caption.is_some() && entry.caption.is_some(),
        AttrWrite::Caption(match p.caption { Some(v) => v, None => 0 }));
    push_if(&mut style, p.text.is_some() && entry.text.is_some(),
        AttrWrite::Text(match p.text { Some(v) => v, None => 0 }));
    push_if(&mut style, entry.border.is_some(), AttrWrite::Border(DWMWA_COLOR_NONE));
    assert(style@ =~= style_writes_spec(*p, entry));
    StylePlan { restore, style, entry }
}

pub open spec fn wrote_dark(w: Seq<AttrWrite>, ok: Seq<bool>) -> bool {
    exists|i: int| 0 <= i < w.len() && i < ok.len() && ok[i] && (#[trigger] w[i]) is Dark
}

pub open spec fn wrote_corner(w: Seq<AttrWrite>, ok: Seq<bool>) -> bool {
    exists|i: int| 0 <= i < w.len() && i < ok.len() && ok[i] && (#[trigger] w[i]) is Corner
}

pub open spec fn wrote_border(w: Seq<AttrWrite>, ok: Seq<bool>) -> bool {
    exists|i: int| 0 <= i < w.len() && i < ok.len() && ok[i] && (#[trigger] w[i]) is Border
}

pub open spec fn wrote_caption(w: Seq<AttrWrite>, ok: Seq<bool>) -> bool {
    exists|i: int| 0 <= i < w.len() && i < ok.len() && ok[i] && (#[trigger] w[i]) is Caption
}

pub open spec fn wrote_text(w: Seq<AttrWrite>, ok: Seq<bool>) -> bool {
    exists|i: int| 0 <= i < w.len() && i < ok.len() && ok[i] && (#[trigger] w[i]) is Text
}

/// The journal entry after styling writes: an attribute counts as changed
/// once a write to it has succeeded, and only then.
pub open spec fn recorded(o: OriginalFrame, w: Seq<AttrWrite>, ok: Seq<bool>) -> OriginalFrame {
    OriginalFrame {
        changed_dark: o.changed_dark || wrote_dark(w, ok),
        changed_corner: o.changed_corner || wrote_corner(w, ok),
        changed_border: o.changed_border || wrote_border(w, ok),
        changed_caption: o.changed_caption || wrote_caption(w, ok),
        changed_text: o.changed_text || wrote_text(w, ok),
        ..o
    }
}

/// Records which styling writes DWM accepted (`ok[i]` for `writes[i]`).
pub fn record_writes(entry: &OriginalFrame, writes: &Vec<AttrWrite>, ok: &Vec<bool>) -> (r: OriginalFrame)
    ensures
        r == recorded(*entry, writes@, ok@),
{
    let mut r = *entry;
    let mut i: usize = 0;
    while i < writes.len() && i < ok.len()
        invariant
            i <= writes@.len(),
            r == recorded(*entry, writes@.take(i as int), ok@),
        decreases writes@.len() - i,
    {
        let ghost pre = writes@.take(i as int);
        let ghost post = writes@.take(i + 1);
        if ok[i] {
            match writes[i] {
                AttrWrite::Dark(_) => r.changed_dark = true,
                AttrWrite::Corner(_) => r.changed_corner = true,
                AttrWrite::Border(_) => r.changed_border = true,
                AttrWrite::Caption(_) => r.changed_caption = true,
                AttrWrite::Text(_) => r.changed_text = true,
            }
        }
        proof {
            assert forall|k: int| 0 <= k < pre.len() implies post[k] == pre[k] by {}
            assert(post[i as int] == writes@[i as int]);
            if wrote_dark(post, ok@) {
                let k = choose|k: int| 0 <= k < post.len() && k < ok@.len() && ok@[k] && (#[trigger] post[k]) is Dark;
                if k < i { assert(pre[k] == post[k]); }
            }
            if wrote_dark(pre, ok@) {
                let k = choose|k: int| 0 <= k < pre.len() && k < ok@.len() && ok@[k] && (#[trigger] pre[k]) is Dark;
                assert(pre[k] == post[k]);
            }
            if wrote_corner(post, ok@) {
                let k = choose|k: int| 0 <= k < post.len() && k < ok@.len() && ok@[k] && (#[trigger] post[k]) is Corner;
                if k < i { assert(pre[k] == post[k]); }
            }
            if wrote_corner(pre, ok@) {
                let k = choose|k: int| 0 <= k < pre.len() && k < ok@.len() && ok@[k] && (#[trigger] pre[k]) is Corner;
                assert(pre[k] == post[k]);
            }
            if wrote_border(post, ok@) {
                let k = choose|k: int| 0 <= k < post.len() && k < ok@.len() && ok@[k] && (#[trigger] post[k]) is Border;
                if k < i { assert(pre[k] == post[k]); }
            }
            if wrote_border(pre, ok@) {
                let k = choose|k: int| 0 <= k < pre.len() && k < ok@.len() && ok@[k] && (#[trigger] pre[k]) is Border;
                assert(pre[k] == post[k]);
            }
            if wrote_caption(post, ok@) {
                let k = choose|k: int| 0 <= k < post.len() && k < ok@.len() && ok@[k] && (#[trigger] post[k]) is Caption;
                if k < i { assert(pre[k] == post[k]); }
            }
            if wrote_caption(pre, ok@) {
                let k = choose|k: int| 0 <= k < pre.len() && k < ok@.len() && ok@[k] && (#[trigger] pre[k]) is Caption;
                assert(pre[k] == post[k]);
            }
            if wrote_text(post, ok@) {
                let k = choose|k: int| 0 <= k < post.len() && k < ok@.len() && ok@[k] && (#[trigger] post[k]) is Text;
                if k < i { assert(pre[k] == post[k]); }
            }
            if wrote_text(pre, ok@) {
                let k = choose|k: int| 0 <= k < pre.len() && k < ok@.len() && ok@[k] && (#[trigger] pre[k]) is Text;
                assert(pre[k] == post[k]);
            }
        }
        i = i + 1;
    }
    proof {
        let all = writes@.take(i as int);
        if wrote_dark(writes@, ok@) {
            let k = choose|k: int| 0 <= k < writes@.len() && k < ok@.len() && ok@[k] && (#[trigger] writes@[k]) is Dark;
            assert(all[k] == writes@[k]);
        }
        if wrote_dark(all, ok@) {
            let k = choose|k: int| 0 <= k < all.len() && k < ok@.len() && ok@[k] && (#[trigger] all[k]) is Dark;
            assert(all[k] == writes@[k]);
        }
        if wrote_corner(writes@, ok@) {
            let k = choose|k: int| 0 <= k < writes@.len() && k < ok@.len() && ok@[k] && (#[trigger] writes@[k]) is Corner;
            assert(all[k] == writes@[k]);
        }
        if wrote_corner(all, ok@) {
            let k = choose|k: int| 0 <= k < all.len() && k < ok@.len() && ok@[k] && (#[trigger] all[k]) is Corner;
            assert(all[k] == writes@[k]);
        }
        if wrote_border(writes@, ok@) {
            let k = choose|k: int| 0 <= k < writes@.len() && k < ok@.len() && ok@[k] && (#[trigger] writes@[k]) is Border;
            assert(all[k] == writes@[k]);
        }
        if wrote_border(all, ok@) {
            let k = choose|k: int| 0 <= k < all.len() && k < ok@.len() && ok@[k] && (#[trigger] all[k]) is Border;
            assert(all[k] == writes@[k]);
        }
        if wrote_caption(writes@, ok@) {
            let k = choose|k: int| 0 <= k < writes@.len() && k < ok@.len() && ok@[k] && (#[trigger] writes@[k]) is Caption;
            assert(all[k] == writes@[k]);
        }
        if wrote_caption(all, ok@) {
            let k = choose|k: int| 0 <= k < all.len() && k < ok@.len() && ok@[k] && (#[trigger] all[k]) is Caption;
            assert(all[k] == writes@[k]);
        }
        if wrote_text(writes@, ok@) {
            let k = choose|k: int| 0 <= k < writes@.len() && k < ok@.len() && ok@[k] && (#[trigger] writes@[k]) is Text;
            assert(all[k] == writes@[k]);
        }
        if wrote_text(all, ok@) {
            let k = choose|k: int| 0 <= k < all.len() && k < ok@.len() && ok@[k] && (#[trigger] all[k]) is Text;
            assert(all[k] == writes@[k]);
        }
    }
    r
}


/// Styling only writes attributes whose original value was observed.
pub proof fn lemma_style_writes_observed(p: FramePalette, o: OriginalFrame)
    ensures
        forall|i: int| 0 <= i < style_writes_spec(p, o).len() ==> (match #[trigger] style_writes_spec(p, o)[i] {
            AttrWrite::Dark(_) => o.dark is Some,
            AttrWrite::Corner(_) => o.corner is Some,
            AttrWrite::Border(_) => o.border is Some,
            AttrWrite::Caption(_) => o.caption is Some,
            AttrWrite::Text(_) => o.text is Some,
        }),
{
    let w = style_writes_spec(p, o);
    let wa = if p.dark is Some && o.dark is Some { seq![AttrWrite::Dark(p.dark.unwrap())] } else { seq![] };
    let wb = if o.corner is Some { seq![AttrWrite::Corner(DWMWCP_ROUND)] } else { seq![] };
    let wc = if p.caption is Some && o.caption is Some { seq![AttrWrite::Caption(p.caption.unwrap())] } else { seq![] };
    let wd = if p.text is Some && o.text is Some { seq![AttrWrite::Text(p.text.unwrap())] } else { seq![] };
    let we = if o.border is Some { seq![AttrWrite::Border(DWMWA_COLOR_NONE)] } else { seq![] };
    assert(w == wa + wb + wc + wd + we);
    assert forall|i: int| 0 <= i < w.len() implies (match #[trigger] w[i] {
        AttrWrite::Dark(_) => o.dark is Some,
        AttrWrite::Corner(_) => o.corner is Some,
        AttrWrite::Border(_) => o.border is Some,
        AttrWrite::Caption(_) => o.caption is Some,
        AttrWrite::Text(_) => o.text is Some,
    }) by {
        if i < wa.len() {
            assert(w[i] == wa[i]);
        } else if i < wa.len() + wb.len() {
            assert(w[i] == wb[i - wa.len()]);
        } else if i < wa.len() + wb.len() + wc.len() {
            assert(w[i] == wc[i - wa.len() - wb.len()]);
        } else if i < wa.len() + wb.len() + wc.len() + wd.len() {
            assert(w[i] == wd[i - wa.len() - wb.len() - wc.len()]);
        } else {
            assert(w[i] == we[i - wa.len() - wb.len() - wc.len() - wd.len()]);
        }
    }
}

/// The restore of an entry holds each attribute that it marks changed and
/// whose original value was observed.
pub proof fn lemma_restore_covers_changes(o: OriginalFrame)
    ensures
        o.changed_dark && o.dark is Some ==> frame_restore_writes(o).contains(AttrWrite::Dark(o.dark.unwrap())),
        o.changed_caption && o.caption is Some ==> frame_restore_writes(o).contains(AttrWrite::Caption(o.caption.unwrap())),
        o.changed_text && o.text is Some ==> frame_restore_writes(o).contains(AttrWrite::Text(o.text.unwrap())),
        o.changed_corner && o.corner is Some ==> frame_restore_writes(o).contains(AttrWrite::Corner(o.corner.unwrap())),
        o.changed_border && o.border is Some ==> frame_restore_writes(o).contains(AttrWrite::Border(o.border.unwrap())),
{
    let undo = frame_restore_writes(o);
    let a = if o.changed_dark && o.dark is Some { seq![AttrWrite::Dark(o.dark.unwrap())] } else { seq![] };
    let b = if o.changed_caption && o.caption is Some { seq![AttrWrite::Caption(o.caption.unwrap())] } else { seq![] };
    let c = if o.changed_text && o.text is Some { seq![AttrWrite::Text(o.text.unwrap())] } else { seq![] };
    let d = if o.changed_corner && o.corner is Some { seq![AttrWrite::Corner(o.corner.unwrap())] } else { seq![] };
    let e = if o.changed_border && o.border is Some { seq![AttrWrite::Border(o.border.unwrap())] } else { seq![] };
    assert(undo == a + b + c + d + e);
    if a.len() > 0 {
        assert(undo[0] == a[0]);
    }
    if b.len() > 0 {
        assert(undo[a.len() as int] == b[0]);
    }
    if c.len() > 0 {
        assert(undo[(a.len() + b.len()) as int] == c[0]);
    }
    if d.len() > 0 {
        assert(undo[(a.len() + b.len() + c.len()) as int] == d[0]);
    }
    if e.len() > 0 {
        assert(undo[(a.len() + b.len() + c.len() + d.len()) as int] == e[0]);
    }
}

/// Each styling write that succeeded is undone by the journal's restore,
/// back to the value first observed.
pub proof fn lemma_styled_attributes_are_restored(p: FramePalette, o: OriginalFrame, ok: Seq<bool>)
    ensures
        ({
            let styled = recorded(o, style_writes_spec(p, o), ok);
            let undo = frame_restore_writes(styled);
            &&& wrote_dark(style_writes_spec(p, o), ok) ==> undo.contains(AttrWrite::Dark(o.dark.unwrap()))
            &&& wrote_corner(style_writes_spec(p, o), ok) ==> undo.contains(AttrWrite::Corner(o.corner.unwrap()))
            &&& wrote_border(style_writes_spec(p, o), ok) ==> undo.contains(AttrWrite::Border(o.border.unwrap()))
            &&& wrote_caption(style_writes_spec(p, o), ok) ==> undo.contains(AttrWrite::Caption(o.caption.unwrap()))
            &&& wrote_text(style_writes_spec(p, o), ok) ==> undo.contains(AttrWrite::Text(o.text.unwrap()))
        }),
{
    let w = style_writes_spec(p, o);
    let styled = recorded(o, w, ok);
    lemma_style_writes_observed(p, o);
    lemma_restore_covers_changes(styled);
    if wrote_dark(w, ok) {
        let k = choose|k: int| 0 <= k < w.len() && k < ok.len() && ok[k] && (#[trigger] w[k]) is Dark;
    }
    if wrote_caption(w, ok) {
        let k = choose|k: int| 0 <= k < w.len() && k < ok.len() && ok[k] && (#[trigger] w[k]) is Caption;
    }
    if wrote_text(w, ok) {
        let k = choose|k: int| 0 <= k < w.len() && k < ok.len() && ok[k] && (#[trigger] w[k]) is Text;
    }
    if wrote_corner(w, ok) {
        let k = choose|k: int| 0 <= k < w.len() && k < ok.len() && ok[k] && (#[trigger] w[k]) is Corner;
    }
    if wrote_border(w, ok) {
        let k = choose|k: int| 0 <= k < w.len() && k < ok.len() && ok[k] && (#[trigger] w[k]) is Border;
    }
}

/// The journal entry kept for a window, the last one recorded for its handle.
pub open spec fn lookup(s: Seq<(isize, OriginalFrame)>, hwnd: isize) -> Option<OriginalFrame>
    decreases s.len(),
{
    if s.len() == 0 {
        None
    } else if s.last().0 == hwnd {
        Some(s.last().1)
    } else {
        lookup(s.drop_last(), hwnd)
    }
}

pub open spec fn unique_handles(s: Seq<(isize, OriginalFrame)>) -> bool {
    forall|i: int, j: int| 0 <= i < j < s.len() ==> (#[trigger] s[i]).0 != (#[trigger] s[j]).0
}

pub open spec fn has_handle(s: Seq<(isize, OriginalFrame)>, hwnd: isize) -> bool {
    exists|i: int| 0 <= i < s.len() && (#[trigger] s[i]).0 == hwnd
}

proof fn lemma_lookup_some(s: Seq<(isize, OriginalFrame)>, hwnd: isize)
    ensures
        lookup(s, hwnd) is Some <==> has_handle(s, hwnd),
    decreases s.len(),
{
    if s.len() > 0 {
        lemma_lookup_some(s.drop_last(), hwnd);
        if has_handle(s, hwnd) && s.last().0 != hwnd {
            let i = choose|i: int| 0 <= i < s.len() && (#[trigger] s[i]).0 == hwnd;
            assert(s.drop_last()[i].0 == hwnd);
        }
        if has_handle(s.drop_last(), hwnd) {
            let i = choose|i: int| 0 <= i < s.drop_last().len() && (#[trigger] s.drop_last()[i]).0 == hwnd;
            assert(s[i].0 == hwnd);
        }
        if s.last().0 == hwnd {
            assert(s[s.len() - 1].0 == hwnd);
        }
    }
}

proof fn lemma_lookup_at(s: Seq<(isize, OriginalFrame)>, hwnd: isize)
    ensures
        lookup(s, hwnd) matches Some(o) ==> exists|i: int| 0 <= i < s.len() && s[i] == (hwnd, o),
    decreases s.len(),
{
    if s.len() > 0 && s.last().0 != hwnd {
        lemma_lookup_at(s.drop_last(), hwnd);
        if lookup(s, hwnd) is Some {
            let o = lookup(s, hwnd).unwrap();
            let i = choose|i: int| 0 <= i < s.drop_last().len() && s.drop_last()[i] == (hwnd, o);
            assert(s[i] == s.drop_last()[i]);
        }
    } else if s.len() > 0 {
        assert(s[s.len() - 1] == s.last());
    }
}

/// The recovery journal of styled windows (one entry per handle), and the
/// gate that a shutdown closes for good.
pub struct FrameJournal {
    entries: Vec<(isize, OriginalFrame)>,
    enabled: bool,
}

impl FrameJournal {
    pub closed spec fn entries_spec(&self) -> Seq<(isize, OriginalFrame)> {
        self.entries@
    }

    pub closed spec fn enabled_spec(&self) -> bool {
        self.enabled
    }

    /// The entry kept for a window.
    pub open spec fn entry(&self, hwnd: isize) -> Option<OriginalFrame> {
        lookup(self.entries_spec(), hwnd)
    }

    /// The journal as a function from window handle to entry.
    pub open spec fn entry_fn(&self) -> spec_fn(isize) -> Option<OriginalFrame> {
        |h: isize| self.entry(h)
    }

    pub closed spec fn wf(&self) -> bool {
        unique_handles(self.entries@)
    }

    pub fn new() -> (r: Self)
        ensures
            r.wf(),
            r.enabled_spec(),
            forall|h: isize| r.entry(h) is None,
    {
        FrameJournal { entries: Vec::new(), enabled: true }
    }

    pub fn is_enabled(&self) -> (r: bool)
        ensures
            r == self.enabled_spec(),
    {
        self.enabled
    }

    pub fn len(&self) -> (r: usize)
        ensures
            r == self.entries_spec().len(),
    {
        self.entries.len()
    }

    /// The entry kept for a window.
    pub fn get(&self, hwnd: isize) -> (r: Option<OriginalFrame>)
        ensures
            r == self.entry(hwnd),
    {
        let mut i: usize = self.entries.len();
        proof {
            assert(self.entries@.take(i as int) =~= self.entries@);
        }
        while i > 0
            invariant
                i <= self.entries@.len(),
                lookup(self.entries@, hwnd) == lookup(self.entries@.take(i as int), hwnd),
            decreases i,
        {
            let ghost t = self.entries@.take(i as int);
            proof {
                assert(t.drop_last() =~= self.entries@.take(i - 1));
            }
            if self.entries[i - 1].0 == hwnd {
                return Some(self.entries[i - 1].1);
            }
            i = i - 1;
        }
        None
    }

    /// A window needs a fresh snapshot when it has no entry or its entry was
    /// taken for another process (a recycled handle).
    pub fn needs_snapshot(&self, hwnd: isize, pid: u32) -> (r: bool)
        ensures
            r == (match self.entry(hwnd) {
                Some(o) => o.pid != pid,
                None => true,
            }),
    {
        match self.get(hwnd) {
            Some(o) => o.pid != pid,
            None => true,
        }
    }

    /// Removes the entry of a window, returning it.
    pub fn remove(&mut self, hwnd: isize) -> (r: Option<OriginalFrame>)
        requires
            old(self).wf(),
        ensures
            final(self).wf(),
            r == old(self).entry(hwnd),
            final(self).entry(hwnd) is None,
            forall|h: isize| h != hwnd ==> final(self).entry(h) == old(self).entry(h),
            final(self).enabled_spec() == old(self).enabled_spec(),
    {
        let found = self.get(hwnd);
        let mut kept: Vec<(isize, OriginalFrame)> = Vec::new();
        let mut i: usize = 0;
        while i < self.entries.len()
            invariant
                i <= self.entries@.len(),
                unique_handles(self.entries@),
                unique_handles(kept@),
                forall|k: int| 0 <= k < kept@.len() ==> (#[trigger] kept@[k]).0 != hwnd
                    && has_handle(self.entries@.take(i as int), kept@[k].0),
                forall|h: isize| h != hwnd ==> lookup(kept@, h) == lookup(self.entries@.take(i as int), h),
                lookup(kept@, hwnd) is None,
            decreases self.entries@.len() - i,
        {
            let e = self.entries[i];
            let ghost pre = self.entries@.take(i as int);
            let ghost post = self.entries@.take(i + 1);
            proof {
                assert(post.drop_last() =~= pre);
                assert(post.last() == e);
            }
            let ghost kept_before = kept@;
            if e.0 != hwnd {
                proof {
                    assert forall|k: int| 0 <= k < kept@.len() implies (#[trigger] kept@[k]).0 != e.0 by {
                        let j = choose|j: int| 0 <= j < pre.len() && (#[trigger] pre[j]).0 == kept@[k].0;
                        assert(self.entries@[j] == pre[j]);
                        assert(self.entries@[i as int] == e);
                    }
                }
                kept.push(e);
                proof {
                    assert(kept@.drop_last() =~= kept_before);
                }
            }
            proof {
                assert forall|h: isize| h != hwnd implies lookup(kept@, h) == lookup(post, h) by {
                    assert(post.drop_last() == pre);
                    assert(post.last() == e);
                    assert(lookup(kept_before, h) == lookup(pre, h));
                    if e.0 != hwnd {
                        assert(kept@.drop_last() =~= kept_before);
                        assert(kept@.last() == e);
                    }
                }
                assert forall|k: int| 0 <= k < kept@.len() implies (#[trigger] kept@[k]).0 != hwnd
                    && has_handle(post, kept@[k].0) by {
                    if k < kept@.len() - 1 || e.0 == hwnd {
                        let j = choose|j: int| 0 <= j < pre.len() && (#[trigger] pre[j]).0 == kept@[k].0;
                        assert(post[j] == pre[j]);
                    } else {
                        assert(post[i as int] == e);
                    }
                }
            }
            i = i + 1;
        }
        proof {
            assert(self.entries@.take(self.entries@.len() as int) =~= self.entries@);
        }
        self.entries = kept;
        found
    }

    /// Keeps `entry` for a window, replacing any earlier one.
    pub fn insert(&mut self, hwnd: isize, entry: OriginalFrame)
        requires
            old(self).wf(),
        ensures
            final(self).wf(),
            final(self).entry(hwnd) == Some(entry),
            forall|h: isize| h != hwnd ==> final(self).entry(h) == old(self).entry(h),
            final(self).enabled_spec() == old(self).enabled_spec(),
    {
        let _ = self.remove(hwnd);
        let ghost before = self.entries@;
        proof {
            lemma_lookup_some(self.entries@, hwnd);
        }
        self.entries.push((hwnd, entry));
        proof {
            assert(self.entries@.drop_last() =~= before);
            assert forall|i: int, j: int| 0 <= i < j < self.entries@.len() implies
                (#[trigger] self.entries@[i]).0 != (#[trigger] self.entries@[j]).0 by {
                if j == self.entries@.len() - 1 {
                    assert(before[i] == self.entries@[i]);
                }
            }
        }
    }

    /// Shuts styling down for good and hands back every entry, so that each
    /// window can be restored once.
    pub fn shutdown(&mut self) -> (r: Vec<(isize, OriginalFrame)>)
        requires
            old(self).wf(),
        ensures
            final(self).wf(),
            !final(self).enabled_spec(),
            forall|h: isize| final(self).entry(h) is None,
            unique_handles(r@),
            forall|h: isize| lookup(r@, h) == old(self).entry(h),
            r@ == old(self).entries_spec(),
    {
        self.enabled = false;
        let mut r: Vec<(isize, OriginalFrame)> = Vec::new();
        std::mem::swap(&mut r, &mut self.entries);
        r
    }

    /// Ends frame styling for good and plans putting every journaled window
    /// back: `owners` tells, per entry in order, whether its window still
    /// exists and which process owns it now. Each entry gets the writes that
    /// restore what the shell changed, or none when the window is gone or
    /// belongs to another process; the journal is left empty and shut.
    pub fn reset_top_level_windows(&mut self, owners: &Vec<(bool, u32)>) -> (r: Vec<(isize, Vec<AttrWrite>)>)
        requires
            old(self).wf(),
            owners@.len() == old(self).entries_spec().len(),
        ensures
            final(self).wf(),
            !final(self).enabled_spec(),
            forall|h: isize| final(self).entry(h) is None,
            r@.len() == old(self).entries_spec().len(),
            forall|i: int| 0 <= i < r@.len() ==> (#[trigger] r@[i]).0 == old(self).entries_spec()[i].0 && r@[i].1@
                == restore_for(old(self).entries_spec()[i].1, owners@[i].0, owners@[i].1),
            forall|h: isize| #[trigger] old(self).entry(h) is Some ==> exists|i: int| 0 <= i < r@.len()
                && r@[i].0 == h && old(self).entries_spec()[i].1 == old(self).entry(h).unwrap(),
    {
        proof {
            assert forall|h: isize| #[trigger] old(self).entry(h) is Some implies exists|i: int| 0 <= i
                < old(self).entries_spec().len() && old(self).entries_spec()[i] == (h, old(self).entry(h).unwrap()) by {
                lemma_lookup_at(old(self).entries_spec(), h);
            }
        }
        let entries = self.shutdown();
        let mut r: Vec<(isize, Vec<AttrWrite>)> = Vec::new();
        let mut i: usize = 0;
        while i < entries.len()
            invariant
                i <= entries@.len(),
                entries@ == old(self).entries_spec(),
                owners@.len() == entries@.len(),
                r@.len() == i,
                forall|k: int| 0 <= k < i ==> (#[trigger] r@[k]).0 == entries@[k].0 && r@[k].1@ == restore_for(
                    entries@[k].1,
                    owners@[k].0,
                    owners@[k].1,
                ),
            decreases entries@.len() - i,
        {
            let (hwnd, original) = entries[i];
            let (alive, pid) = owners[i];
            r.push((hwnd, restore_plan(&original, alive, pid)));
            i = i + 1;
        }
        proof {
            assert forall|h: isize| #[trigger] old(self).entry(h) is Some implies exists|i: int| 0 <= i < r@.len()
                && r@[i].0 == h && old(self).entries_spec()[i].1 == old(self).entry(h).unwrap() by {
                let i = choose|i: int| 0 <= i < old(self).entries_spec().len() && old(self).entries_spec()[i] == (
                    h,
                    old(self).entry(h).unwrap(),
                );
                assert(r@[i].0 == entries@[i].0);
            }
        }
        r
    }

    /// The journal's entries, in the order they were first recorded.
    pub fn entries(&self) -> (r: Vec<(isize, OriginalFrame)>)
        ensures
            r@ == self.entries_spec(),
    {
        let mut r: Vec<(isize, OriginalFrame)> = Vec::new();
        let mut i: usize = 0;
        while i < self.entries.len()
            invariant
                i <= self.entries@.len(),
                r@ == self.entries@.take(i as int),
            decreases self.entries@.len() - i,
        {
            r.push(self.entries[i]);
            i = i + 1;
            assert(r@ =~= self.entries@.take(i as int));
        }
        assert(self.entries@.take(i as int) =~= self.entries@);
        r
    }

    /// Takes a window's freshly read attributes into the journal, but only
    /// once they have been committed to the recovery file (`committed`) and
    /// while styling is on: nothing is styled that could not be put back
    /// after a crash.
    pub fn take_snapshot(&mut self, hwnd: isize, entry: OriginalFrame, committed: bool) -> (r: bool)
        requires
            old(self).wf(),
        ensures
            final(self).wf(),
            final(self).enabled_spec() == old(self).enabled_spec(),
            r == (committed && old(self).enabled_spec()),
            r ==> final(self).entry(hwnd) == Some(entry),
            !r ==> final(self).entry(hwnd) == old(self).entry(hwnd),
            forall|h: isize| h != hwnd ==> final(self).entry(h) == old(self).entry(h),
            final(self).entry_fn() == call_effect(old(self).enabled_spec(), old(self).entry_fn(), JournalCall::Snapshot(
                hwnd,
                entry,
                committed,
            )),
    {
        if committed && self.enabled {
            self.insert(hwnd, entry);
            true
        } else {
            false
        }
    }

    /// Decides what a styling pass does with one window; see `FrameStep`.
    pub fn apply_step(&mut self, facts: &FrameWindowFacts, palette: &FramePalette) -> (r: FrameStep)
        requires
            old(self).wf(),
        ensures
            final(self).wf(),
            final(self).enabled_spec() == old(self).enabled_spec(),
            forall|h: isize| h != facts.hwnd ==> final(self).entry(h) == old(self).entry(h),
            !old(self).enabled_spec() ==> r is Stop && final(self).entry(facts.hwnd) == old(self).entry(
                facts.hwnd,
            ),
            old(self).enabled_spec() && !frame_eligible(*facts) ==> r == FrameStep::Release(
                old(self).entry(facts.hwnd),
            ) && final(self).entry(facts.hwnd) is None,
            old(self).enabled_spec() && frame_eligible(*facts) && !journaled_for(
                old(self).entry(facts.hwnd),
                facts.pid,
            ) ==> r is Snapshot && final(self).entry(facts.hwnd) == old(self).entry(facts.hwnd),
            old(self).enabled_spec() && frame_eligible(*facts) && journaled_for(
                old(self).entry(facts.hwnd),
                facts.pid,
            ) ==> (r matches FrameStep::Style(plan) && plan_of(*palette, old(self).entry(facts.hwnd).unwrap(), plan)
                && final(self).entry(facts.hwnd) == Some(plan.entry)),
            step_kind_of(r) == step_kind(old(self).enabled_spec(), old(self).entry(facts.hwnd), *facts),
            final(self).entry_fn() == call_effect(old(self).enabled_spec(), old(self).entry_fn(), JournalCall::Step(
                *facts,
                *palette,
            )),
    {
        if !self.enabled {
            return FrameStep::Stop;
        }
        if !eligible(facts) {
            let removed = self.remove(facts.hwnd);
            return FrameStep::Release(removed);
        }
        match self.get(facts.hwnd) {
            Some(o) => {
                if o.pid == facts.pid {
                    let plan = style_window(palette, &o);
                    self.insert(facts.hwnd, plan.entry);
                    FrameStep::Style(plan)
                } else {
                    FrameStep::Snapshot
                }
            },
            None => FrameStep::Snapshot,
        }
    }

    /// Records which styling writes of a window succeeded.
    pub fn record(&mut self, hwnd: isize, writes: &Vec<AttrWrite>, ok: &Vec<bool>)
        requires
            old(self).wf(),
        ensures
            final(self).wf(),
            final(self).enabled_spec() == old(self).enabled_spec(),
            forall|h: isize| h != hwnd ==> final(self).entry(h) == old(self).entry(h),
            old(self).entry(hwnd) matches Some(o) ==> final(self).entry(hwnd) == Some(recorded(o, writes@, ok@)),
            old(self).entry(hwnd) is None ==> final(self).entry(hwnd) is None,
            final(self).entry_fn() == call_effect(old(self).enabled_spec(), old(self).entry_fn(), JournalCall::Record(
                hwnd,
                writes@,
                ok@,
            )),
    {
        match self.get(hwnd) {
            Some(o) => {
                let r = record_writes(&o, writes, ok);
                self.insert(hwnd, r);
            },
            None => {},
        }
    }
}

/// A journal entry for a window, taken from the process that owns it now.
pub open spec fn journaled_for(entry: Option<OriginalFrame>, pid: u32) -> bool {
    entry matches Some(o) && o.pid == pid
}

/// The kinds of `FrameStep`.
pub enum StepKind {
    Stop,
    Release,
    Snapshot,
    Style,
}

pub open spec fn step_kind_of(r: FrameStep) -> StepKind {
    match r {
        FrameStep::Stop => StepKind::Stop,
        FrameStep::Release(_) => StepKind::Release,
        FrameStep::Snapshot => StepKind::Snapshot,
        FrameStep::Style(_) => StepKind::Style,
    }
}

/// What a styling step does with a window, given whether styling is on and
/// the window's journal entry.
pub open spec fn step_kind(enabled: bool, entry: Option<OriginalFrame>, facts: FrameWindowFacts) -> StepKind {
    if !enabled {
        StepKind::Stop
    } else if !frame_eligible(facts) {
        StepKind::Release
    } else if !journaled_for(entry, facts.pid) {
        StepKind::Snapshot
    } else {
        StepKind::Style
    }
}

/// A call that the shell makes on the journal during a styling pass.
pub enum JournalCall {
    /// `apply_step` for a window.
    Step(FrameWindowFacts, FramePalette),
    /// `take_snapshot` of a window's attributes, committed or not.
    Snapshot(isize, OriginalFrame, bool),
    /// `record` of a window's style writes and which of them succeeded.
    Record(isize, Seq<AttrWrite>, Seq<bool>),
}

/// The journal's entries after one call, given whether styling is on (no
/// call switches it on or off).
pub open spec fn call_effect(
    enabled: bool,
    e: spec_fn(isize) -> Option<OriginalFrame>,
    c: JournalCall,
) -> spec_fn(isize) -> Option<OriginalFrame> {
    match c {
        JournalCall::Step(f, p) => |h: isize| if h != f.hwnd {
            e(h)
        } else {
            match step_kind(enabled, e(h), f) {
                StepKind::Release => None,
                StepKind::Style => Some(if p.dark is None { colors_restored(e(h).unwrap()) } else { e(h).unwrap() }),
                _ => e(h),
            }
        },
        JournalCall::Snapshot(hwnd, entry, committed) => |h: isize| if h == hwnd && committed && enabled {
            Some(entry)
        } else {
            e(h)
        },
        JournalCall::Record(hwnd, w, ok) => |h: isize| if h == hwnd && e(h) is Some {
            Some(recorded(e(h).unwrap(), w, ok))
        } else {
            e(h)
        },
    }
}

/// A journal without entries.
pub open spec fn empty_journal() -> spec_fn(isize) -> Option<OriginalFrame> {
    |h: isize| None::<OriginalFrame>
}

/// The journal's entries after a series of calls.
pub open spec fn run_calls(
    enabled: bool,
    e: spec_fn(isize) -> Option<OriginalFrame>,
    calls: Seq<JournalCall>,
) -> spec_fn(isize) -> Option<OriginalFrame>
    decreases calls.len(),
{
    if calls.len() == 0 {
        e
    } else {
        call_effect(enabled, run_calls(enabled, e, calls.drop_last()), calls.last())
    }
}

/// Whether a call may change a window's attributes: a styling step that
/// styles it or puts it back.
pub open spec fn call_writes(enabled: bool, e: spec_fn(isize) -> Option<OriginalFrame>, c: JournalCall) -> bool {
    match c {
        JournalCall::Step(f, _) => step_kind(enabled, e(f.hwnd), f) == StepKind::Style || (step_kind(
            enabled,
            e(f.hwnd),
            f,
        ) == StepKind::Release && e(f.hwnd) is Some),
        _ => false,
    }
}

/// Once the journal is shut down it stays so: whatever calls follow, every
/// styling step stops and writes nothing, no snapshot is taken in, and the
/// journal stays empty.
pub proof fn lemma_shutdown_is_final(calls: Seq<JournalCall>)
    ensures
        forall|h: isize| #[trigger] run_calls(false, empty_journal(), calls)(h) is None,
        forall|i: int| 0 <= i < calls.len() ==> !call_writes(
            false,
            run_calls(false, empty_journal(), calls.take(i)),
            #[trigger] calls[i],
        ),
        forall|i: int| 0 <= i < calls.len() ==> (#[trigger] calls[i] matches JournalCall::Step(f, _)
            ==> step_kind(false, run_calls(false, empty_journal(), calls.take(i))(f.hwnd), f)
            == StepKind::Stop),
    decreases calls.len(),
{
    let empty = empty_journal();
    if calls.len() > 0 {
        let pre = calls.drop_last();
        lemma_shutdown_is_final(pre);
        assert forall|i: int| 0 <= i < calls.len() implies !call_writes(false, run_calls(false, empty, calls.take(i)),
            #[trigger] calls[i]) by {
            if i < pre.len() {
                assert(calls.take(i) =~= pre.take(i));
                assert(calls[i] == pre[i]);
            }
        }
        assert forall|i: int| 0 <= i < calls.len() implies (#[trigger] calls[i] matches JournalCall::Step(f, _)
            ==> step_kind(false, run_calls(false, empty, calls.take(i))(f.hwnd), f) == StepKind::Stop) by {
            if i < pre.len() {
                assert(calls.take(i) =~= pre.take(i));
                assert(calls[i] == pre[i]);
            }
        }
        assert forall|h: isize| #[trigger] run_calls(false, empty, calls)(h) is None by {
            assert(run_calls(false, empty, pre)(h) is None);
        }
    }
}

/// `plan` is the styling plan of `style_window` for palette `p` and entry `o`.
pub open spec fn plan_of(p: FramePalette, o: OriginalFrame, plan: StylePlan) -> bool {
    &&& p.dark is None ==> plan.restore@ == color_restore_writes(o) && plan.entry == colors_restored(o)
    &&& p.dark is Some ==> plan.restore@.len() == 0 && plan.entry == o
    &&& plan.style@ == style_writes_spec(p, plan.entry)
}

/// What a styling pass does with one top-level window.
pub enum FrameStep {
    /// Styling has been shut down: end the pass and write nothing.
    Stop,
    /// The window may not be styled: its entry leaves the journal, and what
    /// it changed is put back (when the window still belongs to the same
    /// process).
    Release(Option<OriginalFrame>),
    /// The window is not journaled for its current process: read its
    /// attributes and commit them (`take_snapshot`) before anything is written.
    Snapshot,
    /// Write `restore`, then `style`, then `record` which style writes took.
    Style(StylePlan),
}

/// The writes that put a journaled window back when styling ends: all that
/// its entry changed, or nothing when the window is gone or now belongs to
/// another process.
pub open spec fn restore_for(o: OriginalFrame, alive: bool, current_pid: u32) -> Seq<AttrWrite> {
    if alive && current_pid == o.pid { frame_restore_writes(o) } else { Seq::empty() }
}

/// The writes that put a journaled window back.
pub fn restore_plan(original: &OriginalFrame, alive: bool, current_pid: u32) -> (r: Vec<AttrWrite>)
    ensures
        r@ == restore_for(*original, alive, current_pid),
{
    if may_restore(alive, current_pid, original) {
        restore_frame(original)
    } else {
        Vec::new()
    }
}

/// A reset puts back, on a journaled window still owned by the process whose
/// attributes were journaled, every attribute the shell changed, to the value
/// first observed, and writes nothing else; a window that is gone or now
/// belongs to another process gets no write at all.
pub proof fn lemma_reset_restores_every_change(o: OriginalFrame, alive: bool, current_pid: u32)
    ensures
        !(alive && current_pid == o.pid) ==> restore_for(o, alive, current_pid).len() == 0,
        alive && current_pid == o.pid ==> {
            let w = restore_for(o, alive, current_pid);
            &&& o.changed_dark && o.dark is Some ==> w.contains(AttrWrite::Dark(o.dark.unwrap()))
            &&& o.changed_caption && o.caption is Some ==> w.contains(AttrWrite::Caption(o.caption.unwrap()))
            &&& o.changed_text && o.text is Some ==> w.contains(AttrWrite::Text(o.text.unwrap()))
            &&& o.changed_corner && o.corner is Some ==> w.contains(AttrWrite::Corner(o.corner.unwrap()))
            &&& o.changed_border && o.border is Some ==> w.contains(AttrWrite::Border(o.border.unwrap()))
            &&& forall|i: int| 0 <= i < w.len() ==> match #[trigger] w[i] {
                AttrWrite::Dark(v) => o.changed_dark && o.dark == Some(v),
                AttrWrite::Corner(v) => o.changed_corner && o.corner == Some(v),
                AttrWrite::Border(v) => o.changed_border && o.border == Some(v),
                AttrWrite::Caption(v) => o.changed_caption && o.caption == Some(v),
                AttrWrite::Text(v) => o.changed_text && o.text == Some(v),
            }
        },
{
    lemma_restore_covers_changes(o);
    lemma_restore_writes_only_changed(o);
}

/// Whether a window may be restored: it still exists and belongs to the
/// process whose attributes were journaled.
pub fn may_restore(alive: bool, current_pid: u32, original: &OriginalFrame) -> (r: bool)
    ensures
        r == (alive && current_pid == original.pid),
{
    alive && current_pid == original.pid
}


pub const WS_CAPTION: isize = 0x00C0_0000;
pub const WS_EX_TOOLWINDOW: isize = 0x00000080;
pub const WS_EX_NOACTIVATE: isize = 0x08000000;
pub const WS_EX_LAYERED: isize = 0x00080000;
pub const WS_EX_NOREDIRECTIONBITMAP: isize = 0x00200000;

/// A window's corner preference asking DWM not to round it.
pub const DWMWCP_DONOTROUND: i32 = 1;

/// Window classes of toolkits that draw their own title bar even when the
/// window keeps `WS_CAPTION`: Chromium (with Opera and Electron), Firefox,
/// GTK, SDL, GLFW, and Qt (whose classes read `Qt…QWindowIcon`).
pub open spec fn self_drawn_class(c: Seq<char>) -> bool {
    ||| c == "Chrome_WidgetWin_0"@
    ||| c == "Chrome_WidgetWin_1"@
    ||| c == "MozillaWindowClass"@
    ||| c == "gdkWindowToplevel"@
    ||| c == "gdkSurfaceToplevel"@
    ||| c == "SDL_app"@
    ||| c == "GLFW30"@
    ||| (c.len() >= 2 && c[0] == 'Q' && c[1] == 't' && has_suffix(c, "QWindowIcon"@))
}

/// Whether a window class belongs to a toolkit with its own title bar.
pub fn is_self_drawn_class(class_name: &str) -> (r: bool)
    ensures
        r == self_drawn_class(class_name@),
{
    let c = chars_of(class_name);
    if is_str(c.as_slice(), "Chrome_WidgetWin_0") || is_str(c.as_slice(), "Chrome_WidgetWin_1")
        || is_str(c.as_slice(), "MozillaWindowClass") || is_str(c.as_slice(), "gdkWindowToplevel")
        || is_str(c.as_slice(), "gdkSurfaceToplevel") || is_str(c.as_slice(), "SDL_app")
        || is_str(c.as_slice(), "GLFW30") {
        return true;
    }
    if c.len() < 2 || c[0] != 'Q' || c[1] != 't' {
        return false;
    }
    let suffix = chars_of("QWindowIcon");
    ends_with_chars(c.as_slice(), suffix.as_slice())
}

/// What Windows says of a top-level window that decides whether its frame
/// may be styled.
#[derive(Clone, Debug)]
pub struct FrameWindowFacts {
    pub hwnd: isize,
    pub visible: bool,
    pub iconic: bool,
    pub owner: isize,
    pub ex_style: isize,
    pub style: isize,
    pub pid: u32,
    pub own_pid: u32,
    pub cloaked: Option<i32>,
    pub class_name: String,
    pub corner: Option<i32>,
}

/// A visible, unowned, non-minimized top-level window with a native
/// caption, of another process, not cloaked, not a tool, layered or
/// no-redirection window, not of a toolkit that draws its own title bar, and
/// not asking to stay square.
pub open spec fn frame_eligible(f: FrameWindowFacts) -> bool {
    &&& f.hwnd != 0
    &&& f.visible
    &&& !f.iconic
    &&& f.owner == 0
    &&& f.ex_style & (WS_EX_TOOLWINDOW | WS_EX_NOACTIVATE | WS_EX_LAYERED | WS_EX_NOREDIRECTIONBITMAP) == 0
    &&& f.style & WS_CAPTION == WS_CAPTION
    &&& f.pid != 0
    &&& f.pid != f.own_pid
    &&& !(f.cloaked matches Some(c) && c != 0)
    &&& !self_drawn_class(f.class_name@)
    &&& f.corner != Some(DWMWCP_DONOTROUND)
}

pub fn eligible(f: &FrameWindowFacts) -> (r: bool)
    ensures
        r == frame_eligible(*f),
{
    if f.hwnd == 0 || !f.visible || f.iconic || f.owner != 0 {
        return false;
    }
    if f.ex_style & (WS_EX_TOOLWINDOW | WS_EX_NOACTIVATE | WS_EX_LAYERED | WS_EX_NOREDIRECTIONBITMAP) != 0 {
        return false;
    }
    if f.style & WS_CAPTION != WS_CAPTION {
        return false;
    }
    if f.pid == 0 || f.pid == f.own_pid {
        return false;
    }
    match f.cloaked {
        Some(c) => {
            if c != 0 {
                return false;
            }
        },
        None => {},
    }
    if is_self_drawn_class(f.class_name.as_str()) {
        return false;
    }
    match f.corner {
        Some(c) => c != DWMWCP_DONOTROUND,
        None => true,
    }
}

pub fn apply_result(enabled: bool, enumerated: bool, count: usize) -> (r: Result<usize, String>)
    ensures
        !enabled ==> (r matches Err(e) && e@ == "frame styling has been shut down"@),
        enabled && !enumerated ==> (r matches Err(e) && e@ == "EnumWindows failed"@),
        enabled && enumerated ==> r == Ok::<usize, String>(count),
{
    if !enabled {
        Err(String::from_str("frame styling has been shut down"))
    } else if !enumerated {
        Err(String::from_str("EnumWindows failed"))
    } else {
        Ok(count)
    }
}

} // verus!

//! Monitors as Windows enumerates them: their rectangles and DPI, the order
//! the shell lays them out in, and the signature that tells a topology change.
use crate::windows::wifi::{decode_utf16_lossy, first_nul, utf16_lossy};
use crate::text::string_from_chars;
use vstd::prelude::*;

verus! {

pub const MONITORINFOF_PRIMARY: u32 = 1;
pub const MDT_EFFECTIVE_DPI: u32 = 0;
pub const DEFAULT_DPI: u32 = 96;

/// A Win32 `RECT`.
#[derive(Clone, Copy, Debug, Default)]
pub struct Rect {
    pub left: i32,
    pub top: i32,
    pub right: i32,
    pub bottom: i32,
}

/// A rectangle in physical desktop coordinates; they may be negative on
/// monitors left of or above the primary one.
#[derive(Clone, Copy, Debug, PartialEq, Eq, Structural)]
pub struct RectInfo {
    pub left: i32,
    pub top: i32,
    pub right: i32,
    pub bottom: i32,
}

impl RectInfo {
    pub fn from_win32(rect: Rect) -> (r: Self)
        ensures
            r == (RectInfo { left: rect.left, top: rect.top, right: rect.right, bottom: rect.bottom }),
    {
        RectInfo { left: rect.left, top: rect.top, right: rect.right, bottom: rect.bottom }
    }

    pub fn width(&self) -> (r: i32)
        requires
            i32::MIN <= self.right - self.left <= i32::MAX,
        ensures
            r == self.right - self.left,
    {
        self.right - self.left
    }

    pub fn height(&self) -> (r: i32)
        requires
            i32::MIN <= self.bottom - self.top <= i32::MAX,
        ensures
            r == self.bottom - self.top,
    {
        self.bottom - self.top
    }
}

/// What the shell knows of one monitor, its scale aside (the scale is
/// `dpi_x / 96`).
#[derive(Clone, Debug)]
pub struct MonitorRecord {
    pub id: String,
    pub bounds: RectInfo,
    pub work_area: RectInfo,
    pub dpi_x: u32,
    pub dpi_y: u32,
    pub primary: bool,
}

/// The DPI to use: `GetDpiForMonitor`'s answer, or 96 when the call failed
/// or gave zero.
pub open spec fn dpi_used(dpi_result: i32, dpi_x: u32, dpi_y: u32) -> (u32, u32) {
    if dpi_result != 0 || dpi_x == 0 || dpi_y == 0 { (DEFAULT_DPI, DEFAULT_DPI) } else { (dpi_x, dpi_y) }
}

pub fn effective_dpi(dpi_result: i32, dpi_x: u32, dpi_y: u32) -> (r: (u32, u32))
    ensures
        r == dpi_used(dpi_result, dpi_x, dpi_y),
{
    if dpi_result != 0 || dpi_x == 0 || dpi_y == 0 {
        (DEFAULT_DPI, DEFAULT_DPI)
    } else {
        (dpi_x, dpi_y)
    }
}

/// The record of a monitor from `GetMonitorInfoW`'s answer (device name,
/// monitor and work rectangles, flags) and `GetDpiForMonitor`'s.
pub fn monitor_record(
    device: &[u16],
    monitor: Rect,
    work: Rect,
    flags: u32,
    dpi_result: i32,
    dpi_x: u32,
    dpi_y: u32,
) -> (r: MonitorRecord)
    ensures
        r.id@ == utf16_lossy(device@.take(first_nul(device@))),
        r.bounds == RectInfo::from_win32_spec(monitor),
        r.work_area == RectInfo::from_win32_spec(work),
        (r.dpi_x, r.dpi_y) == dpi_used(dpi_result, dpi_x, dpi_y),
        r.primary == (flags & MONITORINFOF_PRIMARY != 0),
{
    let n = device.len();
    let mut i: usize = 0;
    proof {
        assert(device@.skip(0) =~= device@);
    }
    while i < n && device[i] != 0
        invariant
            n == device@.len(),
            i <= n,
            first_nul(device@) == i + first_nul(device@.skip(i as int)),
        decreases n - i,
    {
        proof {
            assert(device@.skip(i as int).drop_first() =~= device@.skip(i + 1));
        }
        i = i + 1;
    }
    let mut units: Vec<u16> = Vec::new();
    let mut k: usize = 0;
    while k < i
        invariant
            k <= i <= n,
            n == device@.len(),
            units@ == device@.take(k as int),
        decreases i - k,
    {
        units.push(device[k]);
        k = k + 1;
        proof {
            assert(units@ =~= device@.take(k as int));
        }
    }
    let decoded = decode_utf16_lossy(units.as_slice());
    let (x, y) = effective_dpi(dpi_result, dpi_x, dpi_y);
    MonitorRecord {
        id: string_from_chars(decoded.as_slice()),
        bounds: RectInfo::from_win32(monitor),
        work_area: RectInfo::from_win32(work),
        dpi_x: x,
        dpi_y: y,
        primary: flags & MONITORINFOF_PRIMARY != 0,
    }
}

impl RectInfo {
    pub open spec fn from_win32_spec(rect: Rect) -> RectInfo {
        RectInfo { left: rect.left, top: rect.top, right: rect.right, bottom: rect.bottom }
    }
}

/// The layout order of monitors: the primary one first, then by top edge,
/// then by left edge.
pub open spec fn before(a: MonitorRecord, b: MonitorRecord) -> bool {
    (a.primary && !b.primary) || (a.primary == b.primary && (a.bounds.top < b.bounds.top
        || (a.bounds.top == b.bounds.top && a.bounds.left < b.bounds.left)))
}

fn before_exec(a: &MonitorRecord, b: &MonitorRecord) -> (r: bool)
    ensures
        r == before(*a, *b),
{
    (a.primary && !b.primary) || (a.primary == b.primary && (a.bounds.top < b.bounds.top
        || (a.bounds.top == b.bounds.top && a.bounds.left < b.bounds.left)))
}

/// `x` placed before the first element of the sorted `s` that does not come
/// before it.
pub open spec fn insert_front(s: Seq<MonitorRecord>, x: MonitorRecord) -> Seq<MonitorRecord>
    decreases s.len(),
{
    if s.len() == 0 {
        seq![x]
    } else if !before(s[0], x) {
        seq![x] + s
    } else {
        seq![s[0]] + insert_front(s.drop_first(), x)
    }
}

/// The monitors in layout order; monitors that tie keep the order Windows
/// enumerated them in (a stable sort).
pub open spec fn layout_order(s: Seq<MonitorRecord>) -> Seq<MonitorRecord>
    decreases s.len(),
{
    if s.len() == 0 {
        s
    } else {
        insert_front(layout_order(s.drop_first()), s[0])
    }
}

proof fn lemma_insert_front_at(s: Seq<MonitorRecord>, x: MonitorRecord, p: int)
    requires
        0 <= p <= s.len(),
        forall|j: int| 0 <= j < p ==> before(#[trigger] s[j], x),
        p < s.len() ==> !before(s[p], x),
    ensures
        insert_front(s, x) == s.insert(p, x),
    decreases s.len(),
{
    if s.len() == 0 {
        assert(s.insert(p, x) =~= seq![x]);
    } else if p == 0 {
        assert(s.insert(0, x) =~= seq![x] + s);
    } else {
        let t = s.drop_first();
        assert forall|j: int| 0 <= j < p - 1 implies before(#[trigger] t[j], x) by {
            assert(t[j] == s[j + 1]);
        }
        assert(before(s[0], x));
        lemma_insert_front_at(t, x, p - 1);
        assert(seq![s[0]] + t.insert(p - 1, x) =~= s.insert(p, x));
    }
}

/// Puts the monitors in layout order.
pub fn sort_for_layout(displays: Vec<MonitorRecord>) -> (r: Vec<MonitorRecord>)
    ensures
        r@ == layout_order(displays@),
{
    let ghost orig = displays@;
    let n = displays.len();
    let mut rest = displays;
    let mut r: Vec<MonitorRecord> = Vec::new();
    proof {
        assert(orig.subrange(n as int, n as int) =~= Seq::<MonitorRecord>::empty());
    }
    while rest.len() > 0
        invariant
            rest@ == orig.subrange(0, rest@.len() as int),
            rest@.len() <= n,
            n == orig.len(),
            r@ == layout_order(orig.subrange(rest@.len() as int, n as int)),
        decreases rest@.len(),
    {
        let k = rest.len();
        let x = rest.pop().unwrap();
        let ghost suffix = orig.subrange(k - 1, n as int);
        proof {
            assert(x == orig[k - 1]);
            assert(suffix.drop_first() =~= orig.subrange(k as int, n as int));
            assert(suffix[0] == x);
            assert(rest@ =~= orig.subrange(0, k - 1));
        }
        let mut p: usize = 0;
        while p < r.len() && before_exec(&r[p], &x)
            invariant
                p <= r@.len(),
                forall|j: int| 0 <= j < p ==> before(#[trigger] r@[j], x),
            decreases r@.len() - p,
        {
            p = p + 1;
        }
        proof {
            lemma_insert_front_at(r@, x, p as int);
        }
        r.insert(p, x);
    }
    proof {
        assert(orig.subrange(0, n as int) =~= orig);
    }
    r
}

/// Windows' monitor list as the shell uses it: an error when enumeration
/// failed or found nothing, else the monitors in layout order.
pub fn enumerate_result(ok: bool, displays: Vec<MonitorRecord>) -> (r: Result<Vec<MonitorRecord>, String>)
    ensures
        !ok ==> (r matches Err(e) && e@ == "EnumDisplayMonitors failed"@),
        ok && displays@.len() == 0 ==> (r matches Err(e) && e@ == "Windows reported no active displays"@),
        ok && displays@.len() > 0 ==> (r matches Ok(v) && v@ == layout_order(displays@)),
{
    if !ok {
        return Err(String::from_str("EnumDisplayMonitors failed"));
    }
    if displays.len() == 0 {
        return Err(String::from_str("Windows reported no active displays"));
    }
    Ok(sort_for_layout(displays))
}

/// The primary monitor: the first one flagged primary, else the first.
pub open spec fn primary_index(displays: Seq<MonitorRecord>) -> Option<int> {
    if exists|i: int| 0 <= i < displays.len() && #[trigger] displays[i].primary {
        Some(choose|i: int| 0 <= i < displays.len() && displays[i].primary
            && forall|j: int| 0 <= j < i ==> !#[trigger] displays[j].primary)
    } else if displays.len() > 0 {
        Some(0)
    } else {
        None
    }
}

/// Picks the primary monitor out of the enumerated ones.
pub fn primary(displays: &Vec<MonitorRecord>) -> (r: Result<usize, String>)
    ensures
        primary_index(displays@) matches Some(i) ==> r == Ok::<usize, String>(i as usize),
        primary_index(displays@) is None ==> (r matches Err(e) && e@ == "primary display is unavailable"@),
{
    let mut i: usize = 0;
    while i < displays.len()
        invariant
            i <= displays@.len(),
            forall|j: int| 0 <= j < i ==> !#[trigger] displays@[j].primary,
        decreases displays@.len() - i,
    {
        if displays[i].primary {
            proof {
                let w = choose|k: int| 0 <= k < displays@.len() && displays@[k].primary
                    && forall|j: int| 0 <= j < k ==> !#[trigger] displays@[j].primary;
                assert(displays@[i as int].primary);
                if w < i {
                    assert(!displays@[w].primary);
                } else if w > i {
                    assert(!displays@[i as int].primary);
                }
            }
            return Ok(i);
        }
        i = i + 1;
    }
    if displays.len() > 0 {
        Ok(0)
    } else {
        Err(String::from_str("primary display is unavailable"))
    }
}

/// What identifies a monitor for layout purposes; the work area is left out
/// because the shell's own panel changes it.
#[derive(Clone, Debug)]
pub struct DisplaySignature {
    pub id: String,
    pub bounds: RectInfo,
    pub dpi_x: u32,
    pub dpi_y: u32,
    pub primary: bool,
}

/// The view of a signature.
pub open spec fn signature_view(s: DisplaySignature) -> (Seq<char>, RectInfo, u32, u32, bool) {
    (s.id@, s.bounds, s.dpi_x, s.dpi_y, s.primary)
}

/// The signature of a monitor.
pub open spec fn record_signature(d: MonitorRecord) -> (Seq<char>, RectInfo, u32, u32, bool) {
    (d.id@, d.bounds, d.dpi_x, d.dpi_y, d.primary)
}

impl DisplaySignature {
    pub fn from_record(display: &MonitorRecord) -> (r: Self)
        ensures
            signature_view(r) == record_signature(*display),
    {
        DisplaySignature {
            id: String::from_str(display.id.as_str()),
            bounds: display.bounds,
            dpi_x: display.dpi_x,
            dpi_y: display.dpi_y,
            primary: display.primary,
        }
    }
}

/// The signatures of the monitors, in order.
pub fn topology_signature(displays: &Vec<MonitorRecord>) -> (r: Vec<DisplaySignature>)
    ensures
        r@.len() == displays@.len(),
        forall|i: int| 0 <= i < r@.len() ==> signature_view(#[trigger] r@[i]) == record_signature(displays@[i]),
{
    let mut r: Vec<DisplaySignature> = Vec::new();
    let mut i: usize = 0;
    while i < displays.len()
        invariant
            i <= displays@.len(),
            r@.len() == i,
            forall|k: int| 0 <= k < i ==> signature_view(#[trigger] r@[k]) == record_signature(displays@[k]),
        decreases displays@.len() - i,
    {
        r.push(DisplaySignature::from_record(&displays[i]));
        i = i + 1;
    }
    r
}

/// Whether two topologies are the same, monitor by monitor.
pub fn same_topology(a: &Vec<DisplaySignature>, b: &Vec<DisplaySignature>) -> (r: bool)
    ensures
        r == (a@.len() == b@.len() && forall|i: int| 0 <= i < a@.len() ==> signature_view(#[trigger] a@[i])
            == signature_view(b@[i])),
{
    if a.len() != b.len() {
        return false;
    }
    let mut i: usize = 0;
    while i < a.len()
        invariant
            i <= a@.len(),
            a@.len() == b@.len(),
            forall|k: int| 0 <= k < i ==> signature_view(#[trigger] a@[k]) == signature_view(b@[k]),
        decreases a@.len() - i,
    {
        let x = &a[i];
        let y = &b[i];
        if !(x.id == y.id && x.bounds == y.bounds && x.dpi_x == y.dpi_x && x.dpi_y == y.dpi_y
            && x.primary == y.primary) {
            return false;
        }
        i = i + 1;
    }
    true
}

/// Monitors that differ only in their work area have the same signature, so
/// the shell's own panel reserving space is no topology change.
pub proof fn lemma_signature_ignores_work_area(a: MonitorRecord, b: MonitorRecord)
    requires
        a.id@ == b.id@,
        a.bounds == b.bounds,
        a.dpi_x == b.dpi_x,
        a.dpi_y == b.dpi_y,
        a.primary == b.primary,
    ensures
        record_signature(a) == record_signature(b),
{
}

/// The position of a monitor in layout order, as one number.
pub open spec fn layout_key(d: MonitorRecord) -> int {
    (if d.primary { 0int } else { 1int }) * 0x1_0000_0000_0000_0000
        + (d.bounds.top + 0x8000_0000) * 0x1_0000_0000 + (d.bounds.left + 0x8000_0000)
}

proof fn lemma_before_is_key_order(a: MonitorRecord, b: MonitorRecord)
    ensures
        before(a, b) <==> layout_key(a) < layout_key(b),
{
}

/// Every monitor in `s` comes no earlier than `k`.
pub open spec fn keys_at_least(s: Seq<MonitorRecord>, k: int) -> bool {
    forall|i: int| 0 <= i < s.len() ==> k <= layout_key(#[trigger] s[i])
}

/// No monitor comes before one listed ahead of it.
pub open spec fn in_layout_order(s: Seq<MonitorRecord>) -> bool {
    forall|i: int, j: int| 0 <= i < j < s.len() ==> layout_key(#[trigger] s[i]) <= layout_key(#[trigger] s[j])
}

proof fn lemma_insert_front_bound(s: Seq<MonitorRecord>, x: MonitorRecord, k: int)
    requires
        keys_at_least(s, k),
        k <= layout_key(x),
    ensures
        keys_at_least(insert_front(s, x), k),
    decreases s.len(),
{
    lemma_before_is_key_order(s[0], x);
    if s.len() > 0 && before(s[0], x) {
        let t = s.drop_first();
        assert(keys_at_least(t, k)) by {
            assert forall|i: int| 0 <= i < t.len() implies k <= layout_key(#[trigger] t[i]) by {
                assert(t[i] == s[i + 1]);
            }
        }
        lemma_insert_front_bound(t, x, k);
        let r = seq![s[0]] + insert_front(t, x);
        assert forall|i: int| 0 <= i < r.len() implies k <= layout_key(#[trigger] r[i]) by {
            if i > 0 {
                assert(r[i] == insert_front(t, x)[i - 1]);
            }
        }
    } else if s.len() > 0 {
        let r = seq![x] + s;
        assert forall|i: int| 0 <= i < r.len() implies k <= layout_key(#[trigger] r[i]) by {
            if i > 0 {
                assert(r[i] == s[i - 1]);
            }
        }
    }
}

proof fn lemma_insert_front_sorted(s: Seq<MonitorRecord>, x: MonitorRecord)
    requires
        in_layout_order(s),
    ensures
        in_layout_order(insert_front(s, x)),
    decreases s.len(),
{
    if s.len() > 0 {
        lemma_before_is_key_order(s[0], x);
        if before(s[0], x) {
            let t = s.drop_first();
            assert(in_layout_order(t)) by {
                assert forall|i: int, j: int| 0 <= i < j < t.len() implies layout_key(#[trigger] t[i])
                    <= layout_key(#[trigger] t[j]) by {
                    assert(t[i] == s[i + 1] && t[j] == s[j + 1]);
                }
            }
            assert(keys_at_least(t, layout_key(s[0]))) by {
                assert forall|i: int| 0 <= i < t.len() implies layout_key(s[0]) <= layout_key(#[trigger] t[i]) by {
                    assert(t[i] == s[i + 1]);
                }
            }
            lemma_insert_front_sorted(t, x);
            lemma_insert_front_bound(t, x, layout_key(s[0]));
            let u = insert_front(t, x);
            let r = seq![s[0]] + u;
            assert forall|i: int, j: int| 0 <= i < j < r.len() implies layout_key(#[trigger] r[i])
                <= layout_key(#[trigger] r[j]) by {
                assert(r[j] == u[j - 1]);
                if i > 0 {
                    assert(r[i] == u[i - 1]);
                }
            }
        } else {
            let r = seq![x] + s;
            assert forall|i: int, j: int| 0 <= i < j < r.len() implies layout_key(#[trigger] r[i])
                <= layout_key(#[trigger] r[j]) by {
                assert(r[j] == s[j - 1]);
                if i > 0 {
                    assert(r[i] == s[i - 1]);
                } else {
                    assert(layout_key(s[0]) <= layout_key(s[j - 1]) || j - 1 == 0);
                }
            }
        }
    }
}

proof fn lemma_insert_front_multiset(s: Seq<MonitorRecord>, x: MonitorRecord)
    ensures
        insert_front(s, x).to_multiset() == s.to_multiset().insert(x),
    decreases s.len(),
{
    broadcast use vstd::multiset::group_multiset_axioms;
    let r = insert_front(s, x);
    if s.len() == 0 || !before(s[0], x) {
        assert(r =~= s.insert(0, x));
        vstd::seq_lib::to_multiset_insert(s, 0, x);
    } else {
        let t = s.drop_first();
        let u = insert_front(t, x);
        lemma_insert_front_multiset(t, x);
        assert(r =~= u.insert(0, s[0]));
        vstd::seq_lib::to_multiset_insert(u, 0, s[0]);
        assert(s =~= t.insert(0, s[0]));
        vstd::seq_lib::to_multiset_insert(t, 0, s[0]);
        assert(r.to_multiset() =~= s.to_multiset().insert(x));
    }
}

/// Layout order puts every monitor after the ones it does not come before,
/// and it neither drops nor adds a monitor.
pub proof fn lemma_layout_order_sorts(s: Seq<MonitorRecord>)
    ensures
        in_layout_order(layout_order(s)),
        layout_order(s).to_multiset() == s.to_multiset(),
        forall|i: int, j: int| 0 <= i < j < layout_order(s).len() ==> !before(
            #[trigger] layout_order(s)[j],
            #[trigger] layout_order(s)[i],
        ),
    decreases s.len(),
{
    if s.len() > 0 {
        let t = s.drop_first();
        lemma_layout_order_sorts(t);
        lemma_insert_front_sorted(layout_order(t), s[0]);
        lemma_insert_front_multiset(layout_order(t), s[0]);
        assert(s =~= t.insert(0, s[0]));
        vstd::seq_lib::to_multiset_insert(t, 0, s[0]);
    }
    let r = layout_order(s);
    assert forall|i: int, j: int| 0 <= i < j < r.len() implies !before(#[trigger] r[j], #[trigger] r[i]) by {
        lemma_before_is_key_order(r[j], r[i]);
    }
}

} // verus!

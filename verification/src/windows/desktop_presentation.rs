//! Hiding Explorer's taskbars while the shell runs, and the watchdog's
//! argument that tells it which taskbars to show again.
use crate::text::{
    chars_of, free_of, handle_text, lemma_decimal_digits, lemma_split_free, lemma_split_sep,
    parse_isize, part_views, signed_decimal, signed_decimal_of, signed_text, split_chars,
    split_on, string_from_chars, unsigned_text, decimal_digits, parse_unsigned, unsigned_in, is_str,
};
use vstd::prelude::*;

verus! {

pub const SW_HIDE: i32 = 0;
pub const SW_SHOW: i32 = 5;
pub const WAIT_OBJECT_0: u32 = 0;

/// Whether a window class is one of Explorer's taskbars.
pub fn is_taskbar_class(class: &str) -> (r: bool)
    ensures
        r == (class@ == "Shell_TrayWnd"@ || class@ == "Shell_SecondaryTrayWnd"@),
{
    let c = String::from_str(class);
    c == String::from_str("Shell_TrayWnd") || c == String::from_str("Shell_SecondaryTrayWnd")
}

/// The positive window handles among comma-separated parts; anything else
/// is dropped.
pub open spec fn positive_handles(parts: Seq<Seq<char>>) -> Seq<isize>
    decreases parts.len(),
{
    if parts.len() == 0 {
        Seq::empty()
    } else {
        let rest = positive_handles(parts.drop_last());
        match handle_text(parts.last()) {
            Some(v) => if v > 0 { rest.push(v as isize) } else { rest },
            None => rest,
        }
    }
}

/// Reads the watchdog's handle list: the positive handles among its
/// comma-separated parts, in order.
pub fn parse_handles(arg: &str) -> (r: Vec<isize>)
    ensures
        r@ == positive_handles(split_on(arg@, ',')),
{
    let c = chars_of(arg);
    let parts = split_chars(c.as_slice(), ',');
    let mut r: Vec<isize> = Vec::new();
    let mut i: usize = 0;
    while i < parts.len()
        invariant
            i <= parts@.len(),
            part_views(parts@) == split_on(arg@, ','),
            r@ == positive_handles(part_views(parts@).take(i as int)),
        decreases parts@.len() - i,
    {
        let ghost taken = part_views(parts@).take(i + 1);
        proof {
            assert(taken.drop_last() =~= part_views(parts@).take(i as int));
            assert(taken.last() == parts@[i as int]@);
        }
        let text = string_from_chars(parts[i].as_slice());
        match parse_isize(text.as_str()) {
            Some(v) => {
                if v > 0 {
                    r.push(v);
                }
            },
            None => {},
        }
        i = i + 1;
    }
    proof {
        assert(part_views(parts@).take(parts@.len() as int) =~= part_views(parts@));
    }
    r
}

/// The handles joined by commas, as the watchdog receives them.
pub open spec fn join_handles(windows: Seq<isize>) -> Seq<char>
    decreases windows.len(),
{
    if windows.len() == 0 {
        Seq::empty()
    } else if windows.len() == 1 {
        signed_decimal(windows[0] as int)
    } else {
        join_handles(windows.drop_last()) + seq![','] + signed_decimal(windows.last() as int)
    }
}

/// The watchdog's argument for the hidden taskbars.
pub fn handles_argument(windows: &Vec<isize>) -> (r: String)
    ensures
        r@ == join_handles(windows@),
{
    let mut out: Vec<char> = Vec::new();
    let mut i: usize = 0;
    while i < windows.len()
        invariant
            i <= windows@.len(),
            out@ == join_handles(windows@.take(i as int)),
        decreases windows@.len() - i,
    {
        let ghost taken = windows@.take(i + 1);
        proof {
            assert(taken.drop_last() =~= windows@.take(i as int));
        }
        if i > 0 {
            out.push(',');
        }
        let mut digits = signed_decimal_of(windows[i]);
        out.append(&mut digits);
        i = i + 1;
        proof {
            if i == 1 {
                assert(out@ =~= join_handles(taken));
            } else {
                assert(out@ =~= join_handles(taken));
            }
        }
    }
    proof {
        assert(windows@.take(windows@.len() as int) =~= windows@);
    }
    string_from_chars(out.as_slice())
}

/// The decimal text of a positive handle reads back as that handle.
proof fn lemma_positive_handle_text(w: isize)
    requires
        w > 0,
    ensures
        handle_text(signed_decimal(w as int)) == Some(w as int),
        free_of(signed_decimal(w as int), ','),
{
    let d = decimal_digits(w as nat);
    lemma_decimal_digits(w as nat);
    assert(d[0] != '-' && d[0] != '+');
    assert(unsigned_text(d, 10) == Some(w as nat));
    assert(signed_text(d, 10) == Some(w as int));
    assert forall|i: int| 0 <= i < d.len() implies d[i] != ',' by {
        assert('0' <= d[i] <= '9');
    }
}

proof fn lemma_split_join(windows: Seq<isize>)
    requires
        windows.len() > 0,
        forall|i: int| 0 <= i < windows.len() ==> #[trigger] windows[i] > 0,
    ensures
        split_on(join_handles(windows), ',') == windows.map_values(|w: isize| signed_decimal(w as int)),
    decreases windows.len(),
{
    let last = windows.last();
    lemma_positive_handle_text(last);
    let d = signed_decimal(last as int);
    if windows.len() == 1 {
        let empty = Seq::<char>::empty();
        lemma_split_free(empty, d, ',');
        assert(empty + d =~= d);
        assert(split_on(empty, ',') == seq![empty]);
        assert(split_on(join_handles(windows), ',') =~= windows.map_values(|w: isize| signed_decimal(w as int)));
    } else {
        let init = windows.drop_last();
        assert forall|i: int| 0 <= i < init.len() implies #[trigger] init[i] > 0 by {
            assert(init[i] == windows[i]);
        }
        lemma_split_join(init);
        let a = join_handles(init);
        lemma_split_sep(a, ',');
        lemma_split_free(a + seq![','], d, ',');
        assert(split_on(a + seq![','] + d, ',') =~= split_on(a, ',').push(d));
        assert(split_on(join_handles(windows), ',') =~= windows.map_values(|w: isize| signed_decimal(w as int)));
    }
}

proof fn lemma_parse_decimals(windows: Seq<isize>)
    requires
        forall|i: int| 0 <= i < windows.len() ==> #[trigger] windows[i] > 0,
    ensures
        positive_handles(windows.map_values(|w: isize| signed_decimal(w as int))) == windows,
    decreases windows.len(),
{
    if windows.len() > 0 {
        let init = windows.drop_last();
        assert forall|i: int| 0 <= i < init.len() implies #[trigger] init[i] > 0 by {
            assert(init[i] == windows[i]);
        }
        lemma_parse_decimals(init);
        lemma_positive_handle_text(windows.last());
        let m = windows.map_values(|w: isize| signed_decimal(w as int));
        assert(m.drop_last() =~= init.map_values(|w: isize| signed_decimal(w as int)));
        assert(positive_handles(m) =~= windows);
    }
}

/// The watchdog reads back exactly the taskbars that were hidden: joining
/// positive handles and parsing the result gives the same handles.
pub proof fn lemma_handles_round_trip(windows: Seq<isize>)
    requires
        forall|i: int| 0 <= i < windows.len() ==> #[trigger] windows[i] > 0,
    ensures
        positive_handles(split_on(join_handles(windows), ',')) == windows,
{
    if windows.len() == 0 {
        assert(split_on(Seq::<char>::empty(), ',') == seq![Seq::<char>::empty()]);
        assert(handle_text(Seq::<char>::empty()) is None);
        let parts = seq![Seq::<char>::empty()];
        assert(parts.drop_last() =~= Seq::<Seq<char>>::empty());
        assert(positive_handles(parts.drop_last()) =~= Seq::<isize>::empty());
        assert(join_handles(windows) =~= Seq::<char>::empty());
        assert(positive_handles(parts) =~= windows);
    } else {
        lemma_split_join(windows);
        lemma_parse_decimals(windows);
    }
}

/// The taskbars to hide, in the order found, each once.
pub open spec fn first_occurrences(found: Seq<isize>) -> Seq<isize>
    decreases found.len(),
{
    if found.len() == 0 {
        Seq::empty()
    } else {
        let rest = first_occurrences(found.drop_last());
        if rest.contains(found.last()) { rest } else { rest.push(found.last()) }
    }
}

/// Collects the visible taskbars found (the primary one first), each once.
pub fn taskbar_list(found: &Vec<isize>) -> (r: Vec<isize>)
    ensures
        r@ == first_occurrences(found@),
{
    let mut r: Vec<isize> = Vec::new();
    let mut i: usize = 0;
    while i < found.len()
        invariant
            i <= found@.len(),
            r@ == first_occurrences(found@.take(i as int)),
        decreases found@.len() - i,
    {
        let ghost taken = found@.take(i + 1);
        proof {
            assert(taken.drop_last() =~= found@.take(i as int));
        }
        let h = found[i];
        let mut present = false;
        let mut k: usize = 0;
        while k < r.len()
            invariant
                k <= r@.len(),
                present == (exists|j: int| 0 <= j < k && r@[j] == h),
            decreases r@.len() - k,
        {
            if r[k] == h {
                present = true;
            }
            k = k + 1;
        }
        if !present {
            r.push(h);
        }
        i = i + 1;
    }
    proof {
        assert(found@.take(found@.len() as int) =~= found@);
    }
    r
}

/// Whether the watchdog may show the taskbars again: the shell's process
/// has ended (or was already gone when the watchdog looked for it).
pub fn should_restore(opened: bool, wait_result: u32) -> (r: bool)
    ensures
        r == (!opened || wait_result == WAIT_OBJECT_0),
{
    !opened || wait_result == WAIT_OBJECT_0
}

/// Whether the user asked to keep the Windows taskbar
/// (`FEDORAWIN_KEEP_WINDOWS_TASKBAR=1`).
pub fn keeps_windows_taskbar(value: Option<&str>) -> (r: bool)
    ensures
        r == (value matches Some(v) && v@ == "1"@),
{
    match value {
        Some(v) => String::from_str(v) == String::from_str("1"),
        None => false,
    }
}

/// What the taskbar watchdog is asked to do, from its command-line
/// arguments after the program name: nothing unless the first is
/// `--restore-taskbar-after`; then the shell's process id (when it reads as
/// a `u32`) and the taskbars to show again (none when the list is missing).
pub fn guardian_request(flag: Option<&str>, pid: Option<&str>, handles: Option<&str>) -> (r: Option<(Option<u32>, Vec<isize>)>)
    ensures
        !(flag matches Some(f) && f@ == "--restore-taskbar-after"@) ==> r is None,
        (flag matches Some(f) && f@ == "--restore-taskbar-after"@) ==> (r matches Some(req)
            && req.0 == (match pid {
                Some(p) => match unsigned_in(p@, 10, u32::MAX as nat) {
                    Some(v) => Some(v as u32),
                    None => None,
                },
                None => None,
            })
            && req.1@ == (match handles {
                Some(h) => positive_handles(split_on(h@, ',')),
                None => Seq::empty(),
            })),
{
    let is_guardian = match flag {
        Some(f) => {
            let c = chars_of(f);
            is_str(c.as_slice(), "--restore-taskbar-after")
        },
        None => false,
    };
    if !is_guardian {
        return None;
    }
    let parsed = match pid {
        Some(p) => {
            let c = chars_of(p);
            match parse_unsigned(c.as_slice(), 10, 0xffff_ffff) {
                Some(v) => Some(v as u32),
                None => None,
            }
        },
        None => None,
    };
    let windows = match handles {
        Some(h) => parse_handles(h),
        None => Vec::new(),
    };
    Some((parsed, windows))
}

} // verus!


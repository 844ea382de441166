//! Display brightness through the WMI monitor provider: which monitor row
//! counts, which supported level a request lands on, and which provider
//! method applies it.
use crate::text::{decimal_digits, decimal_of, string_from_chars, concat_str};
use vstd::prelude::*;

verus! {

/// Whether brightness can be controlled, and its level.
#[derive(Clone, Copy, Debug, PartialEq, Eq)]
pub struct BrightnessStatus {
    pub supported: bool,
    pub value: Option<u8>,
}

/// One `WmiMonitorBrightness` row.
#[derive(Clone, Debug)]
pub struct BrightnessRow {
    pub instance_name: String,
    pub active: bool,
    pub current_brightness: u8,
    pub level: Vec<u8>,
}

/// One `WmiMonitorBrightnessMethods` row.
#[derive(Clone, Debug)]
pub struct BrightnessMethodRow {
    pub object_path: String,
    pub instance_name: String,
    pub active: bool,
}

/// The row that controls brightness: the first active one, else the first.
pub open spec fn active_row(rows: Seq<BrightnessRow>) -> Option<int> {
    if exists|i: int| 0 <= i < rows.len() && #[trigger] rows[i].active {
        Some(choose|i: int| 0 <= i < rows.len() && rows[i].active
            && forall|j: int| 0 <= j < i ==> !#[trigger] rows[j].active)
    } else if rows.len() > 0 {
        Some(0)
    } else {
        None
    }
}

proof fn lemma_active_row(rows: Seq<BrightnessRow>)
    ensures
        active_row(rows) matches Some(i) ==> 0 <= i < rows.len(),
        active_row(rows) is None ==> rows.len() == 0,
{
    if exists|i: int| 0 <= i < rows.len() && #[trigger] rows[i].active {
        let w = choose|i: int| 0 <= i < rows.len() && #[trigger] rows[i].active;
        lemma_first_active_exists(rows, w);
    }
}

proof fn lemma_first_active_exists(rows: Seq<BrightnessRow>, w: int)
    requires
        0 <= w < rows.len(),
        rows[w].active,
    ensures
        exists|i: int| 0 <= i < rows.len() && rows[i].active
            && forall|j: int| 0 <= j < i ==> !#[trigger] rows[j].active,
    decreases w,
{
    if exists|j: int| 0 <= j < w && #[trigger] rows[j].active {
        let v = choose|j: int| 0 <= j < w && #[trigger] rows[j].active;
        lemma_first_active_exists(rows, v);
    }
}

/// The first active row, if any.
fn first_active_row(rows: &Vec<BrightnessRow>) -> (r: Option<usize>)
    ensures
        match r {
            Some(i) => i < rows@.len() && rows@[i as int].active
                && forall|j: int| 0 <= j < i ==> !#[trigger] rows@[j].active,
            None => forall|j: int| 0 <= j < rows@.len() ==> !#[trigger] rows@[j].active,
        },
{
    let mut i: usize = 0;
    while i < rows.len()
        invariant
            i <= rows@.len(),
            forall|j: int| 0 <= j < i ==> !#[trigger] rows@[j].active,
        decreases rows@.len() - i,
    {
        if rows[i].active {
            return Some(i);
        }
        i = i + 1;
    }
    None
}

/// The row that controls brightness (`iter().find(active).or_else(first)`).
pub fn active_brightness(rows: &Vec<BrightnessRow>) -> (r: Option<usize>)
    ensures
        r matches Some(i) ==> i < rows@.len() && active_row(rows@) == Some(i as int),
        r is None ==> active_row(rows@) is None,
{
    proof {
        lemma_active_row(rows@);
    }
    match first_active_row(rows) {
        Some(i) => {
            proof {
                let w = choose|k: int| 0 <= k < rows@.len() && rows@[k].active
                    && forall|j: int| 0 <= j < k ==> !#[trigger] rows@[j].active;
                assert(rows@[i as int].active);
                if w < i {
                    assert(!rows@[w].active);
                } else if w > i {
                    assert(!rows@[i as int].active);
                }
            }
            Some(i)
        },
        None => {
            if rows.len() > 0 {
                Some(0)
            } else {
                None
            }
        },
    }
}

/// How far a level is from the requested one.
pub open spec fn distance(level: u8, requested: u8) -> int {
    if level >= requested { level - requested } else { requested - level }
}

/// The position of the first level nearest to the request.
pub open spec fn nearest_index(levels: Seq<u8>, requested: u8) -> int
    decreases levels.len(),
{
    if levels.len() <= 1 {
        0
    } else {
        let k = nearest_index(levels.drop_last(), requested);
        if distance(levels.last(), requested) < distance(levels[k], requested) {
            levels.len() - 1
        } else {
            k
        }
    }
}

/// The supported level nearest to the request (the first of equally near
/// ones), or the request itself when the provider lists no levels.
pub open spec fn nearest(levels: Seq<u8>, requested: u8) -> u8 {
    if levels.len() == 0 { requested } else { levels[nearest_index(levels, requested)] }
}

proof fn lemma_nearest_index(levels: Seq<u8>, requested: u8)
    requires
        levels.len() > 0,
    ensures
        0 <= nearest_index(levels, requested) < levels.len(),
        forall|j: int| 0 <= j < levels.len() ==> distance(levels[nearest_index(levels, requested)], requested)
            <= distance(#[trigger] levels[j], requested),
        forall|j: int| 0 <= j < nearest_index(levels, requested) ==> distance(
            levels[nearest_index(levels, requested)],
            requested,
        ) < distance(#[trigger] levels[j], requested),
    decreases levels.len(),
{
    if levels.len() > 1 {
        let init = levels.drop_last();
        lemma_nearest_index(init, requested);
        assert forall|j: int| 0 <= j < init.len() implies #[trigger] levels[j] == init[j] by {}
    }
}

/// The supported level that a request lands on.
pub fn nearest_level(levels: &[u8], requested: u8) -> (r: u8)
    ensures
        r == nearest(levels@, requested),
{
    let n = levels.len();
    if n == 0 {
        return requested;
    }
    let mut best: usize = 0;
    let mut i: usize = 1;
    proof {
        assert(levels@.take(1).len() == 1);
    }
    while i < n
        invariant
            n == levels@.len(),
            1 <= i <= n,
            best == nearest_index(levels@.take(i as int), requested),
        decreases n - i,
    {
        let ghost before = levels@.take(i as int);
        let ghost after = levels@.take(i + 1);
        proof {
            assert(after.drop_last() =~= before);
            lemma_nearest_index(before, requested);
            assert(before[best as int] == levels@[best as int]);
        }
        let d_new: u8 = if levels[i] >= requested { levels[i] - requested } else { requested - levels[i] };
        let d_best: u8 = if levels[best] >= requested {
            levels[best] - requested
        } else {
            requested - levels[best]
        };
        proof {
            assert(after.last() == levels@[i as int]);
            assert(after[best as int] == levels@[best as int]);
            assert(d_new as int == distance(after.last(), requested));
            assert(d_best as int == distance(after[best as int], requested));
        }
        if d_new < d_best {
            best = i;
        }
        i = i + 1;
    }
    proof {
        assert(levels@.take(n as int) =~= levels@);
        lemma_nearest_index(levels@, requested);
    }
    levels[best]
}

/// Every supported level is at least as far from the request as the chosen
/// one, and every level listed before it is farther.
pub proof fn lemma_nearest_is_closest(levels: Seq<u8>, requested: u8)
    requires
        levels.len() > 0,
    ensures
        exists|k: int| 0 <= k < levels.len() && levels[k] == nearest(levels, requested),
        forall|j: int| 0 <= j < levels.len() ==> distance(nearest(levels, requested), requested)
            <= distance(#[trigger] levels[j], requested),
{
    lemma_nearest_index(levels, requested);
    let k = nearest_index(levels, requested);
    assert(levels[k] == nearest(levels, requested));
}

/// The request, at most 100.
pub open spec fn clamp_request(requested: u8) -> u8 {
    if requested <= 100 { requested } else { 100u8 }
}

/// The status that readable monitor rows report.
pub open spec fn rows_status(rows: Seq<BrightnessRow>) -> BrightnessStatus {
    match active_row(rows) {
        None => BrightnessStatus { supported: false, value: None },
        Some(i) => BrightnessStatus {
            supported: true,
            value: Some(clamp_request(rows[i].current_brightness)),
        },
    }
}

/// The status that the monitor rows report: unsupported when they could not
/// be read or there are none, else the controlling row's level (at most 100).
pub fn status(rows: &Result<Vec<BrightnessRow>, String>) -> (r: BrightnessStatus)
    ensures
        rows is Err ==> r == (BrightnessStatus { supported: false, value: None }),
        rows matches Ok(v) ==> r == rows_status(v@),
{
    match rows {
        Err(_) => BrightnessStatus { supported: false, value: None },
        Ok(v) => match active_brightness(v) {
            None => BrightnessStatus { supported: false, value: None },
            Some(i) => {
                let b = v[i].current_brightness;
                BrightnessStatus { supported: true, value: Some(if b <= 100 { b } else { 100u8 }) }
            },
        },
    }
}


/// Where a brightness request goes: the controlling row and the supported
/// level nearest to the request (at most 100).
pub fn plan_target(rows: &Vec<BrightnessRow>, requested: u8) -> (r: Result<(usize, u8), String>)
    ensures
        active_row(rows@) is None ==> (r matches Err(e)
            && e@ == "Windows reported no brightness-controllable internal display"@),
        active_row(rows@) is Some ==> (r matches Ok(p) && p.0 == active_row(rows@).unwrap()
            && p.1 == nearest(rows@[p.0 as int].level@, clamp_request(requested))),
{
    match active_brightness(rows) {
        None => Err(String::from_str("Windows reported no brightness-controllable internal display")),
        Some(i) => {
            let req = if requested <= 100 { requested } else { 100u8 };
            let target = nearest_level(rows[i].level.as_slice(), req);
            Ok((i, target))
        },
    }
}

/// The provider method that applies brightness to a monitor: the one of the
/// same instance, else the first active one, else the first.
pub open spec fn method_choice(methods: Seq<BrightnessMethodRow>, instance: Seq<char>) -> Option<int> {
    if exists|i: int| 0 <= i < methods.len() && #[trigger] methods[i].instance_name@ == instance {
        Some(choose|i: int| 0 <= i < methods.len() && methods[i].instance_name@ == instance
            && forall|j: int| 0 <= j < i ==> #[trigger] methods[j].instance_name@ != instance)
    } else if exists|i: int| 0 <= i < methods.len() && #[trigger] methods[i].active {
        Some(choose|i: int| 0 <= i < methods.len() && methods[i].active
            && forall|j: int| 0 <= j < i ==> !#[trigger] methods[j].active)
    } else if methods.len() > 0 {
        Some(0)
    } else {
        None
    }
}

/// Chooses the provider method for the monitor `instance`.
pub fn choose_method(methods: &Vec<BrightnessMethodRow>, instance: &str) -> (r: Result<usize, String>)
    ensures
        method_choice(methods@, instance@) matches Some(i) ==> r == Ok::<usize, String>(i as usize),
        method_choice(methods@, instance@) is None ==> (r matches Err(e)
            && e@ == "Windows brightness control method is unavailable"@),
{
    let wanted = String::from_str(instance);
    let mut i: usize = 0;
    while i < methods.len()
        invariant
            i <= methods@.len(),
            wanted@ == instance@,
            forall|j: int| 0 <= j < i ==> #[trigger] methods@[j].instance_name@ != instance@,
        decreases methods@.len() - i,
    {
        if methods[i].instance_name == wanted {
            proof {
                let w = choose|k: int| 0 <= k < methods@.len() && methods@[k].instance_name@ == instance@
                    && forall|j: int| 0 <= j < k ==> #[trigger] methods@[j].instance_name@ != instance@;
                assert(methods@[i as int].instance_name@ == instance@);
                if w < i {
                    assert(methods@[w].instance_name@ != instance@);
                } else if w > i {
                    assert(methods@[i as int].instance_name@ != instance@);
                }
            }
            return Ok(i);
        }
        i = i + 1;
    }
    let mut k: usize = 0;
    while k < methods.len()
        invariant
            k <= methods@.len(),
            forall|j: int| 0 <= j < methods@.len() ==> #[trigger] methods@[j].instance_name@ != instance@,
            forall|j: int| 0 <= j < k ==> !#[trigger] methods@[j].active,
        decreases methods@.len() - k,
    {
        if methods[k].active {
            proof {
                let w = choose|m: int| 0 <= m < methods@.len() && methods@[m].active
                    && forall|j: int| 0 <= j < m ==> !#[trigger] methods@[j].active;
                assert(methods@[k as int].active);
                if w < k {
                    assert(!methods@[w].active);
                } else if w > k {
                    assert(!methods@[k as int].active);
                }
            }
            return Ok(k);
        }
        k = k + 1;
    }
    if methods.len() > 0 {
        Ok(0)
    } else {
        Err(String::from_str("Windows brightness control method is unavailable"))
    }
}

/// What `WmiSetBrightness`'s return value means.
pub fn provider_result(return_value: u32) -> (r: Result<(), String>)
    ensures
        return_value == 0 ==> r is Ok,
        return_value != 0 ==> (r matches Err(e) && e@ == "Windows brightness provider returned error "@
            + decimal_digits(return_value as nat)),
{
    if return_value != 0 {
        let digits = decimal_of(return_value as u64);
        let d = string_from_chars(digits.as_slice());
        Err(concat_str("Windows brightness provider returned error ", d.as_str()))
    } else {
        Ok(())
    }
}

/// The level that the status read after a change reports.
pub fn reported_level(status: &BrightnessStatus) -> (r: Result<u8, String>)
    ensures
        status.value matches Some(v) ==> r == Ok::<u8, String>(v),
        status.value is None ==> (r matches Err(e)
            && e@ == "brightness changed but Windows did not report the new level"@),
{
    match status.value {
        Some(v) => Ok(v),
        None => Err(String::from_str("brightness changed but Windows did not report the new level")),
    }
}

} // verus!

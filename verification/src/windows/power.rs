//! Battery state, the panel's battery glyph and the Windows 11 power modes.
use crate::text::{
    chars_of, concat_str, decimal_digits, decimal_of, is_str, lower_chars, lower_seq,
    string_from_chars, trim, trim_chars,
};
use crate::windows::virtual_desktop::Guid;
use vstd::prelude::*;

verus! {

pub const BATTERY_FLAG_CHARGING: u8 = 0x08;
pub const BATTERY_FLAG_NO_BATTERY: u8 = 0x80;
pub const UNKNOWN: u8 = 0xff;
pub const ERROR_SUCCESS: u32 = 0;

/// The GUID that Windows reports for "best power efficiency".
pub open spec fn best_efficiency_guid() -> Guid {
    Guid { data1: 0x961c_c777, data2: 0x2547, data3: 0x4f9d, data4: [0x81, 0x74, 0x7d, 0x86, 0x18, 0x1b, 0x8a, 0x7a] }
}

/// The all-zero GUID, which Windows reports for "balanced".
pub open spec fn zero_guid() -> Guid {
    Guid { data1: 0, data2: 0, data3: 0, data4: [0u8, 0u8, 0u8, 0u8, 0u8, 0u8, 0u8, 0u8] }
}

/// The GUID that Windows reports for "best performance".
pub open spec fn best_performance_guid() -> Guid {
    Guid { data1: 0xded5_74b5, data2: 0x45a0, data3: 0x4f42, data4: [0x87, 0x37, 0x46, 0x34, 0x5c, 0x09, 0xc2, 0x38] }
}

pub fn guid_best_efficiency() -> (g: Guid)
    ensures
        g == best_efficiency_guid(),
{
    Guid { data1: 0x961c_c777, data2: 0x2547, data3: 0x4f9d, data4: [0x81, 0x74, 0x7d, 0x86, 0x18, 0x1b, 0x8a, 0x7a] }
}

pub fn guid_zero() -> (g: Guid)
    ensures
        g == zero_guid(),
{
    Guid { data1: 0, data2: 0, data3: 0, data4: [0u8, 0u8, 0u8, 0u8, 0u8, 0u8, 0u8, 0u8] }
}

pub fn guid_best_performance() -> (g: Guid)
    ensures
        g == best_performance_guid(),
{
    Guid { data1: 0xded5_74b5, data2: 0x45a0, data3: 0x4f42, data4: [0x87, 0x37, 0x46, 0x34, 0x5c, 0x09, 0xc2, 0x38] }
}

/// Field-wise equality of two GUIDs.
pub fn same_guid(a: &Guid, b: &Guid) -> (r: bool)
    ensures
        r == (*a == *b),
{
    let r = a.data1 == b.data1 && a.data2 == b.data2 && a.data3 == b.data3
        && a.data4[0] == b.data4[0] && a.data4[1] == b.data4[1] && a.data4[2] == b.data4[2]
        && a.data4[3] == b.data4[3] && a.data4[4] == b.data4[4] && a.data4[5] == b.data4[5]
        && a.data4[6] == b.data4[6] && a.data4[7] == b.data4[7];
    proof {
        if r {
            assert(a.data4 =~= b.data4);
        }
    }
    r
}

/// The three power modes of the Windows 11 power slider.
#[derive(Clone, Copy, Debug, PartialEq, Eq, Structural)]
pub enum PowerMode {
    BestEfficiency,
    Balanced,
    BestPerformance,
}

/// The mode that a settings value names, once trimmed and lower-cased.
pub open spec fn mode_named(value: Seq<char>) -> Option<PowerMode> {
    let v = lower_seq(trim(value));
    if v == "bestefficiency"@ || v == "best-efficiency"@ || v == "efficiency"@ {
        Some(PowerMode::BestEfficiency)
    } else if v == "balanced"@ {
        Some(PowerMode::Balanced)
    } else if v == "bestperformance"@ || v == "best-performance"@ || v == "performance"@ {
        Some(PowerMode::BestPerformance)
    } else {
        None
    }
}

/// The GUID that stands for each mode.
pub open spec fn mode_guid(mode: PowerMode) -> Guid {
    match mode {
        PowerMode::BestEfficiency => best_efficiency_guid(),
        PowerMode::Balanced => zero_guid(),
        PowerMode::BestPerformance => best_performance_guid(),
    }
}

/// The mode that a GUID reported by Windows stands for, if any.
pub open spec fn guid_mode(guid: Guid) -> Option<PowerMode> {
    if guid == best_efficiency_guid() {
        Some(PowerMode::BestEfficiency)
    } else if guid == zero_guid() {
        Some(PowerMode::Balanced)
    } else if guid == best_performance_guid() {
        Some(PowerMode::BestPerformance)
    } else {
        None
    }
}

impl PowerMode {
    /// Reads a mode from the values the UI sends.
    pub fn parse(value: &str) -> (r: Result<Self, String>)
        ensures
            mode_named(value@) matches Some(m) ==> r == Ok::<PowerMode, String>(m),
            mode_named(value@) is None ==> (r matches Err(e)
                && e@ == "unsupported power mode: "@ + value@),
    {
        let c = chars_of(value);
        let t = trim_chars(c.as_slice());
        let l = lower_chars(t.as_slice());
        let v = l.as_slice();
        if is_str(v, "bestefficiency") || is_str(v, "best-efficiency") || is_str(v, "efficiency") {
            Ok(PowerMode::BestEfficiency)
        } else if is_str(v, "balanced") {
            Ok(PowerMode::Balanced)
        } else if is_str(v, "bestperformance") || is_str(v, "best-performance") || is_str(
            v,
            "performance",
        ) {
            Ok(PowerMode::BestPerformance)
        } else {
            Err(concat_str("unsupported power mode: ", value))
        }
    }

    /// The GUID that Windows uses for this mode.
    pub fn guid(self) -> (g: Guid)
        ensures
            g == mode_guid(self),
    {
        match self {
            PowerMode::BestEfficiency => guid_best_efficiency(),
            PowerMode::Balanced => guid_zero(),
            PowerMode::BestPerformance => guid_best_performance(),
        }
    }

    /// The mode that a GUID from Windows stands for.
    pub fn from_guid(guid: Guid) -> (r: Result<Self, String>)
        ensures
            guid_mode(guid) matches Some(m) ==> r == Ok::<PowerMode, String>(m),
            guid_mode(guid) is None ==> (r matches Err(e)
                && e@ == "Windows returned an unsupported user-configured power mode"@),
    {
        if same_guid(&guid, &guid_best_efficiency()) {
            Ok(PowerMode::BestEfficiency)
        } else if same_guid(&guid, &guid_zero()) {
            Ok(PowerMode::Balanced)
        } else if same_guid(&guid, &guid_best_performance()) {
            Ok(PowerMode::BestPerformance)
        } else {
            Err(String::from_str("Windows returned an unsupported user-configured power mode"))
        }
    }
}

/// Each mode's GUID reads back as that mode, so a mode that is set is the
/// mode that is then reported.
pub proof fn lemma_mode_guid_round_trip(mode: PowerMode)
    ensures
        guid_mode(mode_guid(mode)) == Some(mode),
{
    assert(best_efficiency_guid().data1 != zero_guid().data1);
    assert(best_performance_guid().data1 != zero_guid().data1);
    assert(best_performance_guid().data1 != best_efficiency_guid().data1);
}

/// The battery and AC state the shell shows.
#[derive(Clone, Copy, Debug, PartialEq, Eq)]
pub struct PowerStatus {
    pub battery_present: bool,
    pub battery_percent: Option<u8>,
    pub charging: bool,
    pub ac_online: bool,
}

/// Whether the raw `SYSTEM_POWER_STATUS` fields describe a present battery.
pub open spec fn battery_present(battery_flag: u8, percent: u8) -> bool {
    battery_flag != UNKNOWN && battery_flag & BATTERY_FLAG_NO_BATTERY == 0 && percent != UNKNOWN
}

impl PowerStatus {
    /// The status that the fields of `GetSystemPowerStatus`'s answer mean.
    pub fn from_raw(ac_line_status: u8, battery_flag: u8, battery_life_percent: u8) -> (r: Self)
        ensures
            r.battery_present == battery_present(battery_flag, battery_life_percent),
            r.battery_percent == (if r.battery_present {
                Some(if battery_life_percent <= 100 { battery_life_percent } else { 100u8 })
            } else {
                None
            }),
            r.charging == (r.battery_present && battery_flag & BATTERY_FLAG_CHARGING != 0),
            r.ac_online == (ac_line_status == 1),
    {
        let present = battery_flag != UNKNOWN && battery_flag & BATTERY_FLAG_NO_BATTERY == 0
            && battery_life_percent != UNKNOWN;
        let percent = if present {
            Some(if battery_life_percent <= 100 { battery_life_percent } else { 100u8 })
        } else {
            None
        };
        PowerStatus {
            battery_present: present,
            battery_percent: percent,
            charging: present && battery_flag & BATTERY_FLAG_CHARGING != 0,
            ac_online: ac_line_status == 1,
        }
    }
}

/// The glyph's tenth of charge: the percentage (at most 100) rounded to the
/// nearest ten, halves up.
pub open spec fn charge_bucket(percent: u8) -> nat {
    let p: nat = if percent <= 100 { percent as nat } else { 100 };
    (p + 5) / 10
}

/// The Segoe Fluent Icons code point of the battery glyph.
pub open spec fn glyph_code(percent: u8, charging: bool) -> u32 {
    let bucket = charge_bucket(percent);
    if charging {
        if bucket >= 9 { 0xe83e } else { (0xe85a + bucket) as u32 }
    } else if bucket >= 10 {
        0xe83f
    } else {
        (0xe850 + bucket) as u32
    }
}

/// The battery glyph for a charge level and charging state.
pub fn battery_glyph(percent: u8, charging: bool) -> (c: char)
    ensures
        c as u32 == glyph_code(percent, charging),
{
    let p: u16 = if percent <= 100 { percent as u16 } else { 100 };
    let bucket: u32 = ((p + 5) / 10) as u32;
    let code: u32 = if charging {
        if bucket >= 9 {
            0xe83e
        } else {
            0xe85a + bucket
        }
    } else if bucket >= 10 {
        0xe83f
    } else {
        0xe850 + bucket
    };
    match char::from_u32(code) {
        Some(c) => c,
        None => '\u{e996}',
    }
}

/// The panel's battery text: the glyph when a battery is reported, else empty.
pub fn panel_label(status: Option<PowerStatus>) -> (r: String)
    ensures
        (status matches Some(s) && s.battery_percent is Some) ==> r@.len() == 1
            && r@[0] as u32 == glyph_code(
            status.unwrap().battery_percent.unwrap(),
            status.unwrap().charging,
        ),
        !(status matches Some(s) && s.battery_percent is Some) ==> r@ == Seq::<char>::empty(),
{
    match status {
        Some(s) => match s.battery_percent {
            Some(p) => {
                let mut out = String::new();
                out.push(battery_glyph(p, s.charging));
                out
            },
            None => String::new(),
        },
        None => String::new(),
    }
}

/// `PowerGetUserConfigured{AC|DC}PowerMode failed with Win32 error <code>`.
pub open spec fn power_call_error(get: bool, ac_online: bool, code: u32) -> Seq<char> {
    (if get { "PowerGetUserConfigured"@ } else { "PowerSetUserConfigured"@ })
        + (if ac_online { "AC"@ } else { "DC"@ }) + "PowerMode failed with Win32 error "@
        + decimal_digits(code as nat)
}

fn power_call_error_text(get: bool, ac_online: bool, code: u32) -> (r: String)
    ensures
        r@ == power_call_error(get, ac_online, code),
{
    let a = concat_str(
        if get { "PowerGetUserConfigured" } else { "PowerSetUserConfigured" },
        if ac_online { "AC" } else { "DC" },
    );
    let b = concat_str(a.as_str(), "PowerMode failed with Win32 error ");
    let digits = decimal_of(code as u64);
    let d = string_from_chars(digits.as_slice());
    concat_str(b.as_str(), d.as_str())
}

/// The mode that `PowerGetUserConfigured{AC|DC}PowerMode` reported, read
/// from its Win32 result `code` and the GUID it filled in.
pub fn configured_mode_result(ac_online: bool, code: u32, guid: Guid) -> (r: Result<PowerMode, String>)
    ensures
        code != ERROR_SUCCESS ==> (r matches Err(e) && e@ == power_call_error(true, ac_online, code)),
        code == ERROR_SUCCESS ==> (guid_mode(guid) matches Some(m) ==> r == Ok::<PowerMode, String>(m)),
        code == ERROR_SUCCESS && guid_mode(guid) is None ==> (r matches Err(e)
            && e@ == "Windows returned an unsupported user-configured power mode"@),
{
    if code != ERROR_SUCCESS {
        Err(power_call_error_text(true, ac_online, code))
    } else {
        PowerMode::from_guid(guid)
    }
}

/// What `PowerSetUserConfigured{AC|DC}PowerMode`'s Win32 result means.
pub fn set_mode_result(ac_online: bool, code: u32) -> (r: Result<(), String>)
    ensures
        code == ERROR_SUCCESS ==> r is Ok,
        code != ERROR_SUCCESS ==> (r matches Err(e) && e@ == power_call_error(false, ac_online, code)),
{
    if code != ERROR_SUCCESS {
        Err(power_call_error_text(false, ac_online, code))
    } else {
        Ok(())
    }
}

} // verus!

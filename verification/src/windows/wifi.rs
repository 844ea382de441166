//! Wi-Fi status as read from the WLAN service, and the radio-state request
//! that switches Wi-Fi on or off.
use crate::text::{clone_opt, opt_view, string_from_chars, trim, trim_chars};
use vstd::prelude::*;
use vstd::utf8::{decode_utf8, valid_utf8};

verus! {

pub const WLAN_MAX_PHY_INDEX: usize = 64;
pub const DOT11_RADIO_STATE_ON: u32 = 1;
pub const DOT11_RADIO_STATE_OFF: u32 = 2;

/// What the Quick Settings Wi-Fi tile shows.
#[derive(Clone, Debug, PartialEq, Eq)]
pub struct WifiStatus {
    pub supported: bool,
    pub enabled: bool,
    pub connected: bool,
    pub network_name: Option<String>,
    pub interface_name: Option<String>,
}

/// What the WLAN service reported for one wireless interface.
#[derive(Clone, Debug)]
pub struct InterfaceReading {
    /// The interface description, already decoded and trimmed.
    pub name: Option<String>,
    /// Whether some PHY has both its software and hardware radio on;
    /// `None` when the radio state could not be queried.
    pub radio_on: Option<bool>,
    pub connected: bool,
    /// The SSID of the current connection, read for connected interfaces.
    pub network_name: Option<String>,
}

/// The SSID field of a WLAN association.
#[derive(Clone, Copy, Debug)]
pub struct Dot11Ssid {
    pub length: u32,
    pub bytes: [u8; 32],
}

/// One PHY's radio state as the WLAN radio-state opcode carries it.
#[derive(Clone, Copy, Debug, PartialEq, Eq)]
pub struct WlanPhyRadioState {
    pub phy_index: u32,
    pub software_state: u32,
    pub hardware_state: u32,
}

pub open spec fn is_high_surrogate(u: u16) -> bool {
    0xD800 <= u && u <= 0xDBFF
}

pub open spec fn is_low_surrogate(u: u16) -> bool {
    0xDC00 <= u && u <= 0xDFFF
}

/// The scalar value that a surrogate pair encodes.
pub open spec fn pair_value(high: u16, low: u16) -> u32 {
    ((high - 0xD800) * 0x400 + (low - 0xDC00) + 0x10000) as u32
}

/// `String::from_utf16_lossy`: UTF-16 decoding in which every unpaired
/// surrogate becomes U+FFFD.
pub open spec fn utf16_lossy(s: Seq<u16>) -> Seq<char>
    decreases s.len(),
{
    if s.len() == 0 {
        Seq::empty()
    } else if is_high_surrogate(s[0]) && s.len() >= 2 && is_low_surrogate(s[1]) {
        seq![pair_value(s[0], s[1]) as char] + utf16_lossy(s.skip(2))
    } else if 0xD800 <= s[0] && s[0] <= 0xDFFF {
        seq!['\u{FFFD}'] + utf16_lossy(s.skip(1))
    } else {
        seq![(s[0] as u32) as char] + utf16_lossy(s.skip(1))
    }
}

pub fn decode_utf16_lossy(s: &[u16]) -> (r: Vec<char>)
    ensures
        r@ == utf16_lossy(s@),
{
    let n = s.len();
    let mut r: Vec<char> = Vec::new();
    let mut i: usize = 0;
    proof {
        assert(s@.skip(0) =~= s@);
    }
    while i < n
        invariant
            n == s@.len(),
            i <= n,
            r@ + utf16_lossy(s@.skip(i as int)) == utf16_lossy(s@),
        decreases n - i,
    {
        let u = s[i];
        let ghost rest = s@.skip(i as int);
        if 0xD800 <= u && u <= 0xDBFF && i + 1 < n && 0xDC00 <= s[i + 1] && s[i + 1] <= 0xDFFF {
            let low = s[i + 1];
            let v: u32 = ((u - 0xD800) as u32) * 0x400 + ((low - 0xDC00) as u32) + 0x10000;
            proof {
                assert(rest[0] == u && rest[1] == low);
                assert(v == pair_value(u, low));
                assert(rest.skip(2) =~= s@.skip(i + 2));
            }
            match char::from_u32(v) {
                Some(c) => r.push(c),
                None => r.push('\u{FFFD}'),
            }
            proof {
                assert(r@ + utf16_lossy(s@.skip(i + 2)) =~= utf16_lossy(s@));
            }
            i = i + 2;
        } else if 0xD800 <= u && u <= 0xDFFF {
            proof {
                assert(rest.skip(1) =~= s@.skip(i + 1));
            }
            r.push('\u{FFFD}');
            proof {
                assert(r@ + utf16_lossy(s@.skip(i + 1)) =~= utf16_lossy(s@));
            }
            i = i + 1;
        } else {
            proof {
                assert(rest.skip(1) =~= s@.skip(i + 1));
            }
            match char::from_u32(u as u32) {
                Some(c) => r.push(c),
                None => r.push('\u{FFFD}'),
            }
            proof {
                assert(r@ + utf16_lossy(s@.skip(i + 1)) =~= utf16_lossy(s@));
            }
            i = i + 1;
        }
    }
    proof {
        assert(utf16_lossy(s@.skip(n as int)) =~= Seq::<char>::empty());
        assert(r@ + Seq::<char>::empty() =~= r@);
    }
    r
}


/// Index of the first NUL unit, or the length when there is none.
pub open spec fn first_nul(s: Seq<u16>) -> int
    decreases s.len(),
{
    if s.len() == 0 {
        0
    } else if s[0] == 0 {
        0
    } else {
        1 + first_nul(s.drop_first())
    }
}

/// A decoded, trimmed text that is shown only when not empty.
pub open spec fn non_empty(t: Seq<char>) -> Option<Seq<char>> {
    if t.len() > 0 { Some(t) } else { None }
}

/// The interface description: the UTF-16 text before the first NUL,
/// decoded lossily and trimmed; `None` when nothing is left.
pub fn interface_name(description: &[u16]) -> (r: Option<String>)
    ensures
        opt_view(r) == non_empty(trim(utf16_lossy(description@.take(first_nul(description@))))),
{
    let n = description.len();
    let mut i: usize = 0;
    proof {
        assert(description@.skip(0) =~= description@);
    }
    while i < n && description[i] != 0
        invariant
            n == description@.len(),
            i <= n,
            first_nul(description@) == i + first_nul(description@.skip(i as int)),
            forall|k: int| 0 <= k < i ==> description@[k] != 0,
        decreases n - i,
    {
        proof {
            assert(description@.skip(i as int).drop_first() =~= description@.skip(i + 1));
        }
        i = i + 1;
    }
    let mut units: Vec<u16> = Vec::new();
    let mut k: usize = 0;
    while k < i
        invariant
            k <= i <= n,
            n == description@.len(),
            units@ == description@.take(k as int),
        decreases i - k,
    {
        units.push(description[k]);
        k = k + 1;
        proof {
            assert(units@ =~= description@.take(k as int));
        }
    }
    let decoded = decode_utf16_lossy(units.as_slice());
    let trimmed = trim_chars(decoded.as_slice());
    if trimmed.len() > 0 {
        Some(string_from_chars(trimmed.as_slice()))
    } else {
        None
    }
}

/// `String::from_utf8_lossy`'s decoding of `bytes`: invalid sequences become
/// U+FFFD by std's rules.
pub uninterp spec fn utf8_lossy(bytes: Seq<u8>) -> Seq<char>;

/// Calls `String::from_utf8_lossy`. Claimed: the result is a function of the
/// bytes alone, and for valid UTF-8 it is the plain decoding.
#[verifier::external_body]
pub(crate) fn from_utf8_lossy(bytes: &[u8]) -> (r: String)
    ensures
        r@ == utf8_lossy(bytes@),
        valid_utf8(bytes@) ==> r@ == decode_utf8(bytes@),
{
    String::from_utf8_lossy(bytes).into_owned()
}

/// `s` without leading and trailing NUL characters (`trim_matches('\0')`).
pub open spec fn strip_nul(s: Seq<char>) -> Seq<char>
    decreases s.len(),
{
    if s.len() > 0 && s[0] == '\0' {
        strip_nul(s.drop_first())
    } else if s.len() > 0 && s.last() == '\0' {
        strip_nul(s.drop_last())
    } else {
        s
    }
}

fn strip_nul_chars(s: &[char]) -> (r: Vec<char>)
    ensures
        r@ == strip_nul(s@),
{
    let mut i: usize = 0;
    let mut j: usize = s.len();
    proof {
        assert(s@.subrange(0, s@.len() as int) =~= s@);
    }
    while i < j && (s[i] == '\0' || s[j - 1] == '\0')
        invariant
            i <= j <= s@.len(),
            strip_nul(s@) == strip_nul(s@.subrange(i as int, j as int)),
        decreases j - i,
    {
        proof {
            let t = s@.subrange(i as int, j as int);
            assert(t.drop_first() =~= s@.subrange(i + 1, j as int));
            assert(t.drop_last() =~= s@.subrange(i as int, j - 1));
        }
        if s[i] == '\0' {
            i = i + 1;
        } else {
            j = j - 1;
        }
    }
    let mut r: Vec<char> = Vec::new();
    let mut k: usize = i;
    while k < j
        invariant
            i <= k <= j <= s@.len(),
            r@ == s@.subrange(i as int, k as int),
        decreases j - k,
    {
        r.push(s[k]);
        k = k + 1;
        proof {
            assert(r@ =~= s@.subrange(i as int, k as int));
        }
    }
    r
}

/// The SSID bytes in use: at most the field's 32.
pub open spec fn ssid_bytes(ssid: Dot11Ssid) -> Seq<u8> {
    ssid.bytes@.take(if ssid.length <= 32 { ssid.length as int } else { 32 })
}

/// The network name of a connection: its SSID decoded lossily from UTF-8,
/// stripped of NULs and white space; `None` when nothing is left.
pub fn ssid_name(ssid: &Dot11Ssid) -> (r: Option<String>)
    ensures
        opt_view(r) == (if ssid_bytes(*ssid).len() == 0 {
            None
        } else {
            non_empty(trim(strip_nul(utf8_lossy(ssid_bytes(*ssid)))))
        }),
{
    let len: usize = if ssid.length <= 32 { ssid.length as usize } else { 32 };
    if len == 0 {
        return None;
    }
    let mut bytes: Vec<u8> = Vec::new();
    let mut k: usize = 0;
    while k < len
        invariant
            k <= len <= 32,
            len == (if ssid.length <= 32 { ssid.length as int } else { 32 }),
            bytes@ == ssid.bytes@.take(k as int),
        decreases len - k,
    {
        bytes.push(ssid.bytes[k]);
        k = k + 1;
        proof {
            assert(bytes@ =~= ssid.bytes@.take(k as int));
        }
    }
    let decoded = from_utf8_lossy(bytes.as_slice());
    let chars = crate::text::chars_of(decoded.as_str());
    let stripped = strip_nul_chars(chars.as_slice());
    let trimmed = trim_chars(stripped.as_slice());
    if trimmed.len() > 0 {
        Some(string_from_chars(trimmed.as_slice()))
    } else {
        None
    }
}


pub open spec fn any_radio_observed(rs: Seq<InterfaceReading>) -> bool {
    exists|i: int| 0 <= i < rs.len() && (#[trigger] rs[i]).radio_on is Some
}

pub open spec fn any_radio_on(rs: Seq<InterfaceReading>) -> bool {
    exists|i: int| 0 <= i < rs.len() && (#[trigger] rs[i]).radio_on == Some(true)
}

pub open spec fn any_connected(rs: Seq<InterfaceReading>) -> bool {
    exists|i: int| 0 <= i < rs.len() && (#[trigger] rs[i]).connected
}

/// The network of the last connected interface.
pub open spec fn last_network(rs: Seq<InterfaceReading>) -> Option<Seq<char>>
    decreases rs.len(),
{
    if rs.len() == 0 {
        None
    } else if rs.last().connected {
        opt_view(rs.last().network_name)
    } else {
        last_network(rs.drop_last())
    }
}

/// The interface shown: the first one with a name, overridden by each named
/// connected interface in turn.
pub open spec fn selected_interface(rs: Seq<InterfaceReading>) -> Option<Seq<char>>
    decreases rs.len(),
{
    if rs.len() == 0 {
        None
    } else {
        let prev = selected_interface(rs.drop_last());
        let r = rs.last();
        if r.connected && r.name is Some {
            opt_view(r.name)
        } else if prev is None {
            opt_view(r.name)
        } else {
            prev
        }
    }
}

/// The Wi-Fi status from every wireless interface Windows enumerated.
pub fn status(interfaces: &Vec<InterfaceReading>) -> (r: Result<WifiStatus, String>)
    ensures
        interfaces@.len() == 0 ==> (r matches Ok(st) && !st.supported && !st.enabled
            && !st.connected && st.network_name is None && st.interface_name is None),
        interfaces@.len() > 0 && !any_radio_observed(interfaces@) ==> (r matches Err(e)
            && e@ == "Windows did not report a Wi-Fi radio state"@),
        interfaces@.len() > 0 && any_radio_observed(interfaces@) ==> (r matches Ok(st)
            && st.supported && st.enabled == any_radio_on(interfaces@)
            && st.connected == any_connected(interfaces@)
            && opt_view(st.network_name) == last_network(interfaces@)
            && opt_view(st.interface_name) == selected_interface(interfaces@)),
{
    if interfaces.len() == 0 {
        return Ok(WifiStatus {
            supported: false,
            enabled: false,
            connected: false,
            network_name: None,
            interface_name: None,
        });
    }
    let mut enabled = false;
    let mut observed = false;
    let mut connected = false;
    let mut network_name: Option<String> = None;
    let mut selected: Option<String> = None;
    let mut i: usize = 0;
    while i < interfaces.len()
        invariant
            i <= interfaces@.len(),
            observed == any_radio_observed(interfaces@.take(i as int)),
            enabled == any_radio_on(interfaces@.take(i as int)),
            connected == any_connected(interfaces@.take(i as int)),
            opt_view(network_name) == last_network(interfaces@.take(i as int)),
            opt_view(selected) == selected_interface(interfaces@.take(i as int)),
        decreases interfaces@.len() - i,
    {
        let reading = &interfaces[i];
        let ghost pre = interfaces@.take(i as int);
        let ghost post = interfaces@.take(i + 1);
        proof {
            assert(post.drop_last() =~= pre);
            assert(post.last() == *reading);
        }
        if selected.is_none() {
            selected = clone_opt(&reading.name);
        }
        match reading.radio_on {
            Some(on) => {
                observed = true;
                enabled = enabled || on;
            },
            None => {},
        }
        if reading.connected {
            connected = true;
            if reading.name.is_some() {
                selected = clone_opt(&reading.name);
            }
            network_name = clone_opt(&reading.network_name);
        }
        proof {
            if observed {
                if reading.radio_on is Some {
                    assert(post[i as int] == *reading);
                } else {
                    let k = choose|k: int| 0 <= k < pre.len() && (#[trigger] pre[k]).radio_on is Some;
                    assert(post[k] == pre[k]);
                }
            } else {
                assert forall|k: int| 0 <= k < post.len() implies !((#[trigger] post[k]).radio_on is Some) by {
                    if k < i {
                        assert(post[k] == pre[k]);
                    }
                }
            }
            if enabled {
                if reading.radio_on == Some(true) {
                    assert(post[i as int] == *reading);
                } else {
                    let k = choose|k: int| 0 <= k < pre.len() && (#[trigger] pre[k]).radio_on == Some(true);
                    assert(post[k] == pre[k]);
                }
            } else {
                assert forall|k: int| 0 <= k < post.len() implies !((#[trigger] post[k]).radio_on == Some(true)) by {
                    if k < i {
                        assert(post[k] == pre[k]);
                    }
                }
            }
            if connected {
                if reading.connected {
                    assert(post[i as int] == *reading);
                } else {
                    let k = choose|k: int| 0 <= k < pre.len() && (#[trigger] pre[k]).connected;
                    assert(post[k] == pre[k]);
                }
            } else {
                assert forall|k: int| 0 <= k < post.len() implies !(#[trigger] post[k]).connected by {
                    if k < i {
                        assert(post[k] == pre[k]);
                    }
                }
            }
        }
        i = i + 1;
    }
    proof {
        assert(interfaces@.take(interfaces@.len() as int) =~= interfaces@);
    }
    if !observed {
        return Err(String::from_str("Windows did not report a Wi-Fi radio state"));
    }
    Ok(WifiStatus {
        supported: true,
        enabled,
        connected,
        network_name,
        interface_name: selected,
    })
}

/// The radio-state request for every PHY of an interface: software state on
/// or off, hardware state on.
pub fn radio_request(enabled: bool) -> (r: WlanPhyRadioState)
    ensures
        r.phy_index == u32::MAX,
        r.software_state == (if enabled { DOT11_RADIO_STATE_ON } else { DOT11_RADIO_STATE_OFF }),
        r.hardware_state == DOT11_RADIO_STATE_ON,
{
    WlanPhyRadioState {
        phy_index: u32::MAX,
        software_state: if enabled { DOT11_RADIO_STATE_ON } else { DOT11_RADIO_STATE_OFF },
        hardware_state: DOT11_RADIO_STATE_ON,
    }
}

/// A switch succeeded when at least one interface accepted the request.
pub fn check_radio_change(changed: usize) -> (r: Result<(), String>)
    ensures
        r is Ok <==> changed > 0,
        r matches Err(e) ==> e@ == "no Wi-Fi interface accepted the radio-state change"@,
{
    if changed == 0 {
        Err(String::from_str("no Wi-Fi interface accepted the radio-state change"))
    } else {
        Ok(())
    }
}

/// Whether a PHY reports its radio on: both software and hardware state on.
pub fn phy_radio_on(state: &WlanPhyRadioState) -> (r: bool)
    ensures
        r == (state.software_state == DOT11_RADIO_STATE_ON && state.hardware_state == DOT11_RADIO_STATE_ON),
{
    state.software_state == DOT11_RADIO_STATE_ON && state.hardware_state == DOT11_RADIO_STATE_ON
}


/// `<call> failed with <code>`, the message of a failed WLAN API call.
pub fn wlan_error(call: &str, code: u32) -> (r: String)
    ensures
        r@ == call@ + " failed with "@ + crate::text::decimal_digits(code as nat),
{
    let digits = crate::text::decimal_of(code as u64);
    let d = string_from_chars(digits.as_slice());
    let head = crate::text::concat_str(call, " failed with ");
    crate::text::concat_str(head.as_str(), d.as_str())
}
} // verus!

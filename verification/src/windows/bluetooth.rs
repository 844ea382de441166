//! Bluetooth radio state as the Quick Settings tile shows it.
use crate::text::{chars_of, concat_str, opt_view, signed_decimal, signed_decimal_of, string_from_chars, trim, trim_chars};
use vstd::prelude::*;

verus! {

/// State of a Windows radio (`Windows.Devices.Radios.RadioState`); every
/// value that is not on, off or disabled is `Unknown`.
#[derive(Clone, Copy, Debug, PartialEq, Eq, Structural)]
pub enum RadioState {
    Unknown,
    On,
    Off,
    Disabled,
}

/// What the shell reports about the Bluetooth radio.
#[derive(Clone, Debug, PartialEq, Eq)]
pub struct BluetoothStatus {
    pub supported: bool,
    pub enabled: bool,
    pub name: Option<String>,
    pub state: String,
}

/// The first Bluetooth radio that Windows enumerated, as read from it.
#[derive(Clone, Debug)]
pub struct BluetoothRadio {
    pub state: RadioState,
    pub name: Option<String>,
}

/// An error message: context, a colon and the platform's message.
pub fn windows_error(context: &str, error: &str) -> (r: String)
    ensures
        r@ == context@ + ": "@ + error@,
{
    let head = concat_str(context, ": ");
    concat_str(head.as_str(), error)
}

/// The name the UI shows for a radio state.
pub open spec fn state_name(state: RadioState) -> Seq<char> {
    match state {
        RadioState::On => "on"@,
        RadioState::Off => "off"@,
        RadioState::Disabled => "disabled"@,
        RadioState::Unknown => "unknown"@,
    }
}

pub fn radio_state_name(state: RadioState) -> (r: &'static str)
    ensures
        r@ == state_name(state),
{
    match state {
        RadioState::On => "on",
        RadioState::Off => "off",
        RadioState::Disabled => "disabled",
        RadioState::Unknown => "unknown",
    }
}

/// A radio name is shown only when it holds more than white space.
pub open spec fn shown_name(name: Option<Seq<char>>) -> Option<Seq<char>> {
    match name {
        Some(n) => if trim(n).len() > 0 { Some(n) } else { None },
        None => None,
    }
}

/// The status of a present Bluetooth radio.
pub fn from_radio(radio: &BluetoothRadio) -> (r: BluetoothStatus)
    ensures
        r.supported,
        r.enabled == (radio.state == RadioState::On),
        opt_view(r.name) == shown_name(opt_view(radio.name)),
        r.state@ == state_name(radio.state),
{
    let name = match &radio.name {
        Some(value) => {
            let chars = chars_of(value.as_str());
            let trimmed = trim_chars(chars.as_slice());
            if trimmed.len() > 0 {
                Some(value.clone())
            } else {
                None
            }
        },
        None => None,
    };
    BluetoothStatus {
        supported: true,
        enabled: radio.state == RadioState::On,
        name,
        state: String::from_str(radio_state_name(radio.state)),
    }
}

/// The Bluetooth status: the radio's own when Windows has one, otherwise
/// unsupported and "unavailable".
pub fn status(radio: &Option<BluetoothRadio>) -> (r: BluetoothStatus)
    ensures
        match radio {
            Some(found) => r.supported && r.enabled == (found.state == RadioState::On)
                && opt_view(r.name) == shown_name(opt_view(found.name))
                && r.state@ == state_name(found.state),
            None => !r.supported && !r.enabled && r.name is None && r.state@ == "unavailable"@,
        },
{
    match radio {
        Some(found) => from_radio(found),
        None => BluetoothStatus {
            supported: false,
            enabled: false,
            name: None,
            state: String::from_str("unavailable"),
        },
    }
}


/// The radio state that switching Bluetooth on or off asks for.
pub fn target_state(enabled: bool) -> (r: RadioState)
    ensures
        r == (if enabled { RadioState::On } else { RadioState::Off }),
{
    if enabled {
        RadioState::On
    } else {
        RadioState::Off
    }
}
/// WinRT's `RadioAccessStatus::Allowed`.
pub const RADIO_ACCESS_ALLOWED: i32 = 1;

/// How many times the radio is read back after a change, 40 ms apart,
/// before its state is reported as it then is.
pub const CONFIRM_READS: u32 = 8;

/// The `Debug` text of WinRT's `RadioAccessStatus`, a tuple struct of its
/// code.
pub open spec fn access_text(code: i32) -> Seq<char> {
    "RadioAccessStatus("@ + signed_decimal(code as int) + ")"@
}

fn access_string(code: i32) -> (r: String)
    ensures
        r@ == access_text(code),
{
    let digits = signed_decimal_of(code as isize);
    let d = string_from_chars(digits.as_slice());
    let head = concat_str("RadioAccessStatus(", d.as_str());
    concat_str(head.as_str(), ")")
}

/// A change of state needs a Bluetooth radio.
pub fn require_radio<T>(radio: Option<T>) -> (r: Result<T, String>)
    ensures
        radio matches Some(x) ==> r == Ok::<T, String>(x),
        radio is None ==> (r matches Err(e) && e@ == "Windows reported no Bluetooth radio"@),
{
    match radio {
        Some(x) => Ok(x),
        None => Err(String::from_str("Windows reported no Bluetooth radio")),
    }
}

/// The answer to the request for radio access: only `Allowed` lets the
/// change go ahead.
pub fn access_result(access: i32) -> (r: Result<(), String>)
    ensures
        access == RADIO_ACCESS_ALLOWED ==> r is Ok,
        access != RADIO_ACCESS_ALLOWED ==> (r matches Err(e)
            && e@ == "Windows denied Bluetooth radio control: "@ + access_text(access)),
{
    if access == RADIO_ACCESS_ALLOWED {
        Ok(())
    } else {
        let text = access_string(access);
        Err(concat_str("Windows denied Bluetooth radio control: ", text.as_str()))
    }
}

/// The answer to the state change itself: only `Allowed` means it was
/// accepted.
pub fn change_result(result: i32) -> (r: Result<(), String>)
    ensures
        result == RADIO_ACCESS_ALLOWED ==> r is Ok,
        result != RADIO_ACCESS_ALLOWED ==> (r matches Err(e)
            && e@ == "Windows rejected Bluetooth state change: "@ + access_text(result)),
{
    if result == RADIO_ACCESS_ALLOWED {
        Ok(())
    } else {
        let text = access_string(result);
        Err(concat_str("Windows rejected Bluetooth state change: ", text.as_str()))
    }
}

/// Whether a read of the radio after a change shows the requested state:
/// the shell reports the radio's effective state, re-reading it until it
/// matches or `CONFIRM_READS` reads have been made.
pub fn confirmed(reading: &BluetoothRadio, enabled: bool) -> (r: bool)
    ensures
        r == (reading.state == (if enabled { RadioState::On } else { RadioState::Off })),
{
    reading.state == target_state(enabled)
}

} // verus!


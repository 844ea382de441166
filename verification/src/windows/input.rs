//! Synthesised keyboard input: the key events that a shortcut chord sends.
use vstd::prelude::*;

verus! {

pub const INPUT_KEYBOARD: u32 = 1;
pub const KEYEVENTF_KEYUP: u32 = 0x0002;
pub const VK_SHIFT: u16 = 0x10;
pub const VK_CONTROL: u16 = 0x11;
pub const VK_LEFT: u16 = 0x25;
pub const VK_RIGHT: u16 = 0x27;
pub const VK_S: u16 = 0x53;
pub const VK_LWIN: u16 = 0x5B;

/// The keyboard part of a `SendInput` record.
#[derive(Clone, Copy, Debug, PartialEq, Eq)]
pub struct KeyboardInput {
    pub virtual_key: u16,
    pub scan_code: u16,
    pub flags: u32,
    pub time: u32,
    pub extra_info: usize,
}

/// One `SendInput` record of the keyboard kind.
#[derive(Clone, Copy, Debug, PartialEq, Eq)]
pub struct Input {
    pub kind: u32,
    pub keyboard: KeyboardInput,
}

/// The event that presses (or, with `key_up`, releases) one key.
pub open spec fn key_event(virtual_key: u16, key_up: bool) -> Input {
    Input {
        kind: INPUT_KEYBOARD,
        keyboard: KeyboardInput {
            virtual_key,
            scan_code: 0,
            flags: if key_up { KEYEVENTF_KEYUP } else { 0 },
            time: 0,
            extra_info: 0,
        },
    }
}

pub fn keyboard_input(virtual_key: u16, key_up: bool) -> (r: Input)
    ensures
        r == key_event(virtual_key, key_up),
{
    Input {
        kind: INPUT_KEYBOARD,
        keyboard: KeyboardInput {
            virtual_key,
            scan_code: 0,
            flags: if key_up { KEYEVENTF_KEYUP } else { 0 },
            time: 0,
            extra_info: 0,
        },
    }
}

/// A chord: every key pressed in order, then released in reverse order.
pub open spec fn chord_events(keys: Seq<u16>) -> Seq<Input> {
    Seq::new(keys.len(), |i: int| key_event(keys[i], false))
        + Seq::new(keys.len(), |i: int| key_event(keys[keys.len() - 1 - i], true))
}

pub fn chord(keys: &[u16]) -> (r: Vec<Input>)
    requires
        keys@.len() <= 0x1000,
    ensures
        r@ == chord_events(keys@),
{
    let n = keys.len();
    let mut r: Vec<Input> = Vec::new();
    let mut i: usize = 0;
    while i < n
        invariant
            n == keys@.len(),
            i <= n,
            r@ == Seq::new(i as nat, |k: int| key_event(keys@[k], false)),
        decreases n - i,
    {
        r.push(keyboard_input(keys[i], false));
        i = i + 1;
        assert(r@ =~= Seq::new(i as nat, |k: int| key_event(keys@[k], false)));
    }
    let ghost presses = r@;
    let mut j: usize = 0;
    while j < n
        invariant
            n == keys@.len(),
            j <= n,
            presses == Seq::new(n as nat, |k: int| key_event(keys@[k], false)),
            r@ == presses + Seq::new(j as nat, |k: int| key_event(keys@[n - 1 - k], true)),
        decreases n - j,
    {
        r.push(keyboard_input(keys[n - 1 - j], true));
        j = j + 1;
        assert(r@ =~= presses + Seq::new(j as nat, |k: int| key_event(keys@[n - 1 - k], true)));
    }
    r
}

/// Every key that a chord presses it also releases, and no key is released
/// before all keys are down.
pub proof fn lemma_chord_releases_every_key(keys: Seq<u16>)
    ensures
        chord_events(keys).len() == 2 * keys.len(),
        forall|i: int| 0 <= i < keys.len() ==> {
            &&& #[trigger] chord_events(keys)[i] == key_event(keys[i], false)
            &&& chord_events(keys)[2 * keys.len() - 1 - i] == key_event(keys[i], true)
        },
{
    let n = keys.len() as int;
    assert forall|i: int| 0 <= i < n implies {
        &&& #[trigger] chord_events(keys)[i] == key_event(keys[i], false)
        &&& chord_events(keys)[2 * n - 1 - i] == key_event(keys[i], true)
    } by {
        assert(chord_events(keys)[2 * n - 1 - i] == key_event(keys[n - 1 - (n - 1 - i)], true));
    }
}

/// Whether `SendInput` took every event it was handed.
pub fn all_sent(sent: u32, count: usize) -> (r: bool)
    ensures
        r == (sent as int == count as int),
{
    sent as usize == count && count <= 0xffff_ffff
}

} // verus!

//! The Win+Shift+S chord that opens Windows' own screenshot overlay.
use crate::windows::input::{all_sent, chord, chord_events, Input, VK_LWIN, VK_S, VK_SHIFT};
use vstd::prelude::*;

verus! {

/// The keys of the screenshot shortcut, in the order they go down.
pub open spec fn screenshot_keys() -> Seq<u16> {
    seq![VK_LWIN, VK_SHIFT, VK_S]
}

/// The input events that open the screenshot selection overlay.
pub fn overlay_inputs() -> (r: Vec<Input>)
    ensures
        r@ == chord_events(screenshot_keys()),
{
    let keys: [u16; 3] = [VK_LWIN, VK_SHIFT, VK_S];
    assert(keys@ =~= screenshot_keys());
    chord(&keys)
}

/// What `SendInput`'s count of accepted events means for the shortcut.
pub fn check_sent(sent: u32, count: usize) -> (r: Result<(), String>)
    ensures
        sent as int == count as int ==> r is Ok,
        sent as int != count as int ==> (r matches Err(e)
            && e@ == "Windows did not accept the screenshot shortcut input"@),
{
    if all_sent(sent, count) {
        Ok(())
    } else {
        Err(String::from_str("Windows did not accept the screenshot shortcut input"))
    }
}

} // verus!

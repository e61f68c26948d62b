use vstd::prelude::*;

use crate::events::{
    BTN_STYLUS, BTN_STYLUS2, KEY_B, KEY_E, KEY_KPMINUS, KEY_KPPLUS, KEY_LEFTALT, KEY_LEFTBRACE,
    KEY_LEFTCTRL, KEY_RIGHTBRACE, KEY_SCROLLDOWN, KEY_SCROLLUP, KEY_SPACE, KEY_TAB,
};

verus! {

/// Whether `i` is a tablet button the hardware can assert: identifiers run
/// from 0 to 13, and positions 10 and 11 are never driven and are skipped.
pub open spec fn valid_tablet_button(i: u16) -> bool {
    i < 14 && i != 10 && i != 11
}

/// The fixed mapping from tablet button identifier to the key codes emitted
/// for it, in emission order. Some buttons fan out to a modifier plus a key.
/// Identifiers outside the valid range map to nothing.
pub open spec fn tablet_keys_spec(i: u16) -> Seq<u16> {
    if i == 0 {
        seq![KEY_TAB]
    } else if i == 1 {
        seq![KEY_SPACE]
    } else if i == 2 {
        seq![KEY_LEFTALT]
    } else if i == 3 {
        seq![KEY_LEFTCTRL]
    } else if i == 4 {
        seq![KEY_SCROLLDOWN]
    } else if i == 5 {
        seq![KEY_SCROLLUP]
    } else if i == 6 {
        seq![KEY_LEFTBRACE]
    } else if i == 7 {
        seq![KEY_LEFTCTRL, KEY_KPMINUS]
    } else if i == 8 {
        seq![KEY_KPPLUS]
    } else if i == 9 {
        seq![KEY_E]
    } else if i == 12 {
        seq![KEY_B]
    } else if i == 13 {
        seq![KEY_RIGHTBRACE]
    } else {
        Seq::empty()
    }
}

/// The fixed mapping from pen-button value code to the key code emitted for
/// it. Only the two observed stylus codes are mapped; every other code maps
/// to nothing.
pub open spec fn pen_keys_spec(id: u8) -> Seq<u16> {
    if id == 4 {
        seq![BTN_STYLUS]
    } else if id == 6 {
        seq![BTN_STYLUS2]
    } else {
        Seq::empty()
    }
}

/// The key codes for tablet button `i`, in emission order.
pub fn tablet_keys(i: u8) -> (r: Vec<u16>)
    ensures
        r@ == tablet_keys_spec(i as u16),
{
    match i {
        0 => vec![KEY_TAB],
        1 => vec![KEY_SPACE],
        2 => vec![KEY_LEFTALT],
        3 => vec![KEY_LEFTCTRL],
        4 => vec![KEY_SCROLLDOWN],
        5 => vec![KEY_SCROLLUP],
        6 => vec![KEY_LEFTBRACE],
        7 => vec![KEY_LEFTCTRL, KEY_KPMINUS],
        8 => vec![KEY_KPPLUS],
        9 => vec![KEY_E],
        12 => vec![KEY_B],
        13 => vec![KEY_RIGHTBRACE],
        _ => Vec::new(),
    }
}

/// The key codes for pen-button value code `id`, in emission order.
pub fn pen_keys(id: u8) -> (r: Vec<u16>)
    ensures
        r@ == pen_keys_spec(id),
{
    match id {
        4 => vec![BTN_STYLUS],
        6 => vec![BTN_STYLUS2],
        _ => Vec::new(),
    }
}

/// The mapping table is exhaustive over the valid tablet button range: every
/// button the hardware can assert has at least one key to emit. An unmapped
/// valid identifier would be a configuration defect; this rules it out once
/// and for all, so no per-cycle lookup can fail.
pub proof fn lemma_mapping_covers_all_buttons()
    ensures
        forall|i: u16| valid_tablet_button(i) ==> #[trigger] tablet_keys_spec(i).len() >= 1,
{
    assert forall|i: u16| valid_tablet_button(i) implies #[trigger] tablet_keys_spec(i).len()
        >= 1 by {
        if i == 7 {
            assert(tablet_keys_spec(7).len() == 2);
        } else {
            assert(tablet_keys_spec(i).len() == 1);
        }
    }
}

} // verus!

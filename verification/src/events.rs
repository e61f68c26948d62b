use vstd::prelude::*;

verus! {

/// The kind of an event handed to a virtual device sink, mirroring the
/// Linux input event types the sink understands.
#[derive(Clone, Copy, PartialEq, Eq, Structural, Debug)]
pub enum EventKind {
    Key,
    AbsoluteAxis,
    Synchronization,
}

/// One (kind, code, value) triple bound for a virtual device sink.
#[derive(Clone, Copy, PartialEq, Eq, Structural, Debug)]
pub struct OutputEvent {
    pub kind: EventKind,
    pub code: u16,
    pub value: i32,
}

/// Key-event value for a press edge.
pub const PRESSED: i32 = 1;
/// Key-event value for a release edge.
pub const RELEASED: i32 = 0;
/// Key-event value for a button held across consecutive reports.
pub const HOLD: i32 = 2;

// Linux input event codes for the keys and axes this driver emits.
pub const KEY_TAB: u16 = 15;
pub const KEY_E: u16 = 18;
pub const KEY_LEFTBRACE: u16 = 26;
pub const KEY_RIGHTBRACE: u16 = 27;
pub const KEY_LEFTCTRL: u16 = 29;
pub const KEY_B: u16 = 48;
pub const KEY_LEFTALT: u16 = 56;
pub const KEY_SPACE: u16 = 57;
pub const KEY_KPMINUS: u16 = 74;
pub const KEY_KPPLUS: u16 = 78;
pub const KEY_SCROLLUP: u16 = 177;
pub const KEY_SCROLLDOWN: u16 = 178;
pub const BTN_TOOL_PEN: u16 = 0x140;
pub const BTN_TOUCH: u16 = 0x14a;
pub const BTN_STYLUS: u16 = 0x14b;
pub const BTN_STYLUS2: u16 = 0x14c;
pub const ABS_X: u16 = 0x00;
pub const ABS_Y: u16 = 0x01;
pub const ABS_PRESSURE: u16 = 0x18;
pub const SYN_REPORT: u16 = 0;

/// A key event with the given code and value.
pub open spec fn key_event(code: u16, value: i32) -> OutputEvent {
    OutputEvent { kind: EventKind::Key, code, value }
}

/// An absolute-axis event with the given axis code and value.
pub open spec fn abs_event(code: u16, value: i32) -> OutputEvent {
    OutputEvent { kind: EventKind::AbsoluteAxis, code, value }
}

/// The end-of-frame synchronization event, one per sink per dispatch cycle.
pub open spec fn syn_event() -> OutputEvent {
    OutputEvent { kind: EventKind::Synchronization, code: SYN_REPORT, value: 0 }
}

/// One key event per code, all with the same value, in the order of `codes`.
pub open spec fn key_events(codes: Seq<u16>, value: i32) -> Seq<OutputEvent>
    decreases codes.len(),
{
    if codes.len() == 0 {
        Seq::empty()
    } else {
        seq![key_event(codes[0], value)] + key_events(codes.drop_first(), value)
    }
}

/// Appending a code appends the matching key event.
pub proof fn lemma_key_events_push(codes: Seq<u16>, code: u16, value: i32)
    ensures
        key_events(codes.push(code), value) == key_events(codes, value) + seq![
            key_event(code, value),
        ],
    decreases codes.len(),
{
    if codes.len() == 0 {
        reveal_with_fuel(key_events, 2);
        assert(codes.push(code).drop_first() =~= Seq::<u16>::empty());
        assert(codes.push(code)[0] == code);
        assert(key_events(codes.push(code), value) =~= seq![key_event(code, value)]);
        assert(key_events(codes, value) + seq![key_event(code, value)] =~= seq![
            key_event(code, value),
        ]);
    } else {
        assert(codes.push(code).drop_first() =~= codes.drop_first().push(code));
        lemma_key_events_push(codes.drop_first(), code, value);
        assert(key_events(codes.push(code), value) =~= key_events(codes, value) + seq![
            key_event(code, value),
        ]);
    }
}

} // verus!

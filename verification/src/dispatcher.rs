use vstd::prelude::*;

use crate::events::{
    abs_event, key_event, key_events, lemma_key_events_push, syn_event, EventKind, OutputEvent,
    ABS_PRESSURE, ABS_X, ABS_Y, BTN_TOUCH, HOLD, PRESSED, RELEASED, SYN_REPORT,
};
use crate::mapping::{pen_keys, pen_keys_spec, tablet_keys, tablet_keys_spec};
use crate::report::{
    pen_button_spec, pressure_spec, tablet_mask_spec, x_axis_spec, y_axis_spec, RawDataReader,
    MIN_REPORT_LEN,
};

verus! {

/// Raw pressure value at and above which the pen is not touching: the device
/// reports decreasing raw values under increasing physical pressure.
pub const PRESSURE_NO_CONTACT: i32 = 1740;

/// Pen-button value code the hardware asserts while a button stays held.
pub const PEN_HOLD_CODE: u8 = 2;

/// Sentinel for "nothing pressed yet": all bits set reads as "not pressed"
/// for every button under the active-low convention, so the very first
/// report can never produce a spurious release.
pub const TABLET_MASK_SENTINEL: u16 = 0xffff;

/// Whether the active-low bitmask `mask` has button `i` pressed.
pub open spec fn bit_pressed(mask: u16, i: u16) -> bool {
    mask & (1u16 << i) == 0
}

/// The edge for tablet button `i` between the remembered bitmask `last` and
/// the current bitmask `cur`: `Some(value)` for an edge or a sustained hold,
/// `None` when the button stays released.
pub open spec fn tablet_transition(last: u16, cur: u16, i: u16) -> Option<i32> {
    let was = bit_pressed(last, i);
    let now = bit_pressed(cur, i);
    if !was && now {
        Some(PRESSED)
    } else if was && !now {
        Some(RELEASED)
    } else if was && now {
        Some(HOLD)
    } else {
        None
    }
}

/// The key events emitted for tablet button `i` in one dispatch cycle.
/// Positions 10 and 11 are skipped entirely; a hold is emitted only when the
/// dispatcher is configured to report sustained holds.
pub open spec fn tablet_button_events(last: u16, cur: u16, hold: bool, i: u16) -> Seq<
    OutputEvent,
> {
    if i == 10 || i == 11 {
        Seq::empty()
    } else {
        match tablet_transition(last, cur, i) {
            Some(value) => {
                if value == HOLD && !hold {
                    Seq::empty()
                } else {
                    key_events(tablet_keys_spec(i), value)
                }
            },
            None => Seq::empty(),
        }
    }
}

/// The tablet key events for the buttons below `n`, in ascending button
/// order.
pub open spec fn tablet_events_upto(last: u16, cur: u16, hold: bool, n: int) -> Seq<OutputEvent>
    decreases n,
{
    if n <= 0 {
        Seq::empty()
    } else {
        tablet_events_upto(last, cur, hold, n - 1) + tablet_button_events(
            last,
            cur,
            hold,
            (n - 1) as u16,
        )
    }
}

/// All tablet key events of one dispatch cycle, buttons 0 through 13 in
/// ascending order.
pub open spec fn tablet_events_spec(last: u16, cur: u16, hold: bool) -> Seq<OutputEvent> {
    tablet_events_upto(last, cur, hold, 14)
}

/// The pen-button edge between the remembered value code `last` and the
/// current value code `cur`: `Some((value, button code))` when an event is
/// due. Code 2 is the hardware's "currently held" sentinel: a hold followed
/// by a pressed code is a fresh press, a pressed code followed by the hold
/// sentinel is a release, and a non-sentinel code repeating across two
/// reports is a sustained hold. The three cases are checked in exactly this
/// order.
pub open spec fn pen_transition(last: u8, cur: u8) -> Option<(i32, u8)> {
    if last == PEN_HOLD_CODE && (cur == 4 || cur == 6) {
        Some((PRESSED, cur))
    } else if cur == PEN_HOLD_CODE && (last == 4 || last == 6) {
        Some((RELEASED, last))
    } else if last != PEN_HOLD_CODE && last == cur {
        Some((HOLD, last))
    } else {
        None
    }
}

/// The pen key events of one dispatch cycle. A transition on an unmapped
/// value code (a hold of the "no button" code) emits nothing.
pub open spec fn pen_key_events_spec(last: u8, cur: u8) -> Seq<OutputEvent> {
    match pen_transition(last, cur) {
        Some((value, id)) => key_events(pen_keys_spec(id), value),
        None => Seq::empty(),
    }
}

/// Pressure normalization: the device reports decreasing raw values under
/// increasing physical pressure, with 1740 meaning "no contact". The result
/// is a 0-based increasing magnitude, clamped so any raw value at or above
/// 1740 yields exactly 0.
pub open spec fn normalize_spec(raw: int) -> int {
    if PRESSURE_NO_CONTACT - raw <= 0 {
        0
    } else {
        PRESSURE_NO_CONTACT - raw
    }
}

/// Whether a report with raw pressure `raw` counts as touching.
pub open spec fn is_touching_spec(raw: int) -> bool {
    normalize_spec(raw) > 0
}

/// The three absolute-axis events of one dispatch cycle, emitted
/// unconditionally whether or not the values changed.
pub open spec fn abs_events_spec(x: i32, y: i32, pressure: i32) -> Seq<OutputEvent> {
    seq![abs_event(ABS_X, x), abs_event(ABS_Y, y), abs_event(ABS_PRESSURE, pressure)]
}

/// The synthetic touch key events of one dispatch cycle: a press when touch
/// begins, a release when it ends, nothing while it stays the same.
pub open spec fn touch_events_spec(was: bool, now: bool) -> Seq<OutputEvent> {
    if !was && now {
        seq![key_event(BTN_TOUCH, PRESSED)]
    } else if was && !now {
        seq![key_event(BTN_TOUCH, RELEASED)]
    } else {
        Seq::empty()
    }
}

/// Everything the pen sink receives in one dispatch cycle, before the
/// end-of-frame synchronization event: pen-button key events, then the three
/// absolute axes, then the touch edge.
pub open spec fn pen_events_spec(pen_last: u8, was_touching: bool, d: Seq<u8>) -> Seq<
    OutputEvent,
> {
    pen_key_events_spec(pen_last, pen_button_spec(d)) + abs_events_spec(
        x_axis_spec(d) as i32,
        y_axis_spec(d) as i32,
        normalize_spec(pressure_spec(d) as int) as i32,
    ) + touch_events_spec(was_touching, is_touching_spec(pressure_spec(d) as int))
}

/// The events of one dispatch cycle, one vector per virtual device sink,
/// each ending with its own end-of-frame synchronization event.
pub struct DispatchOutput {
    pub keyboard: Vec<OutputEvent>,
    pub pen: Vec<OutputEvent>,
}

/// Why a dispatch call rejected its input.
#[derive(Clone, Copy, PartialEq, Eq, Structural, Debug)]
pub enum DecodeError {
    /// The report buffer is shorter than the highest field offset read, so
    /// decoding it would read out of bounds.
    ReportTooShort,
}

/// The edge-detecting dispatcher: remembers the previous decoded button
/// states and produces the state transition for every control on every
/// dispatch call.
pub struct DeviceDispatcher {
    /// Tablet-button bitmask of the previous report, active low. Starts at
    /// the all-bits-set sentinel, "nothing pressed yet".
    pub tablet_last_raw_pressed_buttons: u16,
    /// Pen-button value code of the previous report. Starts at 0, the
    /// hardware's "no pen button" value.
    pub pen_last_raw_pressed_button: u8,
    /// Whether the previous report counted as touching.
    pub was_touching: bool,
    /// Whether sustained tablet-button holds are reported each cycle; when
    /// off, only press and release edges are emitted.
    pub emits_tablet_hold: bool,
}

impl DeviceDispatcher {
    /// A dispatcher in its initial state: sentinels chosen so that the very
    /// first dispatch call can never emit a spurious release, and sustained
    /// tablet-button holds reported.
    pub fn new() -> (r: Self)
        ensures
            r.tablet_last_raw_pressed_buttons == TABLET_MASK_SENTINEL,
            r.pen_last_raw_pressed_button == 0u8,
            !r.was_touching,
            r.emits_tablet_hold,
    {
        DeviceDispatcher {
            tablet_last_raw_pressed_buttons: TABLET_MASK_SENTINEL,
            pen_last_raw_pressed_button: 0,
            was_touching: false,
            emits_tablet_hold: true,
        }
    }

    /// Configure whether sustained tablet-button holds are reported.
    pub fn set_tablet_hold(&mut self, enabled: bool)
        ensures
            final(self).emits_tablet_hold == enabled,
            final(self).tablet_last_raw_pressed_buttons == old(
                self,
            ).tablet_last_raw_pressed_buttons,
            final(self).pen_last_raw_pressed_button == old(self).pen_last_raw_pressed_button,
            final(self).was_touching == old(self).was_touching,
    {
        self.emits_tablet_hold = enabled;
    }

    /// The end-of-frame synchronization event. The surrounding program must
    /// send it once per virtual device per dispatch cycle; the vectors
    /// `dispatch` returns already end with it.
    pub fn syn(&self) -> (r: OutputEvent)
        ensures
            r == syn_event(),
    {
        OutputEvent { kind: EventKind::Synchronization, code: SYN_REPORT, value: 0 }
    }

    /// Pressure normalization; see `normalize_spec`.
    pub fn normalize_pressure(raw_pressure: i32) -> (r: i32)
        requires
            0 <= raw_pressure,
        ensures
            r == normalize_spec(raw_pressure as int),
    {
        let x = PRESSURE_NO_CONTACT - raw_pressure;
        if x <= 0 {
            0
        } else {
            x
        }
    }

    /// The key events for tablet button `i`, computed against the remembered
    /// bitmask without changing it.
    pub fn emit_tablet_key_event(&self, i: u8, raw_button_as_flags: u16) -> (r: Vec<OutputEvent>)
        requires
            i < 14,
            i != 10,
            i != 11,
        ensures
            r@ == tablet_button_events(
                self.tablet_last_raw_pressed_buttons,
                raw_button_as_flags,
                self.emits_tablet_hold,
                i as u16,
            ),
    {
        let id_as_binary_mask: u16 = 1u16 << (i as u16);
        let is_pressed = (raw_button_as_flags & id_as_binary_mask) == 0;
        let was_pressed = (self.tablet_last_raw_pressed_buttons & id_as_binary_mask) == 0;
        let state: Option<i32> = if !was_pressed && is_pressed {
            Some(PRESSED)
        } else if was_pressed && !is_pressed {
            Some(RELEASED)
        } else if was_pressed && is_pressed && self.emits_tablet_hold {
            Some(HOLD)
        } else {
            None
        };
        let mut events: Vec<OutputEvent> = Vec::new();
        if let Some(value) = state {
            let keys = tablet_keys(i);
            let mut k: usize = 0;
            while k < keys.len()
                invariant
                    k <= keys@.len(),
                    keys@ == tablet_keys_spec(i as u16),
                    events@ == key_events(keys@.subrange(0, k as int), value),
                decreases keys@.len() - k,
            {
                proof {
                    lemma_key_events_push(keys@.subrange(0, k as int), keys@[k as int], value);
                    assert(keys@.subrange(0, k as int).push(keys@[k as int]) =~= keys@.subrange(
                        0,
                        k as int + 1,
                    ));
                }
                events.push(OutputEvent { kind: EventKind::Key, code: keys[k], value });
                k = k + 1;
            }
            proof {
                assert(keys@.subrange(0, keys@.len() as int) =~= keys@);
            }
        }
        events
    }

    /// The tablet key events of one dispatch cycle: every valid button in
    /// ascending order, each compared against the one remembered bitmask.
    pub fn binary_flags_to_tablet_key_events(&self, raw_button_as_flags: u16) -> (r: Vec<
        OutputEvent,
    >)
        ensures
            r@ == tablet_events_spec(
                self.tablet_last_raw_pressed_buttons,
                raw_button_as_flags,
                self.emits_tablet_hold,
            ),
    {
        let mut events: Vec<OutputEvent> = Vec::new();
        let mut i: u8 = 0;
        while i < 14
            invariant
                i <= 14,
                events@ == tablet_events_upto(
                    self.tablet_last_raw_pressed_buttons,
                    raw_button_as_flags,
                    self.emits_tablet_hold,
                    i as int,
                ),
            decreases 14 - i,
        {
            if i != 10 && i != 11 {
                let mut step = self.emit_tablet_key_event(i, raw_button_as_flags);
                events.append(&mut step);
            } else {
                proof {
                    assert(tablet_button_events(
                        self.tablet_last_raw_pressed_buttons,
                        raw_button_as_flags,
                        self.emits_tablet_hold,
                        i as u16,
                    ) =~= Seq::<OutputEvent>::empty());
                    assert(events@ + Seq::<OutputEvent>::empty() =~= events@);
                }
            }
            i = i + 1;
        }
        events
    }

    /// The pen key events due for the current pen-button value code,
    /// computed against the remembered code without changing it.
    pub fn raw_pen_buttons_to_pen_key_events(&self, pen_button: u8) -> (r: Vec<OutputEvent>)
        ensures
            r@ == pen_key_events_spec(self.pen_last_raw_pressed_button, pen_button),
    {
        let last = self.pen_last_raw_pressed_button;
        let state: Option<(i32, u8)> = if last == PEN_HOLD_CODE && (pen_button == 4 || pen_button
            == 6) {
            Some((PRESSED, pen_button))
        } else if pen_button == PEN_HOLD_CODE && (last == 4 || last == 6) {
            Some((RELEASED, last))
        } else if last != PEN_HOLD_CODE && last == pen_button {
            Some((HOLD, last))
        } else {
            None
        };
        let mut events: Vec<OutputEvent> = Vec::new();
        if let Some((value, id)) = state {
            let keys = pen_keys(id);
            let mut k: usize = 0;
            while k < keys.len()
                invariant
                    k <= keys@.len(),
                    keys@ == pen_keys_spec(id),
                    events@ == key_events(keys@.subrange(0, k as int), value),
                decreases keys@.len() - k,
            {
                proof {
                    lemma_key_events_push(keys@.subrange(0, k as int), keys@[k as int], value);
                    assert(keys@.subrange(0, k as int).push(keys@[k as int]) =~= keys@.subrange(
                        0,
                        k as int + 1,
                    ));
                }
                events.push(OutputEvent { kind: EventKind::Key, code: keys[k], value });
                k = k + 1;
            }
            proof {
                assert(keys@.subrange(0, keys@.len() as int) =~= keys@);
            }
        }
        events
    }

    /// The three absolute-axis events of one dispatch cycle, emitted
    /// unconditionally to keep axis latency minimal; the sink tolerates
    /// redundant identical values.
    pub fn raw_pen_abs_to_pen_abs_events(&self, x_axis: i32, y_axis: i32, pressure: i32) -> (r:
        Vec<OutputEvent>)
        ensures
            r@ == abs_events_spec(x_axis, y_axis, pressure),
    {
        let mut events: Vec<OutputEvent> = Vec::new();
        events.push(OutputEvent { kind: EventKind::AbsoluteAxis, code: ABS_X, value: x_axis });
        events.push(OutputEvent { kind: EventKind::AbsoluteAxis, code: ABS_Y, value: y_axis });
        events.push(
            OutputEvent { kind: EventKind::AbsoluteAxis, code: ABS_PRESSURE, value: pressure },
        );
        proof {
            assert(events@ =~= abs_events_spec(x_axis, y_axis, pressure));
        }
        events
    }

    /// The touch edge of one dispatch cycle. Updates the remembered touch
    /// state unconditionally, whether or not an event is emitted.
    pub fn pen_emit_touch(&mut self, raw_data: &RawDataReader) -> (r: Vec<OutputEvent>)
        requires
            raw_data.data@.len() >= MIN_REPORT_LEN,
        ensures
            r@ == touch_events_spec(
                old(self).was_touching,
                is_touching_spec(pressure_spec(raw_data.data@) as int),
            ),
            final(self).was_touching == is_touching_spec(pressure_spec(raw_data.data@) as int),
            final(self).tablet_last_raw_pressed_buttons == old(
                self,
            ).tablet_last_raw_pressed_buttons,
            final(self).pen_last_raw_pressed_button == old(self).pen_last_raw_pressed_button,
            final(self).emits_tablet_hold == old(self).emits_tablet_hold,
    {
        let is_touching = Self::normalize_pressure(raw_data.pressure()) > 0;
        let mut events: Vec<OutputEvent> = Vec::new();
        if !self.was_touching && is_touching {
            events.push(OutputEvent { kind: EventKind::Key, code: BTN_TOUCH, value: PRESSED });
        } else if self.was_touching && !is_touching {
            events.push(OutputEvent { kind: EventKind::Key, code: BTN_TOUCH, value: RELEASED });
        }
        proof {
            assert(events@ =~= touch_events_spec(
                old(self).was_touching,
                is_touching_spec(pressure_spec(raw_data.data@) as int),
            ));
        }
        self.was_touching = is_touching;
        events
    }

    /// The tablet half of one dispatch cycle: all per-button comparisons use
    /// the prior bitmask, and the remembered bitmask is overwritten only
    /// after the full pass.
    pub fn emit_tablet_events(&mut self, raw_data: &RawDataReader) -> (r: Vec<OutputEvent>)
        requires
            raw_data.data@.len() >= MIN_REPORT_LEN,
        ensures
            r@ == tablet_events_spec(
                old(self).tablet_last_raw_pressed_buttons,
                tablet_mask_spec(raw_data.data@),
                old(self).emits_tablet_hold,
            ),
            final(self).tablet_last_raw_pressed_buttons == tablet_mask_spec(raw_data.data@),
            final(self).pen_last_raw_pressed_button == old(self).pen_last_raw_pressed_button,
            final(self).was_touching == old(self).was_touching,
            final(self).emits_tablet_hold == old(self).emits_tablet_hold,
    {
        let raw_button_as_binary_flags = raw_data.tablet_buttons_as_binary_flags();
        let events = self.binary_flags_to_tablet_key_events(raw_button_as_binary_flags);
        self.tablet_last_raw_pressed_buttons = raw_button_as_binary_flags;
        events
    }

    /// The pen half of one dispatch cycle: pen-button key events against the
    /// remembered value code, then the three absolute axes, then the touch
    /// edge; the remembered code is overwritten after the comparison.
    pub fn emit_pen_events(&mut self, raw_data: &RawDataReader) -> (r: Vec<OutputEvent>)
        requires
            raw_data.data@.len() >= MIN_REPORT_LEN,
        ensures
            r@ == pen_events_spec(
                old(self).pen_last_raw_pressed_button,
                old(self).was_touching,
                raw_data.data@,
            ),
            final(self).pen_last_raw_pressed_button == pen_button_spec(raw_data.data@),
            final(self).was_touching == is_touching_spec(pressure_spec(raw_data.data@) as int),
            final(self).tablet_last_raw_pressed_buttons == old(
                self,
            ).tablet_last_raw_pressed_buttons,
            final(self).emits_tablet_hold == old(self).emits_tablet_hold,
    {
        let raw_pen_buttons = raw_data.pen_buttons();
        let mut events = self.raw_pen_buttons_to_pen_key_events(raw_pen_buttons);
        self.pen_last_raw_pressed_button = raw_pen_buttons;
        let normalized_pressure = Self::normalize_pressure(raw_data.pressure());
        let mut abs = self.raw_pen_abs_to_pen_abs_events(
            raw_data.x_axis(),
            raw_data.y_axis(),
            normalized_pressure,
        );
        events.append(&mut abs);
        let mut touch = self.pen_emit_touch(raw_data);
        events.append(&mut touch);
        events
    }

    /// One full dispatch cycle. Rejects a report shorter than the highest
    /// field offset read, leaving the dispatcher unchanged. Otherwise emits
    /// the pen frame and the tablet (keyboard) frame, each ending with its
    /// own end-of-frame synchronization event, and commits the new remembered
    /// state — edges are always computed against the state one whole report
    /// back, never bit by bit.
    pub fn dispatch(&mut self, raw_data: &RawDataReader) -> (r: Result<
        DispatchOutput,
        DecodeError,
    >)
        ensures
            raw_data.data@.len() < MIN_REPORT_LEN ==> r == Err::<DispatchOutput, DecodeError>(
                DecodeError::ReportTooShort,
            )
                && *final(self) == *old(self),
            raw_data.data@.len() >= MIN_REPORT_LEN ==> (r matches Ok(out)
                && out.keyboard@ == tablet_events_spec(
                old(self).tablet_last_raw_pressed_buttons,
                tablet_mask_spec(raw_data.data@),
                old(self).emits_tablet_hold,
            ) + seq![syn_event()]
                && out.pen@ == pen_events_spec(
                old(self).pen_last_raw_pressed_button,
                old(self).was_touching,
                raw_data.data@,
            ) + seq![syn_event()]
                && final(self).tablet_last_raw_pressed_buttons == tablet_mask_spec(raw_data.data@)
                && final(self).pen_last_raw_pressed_button == pen_button_spec(raw_data.data@)
                && final(self).was_touching == is_touching_spec(pressure_spec(raw_data.data@) as int)
                && final(self).emits_tablet_hold == old(self).emits_tablet_hold),
    {
        if raw_data.data.len() < MIN_REPORT_LEN {
            return Err(DecodeError::ReportTooShort);
        }
        let mut pen = self.emit_pen_events(raw_data);
        pen.push(self.syn());
        let mut keyboard = self.emit_tablet_events(raw_data);
        keyboard.push(self.syn());
        Ok(DispatchOutput { keyboard, pen })
    }
}

} // verus!

use mx002::dispatcher::{DecodeError, DeviceDispatcher, DispatchOutput};
use mx002::events::{
    EventKind, OutputEvent, ABS_PRESSURE, BTN_STYLUS, BTN_TOUCH, HOLD, KEY_KPMINUS, KEY_LEFTCTRL,
    PRESSED, RELEASED, SYN_REPORT,
};
use mx002::report::RawDataReader;

/// A report with every tablet button released and the pen at no-contact
/// pressure (raw 1740) with no pen button asserted.
fn base_report() -> RawDataReader {
    let mut r = RawDataReader::new();
    r.data[11] = 0xff;
    r.data[12] = 0xff;
    r.data[5] = 0x06;
    r.data[6] = 0xcc;
    r
}

fn set_pressure(r: &mut RawDataReader, raw: u16) {
    r.data[5] = (raw >> 8) as u8;
    r.data[6] = (raw & 0xff) as u8;
}

fn key_events_with_code(events: &[OutputEvent], code: u16) -> Vec<(u16, i32)> {
    events
        .iter()
        .filter(|e| e.kind == EventKind::Key && e.code == code)
        .map(|e| (e.code, e.value))
        .collect()
}

fn edge_key_events(events: &[OutputEvent]) -> Vec<(u16, i32)> {
    events
        .iter()
        .filter(|e| e.kind == EventKind::Key && (e.value == PRESSED || e.value == RELEASED))
        .map(|e| (e.code, e.value))
        .collect()
}

fn dispatch_ok(d: &mut DeviceDispatcher, r: &RawDataReader) -> DispatchOutput {
    d.dispatch(r).expect("report of full length must dispatch")
}

#[test]
fn pen_button_sequence_press_hold_press() {
    let mut d = DeviceDispatcher::new();
    let mut r = base_report();

    // Pen byte 0 against the initial remembered 0: a hold of the unmapped
    // "no button" code, so no stylus event.
    r.data[9] = 0;
    let out = dispatch_ok(&mut d, &r);
    assert_eq!(key_events_with_code(&out.pen, BTN_STYLUS), vec![]);

    // (0, 4): no transition rule matches, so no stylus event yet.
    r.data[9] = 4;
    let out = dispatch_ok(&mut d, &r);
    assert_eq!(key_events_with_code(&out.pen, BTN_STYLUS), vec![]);

    // (4, 2): the pressed code followed by the hold sentinel is a release.
    r.data[9] = 2;
    let out = dispatch_ok(&mut d, &r);
    assert_eq!(
        key_events_with_code(&out.pen, BTN_STYLUS),
        vec![(BTN_STYLUS, RELEASED)]
    );

    // (2, 4): the hold sentinel followed by a pressed code is a fresh press.
    r.data[9] = 4;
    let out = dispatch_ok(&mut d, &r);
    assert_eq!(
        key_events_with_code(&out.pen, BTN_STYLUS),
        vec![(BTN_STYLUS, PRESSED)]
    );
}

#[test]
fn pen_button_repeat_is_hold() {
    let mut d = DeviceDispatcher::new();
    let mut r = base_report();
    r.data[9] = 4;
    dispatch_ok(&mut d, &r);
    // (4, 4): the code repeats without passing through the hold sentinel.
    let out = dispatch_ok(&mut d, &r);
    assert_eq!(
        key_events_with_code(&out.pen, BTN_STYLUS),
        vec![(BTN_STYLUS, HOLD)]
    );
}

#[test]
fn touch_sequence_press_then_release() {
    let mut d = DeviceDispatcher::new();
    let mut r = base_report();

    let mut touch_seen = Vec::new();
    let mut normalized_seen = Vec::new();
    for raw in [1740u16, 1200, 1740] {
        set_pressure(&mut r, raw);
        let out = dispatch_ok(&mut d, &r);
        touch_seen.push(key_events_with_code(&out.pen, BTN_TOUCH));
        let abs: Vec<i32> = out
            .pen
            .iter()
            .filter(|e| e.kind == EventKind::AbsoluteAxis && e.code == ABS_PRESSURE)
            .map(|e| e.value)
            .collect();
        normalized_seen.push(abs);
    }
    assert_eq!(normalized_seen, vec![vec![0], vec![540], vec![0]]);
    assert_eq!(
        touch_seen,
        vec![
            vec![],
            vec![(BTN_TOUCH, PRESSED)],
            vec![(BTN_TOUCH, RELEASED)]
        ]
    );
}

#[test]
fn tablet_press_edge_emits_every_mapped_key_once() {
    let mut d = DeviceDispatcher::new();
    let r = base_report();
    let out = dispatch_ok(&mut d, &r);
    // Nothing pressed against the initial sentinel: only the frame sync.
    assert_eq!(out.keyboard.len(), 1);
    assert_eq!(out.keyboard[0].kind, EventKind::Synchronization);

    // Button 7 goes from released to pressed (active low: bit 7 clears);
    // it fans out to a modifier plus a key, each pressed exactly once.
    let mut pressed = base_report();
    pressed.data[11] = 0x7f;
    let out = dispatch_ok(&mut d, &pressed);
    assert_eq!(
        out.keyboard,
        vec![
            OutputEvent {
                kind: EventKind::Key,
                code: KEY_LEFTCTRL,
                value: PRESSED
            },
            OutputEvent {
                kind: EventKind::Key,
                code: KEY_KPMINUS,
                value: PRESSED
            },
            OutputEvent {
                kind: EventKind::Synchronization,
                code: SYN_REPORT,
                value: 0
            },
        ]
    );
    assert_eq!(d.tablet_last_raw_pressed_buttons, 0xff7f);

    // Releasing it again emits one release per mapped key.
    let out = dispatch_ok(&mut d, &r);
    assert_eq!(
        edge_key_events(&out.keyboard),
        vec![(KEY_LEFTCTRL, RELEASED), (KEY_KPMINUS, RELEASED)]
    );
}

#[test]
fn repeated_report_emits_no_edges() {
    let mut d = DeviceDispatcher::new();
    let mut r = base_report();
    // Button 3 held down and the pen touching.
    r.data[11] = 0xf7;
    set_pressure(&mut r, 1200);

    let first = dispatch_ok(&mut d, &r);
    assert_eq!(
        edge_key_events(&first.keyboard),
        vec![(KEY_LEFTCTRL, PRESSED)]
    );
    assert_eq!(edge_key_events(&first.pen), vec![(BTN_TOUCH, PRESSED)]);

    // The same report again: no press or release anywhere, only a hold.
    let second = dispatch_ok(&mut d, &r);
    assert_eq!(edge_key_events(&second.keyboard), vec![]);
    assert_eq!(edge_key_events(&second.pen), vec![]);
    assert_eq!(
        key_events_with_code(&second.keyboard, KEY_LEFTCTRL),
        vec![(KEY_LEFTCTRL, HOLD)]
    );

    // With sustained holds off, the repeat cycle emits no key event at all.
    d.set_tablet_hold(false);
    let third = dispatch_ok(&mut d, &r);
    assert_eq!(third.keyboard.len(), 1);
    assert_eq!(third.keyboard[0].kind, EventKind::Synchronization);
}

#[test]
fn first_dispatch_never_releases() {
    // An all-zero report asserts every tablet button the hardware drives,
    // full pressure and the "no pen button" code: the first dispatch may
    // press plenty but must release nothing.
    let mut d = DeviceDispatcher::new();
    let r = RawDataReader::new();
    let out = dispatch_ok(&mut d, &r);
    for e in out.keyboard.iter().chain(out.pen.iter()) {
        if e.kind == EventKind::Key {
            assert_ne!(e.value, RELEASED);
        }
    }
    // And it does press: twelve buttons, one of which fans out to two keys.
    let presses = out
        .keyboard
        .iter()
        .filter(|e| e.kind == EventKind::Key && e.value == PRESSED)
        .count();
    assert_eq!(presses, 13);
    assert_eq!(
        key_events_with_code(&out.pen, BTN_TOUCH),
        vec![(BTN_TOUCH, PRESSED)]
    );
}

#[test]
fn short_report_is_rejected_and_state_kept() {
    let mut d = DeviceDispatcher::new();
    let mut r = base_report();
    r.data.truncate(13);
    let err = d.dispatch(&r);
    assert!(matches!(err, Err(DecodeError::ReportTooShort)));
    assert_eq!(d.tablet_last_raw_pressed_buttons, 0xffff);
    assert_eq!(d.pen_last_raw_pressed_button, 0);
    assert!(!d.was_touching);

    // Exactly the minimum length decodes.
    let mut shortest = base_report();
    shortest.data.truncate(14);
    assert!(d.dispatch(&shortest).is_ok());
}

#[test]
fn dispatch_commits_new_state_after_full_pass() {
    let mut d = DeviceDispatcher::new();
    let mut r = base_report();
    r.data[9] = 4;
    r.data[11] = 0xfe;
    set_pressure(&mut r, 1000);
    dispatch_ok(&mut d, &r);
    assert_eq!(d.tablet_last_raw_pressed_buttons, 0xfffe);
    assert_eq!(d.pen_last_raw_pressed_button, 4);
    assert!(d.was_touching);
}

#[test]
fn every_frame_ends_with_exactly_one_syn() {
    let mut d = DeviceDispatcher::new();
    let mut r = RawDataReader::new();
    for step in 0..4u8 {
        r.data[9] = step;
        r.data[11] = step.wrapping_mul(37);
        let out = dispatch_ok(&mut d, &r);
        for frame in [&out.keyboard, &out.pen] {
            let syns = frame
                .iter()
                .filter(|e| e.kind == EventKind::Synchronization)
                .count();
            assert_eq!(syns, 1);
            assert_eq!(
                frame.last().unwrap(),
                &OutputEvent {
                    kind: EventKind::Synchronization,
                    code: SYN_REPORT,
                    value: 0
                }
            );
        }
    }
}

#[test]
fn syn_is_the_sync_report_event() {
    let d = DeviceDispatcher::new();
    assert_eq!(
        d.syn(),
        OutputEvent {
            kind: EventKind::Synchronization,
            code: SYN_REPORT,
            value: 0
        }
    );
}

#[test]
fn pressure_normalization_values() {
    assert_eq!(DeviceDispatcher::normalize_pressure(1740), 0);
    assert_eq!(DeviceDispatcher::normalize_pressure(2000), 0);
    assert_eq!(DeviceDispatcher::normalize_pressure(1240), 500);
    assert_eq!(DeviceDispatcher::normalize_pressure(0), 1740);
}

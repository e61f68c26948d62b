use mx002::events::{
    ABS_PRESSURE, ABS_X, ABS_Y, BTN_STYLUS, BTN_STYLUS2, BTN_TOOL_PEN, BTN_TOUCH, KEY_B, KEY_E,
    KEY_KPMINUS, KEY_KPPLUS, KEY_LEFTALT, KEY_LEFTBRACE, KEY_LEFTCTRL, KEY_RIGHTBRACE,
    KEY_SCROLLDOWN, KEY_SCROLLUP, KEY_SPACE, KEY_TAB, SYN_REPORT,
};
use evdev::{AbsoluteAxisCode, KeyCode, SynchronizationCode};
use mx002::mapping::{pen_keys, tablet_keys};
use mx002::report::RawDataReader;

#[test]
fn new_report_buffer_is_zeroed_and_full_length() {
    let r = RawDataReader::new();
    assert_eq!(r.data.len(), 64);
    assert!(r.data.iter().all(|&b| b == 0));
}

#[test]
fn compose_is_big_endian() {
    let r = RawDataReader::new();
    assert_eq!(r.u16_from_2_u8(0xab, 0xcd), 0xabcd);
    assert_eq!(r.u16_from_2_u8(0x00, 0x01), 1);
    assert_eq!(r.u16_from_2_u8(0x01, 0x00), 256);
}

#[test]
fn fields_read_at_their_offsets() {
    let mut r = RawDataReader::new();
    r.data[1] = 0x12;
    r.data[2] = 0x34;
    r.data[3] = 0x0a;
    r.data[4] = 0xbc;
    r.data[5] = 0x04;
    r.data[6] = 0xd2;
    r.data[9] = 6;
    r.data[11] = 0x21;
    r.data[12] = 0x03;
    assert_eq!(r.x_axis(), 0x1234);
    assert_eq!(r.y_axis(), 0x0abc);
    assert_eq!(r.pressure(), 1234);
    assert_eq!(r.pen_buttons(), 6);
    // Composed as (high << 8) | low, then OR'ed with the forced mask.
    assert_eq!(r.tablet_buttons_as_binary_flags(), 0x0321 | 0xcc00);
}

#[test]
fn undriven_tablet_bits_always_read_not_pressed() {
    // Even if the hardware leaves bits 10 and 11 clear, the forced mask
    // keeps them set, which reads as "not pressed" under active low.
    let mut r = RawDataReader::new();
    r.data[11] = 0x00;
    r.data[12] = 0x00;
    let flags = r.tablet_buttons_as_binary_flags();
    assert_ne!(flags & (1 << 10), 0);
    assert_ne!(flags & (1 << 11), 0);
    assert_ne!(flags & (1 << 14), 0);
    assert_ne!(flags & (1 << 15), 0);
    assert_eq!(flags & 0x03ff, 0);
}

#[test]
fn tablet_mapping_rows() {
    assert_eq!(tablet_keys(0), vec![KEY_TAB]);
    assert_eq!(tablet_keys(1), vec![KEY_SPACE]);
    assert_eq!(tablet_keys(2), vec![KEY_LEFTALT]);
    assert_eq!(tablet_keys(3), vec![KEY_LEFTCTRL]);
    assert_eq!(tablet_keys(4), vec![KEY_SCROLLDOWN]);
    assert_eq!(tablet_keys(5), vec![KEY_SCROLLUP]);
    assert_eq!(tablet_keys(6), vec![KEY_LEFTBRACE]);
    assert_eq!(tablet_keys(7), vec![KEY_LEFTCTRL, KEY_KPMINUS]);
    assert_eq!(tablet_keys(8), vec![KEY_KPPLUS]);
    assert_eq!(tablet_keys(9), vec![KEY_E]);
    assert_eq!(tablet_keys(12), vec![KEY_B]);
    assert_eq!(tablet_keys(13), vec![KEY_RIGHTBRACE]);
    // The skipped positions and anything out of range map to nothing.
    assert!(tablet_keys(10).is_empty());
    assert!(tablet_keys(11).is_empty());
    assert!(tablet_keys(14).is_empty());
}

#[test]
fn pen_mapping_rows() {
    assert_eq!(pen_keys(4), vec![BTN_STYLUS]);
    assert_eq!(pen_keys(6), vec![BTN_STYLUS2]);
    assert!(pen_keys(0).is_empty());
    assert!(pen_keys(2).is_empty());
}

#[test]
fn event_codes_match_the_linux_input_codes() {
    assert_eq!(KeyCode::KEY_TAB.code(), KEY_TAB);
    assert_eq!(KeyCode::KEY_SPACE.code(), KEY_SPACE);
    assert_eq!(KeyCode::KEY_LEFTALT.code(), KEY_LEFTALT);
    assert_eq!(KeyCode::KEY_LEFTCTRL.code(), KEY_LEFTCTRL);
    assert_eq!(KeyCode::KEY_SCROLLDOWN.code(), KEY_SCROLLDOWN);
    assert_eq!(KeyCode::KEY_SCROLLUP.code(), KEY_SCROLLUP);
    assert_eq!(KeyCode::KEY_LEFTBRACE.code(), KEY_LEFTBRACE);
    assert_eq!(KeyCode::KEY_RIGHTBRACE.code(), KEY_RIGHTBRACE);
    assert_eq!(KeyCode::KEY_KPMINUS.code(), KEY_KPMINUS);
    assert_eq!(KeyCode::KEY_KPPLUS.code(), KEY_KPPLUS);
    assert_eq!(KeyCode::KEY_E.code(), KEY_E);
    assert_eq!(KeyCode::KEY_B.code(), KEY_B);
    assert_eq!(KeyCode::BTN_STYLUS.code(), BTN_STYLUS);
    assert_eq!(KeyCode::BTN_STYLUS2.code(), BTN_STYLUS2);
    assert_eq!(KeyCode::BTN_TOUCH.code(), BTN_TOUCH);
    assert_eq!(KeyCode::BTN_TOOL_PEN.code(), BTN_TOOL_PEN);
    assert_eq!(AbsoluteAxisCode::ABS_X.0, ABS_X);
    assert_eq!(AbsoluteAxisCode::ABS_Y.0, ABS_Y);
    assert_eq!(AbsoluteAxisCode::ABS_PRESSURE.0, ABS_PRESSURE);
    assert_eq!(SynchronizationCode::SYN_REPORT.0, SYN_REPORT);
}

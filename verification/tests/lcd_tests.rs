use screen::Backlight;
use screen::BitAction;
use screen::BitMode;
use screen::Blink;
use screen::BusError;
use screen::Cursor;
use screen::Direction;
use screen::Display;
use screen::DisplayControl;
use screen::Dots;
use screen::Entries;
use screen::HwEvent;
use screen::Lcd;
use screen::Lines;
use screen::MockPort;
use screen::Mode;
use screen::MoveSelect;
use screen::Shift;

const ADDR: u8 = 0x27;

fn w(byte: u8) -> HwEvent {
    HwEvent::Write { addr: ADDR, byte }
}

fn dms(ms: u32) -> HwEvent {
    HwEvent::DelayMs { ms }
}

fn dus(us: u32) -> HwEvent {
    HwEvent::DelayUs { us }
}

/// The full power-on sequence for a 16x2 display at 0x27 with the default
/// control state (backlight on), written out byte for byte.
fn expected_init() -> Vec<HwEvent> {
    vec![
        // power-up settle, backlight establish
        dms(50),
        w(0x08),
        dms(1),
        // 8-bit-mode function-set nibble, three times
        w(0x38),
        w(0x3C),
        dus(1),
        w(0x38),
        dus(1),
        dms(5),
        w(0x38),
        w(0x3C),
        dus(1),
        w(0x38),
        dus(1),
        dms(5),
        w(0x38),
        w(0x3C),
        dus(1),
        w(0x38),
        dus(1),
        dms(5),
        // 4-bit-mode nibble
        w(0x28),
        w(0x2C),
        dus(1),
        w(0x28),
        dus(1),
        dms(5),
        // full function set 0x28 as two nibbles
        w(0x28),
        w(0x2C),
        dus(1),
        w(0x28),
        dus(1),
        w(0x88),
        w(0x8C),
        dus(1),
        w(0x88),
        dus(1),
        // clear (0x01) as two nibbles, plus its execution delay
        w(0x08),
        w(0x0C),
        dus(1),
        w(0x08),
        dus(1),
        w(0x18),
        w(0x1C),
        dus(1),
        w(0x18),
        dus(1),
        dms(2),
        // entry mode 0x06 as two nibbles
        w(0x08),
        w(0x0C),
        dus(1),
        w(0x08),
        dus(1),
        w(0x68),
        w(0x6C),
        dus(1),
        w(0x68),
        dus(1),
    ]
}

/// One command or data byte under backlight bits `bl`: two nibble
/// transfers, high first, each with its enable strobe.
fn expected_send(data: u8, role: u8, bl: u8) -> Vec<HwEvent> {
    let hi: u8 = (data & 0xf0) | role;
    let lo: u8 = ((data << 4) & 0xf0) | role;
    vec![
        w(hi | bl),
        w(hi | 0x04 | bl),
        dus(1),
        w(hi | bl),
        dus(1),
        w(lo | bl),
        w(lo | 0x04 | bl),
        dus(1),
        w(lo | bl),
        dus(1),
    ]
}

fn fresh_lcd() -> Lcd<MockPort> {
    Lcd::new(MockPort::new(), ADDR, 16, 2).expect("construction with a healthy mock succeeds")
}

#[test]
fn control_default_value() {
    let control = DisplayControl::new();
    // cursor off, display off, blink off, backlight on: only 0x08 is set
    assert_eq!(control.value(), 0x08);
    // pure: a second call without mutation yields the same byte
    assert_eq!(control.value(), control.value());
    let default_control = DisplayControl::default();
    assert_eq!(default_control.value(), 0x08);
}

#[test]
fn control_value_aggregates_four_flags() {
    let control = DisplayControl {
        cursor: Cursor::On,
        display: Display::On,
        blink: Blink::On,
        backlight: Backlight::On,
        direction: Direction::LEFT,
    };
    assert_eq!(control.value(), 0x01 | 0x02 | 0x04 | 0x08);
}

#[test]
fn control_value_ignores_direction() {
    let mut control = DisplayControl::new();
    let before = control.value();
    control.direction = Direction::RIGHT;
    assert_eq!(control.value(), before);
}

#[test]
fn control_value_tracks_backlight() {
    let mut control = DisplayControl::new();
    control.backlight = Backlight::Off;
    assert_eq!(control.value(), 0x00);
}

#[test]
fn flag_encodings_match_the_controller() {
    assert_eq!(Cursor::On.bits(), 0x02);
    assert_eq!(Cursor::Off.bits(), 0x00);
    assert_eq!(Blink::On.bits(), 0x01);
    assert_eq!(Display::On.bits(), 0x04);
    assert_eq!(Backlight::On.bits(), 0x08);
    assert_eq!(Mode::COMMAND.bits(), 0x00);
    assert_eq!(Mode::CLEARDISPLAY.bits(), 0x01);
    assert_eq!(Mode::RETURNHOME.bits(), 0x02);
    assert_eq!(Mode::ENTRYMODESET.bits(), 0x04);
    assert_eq!(Mode::DISPLAYCONTROL.bits(), 0x08);
    assert_eq!(Mode::CURSORSHIFT.bits(), 0x10);
    assert_eq!(Mode::FUNCTIONSET.bits(), 0x20);
    assert_eq!(Mode::SETCGRAMADDR.bits(), 0x40);
    assert_eq!(Mode::SETDDRAMADDR.bits(), 0x80);
    assert_eq!(Entries::LEFT.bits(), 0x02);
    assert_eq!(Entries::RIGHT.bits(), 0x00);
    assert_eq!(MoveSelect::DISPLAY.bits(), 0x08);
    assert_eq!(MoveSelect::CURSOR.bits(), 0x00);
    assert_eq!(Direction::RIGHT.bits(), 0x04);
    assert_eq!(Direction::LEFT.bits(), 0x00);
    assert_eq!(Shift::INCREMENT.bits(), 0x01);
    assert_eq!(Shift::DECREMENT.bits(), 0x00);
    assert_eq!(BitMode::Bit4.bits(), 0x00);
    assert_eq!(BitMode::Bit8.bits(), 0x10);
    assert_eq!(Dots::Dots5x8.bits(), 0x00);
    assert_eq!(Dots::Dots5x10.bits(), 0x04);
    assert_eq!(Lines::OneLine.bits(), 0x00);
    assert_eq!(Lines::TwoLine.bits(), 0x08);
    assert_eq!(BitAction::Command.bits(), 0x00);
    assert_eq!(BitAction::Enable.bits(), 0x04);
    assert_eq!(BitAction::ReadWrite.bits(), 0x02);
    assert_eq!(BitAction::RegisterSelect.bits(), 0x01);
}

#[test]
fn init_emits_the_reset_sequence() {
    let lcd = fresh_lcd();
    assert_eq!(lcd.hardware().log, expected_init());
}

#[test]
fn row_offsets_follow_the_formula() {
    // A 20x4 display: offsets [0x00, 0x40, 20, 0x40 + 20]. Reposition to
    // each row at column 0 and read the addresses off the wire.
    let mut lcd = Lcd::new(MockPort::new(), ADDR, 20, 4).expect("construction succeeds");
    let before = lcd.hardware().log.len();
    lcd.set_cursor_position(0, 0).unwrap();
    lcd.set_cursor_position(0, 1).unwrap();
    lcd.set_cursor_position(0, 2).unwrap();
    lcd.set_cursor_position(0, 3).unwrap();
    let mut expected = Vec::new();
    expected.extend(expected_send(0x80, 0x00, 0x08));
    expected.extend(expected_send(0x80 | 0x40, 0x00, 0x08));
    expected.extend(expected_send(0x80 | 20, 0x00, 0x08));
    expected.extend(expected_send(0x80 | (0x40 + 20), 0x00, 0x08));
    assert_eq!(&lcd.hardware().log[before..], &expected[..]);
}

#[test]
fn set_cursor_position_clamps_the_row() {
    let mut lcd = fresh_lcd();
    let before = lcd.hardware().log.len();
    // Row 9 is clamped to the offset table bound (3) and then to the row
    // count (1): same address as row 1, column 3 -> 0x80 | (3 + 0x40).
    lcd.set_cursor_position(3, 9).unwrap();
    assert_eq!(&lcd.hardware().log[before..], &expected_send(0xC3, 0x00, 0x08)[..]);
}

#[test]
fn clear_issues_the_command_and_waits() {
    let mut lcd = fresh_lcd();
    let before = lcd.hardware().log.len();
    lcd.clear().unwrap();
    let mut expected = expected_send(0x01, 0x00, 0x08);
    expected.push(dms(2));
    assert_eq!(&lcd.hardware().log[before..], &expected[..]);
}

#[test]
fn home_issues_the_command_and_waits() {
    let mut lcd = fresh_lcd();
    let before = lcd.hardware().log.len();
    lcd.home().unwrap();
    let mut expected = expected_send(0x02, 0x00, 0x08);
    expected.push(dms(2));
    assert_eq!(&lcd.hardware().log[before..], &expected[..]);
}

#[test]
fn write_sends_one_data_byte() {
    let mut lcd = fresh_lcd();
    let before = lcd.hardware().log.len();
    lcd.write(b'A').unwrap();
    assert_eq!(&lcd.hardware().log[before..], &expected_send(0x41, 0x01, 0x08)[..]);
}

#[test]
fn print_walks_text_and_wraps_on_newline() {
    let mut lcd = fresh_lcd();
    let before = lcd.hardware().log.len();
    lcd.print("AB\nC").unwrap();
    // write('A'), write('B'), reposition to (0, 1), write('C'):
    // three data writes and exactly one cursor reposition, in that order.
    let mut expected = Vec::new();
    expected.extend(expected_send(0x41, 0x01, 0x08));
    expected.extend(expected_send(0x42, 0x01, 0x08));
    expected.extend(expected_send(0x80 | 0x40, 0x00, 0x08));
    expected.extend(expected_send(0x43, 0x01, 0x08));
    assert_eq!(&lcd.hardware().log[before..], &expected[..]);
}

#[test]
fn print_keeps_readdressing_the_last_row() {
    // The newline clamp has a floor of 1 and never wraps back to row 0:
    // each newline past the last row re-addresses the last row.
    let mut lcd = fresh_lcd();
    let before = lcd.hardware().log.len();
    lcd.print("a\n\n\nb").unwrap();
    let last_row = expected_send(0x80 | 0x40, 0x00, 0x08);
    let mut expected = Vec::new();
    expected.extend(expected_send(0x61, 0x01, 0x08));
    expected.extend(last_row.clone());
    expected.extend(last_row.clone());
    expected.extend(last_row);
    expected.extend(expected_send(0x62, 0x01, 0x08));
    assert_eq!(&lcd.hardware().log[before..], &expected[..]);
}

#[test]
fn set_display_reissues_display_control() {
    let mut lcd = fresh_lcd();
    let before = lcd.hardware().log.len();
    lcd.set_display(Display::On).unwrap();
    // control byte: 0x08 (command) | 0x04 (display on) | 0x08 (backlight)
    assert_eq!(&lcd.hardware().log[before..], &expected_send(0x0C, 0x00, 0x08)[..]);
}

#[test]
fn set_cursor_and_blink_reissue_display_control() {
    let mut lcd = fresh_lcd();
    let before = lcd.hardware().log.len();
    lcd.set_cursor(Cursor::On).unwrap();
    lcd.set_blink(Blink::On).unwrap();
    let mut expected = Vec::new();
    expected.extend(expected_send(0x08 | 0x02 | 0x08, 0x00, 0x08));
    expected.extend(expected_send(0x08 | 0x02 | 0x01 | 0x08, 0x00, 0x08));
    assert_eq!(&lcd.hardware().log[before..], &expected[..]);
}

#[test]
fn backlight_bit_rides_on_every_transfer() {
    let mut lcd = fresh_lcd();
    let before = lcd.hardware().log.len();
    lcd.set_backlight(Backlight::Off).unwrap();
    lcd.write(b'A').unwrap();
    // the switch itself is one bare expander write of zero, now without
    // the backlight bit; the data byte after it also goes out dark
    let mut expected = vec![w(0x00)];
    expected.extend(expected_send(0x41, 0x01, 0x00));
    assert_eq!(&lcd.hardware().log[before..], &expected[..]);
    let before = lcd.hardware().log.len();
    lcd.set_backlight(Backlight::On).unwrap();
    assert_eq!(&lcd.hardware().log[before..], &vec![w(0x08)][..]);
}

#[test]
fn create_char_sets_cgram_and_writes_the_bitmap() {
    let mut lcd = fresh_lcd();
    let before = lcd.hardware().log.len();
    let bitmap: [u8; 8] = [0x0E, 0x11, 0x11, 0x1F, 0x11, 0x11, 0x11, 0x00];
    // location 9: only the low three bits count -> slot 1, address 0x48
    lcd.create_char(9, bitmap).unwrap();
    let mut expected = expected_send(0x40 | (1 << 3), 0x00, 0x08);
    for item in bitmap {
        expected.extend(expected_send(item, 0x01, 0x08));
    }
    assert_eq!(&lcd.hardware().log[before..], &expected[..]);
}

#[test]
fn create_char_aborts_on_the_first_failure() {
    // 31 writes happen during init, 6 for the CGRAM address command, 6 for
    // the first bitmap byte; the second bitmap byte fails on its third
    // write (the enable-clear write of the first nibble).
    let mut lcd =
        Lcd::new(MockPort::failing_from(31 + 6 + 6 + 2, 5), ADDR, 16, 2).expect("init has 31 writes");
    let before = lcd.hardware().log.len();
    assert_eq!(before, 58);
    let bitmap: [u8; 8] = [1, 2, 3, 4, 5, 6, 7, 8];
    let result = lcd.create_char(0, bitmap);
    assert_eq!(result, Err(BusError { code: 5 }));
    // address command, first byte, then exactly the two successful writes
    // and the strobe delay of the failing byte: nothing after the failure
    assert_eq!(lcd.hardware().log.len(), before + 10 + 10 + 3);
}

#[test]
fn construction_failure_surfaces_the_bus_error() {
    // Write number 4 is the first write of the second 8-bit-mode send
    // (write 0 establishes the backlight, writes 1 to 3 are the first
    // 8-bit-mode send). Construction aborts and hands back that failure.
    let result = Lcd::new(MockPort::failing_from(4, 77), ADDR, 16, 2);
    assert!(result.is_err());
    assert_eq!(result.err(), Some(BusError { code: 77 }));
}

#[test]
fn write_failure_surfaces_the_bus_error() {
    let mut lcd = fresh_lcd();
    let before = lcd.hardware().log.len();
    // allow exactly one more successful write, then fail
    let fail_code = {
        // a fresh failing port cannot be swapped in, so build a driver
        // directly over one with the budget spent inside the data byte
        let mut failing = Lcd::new(MockPort::failing_from(31 + 1, 9), ADDR, 16, 2)
            .expect("init has 31 writes");
        let result = failing.write(b'Z');
        assert_eq!(failing.hardware().log.len(), 58 + 1);
        result.err()
    };
    assert_eq!(fail_code, Some(BusError { code: 9 }));
    // and a healthy driver is unaffected by any of that
    lcd.write(b'Z').unwrap();
    assert_eq!(lcd.hardware().log.len(), before + 10);
}

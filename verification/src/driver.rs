//! The LCD driver: exclusive owner of the hardware port, the geometry and
//! the control aggregator, exposing the initialization state machine and
//! the high-level command API.
//!
//! Every contract is stated over the port's event history: a successful
//! operation appends exactly the event sequence that [`crate::wire`]
//! prescribes for it, and a failed one leaves an aborted prefix of that
//! sequence (see [`crate::wire::aborted_within`]) — the driver never
//! retries and never writes past a transport failure.

use crate::control::DisplayControl;
use crate::flags::Backlight;
use crate::flags::BitAction;
use crate::flags::BitMode;
use crate::flags::Blink;
use crate::flags::Cursor;
use crate::flags::Display;
use crate::flags::Dots;
use crate::flags::Entries;
use crate::flags::Lines;
use crate::flags::Mode;
use crate::flags::Shift;
use crate::port::BusError;
use crate::port::HwEvent;
use crate::port::LcdHardware;
use crate::wire::aborted_within;
use crate::wire::clamped_row;
use crate::wire::clear_seq;
use crate::wire::command_seq;
use crate::wire::control_byte;
use crate::wire::data_seq;
use crate::wire::create_char_seq;
use crate::wire::data_run_seq;
use crate::wire::ddram_address;
use crate::wire::expander_seq;
use crate::wire::default_backlight_bits;
use crate::wire::home_seq;
use crate::wire::init_seq;
use crate::wire::lemma_abort_after;
use crate::wire::lemma_abort_extends_right;
use crate::wire::lemma_abort_none;
use crate::wire::lemma_abort_step;
use crate::wire::lemma_data_run_seq_concat;
use crate::wire::lemma_print_seq_concat;
use crate::wire::next_print_row;
use crate::wire::print_row_after;
use crate::wire::print_seq;
use crate::wire::print_step_seq;
use crate::wire::pulse_seq;
use crate::wire::send_seq;
use crate::wire::write4_seq;
use vstd::prelude::*;

verus! {

/// The driver. It exclusively owns one hardware port (byte sink plus
/// delay source), the device's bus address, the geometry (row count and
/// the four DDRAM row-start offsets, computed once at construction and
/// immutable afterwards) and the current control aggregator value.
pub struct Lcd<H: LcdHardware> {
    hw: H,
    control: DisplayControl,
    address: u8,
    rows: u8,
    row_offsets: [u8; 4],
}

impl<H: LcdHardware> Lcd<H> {
    /// The port's event history, as the driver's contracts speak of it.
    pub closed spec fn events(&self) -> Seq<HwEvent> {
        self.hw.events()
    }

    /// The current control aggregator state.
    pub closed spec fn ctrl(&self) -> DisplayControl {
        self.control
    }

    /// The device's bus address.
    pub closed spec fn addr(&self) -> u8 {
        self.address
    }

    /// The display's row count.
    pub closed spec fn row_count(&self) -> u8 {
        self.rows
    }

    /// The DDRAM row-start offset table.
    pub closed spec fn offsets(&self) -> Seq<u8> {
        self.row_offsets@
    }

    /// The backlight bit that rides along on every transfer.
    pub open spec fn bl(&self) -> u8 {
        self.ctrl().backlight.spec_bits()
    }

    /// Well-formedness: only four row offsets exist, and the clamping
    /// arithmetic needs at least one row. Established at construction,
    /// preserved by every method.
    pub open spec fn wf(&self) -> bool {
        1 <= self.row_count() <= 4
    }

    /// The immutable part of the driver's state: address and geometry.
    pub open spec fn same_setup(&self, other: &Self) -> bool {
        &&& self.addr() == other.addr()
        &&& self.row_count() == other.row_count()
        &&& self.offsets() == other.offsets()
    }

    /// Borrow the hardware port, to observe its history.
    pub fn hardware(&self) -> (h: &H)
        ensures
            h.events() == self.events(),
    {
        &self.hw
    }

    /// Construct a driver for a display of `cols` columns and `rows` rows
    /// at the given bus address, and run the full power-on initialization
    /// sequence. The row offset table is computed once, from the fixed
    /// formula over the column count. Construction fails atomically: if
    /// any transport write fails, the bus error is returned and no driver
    /// is handed out.
    pub fn new(hw: H, address: u8, cols: u8, rows: u8) -> (r: Result<Lcd<H>, BusError>)
        requires
            1 <= rows <= 4,
            cols <= 0xbf,
        ensures
            r matches Ok(lcd) ==> {
                &&& lcd.wf()
                &&& lcd.addr() == address
                &&& lcd.row_count() == rows
                &&& lcd.offsets() == seq![0u8, 0x40u8, cols, (0x40 + cols) as u8]
                &&& lcd.ctrl() == DisplayControl::spec_default()
                &&& lcd.events() == hw.events() + init_seq(address, default_backlight_bits())
            },
    {
        let mut display = Lcd {
            hw,
            control: DisplayControl::new(),
            address,
            rows,
            row_offsets: [0x00, 0x40, cols, 0x40 + cols],
        };
        proof {
            assert(display.row_offsets@ =~= seq![0u8, 0x40u8, cols, (0x40 + cols) as u8]);
        }
        match display.init() {
            Ok(()) => Ok(display),
            Err(e) => Err(e),
        }
    }

    /// The power-on reset sequence (see [`crate::wire::init_seq`]). The
    /// controller needs at least forty milliseconds after power rises
    /// before it takes commands, so the sequence opens with a fifty
    /// millisecond settle; the 8-bit-mode function-set nibble then goes
    /// out three times to force the controller out of an unknown state,
    /// before the interface is switched to 4-bit mode and the ordinary
    /// command encoder takes over.
    fn init(&mut self) -> (r: Result<(), BusError>)
        ensures
            final(self).same_setup(old(self)),
            final(self).ctrl() == old(self).ctrl(),
            r is Ok ==> final(self).events() == old(self).events() + init_seq(
                old(self).addr(),
                old(self).bl(),
            ),
            r is Err ==> aborted_within(
                old(self).events(),
                final(self).events(),
                init_seq(old(self).addr(), old(self).bl()),
            ),
    {
        let ghost pre = old(self).events();
        let ghost a = old(self).addr();
        let ghost bl = old(self).bl();
        let ghost full = init_seq(a, bl);
        let ghost mut done: Seq<HwEvent> = Seq::empty();

        self.hw.delay_ms(50);
        proof {
            done = done + seq![HwEvent::DelayMs { ms: 50 }];
            assert(self.events() =~= pre + done);
        }

        let b = self.control.backlight.bits();
        let ghost step = expander_seq(a, bl, bl);
        match self.expander_write(b) {
            Ok(()) => {}
            Err(e) => {
                proof {
                    lemma_abort_none(pre + done, step);
                    assert(full.take((done.len() + step.len()) as int) =~= done + step);
                    lemma_abort_step(pre, pre + done, self.events(), done, step, full);
                }
                return Err(e);
            }
        }
        proof {
            done = done + step;
            assert(self.events() =~= pre + done);
        }
        self.hw.delay_ms(1);
        proof {
            done = done + seq![HwEvent::DelayMs { ms: 1 }];
            assert(self.events() =~= pre + done);
        }

        // Three raw 8-bit-mode function-set nibbles, each with its settle
        // delay: mandated by the datasheet, not redundant.
        let mode_8bit = Mode::FUNCTIONSET.bits() | BitMode::Bit8.bits();
        let ghost step = write4_seq(
            a,
            Mode::FUNCTIONSET.spec_bits() | BitMode::Bit8.spec_bits(),
            bl,
        );
        match self.write4bits(mode_8bit) {
            Ok(()) => {}
            Err(e) => {
                proof {
                    assert(full.take((done.len() + step.len()) as int) =~= done + step);
                    lemma_abort_step(pre, pre + done, self.events(), done, step, full);
                }
                return Err(e);
            }
        }
        proof {
            done = done + step;
            assert(self.events() =~= pre + done);
        }
        self.hw.delay_ms(5);
        proof {
            done = done + seq![HwEvent::DelayMs { ms: 5 }];
            assert(self.events() =~= pre + done);
        }

        match self.write4bits(mode_8bit) {
            Ok(()) => {}
            Err(e) => {
                proof {
                    assert(full.take((done.len() + step.len()) as int) =~= done + step);
                    lemma_abort_step(pre, pre + done, self.events(), done, step, full);
                }
                return Err(e);
            }
        }
        proof {
            done = done + step;
            assert(self.events() =~= pre + done);
        }
        self.hw.delay_ms(5);
        proof {
            done = done + seq![HwEvent::DelayMs { ms: 5 }];
            assert(self.events() =~= pre + done);
        }

        match self.write4bits(mode_8bit) {
            Ok(()) => {}
            Err(e) => {
                proof {
                    assert(full.take((done.len() + step.len()) as int) =~= done + step);
                    lemma_abort_step(pre, pre + done, self.events(), done, step, full);
                }
                return Err(e);
            }
        }
        proof {
            done = done + step;
            assert(self.events() =~= pre + done);
        }
        self.hw.delay_ms(5);
        proof {
            done = done + seq![HwEvent::DelayMs { ms: 5 }];
            assert(self.events() =~= pre + done);
        }

        // One 4-bit-mode nibble: the controller switches its interface
        // width, and from here on splits every byte itself.
        let mode_4bit = Mode::FUNCTIONSET.bits() | BitMode::Bit4.bits();
        let ghost step = write4_seq(
            a,
            Mode::FUNCTIONSET.spec_bits() | BitMode::Bit4.spec_bits(),
            bl,
        );
        match self.write4bits(mode_4bit) {
            Ok(()) => {}
            Err(e) => {
                proof {
                    assert(full.take((done.len() + step.len()) as int) =~= done + step);
                    lemma_abort_step(pre, pre + done, self.events(), done, step, full);
                }
                return Err(e);
            }
        }
        proof {
            done = done + step;
            assert(self.events() =~= pre + done);
        }
        self.hw.delay_ms(5);
        proof {
            done = done + seq![HwEvent::DelayMs { ms: 5 }];
            assert(self.events() =~= pre + done);
        }

        let lines_font = Mode::FUNCTIONSET.bits() | BitMode::Bit4.bits() | Dots::Dots5x8.bits()
            | Lines::TwoLine.bits();
        let ghost step = command_seq(
            a,
            Mode::FUNCTIONSET.spec_bits() | BitMode::Bit4.spec_bits() | Dots::Dots5x8.spec_bits()
                | Lines::TwoLine.spec_bits(),
            bl,
        );
        match self.command(lines_font) {
            Ok(()) => {}
            Err(e) => {
                proof {
                    assert(full.take((done.len() + step.len()) as int) =~= done + step);
                    lemma_abort_step(pre, pre + done, self.events(), done, step, full);
                }
                return Err(e);
            }
        }
        proof {
            done = done + step;
            assert(self.events() =~= pre + done);
        }

        let ghost step = clear_seq(a, bl);
        match self.clear() {
            Ok(()) => {}
            Err(e) => {
                proof {
                    assert(full.take((done.len() + step.len()) as int) =~= done + step);
                    lemma_abort_step(pre, pre + done, self.events(), done, step, full);
                }
                return Err(e);
            }
        }
        proof {
            done = done + step;
            assert(self.events() =~= pre + done);
        }

        let entry_mode = Mode::ENTRYMODESET.bits() | Entries::LEFT.bits() | Shift::DECREMENT.bits();
        let ghost step = command_seq(
            a,
            Mode::ENTRYMODESET.spec_bits() | Entries::LEFT.spec_bits()
                | Shift::DECREMENT.spec_bits(),
            bl,
        );
        match self.command(entry_mode) {
            Ok(()) => {}
            Err(e) => {
                proof {
                    assert(full.take((done.len() + step.len()) as int) =~= done + step);
                    lemma_abort_step(pre, pre + done, self.events(), done, step, full);
                }
                return Err(e);
            }
        }
        proof {
            done = done + step;
            assert(self.events() =~= pre + done);
            assert(done =~= full);
        }
        Ok(())
    }

    /// Send exactly one byte — the payload OR'd with the current
    /// backlight bit — to the device. The only operation that touches the
    /// bus directly; a bus error is propagated unchanged, with no retry.
    fn expander_write(&mut self, data: u8) -> (r: Result<(), BusError>)
        ensures
            final(self).same_setup(old(self)),
            final(self).ctrl() == old(self).ctrl(),
            r is Ok ==> final(self).events() == old(self).events() + expander_seq(
                old(self).addr(),
                data,
                old(self).bl(),
            ),
            r is Err ==> final(self).events() == old(self).events(),
    {
        let bl = self.control.backlight.bits();
        let r = self.hw.write_byte(self.address, data | bl);
        proof {
            if r is Ok {
                assert(self.events() =~= old(self).events() + expander_seq(
                    old(self).addr(),
                    data,
                    old(self).bl(),
                ));
            }
        }
        r
    }

    /// The handshake that makes the controller latch a nibble: write the
    /// value with the enable bit high, hold at least a microsecond, write
    /// it with the enable bit low, hold at least a microsecond.
    fn pulse_enable(&mut self, data: u8) -> (r: Result<(), BusError>)
        ensures
            final(self).same_setup(old(self)),
            final(self).ctrl() == old(self).ctrl(),
            r is Ok ==> final(self).events() == old(self).events() + pulse_seq(
                old(self).addr(),
                data,
                old(self).bl(),
            ),
            r is Err ==> aborted_within(
                old(self).events(),
                final(self).events(),
                pulse_seq(old(self).addr(), data, old(self).bl()),
            ),
    {
        let ghost full = pulse_seq(old(self).addr(), data, old(self).bl());
        let en = BitAction::Enable.bits();
        match self.expander_write(data | en) {
            Ok(()) => {}
            Err(e) => {
                proof {
                    assert(old(self).events().is_prefix_of(self.events()));
                    assert(self.events().skip(old(self).events().len() as int) =~= full.take(0));
                }
                return Err(e);
            }
        }
        self.hw.delay_us(1);
        let ghost mid = self.events();
        match self.expander_write(data & !en) {
            Ok(()) => {}
            Err(e) => {
                proof {
                    assert(mid =~= self.events().take(mid.len() as int));
                    assert(old(self).events().is_prefix_of(self.events()));
                    assert(self.events().skip(old(self).events().len() as int) =~= full.take(2));
                }
                return Err(e);
            }
        }
        self.hw.delay_us(1);
        proof {
            assert(self.events() =~= old(self).events() + full);
        }
        Ok(())
    }

    /// Transmit one nibble (already positioned in the high half of
    /// `value`, with the control-line bits in the low half): present it,
    /// then strobe enable.
    fn write4bits(&mut self, value: u8) -> (r: Result<(), BusError>)
        ensures
            final(self).same_setup(old(self)),
            final(self).ctrl() == old(self).ctrl(),
            r is Ok ==> final(self).events() == old(self).events() + write4_seq(
                old(self).addr(),
                value,
                old(self).bl(),
            ),
            r is Err ==> aborted_within(
                old(self).events(),
                final(self).events(),
                write4_seq(old(self).addr(), value, old(self).bl()),
            ),
    {
        let ghost pre = old(self).events();
        let ghost ex = expander_seq(old(self).addr(), value, old(self).bl());
        let ghost pu = pulse_seq(old(self).addr(), value, old(self).bl());
        match self.expander_write(value) {
            Ok(()) => {}
            Err(e) => {
                proof {
                    assert(pre.is_prefix_of(self.events()));
                    assert(self.events().skip(pre.len() as int) =~= (ex + pu).take(0));
                }
                return Err(e);
            }
        }
        let ghost mid = self.events();
        match self.pulse_enable(value) {
            Ok(()) => {}
            Err(e) => {
                proof {
                    lemma_abort_after(pre, mid, self.events(), ex, pu);
                }
                return Err(e);
            }
        }
        proof {
            assert(self.events() =~= pre + (ex + pu));
        }
        Ok(())
    }

    /// Split an 8-bit payload into its two nibbles and transmit them,
    /// high nibble first, each OR'd with the role tag. The order is
    /// mandated by the controller's 4-bit interface protocol.
    fn send(&mut self, data: u8, mode: BitAction) -> (r: Result<(), BusError>)
        ensures
            final(self).same_setup(old(self)),
            final(self).ctrl() == old(self).ctrl(),
            r is Ok ==> final(self).events() == old(self).events() + send_seq(
                old(self).addr(),
                data,
                mode.spec_bits(),
                old(self).bl(),
            ),
            r is Err ==> aborted_within(
                old(self).events(),
                final(self).events(),
                send_seq(old(self).addr(), data, mode.spec_bits(), old(self).bl()),
            ),
    {
        let ghost pre = old(self).events();
        let high_bits: u8 = data & 0xf0;
        let low_bits: u8 = (data << 4u8) & 0xf0;
        let mode_bits = mode.bits();
        let ghost hi = write4_seq(old(self).addr(), (data & 0xf0) | mode.spec_bits(), old(self).bl());
        let ghost lo = write4_seq(
            old(self).addr(),
            ((data << 4) & 0xf0) | mode.spec_bits(),
            old(self).bl(),
        );
        match self.write4bits(high_bits | mode_bits) {
            Ok(()) => {}
            Err(e) => {
                proof {
                    lemma_abort_extends_right(pre, self.events(), hi, lo);
                }
                return Err(e);
            }
        }
        let ghost mid = self.events();
        match self.write4bits(low_bits | mode_bits) {
            Ok(()) => {}
            Err(e) => {
                proof {
                    lemma_abort_after(pre, mid, self.events(), hi, lo);
                }
                return Err(e);
            }
        }
        proof {
            assert(self.events() =~= pre + (hi + lo));
        }
        Ok(())
    }

    /// Send one byte as a command: register-select clear.
    fn command(&mut self, value: u8) -> (r: Result<(), BusError>)
        ensures
            final(self).same_setup(old(self)),
            final(self).ctrl() == old(self).ctrl(),
            r is Ok ==> final(self).events() == old(self).events() + command_seq(
                old(self).addr(),
                value,
                old(self).bl(),
            ),
            r is Err ==> aborted_within(
                old(self).events(),
                final(self).events(),
                command_seq(old(self).addr(), value, old(self).bl()),
            ),
    {
        self.send(value, BitAction::Command)
    }

    /// Send a single data byte: register-select set.
    pub fn write(&mut self, value: u8) -> (r: Result<(), BusError>)
        ensures
            final(self).same_setup(old(self)),
            final(self).ctrl() == old(self).ctrl(),
            r is Ok ==> final(self).events() == old(self).events() + data_seq(
                old(self).addr(),
                value,
                old(self).bl(),
            ),
            r is Err ==> aborted_within(
                old(self).events(),
                final(self).events(),
                data_seq(old(self).addr(), value, old(self).bl()),
            ),
    {
        self.send(value, BitAction::RegisterSelect)
    }

    /// Clear the display. The controller needs two milliseconds to execute
    /// a clear, so the command is followed by the mandated delay.
    pub fn clear(&mut self) -> (r: Result<(), BusError>)
        ensures
            final(self).same_setup(old(self)),
            final(self).ctrl() == old(self).ctrl(),
            r is Ok ==> final(self).events() == old(self).events() + clear_seq(
                old(self).addr(),
                old(self).bl(),
            ),
            r is Err ==> aborted_within(
                old(self).events(),
                final(self).events(),
                clear_seq(old(self).addr(), old(self).bl()),
            ),
    {
        let ghost pre = old(self).events();
        let ghost cmd = command_seq(old(self).addr(), Mode::CLEARDISPLAY.spec_bits(), old(self).bl());
        match self.command(Mode::CLEARDISPLAY.bits()) {
            Ok(()) => {}
            Err(e) => {
                proof {
                    lemma_abort_extends_right(
                        pre,
                        self.events(),
                        cmd,
                        seq![HwEvent::DelayMs { ms: 2 }],
                    );
                }
                return Err(e);
            }
        }
        self.hw.delay_ms(2);
        proof {
            assert(self.events() =~= pre + clear_seq(old(self).addr(), old(self).bl()));
        }
        Ok(())
    }

    /// Return the cursor to the home position. Like clear, the command
    /// takes the controller two milliseconds to execute.
    pub fn home(&mut self) -> (r: Result<(), BusError>)
        ensures
            final(self).same_setup(old(self)),
            final(self).ctrl() == old(self).ctrl(),
            r is Ok ==> final(self).events() == old(self).events() + home_seq(
                old(self).addr(),
                old(self).bl(),
            ),
            r is Err ==> aborted_within(
                old(self).events(),
                final(self).events(),
                home_seq(old(self).addr(), old(self).bl()),
            ),
    {
        let ghost pre = old(self).events();
        let ghost cmd = command_seq(old(self).addr(), Mode::RETURNHOME.spec_bits(), old(self).bl());
        match self.command(Mode::RETURNHOME.bits()) {
            Ok(()) => {}
            Err(e) => {
                proof {
                    lemma_abort_extends_right(
                        pre,
                        self.events(),
                        cmd,
                        seq![HwEvent::DelayMs { ms: 2 }],
                    );
                }
                return Err(e);
            }
        }
        self.hw.delay_ms(2);
        proof {
            assert(self.events() =~= pre + home_seq(old(self).addr(), old(self).bl()));
        }
        Ok(())
    }

    /// Move the cursor to a column and row. The requested row is clamped
    /// first into the offset table's bound and then into the display's own
    /// row count; the resulting DDRAM address is `0x80` OR the column plus
    /// the clamped row's start offset.
    pub fn set_cursor_position(&mut self, col: u8, row: u8) -> (r: Result<(), BusError>)
        requires
            old(self).wf(),
            col + old(self).offsets()[clamped_row(row, old(self).row_count()) as int] <= u8::MAX,
        ensures
            final(self).same_setup(old(self)),
            final(self).ctrl() == old(self).ctrl(),
            r is Ok ==> final(self).events() == old(self).events() + command_seq(
                old(self).addr(),
                ddram_address(col, row, old(self).row_count(), old(self).offsets()),
                old(self).bl(),
            ),
            r is Err ==> aborted_within(
                old(self).events(),
                final(self).events(),
                command_seq(
                    old(self).addr(),
                    ddram_address(col, row, old(self).row_count(), old(self).offsets()),
                    old(self).bl(),
                ),
            ),
    {
        let max_rows: u8 = 4;
        let mut r: u8 = row;
        if r >= max_rows {
            r = max_rows - 1;
        }
        if r >= self.rows {
            r = self.rows - 1;
        }
        proof {
            assert(r == clamped_row(row, old(self).row_count()));
        }
        let offset = self.row_offsets[r as usize];
        self.command(Mode::SETDDRAMADDR.bits() | (col + offset))
    }

    /// Store a custom glyph in one of the eight CGRAM slots (only the low
    /// three bits of `location` count): set the CGRAM address, then write
    /// the eight bitmap rows as data bytes. The first transport failure
    /// aborts the remaining writes and is propagated, matching every other
    /// operation's fail-fast policy.
    pub fn create_char(&mut self, location: u8, charmap: [u8; 8]) -> (r: Result<(), BusError>)
        ensures
            final(self).same_setup(old(self)),
            final(self).ctrl() == old(self).ctrl(),
            r is Ok ==> final(self).events() == old(self).events() + create_char_seq(
                old(self).addr(),
                location,
                charmap@,
                old(self).bl(),
            ),
            r is Err ==> aborted_within(
                old(self).events(),
                final(self).events(),
                create_char_seq(old(self).addr(), location, charmap@, old(self).bl()),
            ),
    {
        let ghost pre = old(self).events();
        let ghost a = old(self).addr();
        let ghost bl = old(self).bl();
        let ghost full = create_char_seq(a, location, charmap@, bl);
        let ghost cmd = command_seq(
            a,
            Mode::SETCGRAMADDR.spec_bits() | ((location & 0x7) << 3),
            bl,
        );
        let loc = location & 0x7;
        match self.command(Mode::SETCGRAMADDR.bits() | (loc << 3u8)) {
            Ok(()) => {}
            Err(e) => {
                proof {
                    lemma_abort_extends_right(
                        pre,
                        self.events(),
                        cmd,
                        data_run_seq(a, charmap@, bl),
                    );
                }
                return Err(e);
            }
        }
        let mut i: usize = 0;
        while i < 8
            invariant
                i <= 8,
                self.same_setup(old(self)),
                self.ctrl() == old(self).ctrl(),
                a == old(self).addr(),
                bl == old(self).bl(),
                pre == old(self).events(),
                full == create_char_seq(a, location, charmap@, bl),
                cmd == command_seq(a, Mode::SETCGRAMADDR.spec_bits() | ((location & 0x7) << 3), bl),
                self.events() == pre + (cmd + data_run_seq(a, charmap@.take(i as int), bl)),
            decreases 8 - i,
        {
            let ghost donebytes = charmap@.take(i as int);
            let ghost done = cmd + data_run_seq(a, donebytes, bl);
            let ghost step = data_seq(a, charmap@[i as int], bl);
            let item = charmap[i];
            match self.write(item) {
                Ok(()) => {}
                Err(e) => {
                    proof {
                        lemma_data_run_seq_concat(a, donebytes, charmap@.skip(i as int), bl);
                        assert(donebytes + charmap@.skip(i as int) =~= charmap@);
                        assert(charmap@.skip(i as int).drop_first() =~= charmap@.skip(i as int + 1));
                        assert(full.take((done.len() + step.len()) as int) =~= done + step);
                        lemma_abort_step(pre, pre + done, self.events(), done, step, full);
                    }
                    return Err(e);
                }
            }
            proof {
                lemma_data_run_seq_concat(a, donebytes, seq![charmap@[i as int]], bl);
                assert(charmap@.take(i as int + 1) =~= donebytes + seq![charmap@[i as int]]);
                assert(seq![charmap@[i as int]].drop_first() =~= Seq::<u8>::empty());
                assert(data_run_seq(a, seq![charmap@[i as int]].drop_first(), bl)
                    == Seq::<HwEvent>::empty());
                assert(data_run_seq(a, seq![charmap@[i as int]], bl) =~= step);
                assert(self.events() =~= pre + (cmd + data_run_seq(
                    a,
                    charmap@.take(i as int + 1),
                    bl,
                )));
            }
            i = i + 1;
        }
        proof {
            assert(charmap@.take(8) =~= charmap@);
            assert(self.events() =~= pre + full);
        }
        Ok(())
    }

    /// Print a text at the current position. A newline advances the row
    /// cursor — clamped into `[1, rows]`, so text past the last row keeps
    /// re-addressing the last row — and repositions to column zero; every
    /// other character goes out as one data byte. The first bus error
    /// aborts the remaining characters.
    pub fn print(&mut self, s: &str) -> (r: Result<(), BusError>)
        requires
            old(self).wf(),
        ensures
            final(self).same_setup(old(self)),
            final(self).ctrl() == old(self).ctrl(),
            r is Ok ==> final(self).events() == old(self).events() + print_seq(
                s@,
                0,
                old(self).addr(),
                old(self).row_count(),
                old(self).offsets(),
                old(self).bl(),
            ),
            r is Err ==> aborted_within(
                old(self).events(),
                final(self).events(),
                print_seq(
                    s@,
                    0,
                    old(self).addr(),
                    old(self).row_count(),
                    old(self).offsets(),
                    old(self).bl(),
                ),
            ),
    {
        let ghost pre = old(self).events();
        let ghost a = old(self).addr();
        let ghost bl = old(self).bl();
        let ghost rows = old(self).row_count();
        let ghost offsets = old(self).offsets();
        let ghost full = print_seq(s@, 0, a, rows, offsets, bl);
        let n: usize = s.unicode_len();
        let mut row: u8 = 0;
        let mut i: usize = 0;
        while i < n
            invariant
                i <= n,
                n == s@.len(),
                self.wf(),
                self.same_setup(old(self)),
                self.ctrl() == old(self).ctrl(),
                a == old(self).addr(),
                bl == old(self).bl(),
                rows == old(self).row_count(),
                offsets == old(self).offsets(),
                pre == old(self).events(),
                full == print_seq(s@, 0, a, rows, offsets, bl),
                row == print_row_after(s@.take(i as int), 0, rows),
                row <= rows,
                self.events() == pre + print_seq(s@.take(i as int), 0, a, rows, offsets, bl),
            decreases n - i,
        {
            let c: char = s.get_char(i);
            let ghost donechars = s@.take(i as int);
            let ghost done = print_seq(donechars, 0, a, rows, offsets, bl);
            let ghost row0 = row;
            let ghost step = print_step_seq(c, row0, a, rows, offsets, bl);
            proof {
                lemma_print_seq_concat(donechars, s@.skip(i as int), 0, a, rows, offsets, bl);
                assert(donechars + s@.skip(i as int) =~= s@);
                assert(s@.skip(i as int).drop_first() =~= s@.skip(i as int + 1));
                assert(s@.skip(i as int)[0] == s@[i as int]);
                lemma_print_seq_concat(donechars, seq![s@[i as int]], 0, a, rows, offsets, bl);
                assert(donechars + seq![s@[i as int]] =~= s@.take(i as int + 1));
                assert(seq![s@[i as int]].drop_first() =~= Seq::<char>::empty());
                let cc = s@[i as int];
                let rown = next_print_row(cc, row0, rows);
                assert(print_seq(seq![cc].drop_first(), rown, a, rows, offsets, bl)
                    == Seq::<HwEvent>::empty());
                assert(seq![cc][0] == cc);
                assert(print_seq(seq![cc], row0, a, rows, offsets, bl) =~= step);
                assert(print_row_after(seq![cc].drop_first(), rown, rows) == rown);
                assert(print_row_after(seq![cc], row0, rows) == rown);
                assert(print_row_after(s@.take(i as int + 1), 0, rows) == rown);
            }
            let step_result: Result<(), BusError> = if c == '\n' {
                let mut next: u8 = row + 1;
                if next > self.rows {
                    next = self.rows;
                }
                row = next;
                self.set_cursor_position(0, row)
            } else {
                self.write(#[verifier::truncate] (c as u8))
            };
            match step_result {
                Ok(()) => {}
                Err(e) => {
                    proof {
                        assert(full.take((done.len() + step.len()) as int) =~= done + step);
                        lemma_abort_step(pre, pre + done, self.events(), done, step, full);
                    }
                    return Err(e);
                }
            }
            proof {
                assert(self.events() =~= pre + print_seq(
                    s@.take(i as int + 1),
                    0,
                    a,
                    rows,
                    offsets,
                    bl,
                ));
                assert(row == print_row_after(s@.take(i as int + 1), 0, rows));
            }
            i = i + 1;
        }
        proof {
            assert(s@.take(n as int) =~= s@);
        }
        Ok(())
    }

    /// Control whether the display is on or off: update the aggregator and
    /// re-issue the display-control command with the new control byte.
    pub fn set_display(&mut self, display: Display) -> (r: Result<(), BusError>)
        ensures
            final(self).same_setup(old(self)),
            final(self).ctrl() == (DisplayControl { display, ..old(self).ctrl() }),
            r is Ok ==> final(self).events() == old(self).events() + command_seq(
                old(self).addr(),
                control_byte(final(self).ctrl()),
                old(self).bl(),
            ),
            r is Err ==> aborted_within(
                old(self).events(),
                final(self).events(),
                command_seq(old(self).addr(), control_byte(final(self).ctrl()), old(self).bl()),
            ),
    {
        self.control.display = display;
        self.write_display_control()
    }

    /// Set the visibility of the non-blinking cursor: update the
    /// aggregator and re-issue the display-control command.
    pub fn set_cursor(&mut self, cursor: Cursor) -> (r: Result<(), BusError>)
        ensures
            final(self).same_setup(old(self)),
            final(self).ctrl() == (DisplayControl { cursor, ..old(self).ctrl() }),
            r is Ok ==> final(self).events() == old(self).events() + command_seq(
                old(self).addr(),
                control_byte(final(self).ctrl()),
                old(self).bl(),
            ),
            r is Err ==> aborted_within(
                old(self).events(),
                final(self).events(),
                command_seq(old(self).addr(), control_byte(final(self).ctrl()), old(self).bl()),
            ),
    {
        self.control.cursor = cursor;
        self.write_display_control()
    }

    /// Set the visibility of the blinking block cursor: update the
    /// aggregator and re-issue the display-control command.
    pub fn set_blink(&mut self, blink: Blink) -> (r: Result<(), BusError>)
        ensures
            final(self).same_setup(old(self)),
            final(self).ctrl() == (DisplayControl { blink, ..old(self).ctrl() }),
            r is Ok ==> final(self).events() == old(self).events() + command_seq(
                old(self).addr(),
                control_byte(final(self).ctrl()),
                old(self).bl(),
            ),
            r is Err ==> aborted_within(
                old(self).events(),
                final(self).events(),
                command_seq(old(self).addr(), control_byte(final(self).ctrl()), old(self).bl()),
            ),
    {
        self.control.blink = blink;
        self.write_display_control()
    }

    /// Switch the backlight: update the aggregator, then issue one bare
    /// expander write of zero — the new backlight bit rides along on it
    /// (and on every transfer after it) automatically.
    pub fn set_backlight(&mut self, backlight: Backlight) -> (r: Result<(), BusError>)
        ensures
            final(self).same_setup(old(self)),
            final(self).ctrl() == (DisplayControl { backlight, ..old(self).ctrl() }),
            r is Ok ==> final(self).events() == old(self).events() + expander_seq(
                old(self).addr(),
                0,
                final(self).bl(),
            ),
            r is Err ==> final(self).events() == old(self).events(),
    {
        self.control.backlight = backlight;
        self.expander_write(0)
    }

    /// Re-issue the display-control command with the aggregator's current
    /// control byte.
    fn write_display_control(&mut self) -> (r: Result<(), BusError>)
        ensures
            final(self).same_setup(old(self)),
            final(self).ctrl() == old(self).ctrl(),
            r is Ok ==> final(self).events() == old(self).events() + command_seq(
                old(self).addr(),
                control_byte(old(self).ctrl()),
                old(self).bl(),
            ),
            r is Err ==> aborted_within(
                old(self).events(),
                final(self).events(),
                command_seq(old(self).addr(), control_byte(old(self).ctrl()), old(self).bl()),
            ),
    {
        let value = Mode::DISPLAYCONTROL.bits() | self.control.value();
        self.command(value)
    }
}

} // verus!

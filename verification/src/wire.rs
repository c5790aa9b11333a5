//! The wire protocol, as event sequences.
//!
//! The controller exposes a 4-bit data path on this wiring, so every
//! logical byte costs two expander writes per nibble plus an enable
//! strobe: present the nibble, raise enable, wait, drop enable, wait.
//! The spec functions here give, for each transport operation, the exact
//! sequence of [`HwEvent`]s it puts on the port; the driver's contracts
//! are stated over them.
//!
//! A failed write aborts the operation at once, and the port records
//! nothing for the failed byte. [`aborted_within`] captures what a failed
//! operation leaves behind: a prefix of the intended sequence that stops
//! right where a write was due.

use crate::control::DisplayControl;
use crate::flags::Backlight;
use crate::flags::BitAction;
use crate::flags::BitMode;
use crate::flags::Dots;
use crate::flags::Entries;
use crate::flags::Lines;
use crate::flags::Mode;
use crate::flags::Shift;
use crate::port::HwEvent;
use vstd::prelude::*;

verus! {

/// The expander write for payload `data` under backlight bits `bl`: the
/// backlight bit rides along on every single transfer.
pub open spec fn write_ev(addr: u8, data: u8, bl: u8) -> HwEvent {
    HwEvent::Write { addr, byte: data | bl }
}

/// What one `expander_write(data)` puts on the port.
pub open spec fn expander_seq(addr: u8, data: u8, bl: u8) -> Seq<HwEvent> {
    seq![write_ev(addr, data, bl)]
}

/// The enable strobe that makes the controller latch a nibble: write
/// `data` with the enable bit set, hold at least a microsecond, write
/// `data` with the enable bit cleared, hold at least a microsecond.
/// Both delays are mandatory minimums from the controller's logic-level
/// timing; shortening them is a correctness bug, not a performance tweak.
pub open spec fn pulse_seq(addr: u8, data: u8, bl: u8) -> Seq<HwEvent> {
    seq![
        write_ev(addr, data | BitAction::Enable.spec_bits(), bl),
        HwEvent::DelayUs { us: 1 },
        write_ev(addr, data & !BitAction::Enable.spec_bits(), bl),
        HwEvent::DelayUs { us: 1 },
    ]
}

/// One nibble transfer: present the value, then strobe enable.
pub open spec fn write4_seq(addr: u8, value: u8, bl: u8) -> Seq<HwEvent> {
    expander_seq(addr, value, bl) + pulse_seq(addr, value, bl)
}

/// One logical byte under role bits `role`: the high nibble first, then
/// the low nibble shifted into the high half, each OR'd with the role.
/// The high-then-low order is mandated by the controller's 4-bit
/// interface protocol.
pub open spec fn send_seq(addr: u8, data: u8, role: u8, bl: u8) -> Seq<HwEvent> {
    write4_seq(addr, (data & 0xf0) | role, bl) + write4_seq(addr, ((data << 4) & 0xf0) | role, bl)
}

/// One command byte: a send with the register-select line clear.
pub open spec fn command_seq(addr: u8, value: u8, bl: u8) -> Seq<HwEvent> {
    send_seq(addr, value, BitAction::Command.spec_bits(), bl)
}

/// One data byte: a send with the register-select line set.
pub open spec fn data_seq(addr: u8, value: u8, bl: u8) -> Seq<HwEvent> {
    send_seq(addr, value, BitAction::RegisterSelect.spec_bits(), bl)
}

/// A run of data bytes, in order.
pub open spec fn data_run_seq(addr: u8, bytes: Seq<u8>, bl: u8) -> Seq<HwEvent>
    decreases bytes.len(),
{
    if bytes.len() == 0 {
        Seq::empty()
    } else {
        data_seq(addr, bytes[0], bl) + data_run_seq(addr, bytes.drop_first(), bl)
    }
}

/// The clear command plus the datasheet-mandated execution delay.
pub open spec fn clear_seq(addr: u8, bl: u8) -> Seq<HwEvent> {
    command_seq(addr, Mode::CLEARDISPLAY.spec_bits(), bl) + seq![HwEvent::DelayMs { ms: 2 }]
}

/// The return-home command plus its execution delay.
pub open spec fn home_seq(addr: u8, bl: u8) -> Seq<HwEvent> {
    command_seq(addr, Mode::RETURNHOME.spec_bits(), bl) + seq![HwEvent::DelayMs { ms: 2 }]
}

/// The power-on reset sequence for a controller in an unknown state,
/// run with the control aggregator still at its default (`bl` is the
/// default backlight bit). In order: the power-up settle delay, one bare
/// expander write establishing the backlight, the 8-bit-mode function-set
/// nibble three times (each with its settle delay; the triplication is
/// mandated by the datasheet and must not be deduplicated), the
/// 4-bit-mode nibble once, and then — the controller now splitting bytes
/// itself — the full function set, a clear, and the entry mode.
pub open spec fn init_seq(addr: u8, bl: u8) -> Seq<HwEvent> {
    seq![HwEvent::DelayMs { ms: 50 }] + expander_seq(addr, bl, bl) + seq![
        HwEvent::DelayMs { ms: 1 },
    ] + write4_seq(addr, Mode::FUNCTIONSET.spec_bits() | BitMode::Bit8.spec_bits(), bl) + seq![
        HwEvent::DelayMs { ms: 5 },
    ] + write4_seq(addr, Mode::FUNCTIONSET.spec_bits() | BitMode::Bit8.spec_bits(), bl) + seq![
        HwEvent::DelayMs { ms: 5 },
    ] + write4_seq(addr, Mode::FUNCTIONSET.spec_bits() | BitMode::Bit8.spec_bits(), bl) + seq![
        HwEvent::DelayMs { ms: 5 },
    ] + write4_seq(addr, Mode::FUNCTIONSET.spec_bits() | BitMode::Bit4.spec_bits(), bl) + seq![
        HwEvent::DelayMs { ms: 5 },
    ] + command_seq(
        addr,
        Mode::FUNCTIONSET.spec_bits() | BitMode::Bit4.spec_bits() | Dots::Dots5x8.spec_bits()
            | Lines::TwoLine.spec_bits(),
        bl,
    ) + clear_seq(addr, bl) + command_seq(
        addr,
        Mode::ENTRYMODESET.spec_bits() | Entries::LEFT.spec_bits() | Shift::DECREMENT.spec_bits(),
        bl,
    )
}

/// The row a requested row is clamped into: first into the offset table's
/// bound (four rows exist at most), then into the display's own row count.
pub open spec fn clamped_row(row: u8, rows: u8) -> u8 {
    let capped = if row >= 4 {
        3u8
    } else {
        row
    };
    if capped >= rows {
        (rows - 1) as u8
    } else {
        capped
    }
}

/// With a well-formed row count (at most four rows), the two-stage clamp
/// collapses to the plain clamp of the requested row into `[0, rows - 1]`.
pub proof fn lemma_clamped_row_is_plain_clamp(row: u8, rows: u8)
    requires
        1 <= rows <= 4,
    ensures
        clamped_row(row, rows) == if row >= rows {
            (rows - 1) as u8
        } else {
            row
        },
{
}

/// The DDRAM address for a column and a (clamped) row, given the row
/// offset table.
pub open spec fn ddram_address(col: u8, row: u8, rows: u8, offsets: Seq<u8>) -> u8 {
    Mode::SETDDRAMADDR.spec_bits() | (col + offsets[clamped_row(row, rows) as int]) as u8
}

/// What writing a custom glyph puts on the port: the set-CGRAM-address
/// command for the slot (only the low three bits of `location` count),
/// then the eight bitmap rows as data bytes.
pub open spec fn create_char_seq(addr: u8, location: u8, charmap: Seq<u8>, bl: u8) -> Seq<
    HwEvent,
> {
    command_seq(addr, Mode::SETCGRAMADDR.spec_bits() | ((location & 0x7) << 3), bl)
        + data_run_seq(addr, charmap, bl)
}

/// The byte a character is sent as: its scalar value truncated to eight
/// bits, exactly what the narrowing cast yields.
pub open spec fn char_byte(c: char) -> u8 {
    c as u8
}

/// The row the printing routine moves to on a newline: one further down,
/// clamped into `[1, rows]`. The floor of 1 means text printed past the
/// last row keeps re-addressing the last row rather than wrapping to the
/// first; that boundary behaviour is deliberate.
pub open spec fn next_print_row(c: char, row: u8, rows: u8) -> u8 {
    if c == '\n' {
        if row + 1 > rows {
            rows
        } else {
            (row + 1) as u8
        }
    } else {
        row
    }
}

/// The printing routine's row after it has walked `s`, starting at `row`.
pub open spec fn print_row_after(s: Seq<char>, row: u8, rows: u8) -> u8
    decreases s.len(),
{
    if s.len() == 0 {
        row
    } else {
        print_row_after(s.drop_first(), next_print_row(s[0], row, rows), rows)
    }
}

/// What one character of `print` puts on the port: a newline repositions
/// the cursor to column zero of the next row (clamped), any other
/// character goes out as one data byte.
pub open spec fn print_step_seq(
    c: char,
    row: u8,
    addr: u8,
    rows: u8,
    offsets: Seq<u8>,
    bl: u8,
) -> Seq<HwEvent> {
    if c == '\n' {
        command_seq(addr, ddram_address(0, next_print_row(c, row, rows), rows, offsets), bl)
    } else {
        data_seq(addr, char_byte(c), bl)
    }
}

/// What printing `s` puts on the port, character by character, starting
/// with the row cursor at `row`.
pub open spec fn print_seq(
    s: Seq<char>,
    row: u8,
    addr: u8,
    rows: u8,
    offsets: Seq<u8>,
    bl: u8,
) -> Seq<HwEvent>
    decreases s.len(),
{
    if s.len() == 0 {
        Seq::empty()
    } else {
        print_step_seq(s[0], row, addr, rows, offsets, bl) + print_seq(
            s.drop_first(),
            next_print_row(s[0], row, rows),
            addr,
            rows,
            offsets,
            bl,
        )
    }
}

/// The display-control command byte for an aggregator state.
pub open spec fn control_byte(c: DisplayControl) -> u8 {
    Mode::DISPLAYCONTROL.spec_bits() | c.spec_value()
}

/// The default backlight bit, the one `init_seq` runs under.
pub open spec fn default_backlight_bits() -> u8 {
    Backlight::On.spec_bits()
}

/// What a failed operation leaves on the port. `pre` is the history
/// before the operation, `post` the history after it failed, `full` the
/// sequence the operation would have put there had every write succeeded.
/// The operation got through a prefix of `full` and stopped exactly where
/// a write was due — the write that failed. Nothing was recorded for the
/// failed write, and nothing follows it: the driver never retries and
/// never carries on past a transport failure.
pub open spec fn aborted_within(pre: Seq<HwEvent>, post: Seq<HwEvent>, full: Seq<HwEvent>) -> bool {
    let done = post.len() - pre.len();
    &&& pre.is_prefix_of(post)
    &&& done < full.len()
    &&& post.skip(pre.len() as int) == full.take(done)
    &&& full[done] is Write
}

/// An operation whose very first write failed left nothing behind: the
/// unchanged history is an aborted prefix of anything that opens with a
/// write.
pub proof fn lemma_abort_none(pre: Seq<HwEvent>, full: Seq<HwEvent>)
    requires
        0 < full.len(),
        full[0] is Write,
    ensures
        aborted_within(pre, pre, full),
{
    assert(pre =~= pre.take(pre.len() as int));
    assert(pre.skip(pre.len() as int) =~= full.take(0));
}

/// An operation that aborted within `s1` also counts as aborted within
/// `s1` followed by anything more.
pub proof fn lemma_abort_extends_right(
    pre: Seq<HwEvent>,
    post: Seq<HwEvent>,
    s1: Seq<HwEvent>,
    s2: Seq<HwEvent>,
)
    requires
        aborted_within(pre, post, s1),
    ensures
        aborted_within(pre, post, s1 + s2),
{
    let done = post.len() - pre.len();
    assert((s1 + s2).take(done) =~= s1.take(done));
    assert((s1 + s2)[done] == s1[done]);
}

/// An operation that completed `s1` and then aborted within `s2` counts
/// as aborted within `s1 + s2`.
pub proof fn lemma_abort_after(
    pre: Seq<HwEvent>,
    mid: Seq<HwEvent>,
    post: Seq<HwEvent>,
    s1: Seq<HwEvent>,
    s2: Seq<HwEvent>,
)
    requires
        mid == pre + s1,
        aborted_within(mid, post, s2),
    ensures
        aborted_within(pre, post, s1 + s2),
{
    let done2 = post.len() - mid.len();
    let done = post.len() - pre.len();
    let k1 = s1.len() as int;
    assert(mid =~= post.take(mid.len() as int));
    assert(pre =~= post.take(pre.len() as int));
    assert forall|i: int| 0 <= i < done implies post.skip(pre.len() as int)[i] == (s1 + s2)[i] by {
        assert(post.skip(pre.len() as int)[i] == post[pre.len() + i]);
        if i < k1 {
            assert(post[pre.len() + i] == post.take(mid.len() as int)[pre.len() + i]);
            assert(mid[pre.len() + i] == s1[i]);
        } else {
            assert(post[pre.len() + i] == post.skip(mid.len() as int)[i - k1]);
            assert(post.skip(mid.len() as int)[i - k1] == s2.take(done2)[i - k1]);
        }
    }
    assert(post.skip(pre.len() as int) =~= (s1 + s2).take(done));
    assert((s1 + s2)[done] == s2[done2]);
}

/// One step of a longer operation failed: the steps before it completed
/// (`done`, taking the history from `pre` to `mid`), the failing step
/// aborted within `step`, and whatever `full` holds after `done + step`
/// never started. The whole operation then aborted within `full`.
pub proof fn lemma_abort_step(
    pre: Seq<HwEvent>,
    mid: Seq<HwEvent>,
    post: Seq<HwEvent>,
    done: Seq<HwEvent>,
    step: Seq<HwEvent>,
    full: Seq<HwEvent>,
)
    requires
        mid == pre + done,
        aborted_within(mid, post, step),
        done.len() + step.len() <= full.len(),
        full.take((done.len() + step.len()) as int) == done + step,
    ensures
        aborted_within(pre, post, full),
{
    lemma_abort_after(pre, mid, post, done, step);
    let donelen = post.len() - pre.len();
    assert(full.take(donelen) =~= (done + step).take(donelen));
    assert(full[donelen] == (done + step)[donelen]);
}

/// A run of data bytes decomposes around any split of the bytes.
pub proof fn lemma_data_run_seq_concat(addr: u8, a: Seq<u8>, b: Seq<u8>, bl: u8)
    ensures
        data_run_seq(addr, a + b, bl) == data_run_seq(addr, a, bl) + data_run_seq(addr, b, bl),
    decreases a.len(),
{
    if a.len() == 0 {
        assert(a + b =~= b);
        assert(data_run_seq(addr, a, bl) + data_run_seq(addr, b, bl) =~= data_run_seq(
            addr,
            b,
            bl,
        ));
    } else {
        assert((a + b).drop_first() =~= a.drop_first() + b);
        lemma_data_run_seq_concat(addr, a.drop_first(), b, bl);
        assert(data_run_seq(addr, a + b, bl) =~= data_run_seq(addr, a, bl) + data_run_seq(
            addr,
            b,
            bl,
        ));
    }
}

/// A print decomposes around any split of the text: the second part
/// starts at the row the first part ends on.
pub proof fn lemma_print_seq_concat(
    a: Seq<char>,
    b: Seq<char>,
    row: u8,
    addr: u8,
    rows: u8,
    offsets: Seq<u8>,
    bl: u8,
)
    ensures
        print_seq(a + b, row, addr, rows, offsets, bl) == print_seq(a, row, addr, rows, offsets, bl)
            + print_seq(b, print_row_after(a, row, rows), addr, rows, offsets, bl),
        print_row_after(a + b, row, rows) == print_row_after(
            b,
            print_row_after(a, row, rows),
            rows,
        ),
    decreases a.len(),
{
    if a.len() == 0 {
        assert(a + b =~= b);
        assert(print_seq(a, row, addr, rows, offsets, bl) + print_seq(b, row, addr, rows, offsets, bl)
            =~= print_seq(b, row, addr, rows, offsets, bl));
    } else {
        assert((a + b).drop_first() =~= a.drop_first() + b);
        lemma_print_seq_concat(
            a.drop_first(),
            b,
            next_print_row(a[0], row, rows),
            addr,
            rows,
            offsets,
            bl,
        );
        assert(print_seq(a + b, row, addr, rows, offsets, bl) =~= print_seq(
            a,
            row,
            addr,
            rows,
            offsets,
            bl,
        ) + print_seq(b, print_row_after(a, row, rows), addr, rows, offsets, bl));
    }
}

} // verus!

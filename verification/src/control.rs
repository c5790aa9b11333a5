//! The control aggregator: the four live, user-toggleable settings of the
//! display plus the entry direction, with a pure reduction of the four
//! command-relevant settings to one control byte.

use crate::flags::Backlight;
use crate::flags::Blink;
use crate::flags::Cursor;
use crate::flags::Direction;
use crate::flags::Display;
use vstd::prelude::*;

verus! {

/// Holds the current cursor, display, blink and backlight settings plus
/// the entry direction. The reduction [`DisplayControl::value`] folds the
/// first four into the display-control command byte; the direction is
/// folded separately into the entry-mode command, never into this byte.
#[derive(Copy, Clone, Debug, PartialEq, Eq, Structural)]
pub struct DisplayControl {
    pub cursor: Cursor,
    pub display: Display,
    pub blink: Blink,
    pub backlight: Backlight,
    pub direction: Direction,
}

impl DisplayControl {
    /// The control byte: bitwise OR of the blink, cursor, display and
    /// backlight patterns. The direction takes no part in it.
    pub open spec fn spec_value(self) -> u8 {
        self.blink.spec_bits() | self.cursor.spec_bits() | self.display.spec_bits()
            | self.backlight.spec_bits()
    }

    /// The default state: cursor off, display off, blink off, backlight
    /// on, direction left. The backlight defaults on so the user sees
    /// feedback before any command is issued; the display stays off until
    /// initialization turns it on, avoiding a visible garbage flash.
    pub open spec fn spec_default() -> DisplayControl {
        DisplayControl {
            cursor: Cursor::Off,
            display: Display::Off,
            blink: Blink::Off,
            backlight: Backlight::On,
            direction: Direction::LEFT,
        }
    }

    /// Construct the default state (see [`DisplayControl::spec_default`]).
    pub fn new() -> (r: Self)
        ensures
            r == DisplayControl::spec_default(),
    {
        DisplayControl {
            cursor: Cursor::Off,
            display: Display::Off,
            blink: Blink::Off,
            backlight: Backlight::On,
            direction: Direction::LEFT,
        }
    }

    /// Reduce the aggregator to its control byte. Pure: the result is a
    /// function of the current field values alone, with no side effects.
    pub fn value(&self) -> (r: u8)
        ensures
            r == self.spec_value(),
    {
        self.blink.bits() | self.cursor.bits() | self.display.bits() | self.backlight.bits()
    }
}

impl Default for DisplayControl {
    /// Same state as [`DisplayControl::new`].
    fn default() -> (r: Self)
        ensures
            r == DisplayControl::spec_default(),
    {
        Self::new()
    }
}

/// The control byte depends on the blink, cursor, display and backlight
/// settings alone: two aggregators that agree on those four fields reduce
/// to the same byte, whatever their directions.
pub proof fn lemma_value_ignores_direction(a: DisplayControl, b: DisplayControl)
    requires
        a.cursor == b.cursor,
        a.display == b.display,
        a.blink == b.blink,
        a.backlight == b.backlight,
    ensures
        a.spec_value() == b.spec_value(),
{
}

} // verus!

//! Closed enumerations for the controller's command bits.
//!
//! Each variant stands for one fixed bit pattern of the HD44780/expander
//! wiring. The patterns are a hardware contract, so every enumeration
//! carries an explicit numeric conversion (`bits`, with `spec_bits` as its
//! specification) instead of relying on enum-to-integer coercion.

use vstd::prelude::*;

verus! {

/// Visibility of the non-blinking cursor, an underscore drawn **after**
/// the cursor position (where the next character will show up).
#[derive(Copy, Clone, Debug, PartialEq, Eq, Structural)]
pub enum Cursor {
    /// Display the non-blinking cursor.
    On,
    /// Hide the non-blinking cursor.
    Off,
}

impl Cursor {
    /// Bit pattern of this setting inside the display-control command.
    pub open spec fn spec_bits(self) -> u8 {
        match self {
            Cursor::On => 0x02,
            Cursor::Off => 0x00,
        }
    }

    /// Numeric encoding of this setting.
    pub fn bits(self) -> (r: u8)
        ensures
            r == self.spec_bits(),
    {
        match self {
            Cursor::On => 0x02,
            Cursor::Off => 0x00,
        }
    }
}

/// Visibility of the blinking block cursor.
#[derive(Copy, Clone, Debug, PartialEq, Eq, Structural)]
pub enum Blink {
    /// Turn the blinking block cursor on.
    On,
    /// Turn the blinking block cursor off.
    Off,
}

impl Blink {
    /// Bit pattern of this setting inside the display-control command.
    pub open spec fn spec_bits(self) -> u8 {
        match self {
            Blink::On => 0x01,
            Blink::Off => 0x00,
        }
    }

    /// Numeric encoding of this setting.
    pub fn bits(self) -> (r: u8)
        ensures
            r == self.spec_bits(),
    {
        match self {
            Blink::On => 0x01,
            Blink::Off => 0x00,
        }
    }
}

/// Whether the entire LCD is on or off.
#[derive(Copy, Clone, Debug, PartialEq, Eq, Structural)]
pub enum Display {
    /// Turn the LCD display on.
    On,
    /// Turn the LCD display off.
    Off,
}

impl Display {
    /// Bit pattern of this setting inside the display-control command.
    pub open spec fn spec_bits(self) -> u8 {
        match self {
            Display::On => 0x04,
            Display::Off => 0x00,
        }
    }

    /// Numeric encoding of this setting.
    pub fn bits(self) -> (r: u8)
        ensures
            r == self.spec_bits(),
    {
        match self {
            Display::On => 0x04,
            Display::Off => 0x00,
        }
    }
}

/// Whether the backlight is on or off. The backlight bit rides along on
/// every expander transfer, because the expander latches it on its
/// output pin.
#[derive(Copy, Clone, Debug, PartialEq, Eq, Structural)]
pub enum Backlight {
    /// Turn the backlight on.
    On,
    /// Turn the backlight off.
    Off,
}

impl Backlight {
    /// Bit pattern of this setting on the expander output byte.
    pub open spec fn spec_bits(self) -> u8 {
        match self {
            Backlight::On => 0x08,
            Backlight::Off => 0x00,
        }
    }

    /// Numeric encoding of this setting.
    pub fn bits(self) -> (r: u8)
        ensures
            r == self.spec_bits(),
    {
        match self {
            Backlight::On => 0x08,
            Backlight::Off => 0x00,
        }
    }
}

/// Controller command opcodes, fixed by the HD44780 family.
#[allow(non_camel_case_types)]
#[derive(Copy, Clone, Debug, PartialEq, Eq, Structural)]
pub enum Mode {
    COMMAND,
    CLEARDISPLAY,
    RETURNHOME,
    ENTRYMODESET,
    DISPLAYCONTROL,
    CURSORSHIFT,
    FUNCTIONSET,
    SETCGRAMADDR,
    SETDDRAMADDR,
}

impl Mode {
    /// Opcode byte of this command.
    pub open spec fn spec_bits(self) -> u8 {
        match self {
            Mode::COMMAND => 0x00,
            Mode::CLEARDISPLAY => 0x01,
            Mode::RETURNHOME => 0x02,
            Mode::ENTRYMODESET => 0x04,
            Mode::DISPLAYCONTROL => 0x08,
            Mode::CURSORSHIFT => 0x10,
            Mode::FUNCTIONSET => 0x20,
            Mode::SETCGRAMADDR => 0x40,
            Mode::SETDDRAMADDR => 0x80,
        }
    }

    /// Numeric encoding of this command.
    pub fn bits(self) -> (r: u8)
        ensures
            r == self.spec_bits(),
    {
        match self {
            Mode::COMMAND => 0x00,
            Mode::CLEARDISPLAY => 0x01,
            Mode::RETURNHOME => 0x02,
            Mode::ENTRYMODESET => 0x04,
            Mode::DISPLAYCONTROL => 0x08,
            Mode::CURSORSHIFT => 0x10,
            Mode::FUNCTIONSET => 0x20,
            Mode::SETCGRAMADDR => 0x40,
            Mode::SETDDRAMADDR => 0x80,
        }
    }
}

/// Flags for the display entry mode.
#[allow(non_camel_case_types)]
#[derive(Copy, Clone, Debug, PartialEq, Eq, Structural)]
pub enum Entries {
    RIGHT,
    LEFT,
}

impl Entries {
    /// Bit pattern of this setting inside the entry-mode command.
    pub open spec fn spec_bits(self) -> u8 {
        match self {
            Entries::RIGHT => 0x00,
            Entries::LEFT => 0x02,
        }
    }

    /// Numeric encoding of this setting.
    pub fn bits(self) -> (r: u8)
        ensures
            r == self.spec_bits(),
    {
        match self {
            Entries::RIGHT => 0x00,
            Entries::LEFT => 0x02,
        }
    }
}

/// Flag selecting whether a shift command moves the display or the cursor.
#[allow(non_camel_case_types)]
#[derive(Copy, Clone, Debug, PartialEq, Eq, Structural)]
pub enum MoveSelect {
    DISPLAY,
    CURSOR,
}

impl MoveSelect {
    /// Bit pattern of this setting inside the cursor-shift command.
    pub open spec fn spec_bits(self) -> u8 {
        match self {
            MoveSelect::DISPLAY => 0x08,
            MoveSelect::CURSOR => 0x00,
        }
    }

    /// Numeric encoding of this setting.
    pub fn bits(self) -> (r: u8)
        ensures
            r == self.spec_bits(),
    {
        match self {
            MoveSelect::DISPLAY => 0x08,
            MoveSelect::CURSOR => 0x00,
        }
    }
}

/// Flags selecting the direction to write in.
#[allow(non_camel_case_types)]
#[derive(Copy, Clone, Debug, PartialEq, Eq, Structural)]
pub enum Direction {
    RIGHT,
    LEFT,
}

impl Direction {
    /// Bit pattern of this setting inside the cursor-shift command.
    pub open spec fn spec_bits(self) -> u8 {
        match self {
            Direction::RIGHT => 0x04,
            Direction::LEFT => 0x00,
        }
    }

    /// Numeric encoding of this setting.
    pub fn bits(self) -> (r: u8)
        ensures
            r == self.spec_bits(),
    {
        match self {
            Direction::RIGHT => 0x04,
            Direction::LEFT => 0x00,
        }
    }
}

/// Display-shift flag of the entry-mode command.
#[allow(non_camel_case_types)]
#[derive(Copy, Clone, Debug, PartialEq, Eq, Structural)]
pub enum Shift {
    INCREMENT,
    DECREMENT,
}

impl Shift {
    /// Bit pattern of this setting inside the entry-mode command.
    pub open spec fn spec_bits(self) -> u8 {
        match self {
            Shift::INCREMENT => 0x01,
            Shift::DECREMENT => 0x00,
        }
    }

    /// Numeric encoding of this setting.
    pub fn bits(self) -> (r: u8)
        ensures
            r == self.spec_bits(),
    {
        match self {
            Shift::INCREMENT => 0x01,
            Shift::DECREMENT => 0x00,
        }
    }
}

/// Interface width of the function-set command.
#[derive(Copy, Clone, Debug, PartialEq, Eq, Structural)]
pub enum BitMode {
    Bit4,
    Bit8,
}

impl BitMode {
    /// Bit pattern of this setting inside the function-set command.
    pub open spec fn spec_bits(self) -> u8 {
        match self {
            BitMode::Bit4 => 0x00,
            BitMode::Bit8 => 0x10,
        }
    }

    /// Numeric encoding of this setting.
    pub fn bits(self) -> (r: u8)
        ensures
            r == self.spec_bits(),
    {
        match self {
            BitMode::Bit4 => 0x00,
            BitMode::Bit8 => 0x10,
        }
    }
}

/// Dot format of the function-set command.
#[derive(Copy, Clone, Debug, PartialEq, Eq, Structural)]
pub enum Dots {
    Dots5x8,
    Dots5x10,
}

impl Dots {
    /// Bit pattern of this setting inside the function-set command.
    pub open spec fn spec_bits(self) -> u8 {
        match self {
            Dots::Dots5x8 => 0x00,
            Dots::Dots5x10 => 0x04,
        }
    }

    /// Numeric encoding of this setting.
    pub fn bits(self) -> (r: u8)
        ensures
            r == self.spec_bits(),
    {
        match self {
            Dots::Dots5x8 => 0x00,
            Dots::Dots5x10 => 0x04,
        }
    }
}

/// Line count of the function-set command.
#[derive(Copy, Clone, Debug, PartialEq, Eq, Structural)]
pub enum Lines {
    OneLine,
    TwoLine,
}

impl Lines {
    /// Bit pattern of this setting inside the function-set command.
    pub open spec fn spec_bits(self) -> u8 {
        match self {
            Lines::OneLine => 0x00,
            Lines::TwoLine => 0x08,
        }
    }

    /// Numeric encoding of this setting.
    pub fn bits(self) -> (r: u8)
        ensures
            r == self.spec_bits(),
    {
        match self {
            Lines::OneLine => 0x00,
            Lines::TwoLine => 0x08,
        }
    }
}

/// Control-line bits of the expander output byte's low nibble.
#[derive(Copy, Clone, Debug, PartialEq, Eq, Structural)]
pub enum BitAction {
    /// Register-select clear: the transfer carries a command.
    Command,
    /// The enable strobe line.
    Enable,
    /// The read/write line (always low: this driver never reads).
    ReadWrite,
    /// Register-select set: the transfer carries data.
    RegisterSelect,
}

impl BitAction {
    /// Bit pattern of this control line on the expander output byte.
    pub open spec fn spec_bits(self) -> u8 {
        match self {
            BitAction::Command => 0x00,
            BitAction::Enable => 0x04,
            BitAction::ReadWrite => 0x02,
            BitAction::RegisterSelect => 0x01,
        }
    }

    /// Numeric encoding of this control line.
    pub fn bits(self) -> (r: u8)
        ensures
            r == self.spec_bits(),
    {
        match self {
            BitAction::Command => 0x00,
            BitAction::Enable => 0x04,
            BitAction::ReadWrite => 0x02,
            BitAction::RegisterSelect => 0x01,
        }
    }
}

} // verus!

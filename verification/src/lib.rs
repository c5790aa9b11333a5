//! Driver core for HD44780-family character LCDs sitting behind a 4-bit
//! I/O expander on a two-wire serial bus.
//!
//! The driver translates 8-bit controller commands into pairs of 4-bit
//! nibble transfers, multiplexes the control lines (register select,
//! enable strobe, read/write, backlight) onto a single expander output
//! byte, and reproduces the datasheet power-on reset sequence whose
//! timing and repetition count are safety critical: wrong timing silently
//! corrupts every later command, and the bus raises no error for it.
//!
//! The physical bus and the timing source are consumed through the
//! [`LcdHardware`] trait: a write-only byte sink plus a blocking delay
//! source, owned exclusively by one [`Lcd`]. Every contract is stated
//! over the sequence of hardware events ([`HwEvent`]) such a port
//! records, so what is proved is the exact wire traffic — byte for byte,
//! delay for delay — of every operation, and that a failed operation
//! stops at the failing write and never writes past it.

pub mod control;
pub mod driver;
pub mod flags;
pub mod mock;
pub mod port;
pub mod wire;

pub use control::DisplayControl;
pub use driver::Lcd;
pub use flags::Backlight;
pub use flags::BitAction;
pub use flags::BitMode;
pub use flags::Blink;
pub use flags::Cursor;
pub use flags::Direction;
pub use flags::Display;
pub use flags::Dots;
pub use flags::Entries;
pub use flags::Lines;
pub use flags::Mode;
pub use flags::MoveSelect;
pub use flags::Shift;
pub use mock::MockPort;
pub use port::BusError;
pub use port::HwEvent;
pub use port::LcdHardware;
// Implementors of `LcdHardware` outside the verified build (adapters over
// real buses and clocks) must still name the ghost history's type in their
// impl, without depending on the verifier's own library; the sequence type
// is re-exported here for them.
pub use vstd::prelude::Seq;

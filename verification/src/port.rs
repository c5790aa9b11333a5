//! The hardware boundary: a write-only byte sink on a two-wire bus plus a
//! blocking delay source.
//!
//! The driver owns one [`LcdHardware`] implementation exclusively. Every
//! contract of the driver is stated over the abstract event log
//! ([`LcdHardware::events`]) that an implementation maintains: the exact
//! bytes written and the exact delays requested, in order. A recording
//! implementation lives in [`crate::mock`]; an adapter over a real bus and
//! clock can implement the trait outside this crate.

use vstd::prelude::*;

verus! {

/// One observable hardware operation: a byte written to the expander at a
/// bus address, or a blocking delay of a requested minimum duration.
#[derive(Copy, Clone, Debug, PartialEq, Eq, Structural)]
pub enum HwEvent {
    /// One byte written to the device at a 7-bit bus address.
    Write { addr: u8, byte: u8 },
    /// A blocking delay of at least `ms` milliseconds.
    DelayMs { ms: u32 },
    /// A blocking delay of at least `us` microseconds.
    DelayUs { us: u32 },
}

/// The single error kind of this driver: a bus transport failure, reported
/// by the byte sink and propagated unchanged to the caller of whichever
/// operation triggered it. The code is whatever the sink chose to report.
#[derive(Copy, Clone, Debug, PartialEq, Eq, Structural)]
pub struct BusError {
    /// Implementation-chosen tag of the underlying transport fault.
    pub code: u8,
}

/// A write-only byte sink plus a blocking delay source, the two external
/// collaborators of the driver, folded into one port so that the order of
/// writes relative to delays is part of one observable history.
///
/// `events` is the port's history. A successful write appends exactly one
/// `Write` event; a failed write appends nothing (the byte never made it
/// onto the wire as far as the driver can tell, and the driver never
/// retries). Delays are infallible and block for at least the requested
/// duration before returning.
pub trait LcdHardware {
    /// The history of operations this port has performed, oldest first.
    spec fn events(&self) -> Seq<HwEvent>;

    /// Write exactly one byte to the device at `addr`.
    fn write_byte(&mut self, addr: u8, byte: u8) -> (r: Result<(), BusError>)
        ensures
            r is Ok ==> final(self).events() == old(self).events().push(
                HwEvent::Write { addr, byte },
            ),
            r is Err ==> final(self).events() == old(self).events(),
    ;

    /// Block for at least `ms` milliseconds. Infallible.
    fn delay_ms(&mut self, ms: u32)
        ensures
            final(self).events() == old(self).events().push(HwEvent::DelayMs { ms }),
    ;

    /// Block for at least `us` microseconds. Infallible.
    fn delay_us(&mut self, us: u32)
        ensures
            final(self).events() == old(self).events().push(HwEvent::DelayUs { us }),
    ;
}

} // verus!

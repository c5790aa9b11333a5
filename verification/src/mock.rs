//! A recording hardware port: the verified reference implementation of
//! [`LcdHardware`].
//!
//! It performs no I/O; it records every write and every requested delay
//! in order, so a test (or a caller) can hold the driver's traffic
//! against the sequences that [`crate::wire`] prescribes. It can also be
//! told to start failing at a given write, to exercise the driver's
//! fail-fast behaviour.

use crate::port::BusError;
use crate::port::HwEvent;
use crate::port::LcdHardware;
use vstd::prelude::*;

verus! {

/// A port that records instead of transmitting. Writes numbered
/// `fail_from` onward (counting successful writes from zero) fail with
/// `fail_code` and record nothing, like a bus that goes away and stays
/// away; earlier writes and all delays succeed and are recorded.
pub struct MockPort {
    /// Everything recorded so far, oldest first.
    pub log: Vec<HwEvent>,
    /// How many writes have succeeded so far.
    pub writes_done: u64,
    /// The index of the first write that fails (`u64::MAX`: none does).
    pub fail_from: u64,
    /// The error code a failing write reports.
    pub fail_code: u8,
}

impl MockPort {
    /// A port on which every operation succeeds.
    pub fn new() -> (r: MockPort)
        ensures
            r.events() == Seq::<HwEvent>::empty(),
            r.writes_done == 0,
            r.fail_from == u64::MAX,
    {
        MockPort { log: Vec::new(), writes_done: 0, fail_from: u64::MAX, fail_code: 0 }
    }

    /// A port whose writes fail from write number `fail_from` onward,
    /// reporting `fail_code`.
    pub fn failing_from(fail_from: u64, fail_code: u8) -> (r: MockPort)
        ensures
            r.events() == Seq::<HwEvent>::empty(),
            r.writes_done == 0,
            r.fail_from == fail_from,
            r.fail_code == fail_code,
    {
        MockPort { log: Vec::new(), writes_done: 0, fail_from, fail_code }
    }
}

impl LcdHardware for MockPort {
    open spec fn events(&self) -> Seq<HwEvent> {
        self.log@
    }

    fn write_byte(&mut self, addr: u8, byte: u8) -> (r: Result<(), BusError>)
        ensures
            r is Ok <==> old(self).writes_done < old(self).fail_from,
            final(self).fail_from == old(self).fail_from,
            final(self).fail_code == old(self).fail_code,
            r is Ok ==> final(self).writes_done == old(self).writes_done + 1,
            r matches Err(e) ==> e == (BusError { code: old(self).fail_code }) && *final(self)
                == *old(self),
    {
        if self.writes_done < self.fail_from {
            self.writes_done = self.writes_done + 1;
            self.log.push(HwEvent::Write { addr, byte });
            Ok(())
        } else {
            Err(BusError { code: self.fail_code })
        }
    }

    fn delay_ms(&mut self, ms: u32)
        ensures
            final(self).writes_done == old(self).writes_done,
            final(self).fail_from == old(self).fail_from,
            final(self).fail_code == old(self).fail_code,
    {
        self.log.push(HwEvent::DelayMs { ms });
    }

    fn delay_us(&mut self, us: u32)
        ensures
            final(self).writes_done == old(self).writes_done,
            final(self).fail_from == old(self).fail_from,
            final(self).fail_code == old(self).fail_code,
    {
        self.log.push(HwEvent::DelayUs { us });
    }
}

} // verus!

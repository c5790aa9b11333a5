use screen::BusError;
use screen::HwEvent;
use screen::Lcd;
use screen::LcdHardware;
use std::cell::RefCell;
use std::rc::Rc;

const ADDR: u8 = 0x27;

/// A port that shares its record with the test through reference-counted
/// cells, so the traffic stays observable even after a failed
/// construction consumes the port. It counts every write attempt, records
/// the successful ones, and fails every write from `fail_from` onward.
struct SharedPort {
    attempts: Rc<RefCell<u64>>,
    writes: Rc<RefCell<Vec<HwEvent>>>,
    done: u64,
    fail_from: u64,
    fail_code: u8,
}

impl LcdHardware for SharedPort {
    // The ghost history is erased from compiled code and never called;
    // this port keeps its record in the shared cells instead.
    fn events(&self) -> vstd::prelude::Seq<HwEvent> {
        panic!("the shared test port keeps no ghost history")
    }

    fn write_byte(&mut self, addr: u8, byte: u8) -> Result<(), BusError> {
        *self.attempts.borrow_mut() += 1;
        if self.done < self.fail_from {
            self.done += 1;
            self.writes.borrow_mut().push(HwEvent::Write { addr, byte });
            Ok(())
        } else {
            Err(BusError { code: self.fail_code })
        }
    }

    fn delay_ms(&mut self, _ms: u32) {}

    fn delay_us(&mut self, _us: u32) {}
}

#[test]
fn construction_aborts_on_the_second_reset_send() {
    let attempts = Rc::new(RefCell::new(0u64));
    let writes = Rc::new(RefCell::new(Vec::new()));
    let port = SharedPort {
        attempts: Rc::clone(&attempts),
        writes: Rc::clone(&writes),
        done: 0,
        // write 0 establishes the backlight; writes 1 to 3 are the first
        // 8-bit-mode send; write 4 opens the second one and fails
        fail_from: 4,
        fail_code: 77,
    };
    let result = Lcd::new(port, ADDR, 16, 2);
    // construction aborts and surfaces that exact failure
    assert!(result.is_err());
    assert_eq!(result.err(), Some(BusError { code: 77 }));
    // no transport call happens after the failing one: four successes,
    // one failed attempt, nothing more
    assert_eq!(*attempts.borrow(), 5);
    let seen = writes.borrow();
    let expected = vec![
        HwEvent::Write { addr: ADDR, byte: 0x08 },
        HwEvent::Write { addr: ADDR, byte: 0x38 },
        HwEvent::Write { addr: ADDR, byte: 0x3C },
        HwEvent::Write { addr: ADDR, byte: 0x38 },
    ];
    assert_eq!(*seen, expected);
}

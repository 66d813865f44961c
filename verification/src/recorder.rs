//! A verified in-memory transport: it records every bus action, scripts the
//! busy line, and can inject a transport failure, so tests observe exactly
//! the traffic the driver's contracts promise.

use vstd::prelude::*;

verus! {

use crate::bus::BusEvent;
use crate::bus::Transport;

/// A transport that goes nowhere: it logs every action in order, reports
/// the busy line high a scripted number of times, and can fail a scripted
/// exchange with a chosen error code. It meets [`Transport`]'s contracts
/// with proof, where an outside implementation is only trusted to.
pub struct Recorder {
    log: Vec<BusEvent>,
    busy_reads: u16,
    failure_armed: bool,
    exchanges_until_failure: usize,
    failure_code: u8,
}

impl Recorder {
    /// A quiet recorder: nothing logged, busy line low, no failure armed.
    pub fn new() -> (r: Recorder)
        ensures
            r.events() == Seq::<BusEvent>::empty(),
            r.busy_polls() == 0,
    {
        Recorder {
            log: Vec::new(),
            busy_reads: 0,
            failure_armed: false,
            exchanges_until_failure: 0,
            failure_code: 0,
        }
    }

    /// Scripts the busy line to read high `n` more times.
    pub fn set_busy_reads(&mut self, n: u16)
        ensures
            final(self).events() == old(self).events(),
            final(self).busy_polls() == n,
    {
        self.busy_reads = n;
    }

    /// Arms a failure: after `ok_exchanges` more successful byte exchanges,
    /// every further exchange fails with `code`.
    pub fn fail_after(&mut self, ok_exchanges: usize, code: u8)
        ensures
            final(self).events() == old(self).events(),
            final(self).busy_polls() == old(self).busy_polls(),
    {
        self.failure_armed = true;
        self.exchanges_until_failure = ok_exchanges;
        self.failure_code = code;
    }

    /// The recorded actions, oldest first.
    pub fn log(&self) -> (r: &Vec<BusEvent>)
        ensures
            r@ == self.events(),
    {
        &self.log
    }
}

impl Transport for Recorder {
    type Error = u8;

    closed spec fn events(&self) -> Seq<BusEvent> {
        self.log@
    }

    closed spec fn busy_polls(&self) -> nat {
        self.busy_reads as nat
    }

    fn set_chip_select(&mut self, level: bool) {
        self.log.push(BusEvent::ChipSelect(level));
    }

    fn set_data_command(&mut self, level: bool) {
        self.log.push(BusEvent::DataCommand(level));
    }

    fn set_reset(&mut self, level: bool) {
        self.log.push(BusEvent::Reset(level));
    }

    fn delay_ms(&mut self, ms: u16) {
        self.log.push(BusEvent::Delay(ms));
    }

    fn poll_busy(&mut self) -> (busy: bool) {
        if self.busy_reads > 0 {
            self.busy_reads = self.busy_reads - 1;
            true
        } else {
            false
        }
    }

    fn exchange(&mut self, byte: u8) -> (r: Result<u8, u8>) {
        if self.failure_armed && self.exchanges_until_failure == 0 {
            return Err(self.failure_code);
        }
        if self.failure_armed {
            self.exchanges_until_failure = self.exchanges_until_failure - 1;
        }
        self.log.push(BusEvent::Transfer(byte));
        Ok(0)
    }
}

} // verus!

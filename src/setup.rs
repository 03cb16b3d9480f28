//! The startup configuration of a polling session.

use vstd::prelude::*;
use crate::control::SlaveConfig;

verus! {

/// Serial ports to try, the slave address, the registers to poll in turn,
/// the cycle interval and the per-read timeout (both in milliseconds).
#[allow(non_snake_case)]
#[derive(Clone, Debug)]
pub struct Config {
    pub ComPort: Vec<String>,
    pub ModbusAddress: u8,
    pub Regs: Vec<u16>,
    pub cycle_time: u64,
    pub timeout: u64,
}

impl Config {
    /// The polling configuration of the slave, the cursor on the first
    /// register; `None` where there is no register to poll.
    pub fn slave_config(self) -> (r: Option<SlaveConfig>)
        ensures
            self.Regs@.len() == 0 ==> r is None,
            self.Regs@.len() > 0 ==> (r matches Some(c) && c.wf() && c.slave == self.ModbusAddress
                && c.cycle_time_ms == self.cycle_time && c.timeout_ms == self.timeout
                && c.read_index == 0 && c.regs@ == self.Regs@),
    {
        SlaveConfig::new(self.ModbusAddress, self.cycle_time, self.timeout, self.Regs)
    }
}

} // verus!

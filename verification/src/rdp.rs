//! Register window of the emulated display processor.

use vstd::prelude::*;

verus! {

/// Offset of the status register, the only register that can be read.
pub const DP_STATUS: usize = 0x0010_000C;

/// Outcome of a register write that the bus has to act on.
#[derive(Clone, Copy, Debug, PartialEq, Eq)]
pub enum WriteReturnSignal {
    /// Nothing to do.
    NoSignal,
}

/// A bus access that the device cannot serve.
#[derive(Clone, Copy, Debug, PartialEq, Eq)]
pub enum ReadWriteFault {
    /// The access is not valid for the device.
    Invalid,
}

/// The display processor as seen from the bus. It holds no state: the status
/// register always reads as idle and writes are accepted and dropped.
#[derive(Clone, Copy, Debug, PartialEq, Eq)]
pub struct Rdp {}

impl Rdp {
    /// A fresh device.
    pub fn new() -> (rdp: Rdp)
        ensures
            rdp == (Rdp {}),
    {
        Rdp {}
    }

    /// Reads the register at `offset`. Only the status register exists, and
    /// it reads as zero.
    pub fn read_u32(&mut self, offset: usize) -> (value: Result<u32, ReadWriteFault>)
        requires
            offset == DP_STATUS,
        ensures
            value == Ok::<u32, ReadWriteFault>(0),
            *final(self) == *old(self),
    {
        Ok(0)
    }

    /// Writes `value` to the register at `offset`. Every write is accepted
    /// and has no effect.
    pub fn write_u32(&mut self, value: u32, offset: usize) -> (signal: Result<
        WriteReturnSignal,
        ReadWriteFault,
    >)
        ensures
            signal == Ok::<WriteReturnSignal, ReadWriteFault>(WriteReturnSignal::NoSignal),
            *final(self) == *old(self),
    {
        Ok(WriteReturnSignal::NoSignal)
    }
}

} // verus!

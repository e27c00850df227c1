//! The registers of the processor.

use crate::unsigned_integer_12::u12;
use vstd::prelude::*;

verus! {

/// What the registers hold, as numbers.
pub struct RegisterFile {
    pub ac: int,
    pub link: int,
    pub mb: int,
    pub ma: int,
    pub ir: int,
    pub sr: int,
}

/// The hardware registers.
#[allow(non_snake_case)]
#[derive(Copy, Clone, Debug, PartialEq, Eq, Structural)]
pub struct HWRegisters {
    /// The accumulator, twelve bits.
    pub AC: u12,
    /// The link, one bit: the carry of the accumulator.
    pub L: u8,
    /// The memory buffer, twelve bits: what passes between the registers and
    /// memory passes through it.
    pub MB: u12,
    /// The memory address, twelve bits: the address selected for reading or
    /// writing.
    pub MA: u12,
    /// The instruction register, four bits, loaded from the memory buffer
    /// during a fetch cycle.
    pub IR: u8,
    /// The switch register, twelve bits, set from outside.
    pub SR: u12,
}

impl View for HWRegisters {
    type V = RegisterFile;

    open spec fn view(&self) -> RegisterFile {
        RegisterFile {
            ac: self.AC@,
            link: self.L as int,
            mb: self.MB@,
            ma: self.MA@,
            ir: self.IR as int,
            sr: self.SR@,
        }
    }
}

/// The registers as the machine is switched on: all zero.
pub open spec fn cleared() -> RegisterFile {
    RegisterFile { ac: 0, link: 0, mb: 0, ma: 0, ir: 0, sr: 0 }
}

impl HWRegisters {
    /// Registers that are all zero.
    pub fn default() -> (registers: HWRegisters)
        ensures
            registers@ == cleared(),
    {
        HWRegisters {
            AC: u12::from(0u16),
            L: 0,
            MB: u12::from(0u16),
            MA: u12::from(0u16),
            IR: 0,
            SR: u12::from(0u16),
        }
    }
}

/// All the registers of the machine.
#[derive(Copy, Clone, Debug, PartialEq, Eq, Structural)]
pub struct Registers {
    pub hardware_registers: HWRegisters,
}

impl View for Registers {
    type V = RegisterFile;

    open spec fn view(&self) -> RegisterFile {
        self.hardware_registers@
    }
}

impl Registers {
    /// Registers that are all zero.
    pub fn default() -> (registers: Registers)
        ensures
            registers@ == cleared(),
    {
        Registers { hardware_registers: HWRegisters::default() }
    }
}

} // verus!

//! Addresses and times that the whole machine shares.

use vstd::prelude::*;

verus! {

/// The address of the pseudo-register that is the program counter.
pub const PC_ADDRESS: u16 = 0;

/// The time between two pulses to an external device, in nanoseconds.
pub const EVENT_TIME_NS: u32 = 1000;

/// The time of one machine cycle, in nanoseconds. Times are in nanoseconds so
/// that a simulation can be run faster than the machine was.
pub const CYCLE_TIME_NS: u32 = 6 * EVENT_TIME_NS;

} // verus!

//! CPSR/SPSR field masks.

use vstd::prelude::*;

verus! {

/// Condition-code flags (bits 31..28).
pub const FLAGS: u32 = 0xF000_0000;
/// Interrupt-disable + mode bits that `MSR` with the `fc` mask may write.
pub const CONTROL: u32 = 0x0000_00FF;

} // verus!

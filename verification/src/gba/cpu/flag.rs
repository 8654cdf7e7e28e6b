//! Bits of the CPSR.

use vstd::prelude::*;

verus! {

pub const N: u32 = 0x8000_0000;
pub const Z: u32 = 0x4000_0000;
pub const C: u32 = 0x2000_0000;
pub const V: u32 = 0x1000_0000;
pub const I: u32 = 0x80;
pub const F: u32 = 0x40;
pub const T: u32 = 0x20;

} // verus!

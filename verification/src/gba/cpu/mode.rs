//! ARM processor modes.

use vstd::prelude::*;

verus! {

pub const USR: u32 = 0x10;
pub const FIQ: u32 = 0x11;
pub const IRQ: u32 = 0x12;
pub const SVC: u32 = 0x13;
pub const ABT: u32 = 0x17;
pub const UND: u32 = 0x1B;
pub const SYS: u32 = 0x1F;

} // verus!

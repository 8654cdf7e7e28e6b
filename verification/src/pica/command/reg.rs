//! Register IDs.

use vstd::prelude::*;

verus! {

pub const FINALIZE: u32 = 0x010;
pub const CMDBUF_SIZE0: u32 = 0x238;
pub const CMDBUF_ADDR0: u32 = 0x23A;
pub const CMDBUF_JUMP0: u32 = 0x23C;
pub const GSH: u32 = 0x280;
pub const VSH: u32 = 0x2B0;

} // verus!

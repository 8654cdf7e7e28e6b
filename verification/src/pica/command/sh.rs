//! Offsets within a shader block.

use vstd::prelude::*;

verus! {

pub const BOOL: u32 = 0x00;
/// The integer uniforms, up to `INT_LAST`.
pub const INT: u32 = 0x01;
pub const INT_LAST: u32 = 0x04;
pub const ENTRY: u32 = 0x0A;
pub const FLOAT_INDEX: u32 = 0x10;
/// The float FIFO, up to `FLOAT_DATA_LAST`.
pub const FLOAT_DATA: u32 = 0x11;
pub const FLOAT_DATA_LAST: u32 = 0x18;
pub const CODE_INDEX: u32 = 0x1B;
/// The code FIFO, up to `CODE_DATA_LAST`.
pub const CODE_DATA: u32 = 0x1C;
pub const CODE_DATA_LAST: u32 = 0x23;
pub const OPDESC_INDEX: u32 = 0x25;
/// The operand descriptor FIFO, up to `OPDESC_DATA_LAST`.
pub const OPDESC_DATA: u32 = 0x26;
pub const OPDESC_DATA_LAST: u32 = 0x2D;

} // verus!

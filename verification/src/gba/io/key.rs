//! Keypad bits (active low: 0 = pressed).

use vstd::prelude::*;

verus! {

pub const A: u16 = 0x0001;
pub const B: u16 = 0x0002;
pub const SELECT: u16 = 0x0004;
pub const START: u16 = 0x0008;
pub const RIGHT: u16 = 0x0010;
pub const LEFT: u16 = 0x0020;
pub const UP: u16 = 0x0040;
pub const DOWN: u16 = 0x0080;
pub const R: u16 = 0x0100;
pub const L: u16 = 0x0200;
pub const MASK: u16 = 0x03FF;

} // verus!

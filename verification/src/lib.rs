//! CrabBoy: a verified core for a family of handheld console emulators.

pub mod bits;
pub mod emu;
pub mod gb;
pub mod gba;
pub mod pica;
pub mod softfloat;

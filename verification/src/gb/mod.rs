//! The Game Boy and Game Boy Color core.

pub mod apu;
pub mod bus;
pub mod cartridge;
pub mod cpu;
pub mod cycles;
pub mod devices;
pub mod flags;
pub mod flow;
pub mod joypad;
pub mod isa;
pub mod laws;
pub mod machine;
pub mod picture;
pub mod ppu;
pub mod sound;
pub mod state;
pub mod timer;

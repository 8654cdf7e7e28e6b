//! The Game Boy Advance core.

pub mod apu;
pub mod bios;
pub mod bus;
pub mod cpu;
pub mod dma;
pub mod eeprom;
pub mod flat;
pub mod interrupts;
pub mod io;
pub mod laws;
pub mod machine;
pub mod picture;
pub mod ppu;
pub mod rtc;
pub mod save;
pub mod sound;
pub mod sound_state;
pub mod state;
pub mod timer;
pub mod timing;

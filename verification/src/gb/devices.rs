//! The Game Boy's bus and devices behind the abstractions that every core
//! shares.

use crate::emu::bus::Addressable;
use crate::emu::bus::Bus as EmuBus;
use crate::emu::device::Device;
use crate::gb::apu::{Apu, ApuState};
use crate::gb::bus::{Bus, BusState, MAX_STEP};
use crate::gb::joypad::Joypad;
use crate::gb::ppu::Ppu;
use crate::gb::timer::Timer;
use vstd::prelude::*;

verus! {

impl Addressable for Bus {
    open spec fn accessible(&self) -> bool {
        self@.wf()
    }

    open spec fn byte_at(&self, addr: u32) -> u8 {
        self@.byte(addr as u16)
    }

    open spec fn is_written(before: Bus, addr: u32, value: u8, after: Bus) -> bool {
        after@ == before@.after_write(addr as u16, value)
    }

    fn read(&self, addr: u32) -> (r: u8) {
        Bus::read(self, addr as u16)
    }

    fn write(&mut self, addr: u32, value: u8) {
        Bus::write(self, addr as u16, value)
    }
}

impl EmuBus for Bus {
    open spec fn clockable(&self, cycles: u32) -> bool {
        self@.wf() && cycles <= MAX_STEP
    }

    open spec fn is_ticked(before: Bus, cycles: u32, after: Bus) -> bool {
        after@ == before@.after_step(cycles) && after@.wf()
    }

    open spec fn is_requested(before: Bus, bit: u32, after: Bus) -> bool {
        after@ == if bit < 5 {
            before@.with_io(0x0F, before@.io[0x0F] | (1u8 << bit))
        } else {
            before@
        }
    }

    fn tick(&mut self, cycles: u32) {
        self.step(cycles);
    }

    fn request_interrupt(&mut self, bit: u32) {
        Bus::request_interrupt(self, bit)
    }
}

impl Device<Bus> for Timer {
    open spec fn name(&self) -> Seq<char> {
        "Timer"@
    }

    open spec fn is_reset(&self) -> bool {
        *self == Timer::initial()
    }

    open spec fn clockable(&self, cycles: u32) -> bool {
        true
    }

    open spec fn is_ticked(before: Timer, bus: Bus, cycles: u32, after: Timer, bus_after: Bus) -> bool {
        let (timer, io) = before.after_step(bus@.io, cycles);
        after == timer && bus_after@ == (BusState { io, ..bus@ })
    }

    fn kind(&self) -> (r: &'static str) {
        "Timer"
    }

    fn reset(&mut self) {
        *self = Timer::new();
    }

    fn tick(&mut self, cycles: u32, bus: &mut Bus) {
        self.step(cycles, &mut bus.io);
    }
}

impl Device<Bus> for Joypad {
    open spec fn name(&self) -> Seq<char> {
        "Joypad"@
    }

    open spec fn is_reset(&self) -> bool {
        *self == (Joypad { state: 0xFF })
    }

    open spec fn clockable(&self, cycles: u32) -> bool {
        true
    }

    open spec fn is_ticked(
        before: Joypad,
        bus: Bus,
        cycles: u32,
        after: Joypad,
        bus_after: Bus,
    ) -> bool {
        after == before && bus_after == bus
    }

    fn kind(&self) -> (r: &'static str) {
        "Joypad"
    }

    fn reset(&mut self) {
        *self = Joypad::new();
    }

    fn tick(&mut self, cycles: u32, bus: &mut Bus) {
        // The joypad has no clocked behaviour.
    }
}

impl Device<Bus> for Ppu {
    open spec fn name(&self) -> Seq<char> {
        "PPU"@
    }

    open spec fn is_reset(&self) -> bool {
        *self == Ppu::initial()
    }

    open spec fn clockable(&self, cycles: u32) -> bool {
        self.wf() && self.dot + cycles <= u32::MAX
    }

    open spec fn is_ticked(before: Ppu, bus: Bus, cycles: u32, after: Ppu, bus_after: Bus) -> bool {
        let (ppu, io) = before.after_step(bus@.io, bus@.vram, bus@.oam, cycles);
        after == ppu && bus_after@ == (BusState { io, ..bus@ })
    }

    fn kind(&self) -> (r: &'static str) {
        "PPU"
    }

    fn reset(&mut self) {
        *self = Ppu::new();
    }

    fn tick(&mut self, cycles: u32, bus: &mut Bus) {
        self.step(cycles, &mut bus.io, &mut bus.vram, &mut bus.oam);
    }
}

/// The sixteen bytes of wave RAM among the I/O registers.
pub open spec fn wave_ram(io: [u8; 0x80]) -> [u8; 16] {
    [
        io[0x30],
        io[0x31],
        io[0x32],
        io[0x33],
        io[0x34],
        io[0x35],
        io[0x36],
        io[0x37],
        io[0x38],
        io[0x39],
        io[0x3A],
        io[0x3B],
        io[0x3C],
        io[0x3D],
        io[0x3E],
        io[0x3F],
    ]
}

impl Device<Bus> for Apu {
    open spec fn name(&self) -> Seq<char> {
        "APU"@
    }

    open spec fn is_reset(&self) -> bool {
        self@ == ApuState::initial()
    }

    open spec fn clockable(&self, cycles: u32) -> bool {
        self@.wf() && self@.frame_accum + cycles <= u32::MAX
    }

    open spec fn is_ticked(before: Apu, bus: Bus, cycles: u32, after: Apu, bus_after: Bus) -> bool {
        &&& after@ == before@.after_step(cycles, bus@.io, wave_ram(bus@.io))
        &&& bus_after@ == bus@
    }

    fn kind(&self) -> (r: &'static str) {
        "APU"
    }

    fn reset(&mut self) {
        *self = Apu::new();
    }

    fn tick(&mut self, cycles: u32, bus: &mut Bus) {
        let mut wave: [u8; 16] = [0; 16];
        let mut i: usize = 0;
        while i < 16
            invariant
                i <= 16,
                forall|k: int| 0 <= k < i ==> wave[k] == bus.io[0x30 + k],
            decreases 16 - i,
        {
            wave[i] = bus.io[0x30 + i];
            i = i + 1;
        }
        assert(wave =~= wave_ram(bus.io));
        self.step(cycles, &mut bus.io, &wave);
    }
}

} // verus!

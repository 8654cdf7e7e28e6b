//! A flat memory for the CPU, without wait states or devices.

use crate::emu::mem::Mem;
use crate::gba::cpu::Bus;
use vstd::prelude::*;

verus! {

/// 64 KB of memory, repeated over the address space. Accesses need no
/// alignment, and wrap around at its end.
pub struct TestBus {
    pub mem: Mem<u8, 0x10000>,
}

/// The cell that `offset` bytes behind `addr` falls on.
pub open spec fn cell(addr: u32, offset: int) -> int {
    (addr + offset) % 0x1_0000
}

impl TestBus {
    pub fn new() -> (r: TestBus)
        ensures
            r.mem == Mem::<u8, 0x10000>::all(0),
    {
        TestBus { mem: Mem::zeroed() }
    }

    pub open spec fn with_byte(self, addr: u32, offset: int, value: u8) -> TestBus {
        TestBus { mem: self.mem.with(cell(addr, offset), value) }
    }
}

impl Bus for TestBus {
    open spec fn ready(self) -> bool {
        true
    }

    open spec fn after_read8(self, addr: u32) -> (TestBus, u32) {
        (self, self.mem.at(cell(addr, 0)) as u32)
    }

    open spec fn after_read16(self, addr: u32) -> (TestBus, u32) {
        (self, (self.mem.at(cell(addr, 0)) + self.mem.at(cell(addr, 1)) * 256) as u32)
    }

    open spec fn after_read32(self, addr: u32) -> (TestBus, u32) {
        (
            self,
            (self.mem.at(cell(addr, 0)) + self.mem.at(cell(addr, 1)) * 0x100 + self.mem.at(
                cell(addr, 2),
            ) * 0x1_0000 + self.mem.at(cell(addr, 3)) * 0x100_0000) as u32,
        )
    }

    open spec fn after_write8(self, addr: u32, value: u32) -> TestBus {
        self.with_byte(addr, 0, (value % 256) as u8)
    }

    open spec fn after_write16(self, addr: u32, value: u32) -> TestBus {
        self.with_byte(addr, 0, (value % 256) as u8).with_byte(
            addr,
            1,
            (value / 0x100 % 256) as u8,
        )
    }

    open spec fn after_write32(self, addr: u32, value: u32) -> TestBus {
        self.with_byte(addr, 0, (value % 256) as u8).with_byte(
            addr,
            1,
            (value / 0x100 % 256) as u8,
        ).with_byte(addr, 2, (value / 0x1_0000 % 256) as u8).with_byte(
            addr,
            3,
            (value / 0x100_0000) as u8,
        )
    }

    fn read8(&mut self, addr: u32) -> (r: u32) {
        self.mem.get((addr % 0x1_0000) as usize) as u32
    }

    fn read16(&mut self, addr: u32) -> (r: u32) {
        let a: usize = (addr % 0x1_0000) as usize;
        self.mem.get(a) as u32 + self.mem.get((a + 1) % 0x1_0000) as u32 * 256
    }

    fn read32(&mut self, addr: u32) -> (r: u32) {
        let a: usize = (addr % 0x1_0000) as usize;
        self.mem.get(a) as u32 + self.mem.get((a + 1) % 0x1_0000) as u32 * 0x100 + self.mem.get(
            (a + 2) % 0x1_0000,
        ) as u32 * 0x1_0000 + self.mem.get((a + 3) % 0x1_0000) as u32 * 0x100_0000
    }

    fn write8(&mut self, addr: u32, value: u32) {
        self.mem.set((addr % 0x1_0000) as usize, (value % 256) as u8);
    }

    fn write16(&mut self, addr: u32, value: u32) {
        let a: usize = (addr % 0x1_0000) as usize;
        self.mem.set(a, (value % 256) as u8);
        self.mem.set((a + 1) % 0x1_0000, (value / 0x100 % 256) as u8);
    }

    fn write32(&mut self, addr: u32, value: u32) {
        let a: usize = (addr % 0x1_0000) as usize;
        self.mem.set(a, (value % 256) as u8);
        self.mem.set((a + 1) % 0x1_0000, (value / 0x100 % 256) as u8);
        self.mem.set((a + 2) % 0x1_0000, (value / 0x1_0000 % 256) as u8);
        self.mem.set((a + 3) % 0x1_0000, (value / 0x100_0000) as u8);
    }
}

impl Default for TestBus {
    fn default() -> (r: TestBus)
        ensures
            r.mem == Mem::<u8, 0x10000>::all(0),
    {
        TestBus::new()
    }
}

} // verus!

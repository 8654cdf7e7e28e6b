//! What holds of the machine as a whole: memory reads back, time passes
//! without disturbing it, and transfers deliver what they read.

use crate::bits::put;
use crate::gb::apu::law_apu_stays_well_formed;
use crate::gb::bus::{wave_of, BusState, Hdma, OamDma, MAX_STEP};
use crate::gb::cartridge::law_cartridge_stays_well_formed;
use crate::gb::cpu::{Cpu, Machine};
use crate::gb::ppu::law_ppu_stays_well_formed;
use vstd::prelude::*;

verus! {

/// Work RAM, its echo and high RAM read back what was written, and a write to
/// one byte of work RAM shows at its echo.
pub proof fn law_ram_reads_back(bus: BusState, addr: u16, v: u8)
    requires
        0xC000 <= addr <= 0xFDFF || 0xFF80 <= addr <= 0xFFFE,
    ensures
        bus.after_write(addr, v).byte(addr) == v,
        0xC000 <= addr < 0xDE00 ==> bus.after_write(addr, v).byte((addr + 0x2000) as u16) == v,
{
    broadcast use crate::bits::group_masks;

    reveal(BusState::after_write);
    reveal(BusState::byte);
}

/// The echo of work RAM shows the same bytes.
pub proof fn law_echo_ram(bus: BusState, addr: u16)
    requires
        0xC000 <= addr < 0xDE00,
    ensures
        bus.byte((addr + 0x2000) as u16) == bus.byte(addr),
{
    reveal(BusState::byte);
}

/// VRAM reads back what was written through the bank that VBK selects.
pub proof fn law_vram_reads_back(bus: BusState, addr: u16, v: u8)
    requires
        0x8000 <= addr <= 0x9FFF,
    ensures
        bus.after_write(addr, v).byte(addr) == v,
{
    broadcast use crate::bits::group_masks;

    reveal(BusState::after_write);
    reveal(BusState::byte);
}

proof fn lemma_dma(bus: BusState, n: nat)
    requires
        n <= bus.dma.remaining <= 160,
    ensures
        bus.dma_bytes(n) == (BusState {
            oam: bus.dma_bytes(n).oam,
            dma: OamDma { remaining: (bus.dma.remaining - n) as u32, ..bus.dma },
            ..bus
        }),
        forall|i: int|
            160 - bus.dma.remaining <= i < 160 - bus.dma.remaining + n
                ==> #[trigger] bus.dma_bytes(n).oam[i] == bus.transfer_byte(bus.dma.source + i),
        forall|i: int|
            0 <= i < 160 && !(160 - bus.dma.remaining <= i < 160 - bus.dma.remaining + n)
                ==> #[trigger] bus.dma_bytes(n).oam[i] == bus.oam[i],
    decreases n,
{
    if n > 0 {
        lemma_dma(bus, (n - 1) as nat);
    }
}

/// An OAM DMA copies the 160 bytes of its source page, one per M-cycle: after
/// 640 T-cycles all of them have arrived, and no other memory has changed.
pub proof fn law_oam_dma_copies_a_page(bus: BusState, cycles: u32)
    requires
        bus.dma.remaining == 160,
        cycles >= 640,
    ensures
        forall|i: int|
            0 <= i < 160 ==> #[trigger] bus.after_dma(cycles).oam[i] == bus.transfer_byte(
                bus.dma.source + i,
            ),
        bus.after_dma(cycles) == (BusState {
            oam: bus.after_dma(cycles).oam,
            dma: OamDma { remaining: 0, ..bus.dma },
            ..bus
        }),
{
    lemma_dma(bus, 160);
}

proof fn lemma_hdma_keeps(bus: BusState, n: nat)
    ensures
        bus.hdma_bytes(n) == (BusState { vram: bus.hdma_bytes(n).vram, ..bus }),
    decreases n,
{
    if n > 0 {
        lemma_hdma_keeps(bus, (n - 1) as nat);
    }
}

/// The devices leave work RAM, high RAM and the interrupt enables alone,
/// however long they run.
pub proof fn law_time_keeps_ram(bus: BusState, cycles: u32)
    requires
        bus.wf(),
    ensures
        bus.after_step(cycles).wram == bus.wram,
        bus.after_step(cycles).hram == bus.hram,
        bus.after_step(cycles).ie == bus.ie,
{
    reveal(BusState::after_step);
    let most = bus.dma.remaining * 4;
    let n = ((if cycles < most {
        cycles as int
    } else {
        most
    }) / 4) as nat;
    lemma_dma(bus, n);
    let d = bus.after_dma(cycles).after_serial(cycles).after_devices(cycles);
    lemma_hdma_keeps(
        d,
        (if d.hdma.len < 0x10 {
            d.hdma.len as int
        } else {
            0x10
        }) as nat,
    );
}

/// Time leaves the machine around the CPU well formed.
pub proof fn law_bus_stays_well_formed(bus: BusState, cycles: u32)
    requires
        bus.wf(),
        cycles <= MAX_STEP,
    ensures
        bus.after_step(cycles).wf(),
{
    reveal(BusState::after_step);
    let most = bus.dma.remaining * 4;
    let n = ((if cycles < most {
        cycles as int
    } else {
        most
    }) / 4) as nat;
    lemma_dma(bus, n);
    let a = bus.after_dma(cycles);
    let b = a.after_serial(cycles);
    let dev = b.device_cycles(cycles);
    let (timer, io1) = b.timer.after_step(b.io, dev);
    let (ppu, io2) = b.ppu.after_step(io1, b.vram, b.oam, dev);
    law_ppu_stays_well_formed(b.ppu, io1, b.vram, b.oam, dev);
    law_cartridge_stays_well_formed(b.cart, 0, 0, dev);
    law_apu_stays_well_formed(b.apu, cycles, io2, wave_of(b.io));
    let d = b.after_devices(cycles);
    assert(d.wf());
    lemma_hdma_keeps(
        d,
        (if d.hdma.len < 0x10 {
            d.hdma.len as int
        } else {
            0x10
        }) as nat,
    );
}

/// One M-cycle of the machine leaves high RAM alone and the machine well
/// formed.
proof fn lemma_tick_hram(m: Machine)
    requires
        m.bus.wf(),
    ensures
        m.tick().bus.hram == m.bus.hram,
        m.tick().cpu == (Cpu { ticked: m.tick().cpu.ticked, ..m.cpu }),
        m.tick().bus.wf(),
{
    reveal(Machine::tick);
    law_time_keeps_ram(m.bus, 4);
    law_bus_stays_well_formed(m.bus, 4);
}

/// A byte of high RAM written leaves the machine well formed.
proof fn lemma_write_hram(m: Machine, addr: u16, v: u8)
    requires
        m.bus.wf(),
        0xFF80 <= addr <= 0xFFFE,
    ensures
        m.write(addr, v).bus.wf(),
        m.write(addr, v).bus.hram == put(m.bus.hram, addr - 0xFF80, v),
        m.write(addr, v).cpu == (Cpu { ticked: m.write(addr, v).cpu.ticked, ..m.cpu }),
{
    reveal(BusState::after_write);
    lemma_tick_hram(m);
}

/// A word pushed to a stack in high RAM is the word popped from it, whatever
/// the devices did in between, and every register is back where it was.
pub proof fn law_push_then_pop(m: Machine, v: u16)
    requires
        m.bus.wf(),
        0xFF82 <= m.cpu.sp <= 0xFFFE,
    ensures
        ({
            let (p, w) = m.push16(v).pop16();
            w == v && p.cpu == (Cpu { ticked: p.cpu.ticked, ..m.cpu })
        }),
{
    reveal(Machine::push16);
    reveal(BusState::byte);
    lemma_tick_hram(m);
    let t = m.tick();
    let hi = (v / 256) as u8;
    let lo = (v % 256) as u8;
    let sp1 = (t.cpu.sp - 1) as u16;
    lemma_write_hram(t.with_cpu(Cpu { sp: sp1, ..t.cpu }), sp1, hi);
    let p1 = t.push8(hi);
    let sp2 = (p1.cpu.sp - 1) as u16;
    lemma_write_hram(p1.with_cpu(Cpu { sp: sp2, ..p1.cpu }), sp2, lo);
    let p2 = p1.push8(lo);
    assert(p2.bus.hram[sp2 - 0xFF80] == lo);
    assert(p2.bus.hram[sp1 - 0xFF80] == hi);
    lemma_tick_hram(p2);
    let (q1, first) = p2.pop8();
    assert(first == lo);
    lemma_tick_hram(q1);
}

proof fn lemma_hdma_copies(bus: BusState, n: nat)
    requires
        0x8000 <= bus.hdma.dst,
        bus.hdma.src + n <= 0x8000 || 0xA000 <= bus.hdma.src,
    ensures
        forall|i: int|
            0 <= i < n && bus.hdma.dst + i <= 0x9FFF ==> #[trigger] bus.hdma_bytes(
                n,
            ).vram[bus.hdma.dst - 0x8000 + i] == bus.transfer_byte(bus.hdma.src + i),
    decreases n,
{
    if n > 0 {
        lemma_hdma_copies(bus, (n - 1) as nat);
        lemma_hdma_keeps(bus, (n - 1) as nat);
    }
}

/// A general-purpose HDMA transfer, or any that is started while the LCD is
/// off, copies its bytes to VRAM at once and is over.
pub proof fn law_hdma_copies(bus: BusState, value: u8, i: int)
    requires
        value & 0x80 == 0 || bus.io[0x40] & 0x80 == 0,
        ({
            let len = ((value & 0x7F) + 1) * 0x10;
            &&& bus.hdma_source() + len <= 0x8000 || 0xA000 <= bus.hdma_source()
            &&& 0 <= i < len
            &&& bus.hdma_dest() + i <= 0x9FFF
        }),
    ensures
        bus.after_hdma_start(value).vram[bus.hdma_dest() - 0x8000 + i] == bus.transfer_byte(
            bus.hdma_source() + i,
        ),
        !bus.after_hdma_start(value).hdma.active,
        bus.after_hdma_start(value).io[0x55] == 0xFF,
{
    let len = ((value & 0x7F) + 1) * 0x10;
    let hdma = Hdma { src: bus.hdma_source(), dst: bus.hdma_dest(), ..bus.hdma };
    let s = BusState { hdma, ..bus.with_io(0x55, value) };
    assert(0x8000 <= bus.hdma_dest()) by {
        broadcast use crate::bits::group_masks;

    }
    assert(value & 0x7F <= 0x7F) by {
        broadcast use crate::bits::group_masks;

    }
    lemma_hdma_copies(s, len as nat);
    lemma_hdma_keeps(s, len as nat);
    assert(s.hdma_bytes(len as nat).vram[s.hdma.dst - 0x8000 + i] == s.transfer_byte(
        s.hdma.src + i,
    ));
    assert(s.transfer_byte(s.hdma.src + i) == bus.transfer_byte(bus.hdma_source() + i));
}

/// What leaves through the serial port is the byte that SB held when the
/// transfer started; FF shifts in, and the interrupt is requested.
pub proof fn law_serial_sends_the_byte(bus: BusState, control: u8, cycles: u32)
    requires
        control & 0x80 != 0,
        cycles >= 4096,
    ensures
        ({
            let after = bus.after_serial_control(control).after_serial(cycles);
            &&& after.serial_buf == bus.serial_buf.push(bus.io[0x01])
            &&& after.io[0x01] == 0xFF
            &&& after.io[0x02] & 0x80 == 0
            &&& after.io[0x0F] & 0x08 != 0
            &&& after.serial.remaining == 0
        }),
{
    let f = bus.io[0x0F];
    assert((control & !0x80u8) & 0x80 == 0 && (f | 0x08) & 0x08 != 0) by (bit_vector);
}

} // verus!

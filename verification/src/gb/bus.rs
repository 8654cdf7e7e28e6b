//! Game Boy memory bus.
//!
//! Routes reads and writes across the full 16-bit address space and drives the
//! clocked devices.

use crate::bits::{filled, put};
use crate::gb::apu::{Apu, ApuState};
use crate::gb::cartridge::{law_cartridge_stays_well_formed, CartState, Cartridge};
use crate::gb::joypad::Joypad;
use crate::gb::ppu::{Oam, Ppu, Vram, FRAME_PIXELS};
use crate::gb::timer::{IoRegs, Timer};
use vstd::prelude::*;

verus! {

pub const INTERRUPT_VBLANK: u8 = 0x01;
pub const INTERRUPT_LCD: u8 = 0x02;
pub const INTERRUPT_TIMER: u8 = 0x04;
pub const INTERRUPT_SERIAL: u8 = 0x08;
pub const INTERRUPT_JOYPAD: u8 = 0x10;

/// CGB boot-ROM default compatibility palette (combination index 0, used for
/// monochrome games that are not in the boot ROM's title database):
/// OBJ palettes 0 and 1 = palette 4, BG palette 0 = palette 29.
pub const BOOT_PAL_OBJ: [u8; 8] = [0x7F, 0xFF, 0x1F, 0x42, 0xF2, 0x1C, 0x00, 0x00];
pub const BOOT_PAL_BG: [u8; 8] = [0x7F, 0xFF, 0xEF, 0x1B, 0x80, 0x61, 0x00, 0x00];

/// The most T-cycles one `Bus::step` may be asked for: the MBC3 clock's
/// remainder is added to them in 32 bits.
pub const MAX_STEP: u32 = 0xFFBF_FFFF;

/// The OAM DMA: its source page and the bytes still to copy.
#[derive(Clone, Copy, PartialEq, Eq, Structural, Debug)]
pub struct OamDma {
    pub source: u16,
    pub remaining: u32,
}

/// The serial port: the T-cycles left of a transfer, and the byte in SB when
/// it started, which is what the other end (and `serial_buf`) receives.
#[derive(Clone, Copy, PartialEq, Eq, Structural, Debug)]
pub struct Serial {
    pub remaining: u32,
    pub out: u8,
}

/// The CGB's VRAM DMA.
#[derive(Clone, Copy, PartialEq, Eq, Structural, Debug)]
pub struct Hdma {
    pub active: bool,
    pub hblank: bool,
    pub len: u16,
    pub src: usize,
    pub dst: usize,
    /// Whether the current HBlank has had its share.
    pub done: bool,
}

pub struct Bus {
    pub cart: Cartridge,
    /// 8 banks of 4 KiB WRAM (0x8000 bytes). Bank 0 is always at C000-CFFF;
    /// D000-DFFF selects bank 1-7 via SVBK (0xFF70).
    pub wram: [u8; 0x8000],
    /// 2 banks of 8 KiB VRAM (0x4000 bytes); VBK (0xFF4F) selects the bank the
    /// CPU reads/writes. The PPU reads both banks.
    pub vram: [u8; 0x4000],
    pub oam: [u8; 0xA0],
    pub io: [u8; 0x80],
    pub hram: [u8; 0x80],
    pub ie: u8,
    pub joypad: Joypad,
    pub ppu: Ppu,
    pub timer: Timer,
    pub apu: Apu,
    pub serial_buf: Vec<u8>,
    /// Whether the loaded cartridge requests CGB (color) rendering.
    pub is_cgb: bool,
    /// Whether the CPU is in double-speed mode (8.39 MHz).
    pub double_speed: bool,
    /// Carry accumulator for halving device cycles in double-speed mode.
    pub dev_accum: u32,
    pub dma: OamDma,
    pub serial: Serial,
    pub hdma: Hdma,
}

/// The bus and everything on it as a value.
pub struct BusState {
    pub cart: CartState,
    pub wram: [u8; 0x8000],
    pub vram: [u8; 0x4000],
    pub oam: [u8; 0xA0],
    pub io: [u8; 0x80],
    pub hram: [u8; 0x80],
    pub ie: u8,
    pub joypad: Joypad,
    pub ppu: Ppu,
    pub timer: Timer,
    pub apu: ApuState,
    pub serial_buf: Seq<u8>,
    pub is_cgb: bool,
    pub double_speed: bool,
    pub dev_accum: u32,
    pub dma: OamDma,
    pub serial: Serial,
    pub hdma: Hdma,
}

impl View for Bus {
    type V = BusState;

    open spec fn view(&self) -> BusState {
        BusState {
            cart: self.cart@,
            wram: self.wram,
            vram: self.vram,
            oam: self.oam,
            io: self.io,
            hram: self.hram,
            ie: self.ie,
            joypad: self.joypad,
            ppu: self.ppu,
            timer: self.timer,
            apu: self.apu@,
            serial_buf: self.serial_buf@,
            is_cgb: self.is_cgb,
            double_speed: self.double_speed,
            dev_accum: self.dev_accum,
            dma: self.dma,
            serial: self.serial,
            hdma: self.hdma,
        }
    }
}

/// The console a cartridge runs on.
#[derive(Clone, Copy, PartialEq, Eq, Structural, Debug)]
pub enum Model {
    /// Game Boy (DMG).
    Dmg,
    /// Game Boy Color, including its DMG compatibility mode for plain carts.
    Cgb,
}

impl Model {
    /// The model a cartridge header asks for.
    pub open spec fn of(cart: CartState) -> Model {
        if cart.is_cgb() {
            Model::Cgb
        } else {
            Model::Dmg
        }
    }

    /// The model the cartridge header asks for.
    pub fn for_cart(cart: &Cartridge) -> (r: Model)
        ensures
            r == Model::of(cart@),
    {
        if cart.is_cgb() {
            Model::Cgb
        } else {
            Model::Dmg
        }
    }
}

/// The first `n` bytes of palette RAM filled with repetitions of `pal`.
pub open spec fn tiled(pal: [u8; 8], n: nat) -> [u8; 64]
    decreases n,
{
    if n == 0 {
        filled(0)
    } else {
        put(tiled(pal, (n - 1) as nat), n - 1, pal[(n - 1) % 8])
    }
}

fn tile_palette(pal: [u8; 8]) -> (r: [u8; 64])
    ensures
        r == tiled(pal, 64),
{
    let mut out: [u8; 64] = [0; 64];
    let mut i: usize = 0;
    while i < 64
        invariant
            i <= 64,
            out == tiled(pal, i as nat),
        decreases 64 - i,
    {
        out[i] = pal[i % 8];
        i = i + 1;
    }
    out
}

/// Wave RAM, 0xFF30-0xFF3F.
pub open spec fn wave_of(io: IoRegs) -> [u8; 16] {
    [
        io[0x30],
        io[0x31],
        io[0x32],
        io[0x33],
        io[0x34],
        io[0x35],
        io[0x36],
        io[0x37],
        io[0x38],
        io[0x39],
        io[0x3A],
        io[0x3B],
        io[0x3C],
        io[0x3D],
        io[0x3E],
        io[0x3F],
    ]
}

fn wave_ram(io: &IoRegs) -> (r: [u8; 16])
    ensures
        r == wave_of(*io),
{
    let r: [u8; 16] = [
        io[0x30],
        io[0x31],
        io[0x32],
        io[0x33],
        io[0x34],
        io[0x35],
        io[0x36],
        io[0x37],
        io[0x38],
        io[0x39],
        io[0x3A],
        io[0x3B],
        io[0x3C],
        io[0x3D],
        io[0x3E],
        io[0x3F],
    ];
    assert(r =~= wave_of(*io));
    r
}

impl BusState {
    /// What every bus in use satisfies: its devices are well formed and the
    /// transfer counters lie within one transfer.
    pub open spec fn wf(self) -> bool {
        &&& self.cart.wf()
        &&& self.ppu.wf()
        &&& self.apu.wf()
        &&& self.dma.remaining <= 160
        &&& self.dev_accum <= 1
        &&& self.hdma.len <= 0x800
        &&& self.hdma.src + self.hdma.len <= 0x11800
        &&& self.hdma.dst + self.hdma.len <= 0x11800
    }

    /// The machine as the boot ROM leaves it, with `cart` in a console of
    /// model `model`.
    pub open spec fn initial(cart: CartState, model: Model) -> BusState {
        BusState {
            cart,
            wram: filled(0),
            vram: filled(0),
            oam: filled(0),
            io: put(put(filled(0), 0x00, 0xCF), 0x40, 0x91),
            hram: filled(0),
            ie: 0,
            joypad: Joypad { state: 0xFF },
            ppu: Ppu {
                cgb: model == Model::Cgb,
                bg_pal: tiled(BOOT_PAL_BG, 64),
                obj_pal: tiled(BOOT_PAL_OBJ, 64),
                ..Ppu::initial()
            },
            timer: Timer::initial(),
            apu: ApuState::initial(),
            serial_buf: Seq::empty(),
            is_cgb: model == Model::Cgb,
            double_speed: false,
            dev_accum: 0,
            dma: OamDma { source: 0, remaining: 0 },
            serial: Serial { remaining: 0, out: 0 },
            hdma: Hdma { active: false, hblank: false, len: 0, src: 0, dst: 0, done: false },
        }
    }

    /// Where `addr` (0xC000-0xFDFF) lies in work RAM: C000-CFFF is bank 0,
    /// D000-DFFF the bank SVBK selects (0 acts as 1), E000-FDFF a mirror.
    pub open spec fn wram_at(self, addr: int) -> int {
        let a = if addr >= 0xE000 {
            addr - 0x2000
        } else {
            addr
        };
        if a < 0xD000 {
            a - 0xC000
        } else {
            let s = self.io[0x70] & 0x07;
            (if s == 0 {
                1
            } else {
                s as int
            }) * 0x1000 + (a - 0xD000)
        }
    }

    /// Where `addr` (0x8000-0x9FFF) lies in VRAM: in the bank VBK selects.
    pub open spec fn vram_at(self, addr: int) -> int {
        (self.io[0x4F] & 1) * 0x2000 + (addr - 0x8000)
    }

    /// The byte the CPU reads at `addr`.
    #[verifier::opaque]
    pub open spec fn byte(self, addr: u16) -> u8 {
        if addr < 0x8000 {
            self.cart.rom_byte(addr)
        } else if addr < 0xA000 {
            self.vram[self.vram_at(addr as int)]
        } else if addr < 0xC000 {
            self.cart.ram_byte(addr)
        } else if addr < 0xFE00 {
            self.wram[self.wram_at(addr as int)]
        } else if addr < 0xFEA0 {
            self.oam[addr - 0xFE00]
        } else if addr < 0xFF00 {
            0
        } else if addr == 0xFF00 {
            self.joypad.p1(self.io[0x00])
        } else if addr == 0xFF01 {
            self.io[0x01]
        } else if addr == 0xFF02 {
            self.io[0x02] | 0x7E
        } else if 0xFF04 <= addr <= 0xFF07 {
            self.io[addr - 0xFF00]
        } else if addr == 0xFF0F {
            self.io[0x0F] | 0xE0
        } else if 0xFF10 <= addr <= 0xFF3F {
            self.apu.reg(addr, self.io)
        } else if addr == 0xFF4D {
            (self.io[0x4D] & 0x01) | (if self.double_speed {
                0x80u8
            } else {
                0
            })
        } else if 0xFF68 <= addr <= 0xFF6B {
            self.ppu.pal_reg(addr, self.io)
        } else if addr == 0xFF70 {
            self.io[0x70] | 0xF8
        } else if 0xFF40 <= addr <= 0xFF7F {
            self.io[addr - 0xFF00]
        } else if 0xFF80 <= addr <= 0xFFFE {
            self.hram[addr - 0xFF80]
        } else if addr == 0xFFFF {
            self.ie
        } else {
            0
        }
    }

    /// The byte a DMA transfer reads at `addr`: ROM, VRAM, cartridge RAM and
    /// work RAM, nothing above.
    pub open spec fn transfer_byte(self, addr: int) -> u8 {
        if addr < 0x8000 {
            self.cart.rom_byte(addr as u16)
        } else if addr < 0xA000 {
            self.vram[self.vram_at(addr)]
        } else if addr < 0xC000 {
            self.cart.ram_byte(addr as u16)
        } else if addr < 0xFE00 {
            self.wram[self.wram_at(addr)]
        } else {
            0
        }
    }

    /// The bus with I/O register `off` set to `value`.
    pub open spec fn with_io(self, off: int, value: u8) -> BusState {
        BusState { io: put(self.io, off, value), ..self }
    }

    /// A write to SC: bit 7 starts the transfer of the byte in SB, eight bits
    /// at the normal or the fast clock.
    pub open spec fn after_serial_control(self, value: u8) -> BusState {
        let s = self.with_io(0x02, value);
        if value & 0x80 != 0 {
            BusState {
                serial: Serial {
                    remaining: if value & 0x01 != 0 {
                        2048
                    } else {
                        4096
                    },
                    out: self.io[0x01],
                },
                ..s
            }
        } else {
            s
        }
    }

    /// The first `n` bytes of an HDMA transfer copied; they always go to VRAM
    /// bank 0, and what would lie past it is dropped.
    pub open spec fn hdma_bytes(self, n: nat) -> BusState
        decreases n,
    {
        if n == 0 {
            self
        } else {
            let s = self.hdma_bytes((n - 1) as nat);
            let dst = self.hdma.dst + n - 1;
            if 0x8000 <= dst <= 0x9FFF {
                BusState {
                    vram: put(s.vram, dst - 0x8000, s.transfer_byte(self.hdma.src + n - 1)),
                    ..s
                }
            } else {
                s
            }
        }
    }

    /// `len` bytes copied and the pointers moved on.
    pub open spec fn after_hdma_transfer(self, len: int) -> BusState {
        BusState {
            hdma: Hdma {
                src: (self.hdma.src + len) as usize,
                dst: (self.hdma.dst + len) as usize,
                ..self.hdma
            },
            ..self.hdma_bytes(len as nat)
        }
    }

    /// The end of a transfer: HDMA5 reads FF.
    pub open spec fn hdma_finished(self) -> BusState {
        BusState {
            hdma: Hdma { active: false, hblank: false, ..self.hdma },
            ..self.with_io(0x55, 0xFF)
        }
    }

    /// The source pointer the HDMA registers hold.
    pub open spec fn hdma_source(self) -> usize {
        ((self.io[0x51] as usize) << 8 | self.io[0x52] as usize) & 0xFFF0
    }

    /// The destination pointer the HDMA registers hold.
    pub open spec fn hdma_dest(self) -> usize {
        ((((self.io[0x53] as usize) << 8 | self.io[0x54] as usize) & 0x1FF0) + 0x8000) as usize
    }

    /// A write to HDMA5: a general-purpose transfer (bit 7 clear), or any
    /// while the LCD is off, happens at once; otherwise an HBlank transfer is
    /// armed.
    pub open spec fn after_hdma_start(self, value: u8) -> BusState {
        let len = ((value & 0x7F) + 1) * 0x10;
        let hdma = Hdma { src: self.hdma_source(), dst: self.hdma_dest(), ..self.hdma };
        let s = BusState { hdma, ..self.with_io(0x55, value) };
        if value & 0x80 == 0 || self.io[0x40] & 0x80 == 0 {
            s.after_hdma_transfer(len).hdma_finished()
        } else {
            BusState {
                hdma: Hdma { active: true, hblank: true, len: len as u16, done: false, ..hdma },
                ..s
            }
        }
    }

    /// A write to the timer registers, 0xFF04-0xFF07.
    pub open spec fn after_timer_write(self, addr: u16, value: u8) -> BusState {
        let (timer, io) = if addr == 0xFF04 {
            self.timer.after_div_write(self.io)
        } else if addr == 0xFF05 {
            self.timer.after_write_tima(self.io, value)
        } else if addr == 0xFF06 {
            self.timer.after_write_tma(self.io, value)
        } else {
            self.timer.after_write_tac(self.io, value)
        };
        BusState { timer, io, ..self }
    }

    /// The bus after the CPU wrote `value` to an I/O register, 0xFF00-0xFF7F.
    pub open spec fn after_io_write(self, addr: u16, value: u8) -> BusState {
        if addr == 0xFF00 {
            self.with_io(0x00, value | 0xC0)
        } else if addr == 0xFF01 {
            self.with_io(0x01, value)
        } else if addr == 0xFF02 {
            self.after_serial_control(value)
        } else if 0xFF04 <= addr <= 0xFF07 {
            self.after_timer_write(addr, value)
        } else if addr == 0xFF0F {
            self.with_io(0x0F, value | 0xE0)
        } else if 0xFF10 <= addr <= 0xFF3F {
            let (apu, io) = self.apu.after_write(addr, value, self.io);
            BusState { apu, io, ..self }
        } else if addr < 0xFF40 || addr == 0xFF44 {
            self
        } else if addr == 0xFF46 {
            BusState {
                dma: OamDma { source: (value as u16) << 8, remaining: 160 },
                ..self.with_io(0x46, value)
            }
        } else if addr == 0xFF4D {
            self.with_io(0x4D, value & 0x01)
        } else if addr == 0xFF4F {
            self.with_io(0x4F, value & 0x01)
        } else if addr == 0xFF55 {
            self.after_hdma_start(value)
        } else if addr == 0xFF69 {
            BusState {
                ppu: Ppu {
                    bg_pal: put(self.ppu.bg_pal, (self.io[0x68] & 0x3F) as int, value),
                    ..self.ppu
                },
                ..self.with_io(0x68, Ppu::next_index(self.io[0x68]))
            }
        } else if addr == 0xFF6B {
            BusState {
                ppu: Ppu {
                    obj_pal: put(self.ppu.obj_pal, (self.io[0x6A] & 0x3F) as int, value),
                    ..self.ppu
                },
                ..self.with_io(0x6A, Ppu::next_index(self.io[0x6A]))
            }
        } else if addr == 0xFF70 {
            self.with_io(0x70, value & 0x07)
        } else {
            self.with_io(addr - 0xFF00, value)
        }
    }

    /// The bus after the CPU wrote `value` at `addr`.
    #[verifier::opaque]
    pub open spec fn after_write(self, addr: u16, value: u8) -> BusState {
        if addr < 0x8000 {
            BusState { cart: self.cart.after_write(addr, value), ..self }
        } else if addr < 0xA000 {
            BusState { vram: put(self.vram, self.vram_at(addr as int), value), ..self }
        } else if addr < 0xC000 {
            BusState { cart: self.cart.after_write_ram(addr, value), ..self }
        } else if addr < 0xFE00 {
            BusState { wram: put(self.wram, self.wram_at(addr as int), value), ..self }
        } else if addr < 0xFEA0 {
            BusState { oam: put(self.oam, addr - 0xFE00, value), ..self }
        } else if addr < 0xFF00 {
            self
        } else if addr < 0xFF80 {
            self.after_io_write(addr, value)
        } else if addr < 0xFFFF {
            BusState { hram: put(self.hram, addr - 0xFF80, value), ..self }
        } else {
            BusState { ie: value, ..self }
        }
    }

    /// `n` bytes of the OAM DMA copied.
    pub open spec fn dma_bytes(self, n: nat) -> BusState
        decreases n,
    {
        if n == 0 {
            self
        } else {
            let s = self.dma_bytes((n - 1) as nat);
            let idx = 160 - s.dma.remaining;
            BusState {
                oam: put(s.oam, idx, s.transfer_byte(s.dma.source + idx)),
                dma: OamDma { remaining: (s.dma.remaining - 1) as u32, ..s.dma },
                ..s
            }
        }
    }

    /// The OAM DMA `cycles` T-cycles on: one byte per M-cycle.
    pub open spec fn after_dma(self, cycles: u32) -> BusState {
        let most = self.dma.remaining * 4;
        self.dma_bytes(
            ((if cycles < most {
                cycles as int
            } else {
                most
            }) / 4) as nat,
        )
    }

    /// The serial port `cycles` T-cycles on. At the end of a transfer, with no
    /// link partner, the byte leaves through `serial_buf`, FF shifts in and
    /// the interrupt is requested.
    pub open spec fn after_serial(self, cycles: u32) -> BusState {
        if self.serial.remaining == 0 {
            self
        } else if self.serial.remaining > cycles {
            BusState {
                serial: Serial {
                    remaining: (self.serial.remaining - cycles) as u32,
                    ..self.serial
                },
                ..self
            }
        } else {
            BusState {
                serial: Serial { remaining: 0, ..self.serial },
                serial_buf: self.serial_buf.push(self.serial.out),
                io: put(
                    put(put(self.io, 0x01, 0xFF), 0x02, self.io[0x02] & !0x80u8),
                    0x0F,
                    self.io[0x0F] | 0x08,
                ),
                ..self
            }
        }
    }

    /// The cycles the LCD, timer and clock see: half of them, with carry, in
    /// double-speed mode.
    pub open spec fn device_cycles(self, cycles: u32) -> u32 {
        if self.double_speed {
            ((self.dev_accum + cycles) / 2) as u32
        } else {
            cycles
        }
    }

    /// The clocked devices `cycles` T-cycles on.
    pub open spec fn after_devices(self, cycles: u32) -> BusState {
        let dev = self.device_cycles(cycles);
        let (timer, io1) = self.timer.after_step(self.io, dev);
        let (ppu, io2) = self.ppu.after_step(io1, self.vram, self.oam, dev);
        BusState {
            dev_accum: if self.double_speed {
                ((self.dev_accum + cycles) % 2) as u32
            } else {
                self.dev_accum
            },
            timer,
            ppu,
            io: io2,
            cart: self.cart.after_rtc_tick(dev),
            apu: self.apu.after_step(cycles, io2, wave_of(self.io)),
            ..self
        }
    }

    /// HBlank DMA: sixteen bytes once per HBlank until the length is used up.
    pub open spec fn after_hdma_step(self) -> BusState {
        if !self.hdma.active || !self.hdma.hblank {
            self
        } else if self.ppu.mode != 0 {
            BusState { hdma: Hdma { done: false, ..self.hdma }, ..self }
        } else if self.hdma.done {
            self
        } else {
            let n: int = if self.hdma.len < 0x10 {
                self.hdma.len as int
            } else {
                0x10
            };
            let t = self.after_hdma_transfer(n);
            let s = BusState {
                hdma: Hdma { done: true, len: (self.hdma.len - n) as u16, ..t.hdma },
                ..t
            };
            if s.hdma.len == 0 {
                s.hdma_finished()
            } else {
                s
            }
        }
    }

    /// The machine around the CPU `cycles` T-cycles on.
    #[verifier::opaque]
    pub open spec fn after_step(self, cycles: u32) -> BusState {
        self.after_dma(cycles).after_serial(cycles).after_devices(cycles).after_hdma_step()
    }
}

/// The source pointer ends on a sixteen-byte boundary below 64 KiB, the
/// destination one within VRAM.
proof fn lemma_hdma_pointers(bus: BusState)
    ensures
        bus.hdma_source() <= 0xFFF0,
        0x8000 <= bus.hdma_dest() <= 0x9FF0,
{
    broadcast use crate::bits::group_masks;

}

/// A transfer changes VRAM only.
proof fn lemma_hdma_bytes(bus: BusState, n: nat)
    ensures
        bus.hdma_bytes(n) == (BusState { vram: bus.hdma_bytes(n).vram, ..bus }),
    decreases n,
{
    if n > 0 {
        lemma_hdma_bytes(bus, (n - 1) as nat);
    }
}

/// The OAM DMA changes OAM and its counter only.
proof fn lemma_dma_bytes(bus: BusState, n: nat)
    requires
        n <= bus.dma.remaining <= 160,
    ensures
        bus.dma_bytes(n) == (BusState {
            oam: bus.dma_bytes(n).oam,
            dma: OamDma { remaining: (bus.dma.remaining - n) as u32, ..bus.dma },
            ..bus
        }),
    decreases n,
{
    if n > 0 {
        lemma_dma_bytes(bus, (n - 1) as nat);
    }
}

/// SB takes FF, the busy bit clears and the interrupt is requested.
fn finish_serial(io: &mut IoRegs)
    ensures
        *final(io) == put(
            put(put(*old(io), 0x01, 0xFF), 0x02, old(io)[0x02] & !0x80u8),
            0x0F,
            old(io)[0x0F] | 0x08,
        ),
{
    io[0x01] = 0xFF;
    io[0x02] = io[0x02] & !0x80u8;
    io[0x0F] = io[0x0F] | 0x08;
}

impl Hdma {
    /// Arm an HBlank transfer of `len` bytes.
    fn arm(&mut self, len: u16)
        ensures
            *final(self) == (Hdma { active: true, hblank: true, len, done: false, ..*old(self) }),
    {
        self.active = true;
        self.hblank = true;
        self.len = len;
        self.done = false;
    }
}

impl Bus {
    pub fn new(cart: Cartridge) -> (r: Bus)
        ensures
            r@ == BusState::initial(cart@, Model::of(cart@)),
            cart@.wf() ==> r@.wf(),
    {
        let model = Model::for_cart(&cart);
        Bus::new_with_model(cart, model)
    }

    pub fn new_with_model(cart: Cartridge, model: Model) -> (r: Bus)
        ensures
            r@ == BusState::initial(cart@, model),
            cart@.wf() ==> r@.wf(),
    {
        let is_cgb = model == Model::Cgb;
        let mut bus = Bus {
            cart,
            wram: [0; 0x8000],
            vram: [0; 0x4000],
            oam: [0; 0xA0],
            io: [0; 0x80],
            hram: [0; 0x80],
            ie: 0x00,
            joypad: Joypad::new(),
            ppu: Ppu::new(),
            timer: Timer::new(),
            apu: Apu::new(),
            serial_buf: Vec::new(),
            is_cgb,
            double_speed: false,
            dev_accum: 0,
            dma: OamDma { source: 0, remaining: 0 },
            serial: Serial { remaining: 0, out: 0 },
            hdma: Hdma { active: false, hblank: false, len: 0, src: 0, dst: 0, done: false },
        };
        bus.io[0x00] = 0xCF;
        bus.io[0x40] = 0x91;
        bus.ppu.cgb = is_cgb;
        // The CGB boot ROM's default palette upload for monochrome games
        // (BG palette 0 / OBJ palettes 0-1); harmless for CGB carts too,
        // which overwrite them.
        bus.ppu.bg_pal = tile_palette(BOOT_PAL_BG);
        bus.ppu.obj_pal = tile_palette(BOOT_PAL_OBJ);
        bus
    }

    /// Whether the state is sound; one restored from untrusted bytes may not be.
    pub fn is_valid(&self) -> (r: bool)
        ensures
            r == self@.wf(),
    {
        self.cart.is_valid() && self.ppu.is_valid() && self.apu.is_valid() && self.dma.remaining
            <= 160 && self.dev_accum <= 1 && self.hdma.len <= 0x800 && self.hdma.src <= 0x11800
            && self.hdma.dst <= 0x11800 && self.hdma.src + self.hdma.len as usize <= 0x11800
            && self.hdma.dst + self.hdma.len as usize <= 0x11800
    }

    pub fn dma_active(&self) -> (r: bool)
        ensures
            r == (self@.dma.remaining > 0),
    {
        self.dma.remaining > 0
    }

    fn wram_offset(&self, addr: u16) -> (r: usize)
        requires
            0xC000 <= addr <= 0xFDFF,
        ensures
            r == self@.wram_at(addr as int),
            r < 0x8000,
    {
        broadcast use crate::bits::group_masks;

        let a: u16 = if addr >= 0xE000 {
            addr - 0x2000
        } else {
            addr
        };
        if a < 0xD000 {
            (a - 0xC000) as usize
        } else {
            let s: u8 = self.io[0x70] & 0x07;
            let bank: usize = if s == 0 {
                1
            } else {
                s as usize
            };
            bank * 0x1000 + (a - 0xD000) as usize
        }
    }

    fn vram_offset(&self, addr: u16) -> (r: usize)
        requires
            0x8000 <= addr <= 0x9FFF,
        ensures
            r == self@.vram_at(addr as int),
            r < 0x4000,
    {
        broadcast use crate::bits::group_masks;

        (self.io[0x4F] & 1) as usize * 0x2000 + (addr - 0x8000) as usize
    }

    /// The byte the CPU reads at `addr`.
    pub fn read(&self, addr: u16) -> (r: u8)
        requires
            self@.wf(),
        ensures
            r == self@.byte(addr),
    {
        reveal(BusState::byte);
        match addr {
            0x0000..=0x7FFF => self.cart.read(addr),
            0x8000..=0x9FFF => self.vram[self.vram_offset(addr)],
            0xA000..=0xBFFF => self.cart.read_ram(addr),
            0xC000..=0xFDFF => self.wram[self.wram_offset(addr)],
            0xFE00..=0xFE9F => self.oam[(addr - 0xFE00) as usize],
            0xFEA0..=0xFEFF => 0x00,
            0xFF00 => self.joypad.read(self.io[0x00]),
            0xFF01 => self.io[0x01],
            0xFF02 => self.io[0x02] | 0x7E,
            0xFF04..=0xFF07 => self.io[(addr - 0xFF00) as usize],
            0xFF0F => self.io[0x0F] | 0xE0,
            0xFF10..=0xFF3F => self.apu.read(addr, &self.io),
            0xFF4D => {
                let speed: u8 = if self.double_speed {
                    0x80
                } else {
                    0
                };
                (self.io[0x4D] & 0x01) | speed
            },
            0xFF68..=0xFF6B => self.ppu.read_pal_reg(addr, &self.io),
            0xFF70 => self.io[0x70] | 0xF8,
            0xFF40..=0xFF7F => self.io[(addr - 0xFF00) as usize],
            0xFF80..=0xFFFE => self.hram[(addr - 0xFF80) as usize],
            0xFFFF => self.ie,
            _ => 0x00,
        }
    }

    fn serial_control(&mut self, value: u8)
        requires
            old(self)@.wf(),
        ensures
            final(self)@ == old(self)@.after_serial_control(value),
            final(self)@.wf(),
    {
        self.io[0x02] = value;
        if value & 0x80 != 0 {
            // 8 bits at 8192 Hz (normal) or 16384 Hz (fast), i.e. 4096 or
            // 2048 T-cycles per byte.
            let remaining: u32 = if value & 0x01 != 0 {
                2048
            } else {
                4096
            };
            self.serial = Serial { remaining, out: self.io[0x01] };
        }
    }

    fn timer_write(&mut self, addr: u16, value: u8)
        requires
            0xFF04 <= addr <= 0xFF07,
            old(self)@.wf(),
        ensures
            final(self)@ == old(self)@.after_timer_write(addr, value),
            final(self)@.wf(),
    {
        match addr {
            0xFF04 => self.timer.on_div_write(&mut self.io),
            0xFF05 => self.timer.write_tima(&mut self.io, value),
            0xFF06 => self.timer.write_tma(&mut self.io, value),
            _ => self.timer.write_tac(&mut self.io, value),
        }
    }

    fn write_io(&mut self, addr: u16, value: u8)
        requires
            0xFF00 <= addr < 0xFF80,
            old(self)@.wf(),
        ensures
            final(self)@ == old(self)@.after_io_write(addr, value),
            final(self)@.wf(),
    {
        match addr {
            0xFF00 => self.io[0x00] = value | 0xC0,
            0xFF01 => self.io[0x01] = value,
            0xFF02 => self.serial_control(value),
            0xFF04..=0xFF07 => self.timer_write(addr, value),
            0xFF0F => self.io[0x0F] = value | 0xE0,
            0xFF10..=0xFF3F => self.apu.write(addr, value, &mut self.io),
            0xFF46 => self.dma(value),
            0xFF44 => {},
            0xFF4D => self.io[0x4D] = value & 0x01,
            0xFF4F => self.io[0x4F] = value & 0x01,
            0xFF55 => self.hdma_start(value),
            0xFF69 => self.ppu.write_bg_pal(value, &mut self.io),
            0xFF6B => self.ppu.write_obj_pal(value, &mut self.io),
            0xFF70 => self.io[0x70] = value & 0x07,
            0xFF40..=0xFF7F => self.io[(addr - 0xFF00) as usize] = value,
            _ => {},
        }
    }

    fn write_cart(&mut self, addr: u16, value: u8)
        requires
            old(self)@.wf(),
        ensures
            final(self)@ == (BusState {
                cart: old(self)@.cart.after_write(addr, value),
                ..old(self)@
            }),
            final(self)@.wf(),
    {
        proof {
            law_cartridge_stays_well_formed(self.cart@, addr, value, 0);
        }
        self.cart.write(addr, value);
    }

    fn write_cart_ram(&mut self, addr: u16, value: u8)
        requires
            0xA000 <= addr <= 0xBFFF,
            old(self)@.wf(),
        ensures
            final(self)@ == (BusState {
                cart: old(self)@.cart.after_write_ram(addr, value),
                ..old(self)@
            }),
            final(self)@.wf(),
    {
        proof {
            law_cartridge_stays_well_formed(self.cart@, addr, value, 0);
        }
        self.cart.write_ram(addr, value);
    }

    fn write_vram(&mut self, addr: u16, value: u8)
        requires
            0x8000 <= addr <= 0x9FFF,
        ensures
            final(self)@ == (BusState {
                vram: put(old(self)@.vram, old(self)@.vram_at(addr as int), value),
                ..old(self)@
            }),
    {
        let off: usize = self.vram_offset(addr);
        self.vram[off] = value;
    }

    fn write_wram(&mut self, addr: u16, value: u8)
        requires
            0xC000 <= addr <= 0xFDFF,
        ensures
            final(self)@ == (BusState {
                wram: put(old(self)@.wram, old(self)@.wram_at(addr as int), value),
                ..old(self)@
            }),
    {
        let off: usize = self.wram_offset(addr);
        self.wram[off] = value;
    }

    /// Write `value` at `addr` as the CPU does.
    pub fn write(&mut self, addr: u16, value: u8)
        requires
            old(self)@.wf(),
        ensures
            final(self)@ == old(self)@.after_write(addr, value),
            final(self)@.wf(),
    {
        reveal(BusState::after_write);
        match addr {
            0x0000..=0x7FFF => self.write_cart(addr, value),
            0x8000..=0x9FFF => self.write_vram(addr, value),
            0xA000..=0xBFFF => self.write_cart_ram(addr, value),
            0xC000..=0xFDFF => self.write_wram(addr, value),
            0xFE00..=0xFE9F => self.oam[(addr - 0xFE00) as usize] = value,
            0xFEA0..=0xFEFF => {},
            0xFF00..=0xFF7F => self.write_io(addr, value),
            0xFF80..=0xFFFE => self.hram[(addr - 0xFF80) as usize] = value,
            0xFFFF => self.ie = value,
        }
    }

    fn dma(&mut self, value: u8)
        requires
            old(self)@.wf(),
        ensures
            final(self)@ == (BusState {
                dma: OamDma { source: (value as u16) << 8, remaining: 160 },
                ..old(self)@.with_io(0x46, value)
            }),
            final(self)@.wf(),
    {
        self.io[0x46] = value;
        // The DMA copies 0xA0 bytes from the source page to OAM over 160
        // M-cycles, during which the CPU is held. The copy runs in `step()`.
        self.dma = OamDma { source: (value as u16) << 8, remaining: 160 };
    }

    fn read_transfer(&self, addr: usize) -> (r: u8)
        requires
            self@.wf(),
        ensures
            r == self@.transfer_byte(addr as int),
    {
        if addr < 0x8000 {
            self.cart.read(addr as u16)
        } else if addr < 0xA000 {
            self.vram[self.vram_offset(addr as u16)]
        } else if addr < 0xC000 {
            self.cart.read_ram(addr as u16)
        } else if addr < 0xFE00 {
            self.wram[self.wram_offset(addr as u16)]
        } else {
            0
        }
    }

    /// Start an HDMA transfer (write to 0xFF55). General-purpose transfers
    /// (bit 7 clear) and transfers started while the LCD is off complete
    /// immediately; HBlank DMA (bit 7 set, LCD on) copies 0x10 bytes per line
    /// in [`Bus::step`].
    fn hdma_start(&mut self, value: u8)
        requires
            old(self)@.wf(),
        ensures
            final(self)@ == old(self)@.after_hdma_start(value),
            final(self)@.wf(),
    {
        broadcast use crate::bits::group_masks;

        let lcd_on = self.io[0x40] & 0x80 != 0;
        self.hdma_load(value);
        let len: u16 = ((value & 0x7F) as u16 + 1) * 0x10;
        if value & 0x80 == 0 || !lcd_on {
            self.hdma_now(len as usize);
        } else {
            self.hdma.arm(len);
        }
    }

    /// Take the pointers from the HDMA registers.
    fn hdma_load(&mut self, value: u8)
        requires
            old(self)@.wf(),
        ensures
            final(self)@ == (BusState {
                hdma: Hdma {
                    src: old(self)@.hdma_source(),
                    dst: old(self)@.hdma_dest(),
                    ..old(self)@.hdma
                },
                ..old(self)@.with_io(0x55, value)
            }),
            final(self)@.wf(),
            final(self)@.hdma.src <= 0xFFF0,
            final(self)@.hdma.dst <= 0x9FF0,
    {
        broadcast use crate::bits::group_masks;

        proof {
            lemma_hdma_pointers(self@);
        }
        let src: usize = ((self.io[0x51] as usize) << 8 | self.io[0x52] as usize) & 0xFFF0;
        let dst: usize = (((self.io[0x53] as usize) << 8 | self.io[0x54] as usize) & 0x1FF0)
            + 0x8000;
        self.hdma.src = src;
        self.hdma.dst = dst;
        self.io[0x55] = value;
    }

    /// A whole transfer at once.
    fn hdma_now(&mut self, len: usize)
        requires
            old(self)@.wf(),
            len <= 0x800,
            old(self)@.hdma.src <= 0xFFF0,
            old(self)@.hdma.dst <= 0x9FF0,
        ensures
            final(self)@ == old(self)@.after_hdma_transfer(len as int).hdma_finished(),
            final(self)@.wf(),
    {
        proof {
            lemma_hdma_bytes(self@, len as nat);
        }
        self.hdma_transfer(len);
        self.hdma_finish();
    }

    fn hdma_finish(&mut self)
        ensures
            final(self)@ == old(self)@.hdma_finished(),
    {
        self.io[0x55] = 0xFF;
        self.hdma.active = false;
        self.hdma.hblank = false;
    }

    fn hdma_transfer(&mut self, len: usize)
        requires
            old(self)@.wf(),
            len <= 0x800,
            old(self)@.hdma.src + len <= 0x11800,
            old(self)@.hdma.dst + len <= 0x11800,
        ensures
            final(self)@ == old(self)@.after_hdma_transfer(len as int),
    {
        let mut i: usize = 0;
        while i < len
            invariant
                i <= len <= 0x800,
                old(self)@.wf(),
                old(self)@.hdma.src + len <= 0x11800,
                old(self)@.hdma.dst + len <= 0x11800,
                self@ == old(self)@.hdma_bytes(i as nat),
                self@ == (BusState { vram: self.vram, ..old(self)@ }),
            decreases len - i,
        {
            let byte: u8 = self.read_transfer(self.hdma.src + i);
            let dst: usize = self.hdma.dst + i;
            if 0x8000 <= dst && dst <= 0x9FFF {
                // HDMA always writes VRAM bank 0.
                self.vram[dst - 0x8000] = byte;
            }
            i = i + 1;
        }
        self.hdma.src = self.hdma.src + len;
        self.hdma.dst = self.hdma.dst + len;
    }

    fn hdma_step(&mut self)
        requires
            old(self)@.wf(),
        ensures
            final(self)@ == old(self)@.after_hdma_step(),
            final(self)@.wf(),
    {
        if !self.hdma.active || !self.hdma.hblank {
            return;
        }
        if self.ppu.mode != 0 {
            self.hdma.done = false;
            return;
        }
        if self.hdma.done {
            return;
        }
        let n: u16 = if self.hdma.len < 0x10 {
            self.hdma.len
        } else {
            0x10
        };
        proof {
            lemma_hdma_bytes(self@, n as nat);
        }
        self.hdma_transfer(n as usize);
        self.hdma.done = true;
        self.hdma.len = self.hdma.len - n;
        if self.hdma.len == 0 {
            self.hdma_finish();
        }
    }

    /// Number of master cycles in one full video frame.
    pub fn frame_cycles(&self) -> (r: u32)
        ensures
            r == if self@.double_speed {
                140448u32
            } else {
                70224u32
            },
    {
        if self.double_speed {
            140448
        } else {
            70224
        }
    }

    fn step_dma(&mut self, cycles: u32)
        requires
            old(self)@.wf(),
        ensures
            final(self)@ == old(self)@.after_dma(cycles),
            final(self)@.wf(),
            final(self)@.double_speed == old(self)@.double_speed,
    {
        if self.dma.remaining > 0 {
            let most: u32 = self.dma.remaining * 4;
            let count: u32 = (if cycles < most {
                cycles
            } else {
                most
            }) / 4;
            let mut i: u32 = 0;
            while i < count
                invariant
                    i <= count <= old(self)@.dma.remaining <= 160,
                    old(self)@.wf(),
                    self@ == old(self)@.dma_bytes(i as nat),
                    self@ == (BusState {
                        oam: self.oam,
                        dma: OamDma {
                            remaining: (old(self).dma.remaining - i) as u32,
                            ..old(self).dma
                        },
                        ..old(self)@
                    }),
                decreases count - i,
            {
                let idx: usize = (160 - self.dma.remaining) as usize;
                let byte: u8 = self.read_transfer(self.dma.source as usize + idx);
                self.oam[idx] = byte;
                self.dma.remaining = self.dma.remaining - 1;
                i = i + 1;
            }
        }
    }

    fn step_serial(&mut self, cycles: u32)
        requires
            old(self)@.wf(),
        ensures
            final(self)@ == old(self)@.after_serial(cycles),
            final(self)@.wf(),
    {
        if self.serial.remaining == 0 {
            return;
        }
        if self.serial.remaining > cycles {
            self.serial.remaining = self.serial.remaining - cycles;
            return;
        }
        self.serial.remaining = 0;
        // No link partner: the transmitted byte leaves through `serial_buf`
        // and $FF shifts in.
        self.serial_buf.push(self.serial.out);
        finish_serial(&mut self.io);
    }

    fn step_devices(&mut self, cycles: u32)
        requires
            old(self)@.wf(),
            cycles <= MAX_STEP,
        ensures
            final(self)@ == old(self)@.after_devices(cycles),
            final(self)@.wf(),
    {
        // The LCD, timer, and RTC are clocked at fixed absolute rates, so in
        // double-speed mode they receive half the raw cycles (with carry). The
        // APU keeps the raw clock so its sample rate doubles (8192 -> 16384).
        let mut dev: u32 = cycles;
        if self.double_speed {
            let total: u32 = self.dev_accum + cycles;
            dev = total / 2;
            self.dev_accum = total % 2;
        }
        let wave: [u8; 16] = wave_ram(&self.io);
        proof {
            law_cartridge_stays_well_formed(self.cart@, 0, 0, dev);
            reveal(ApuState::wf);
        }
        self.timer.step(dev, &mut self.io);
        self.cart.rtc_tick(dev);
        self.ppu.step(dev, &mut self.io, &mut self.vram, &mut self.oam);
        self.apu.step(cycles, &mut self.io, &wave);
    }

    /// Advance the clocked devices by `cycles` T-cycles.
    pub fn step(&mut self, cycles: u32)
        requires
            old(self)@.wf(),
            cycles <= MAX_STEP,
        ensures
            final(self)@ == old(self)@.after_step(cycles),
            final(self)@.wf(),
    {
        reveal(BusState::after_step);
        self.step_dma(cycles);
        self.step_serial(cycles);
        self.step_devices(cycles);
        self.hdma_step();
    }

    /// The last frame as 2-bit shades.
    pub fn frame(&self) -> (r: &[u8])
        ensures
            r@ == self@.ppu.frame_buffer@,
    {
        self.ppu.frame_buffer.as_slice()
    }

    /// Request an interrupt by its bit index; there are five.
    pub fn request_interrupt(&mut self, bit: u32)
        ensures
            final(self)@ == if bit < 5 {
                old(self)@.with_io(0x0F, old(self)@.io[0x0F] | (1u8 << bit))
            } else {
                old(self)@
            },
    {
        if bit < 5 {
            self.io[0x0F] = self.io[0x0F] | (1u8 << bit);
        }
    }
}

} // verus!

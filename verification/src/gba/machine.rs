//! GBA system: the composition root.
//!
//! [`Gba`] owns the CPU, bus, PPU and APU and presents a uniform,
//! platform-agnostic interface to frontends. It drives the per-frame timing:
//! each `step` runs one CPU instruction and then advances the timers, APU and
//! PPU scanlines by the cycles consumed, firing the appropriate interrupts and
//! DMA triggers. Cycles are counted modulo 2^32 and frames modulo 2^64.

use crate::bits::put;
use crate::emu::audio::AudioBuffer;
use crate::emu::input::Button;
use crate::emu::text::{
    lossy_text, string_from_utf8_lossy, trim_end, trim_nuls, trim_start, trimmed, without_nuls,
};
use crate::emu::video::Frame;
use crate::emu::Screen;
use crate::gba::apu::{Apu, ApuState, DirectSound};
use crate::gba::bios::{self, BIOS_IF_ADDR};
use crate::gba::bus::{Bus, Mem, SaveCartridge};
use crate::gba::cpu::{bank_of, core_of, mode, Core, Cpu};
use crate::gba::dma::{adjust, adjusted, Channel, Dma, Timing};
use crate::gba::io::{irq, key, Io};
use crate::gba::ppu::{self, drawn, Ppu};
use crate::gba::rtc::Rtc;
use crate::gba::timer::Timers;
use crate::gba::timing::law_step_length;
use vstd::prelude::*;
use vstd::slice::slice_subrange;
use vstd::wrapping::{u32_specs, u64_specs};

verus! {

/// Total master cycles per video frame.
pub const FRAME_CYCLES: u32 = 280_896;
/// Display width / height.
pub const SCREEN_W: u16 = 240;
pub const SCREEN_H: u16 = 160;

/// BIOS address of the IRQ return stub used by the skip-BIOS boot.
pub const IRQ_RETURN_STUB: u32 = 0x20;

/// Where the game registers its interrupt handler.
pub const IRQ_HANDLER_ADDR: u32 = 0x0300_7FFC;

/// Samples handed over at once: one frame's worth of stereo pairs.
pub const MAX_SAMPLES: usize = 1094;

/// The two instructions through which the BIOS returns from an interrupt,
/// `ldmfd sp!, {r0-r3, r12, lr}; subs pc, lr, #4`, as bytes.
pub const RETURN_CODE: [u8; 8] = [0x0F, 0x50, 0xBD, 0xE8, 0x04, 0xF0, 0x5E, 0xE2];

/// The GBA system.
pub struct Gba {
    pub cpu: Cpu,
    pub bus: Bus,
    pub ppu: Ppu,
    pub apu: Apu,
    /// Cycles consumed so far in the current line.
    pub line_cycles: u32,
    /// Current scanline (0..227).
    pub line: u32,
    /// Frames completed (for save states / info).
    pub frame_count: u64,
    /// The first unrecognised BIOS SWI executed (diagnostics).
    pub last_unknown_swi: Option<u32>,
    /// The coordinates (r0, r1) of an ArcTan2 that waits for its answer.
    pub angle: Option<(u32, u32)>,
}

/// A GBA's state as a value.
pub struct GbaState {
    pub cpu: Cpu,
    pub bus: Bus,
    pub picture: Seq<u16>,
    pub sound: ApuState,
    pub line_cycles: u32,
    pub line: u32,
    pub frame_count: u64,
    pub last_unknown_swi: Option<u32>,
    pub angle: Option<(u32, u32)>,
}

impl View for Gba {
    type V = GbaState;

    open spec fn view(&self) -> GbaState {
        GbaState {
            cpu: self.cpu,
            bus: self.bus,
            picture: self.ppu@,
            sound: self.apu@,
            line_cycles: self.line_cycles,
            line: self.line,
            frame_count: self.frame_count,
            last_unknown_swi: self.last_unknown_swi,
            angle: self.angle,
        }
    }
}

/// The BIOS area of the skip-BIOS boot: zeros up to the return stub.
pub open spec fn stub_image() -> Seq<u8> {
    Seq::new(0x28, |i: int| if i >= 0x20 { RETURN_CODE[i - 0x20] } else { 0 })
}

/// A CPU with the stack pointer of mode `m` set.
pub open spec fn with_mode_sp(cpu: Cpu, m: u32, value: u32) -> Cpu {
    if m == cpu.mode_bits() {
        Cpu { regs: put(cpu.regs, 13, value), ..cpu }
    } else {
        Cpu { sp: put(cpu.sp, bank_of(m), value), ..cpu }
    }
}

/// The CPU as the BIOS hands it to the cartridge: the three stacks set up, and
/// SYS mode with IRQs enabled at the cartridge entry.
pub open spec fn skip_bios_cpu() -> Cpu {
    let c = with_mode_sp(
        with_mode_sp(with_mode_sp(Cpu::initial(), mode::SVC, 0x0300_7FE0), mode::IRQ, 0x0300_7FA0),
        mode::USR,
        0x0300_7F00,
    );
    Cpu { pc: 0x0800_0000 & !1u32, ..c.with_cpsr(0x1F) }
}

/// The keypad bit of a button; the GBA has no X or Y, nor a second pair of
/// shoulder buttons.
pub open spec fn key_bit(button: Button) -> Option<u16> {
    match button {
        Button::A => Some(key::A),
        Button::B => Some(key::B),
        Button::Select => Some(key::SELECT),
        Button::Start => Some(key::START),
        Button::Right => Some(key::RIGHT),
        Button::Left => Some(key::LEFT),
        Button::Up => Some(key::UP),
        Button::Down => Some(key::DOWN),
        Button::R => Some(key::R),
        Button::L => Some(key::L),
        _ => None,
    }
}

/// The bus and the FIFO after `n` words at `src` were fed to the FIFO, a byte
/// at a time.
pub open spec fn fed(bus: Bus, fifo: DirectSound, src: u32, n: nat) -> (Bus, DirectSound)
    decreases n,
{
    if n == 0 {
        (bus, fifo)
    } else {
        let (b, d) = fed(bus, fifo, src, (n - 1) as nat);
        let (b1, w) = b.loaded32(src);
        (
            b1,
            d.after_push((w % 256) as u8).after_push((w / 0x100 % 256) as u8).after_push(
                (w / 0x1_0000 % 256) as u8,
            ).after_push((w / 0x100_0000) as u8),
        )
    }
}

/// The bus and the FIFO after sound channel `i` (1 or 2) was refilled, where it
/// is set up for that.
pub open spec fn refilled(bus: Bus, fifo: DirectSound, i: int, flag: u16) -> (Bus, DirectSound) {
    let ch = bus.dma.chans[i];
    if ch.enabled && ch.starts_at() == Timing::Special {
        let (b, d) = fed(bus, fifo, ch.src, 4);
        (
            Bus {
                dma: Dma {
                    chans: put(
                        b.dma.chans,
                        i,
                        Channel { src: adjusted(ch.src, 16, ch.src_mode()), ..ch },
                    ),
                    flags: if ch.control & crate::gba::dma::IRQ != 0 {
                        b.dma.flags | flag
                    } else {
                        b.dma.flags
                    },
                },
                ..b
            },
            d,
        )
    } else {
        (bus, fifo)
    }
}

/// The bus with the flags `flags` raised where `on`.
pub open spec fn raised(bus: Bus, on: bool, flags: u16) -> Bus {
    if on {
        Bus { io: Io { iflags: bus.io.iflags | flags, ..bus.io }, ..bus }
    } else {
        bus
    }
}

/// The bus after the interrupts and DMA transfers of line `y`. `enables` and
/// `setting` are what DISPSTAT held when the line began.
pub open spec fn line_events(bus: Bus, y: u32, enables: u8, setting: u8) -> Bus {
    let b1 = if y == 160 {
        raised(bus.after_dma(Timing::VBlank), enables & 0x01 != 0, irq::VBLANK)
    } else {
        bus
    };
    let b2 = raised(b1, y == setting && enables & 0x04 != 0, irq::VCOUNT);
    let b3 = if y < 160 {
        b2.after_dma(Timing::HBlank)
    } else {
        b2
    };
    raised(b3, enables & 0x02 != 0, irq::HBLANK)
}

/// The bus with the DISPSTAT flags of line `y`: VBlank, and HBlank, which every
/// line ends in. The interrupt enables stay.
pub open spec fn flagged(bus: Bus, y: u32) -> Bus {
    let vblank: u8 = if 160 <= y < 227 {
        1
    } else {
        0
    };
    Bus {
        io: Io { regs: put(bus.io.regs, 4, vblank | 2 | (bus.io.regs[4] & 0x38)), ..bus.io },
        ..bus
    }
}

/// The bus after the six registers `regs` were pushed at `sp`.
pub open spec fn pushed(bus: Bus, sp: u32, r: [u32; 16]) -> Bus {
    bus.stored32(sp, r[0]).stored32(u32_specs::wrapping_add(sp, 4), r[1]).stored32(
        u32_specs::wrapping_add(sp, 8),
        r[2],
    ).stored32(u32_specs::wrapping_add(sp, 12), r[3]).stored32(
        u32_specs::wrapping_add(sp, 16),
        r[12],
    ).stored32(u32_specs::wrapping_add(sp, 20), r[14])
}

/// The colour part of byte `k` of an RGB888 row: red, green, blue in turn.
pub open spec fn color_byte(c: u16, k: int) -> u8 {
    let part = if k == 0 {
        c as int % 32
    } else if k == 1 {
        c as int / 32 % 32
    } else {
        c as int / 1024 % 32
    };
    (part * 255 / 31) as u8
}

impl GbaState {
    pub open spec fn wf(self) -> bool {
        &&& self.bus.wf()
        &&& self.picture.len() == 38_400
        &&& self.sound.wf()
    }

    /// A bus at power-on with a ROM, a BIOS area, POSTFLG and VCOUNT.
    pub open spec fn bus_is_fresh(self, rom: Seq<u8>, bios: Seq<u8>, postflg: u8, vcount: u16) -> bool {
        let b = self.bus;
        let io = Io::initial();
        &&& b.rom@ == rom
        &&& b.bios@ == bios
        &&& b.ewram == Mem::<u8, 0x40000>::all(0)
        &&& b.iwram == Mem::<u8, 0x8000>::all(0)
        &&& b.palram == Mem::<u8, 0x400>::all(0)
        &&& b.vram == Mem::<u8, 0x18000>::all(0)
        &&& b.oam == Mem::<u8, 0x400>::all(0)
        &&& b.save == SaveCartridge::initial()
        &&& b.io == (Io { regs: put(io.regs, 0x300, postflg), vcount, ..io })
        &&& b.dma == Dma::initial()
        &&& b.timers == Timers::initial()
        &&& b.rtc == Rtc::initial()
        &&& b.cycles == 0
        &&& !b.last_seq
    }

    /// Everything but the CPU and the bus as at power-on, on line `line`.
    pub open spec fn rest_is_fresh(self, line: u32) -> bool {
        &&& self.picture == Ppu::black()
        &&& self.sound == ApuState::initial()
        &&& self.line_cycles == 0
        &&& self.line == line
        &&& self.frame_count == 0
        &&& self.last_unknown_swi is None
        &&& self.angle is None
    }

    /// The machine as the BIOS leaves it when it hands control to the
    /// cartridge: partway through its first frame, with the return stub in
    /// place of a BIOS.
    pub open spec fn booted(self, rom: Seq<u8>) -> bool {
        &&& self.cpu == skip_bios_cpu()
        &&& self.bus_is_fresh(rom, stub_image(), 1, 0x7E)
        &&& self.rest_is_fresh(0x7E)
    }

    /// The sound channels after timer `i` overflowed: the DACs take their next
    /// samples, and the FIFOs that it clocks are refilled when half empty.
    #[verifier::opaque]
    pub open spec fn overflow_handled(self, i: int) -> GbaState {
        let s = GbaState { sound: self.sound.after_overflow(i as u8), ..self };
        let cnt = s.bus.io.half(0x82);
        let a = if cnt / 0x400 % 2 == i && s.sound.dsa.fifo_count <= 16 {
            let (bus, dsa) = refilled(s.bus, s.sound.dsa, 1, 0x20);
            GbaState { bus, sound: ApuState { dsa, ..s.sound }, ..s }
        } else {
            s
        };
        if cnt / 0x4000 % 2 == i && a.sound.dsb.fifo_count <= 16 {
            let (bus, dsb) = refilled(a.bus, a.sound.dsb, 2, 0x40);
            GbaState { bus, sound: ApuState { dsb, ..a.sound }, ..a }
        } else {
            a
        }
    }

    /// The overflows of the first `n` timers handled.
    pub open spec fn overflows_handled(self, n: nat) -> GbaState
        decreases n,
    {
        if n == 0 {
            self
        } else {
            let s = self.overflows_handled((n - 1) as nat);
            if s.bus.timers.overflowed[n - 1] {
                s.overflow_handled(n - 1)
            } else {
                s
            }
        }
    }

    /// The next scanline: VCOUNT and DISPSTAT follow it, a visible one is
    /// drawn, and its interrupts and DMA transfers happen.
    #[verifier::opaque]
    pub open spec fn line_ticked(self) -> GbaState {
        let wraps = self.line >= 227;
        let y: u32 = if wraps {
            0
        } else {
            (self.line + 1) as u32
        };
        let bus = Bus { io: Io { vcount: y as u16, ..self.bus.io }, ..self.bus };
        let enables = (bus.io.regs[4] / 8 % 8) as u8;
        GbaState {
            line: y,
            frame_count: if wraps {
                u64_specs::wrapping_add(self.frame_count, 1)
            } else {
                self.frame_count
            },
            picture: if y < 160 {
                drawn(self.picture, bus, y)
            } else {
                self.picture
            },
            bus: flagged(line_events(bus, y, enables, bus.io.regs[5]), y),
            ..self
        }
    }

    /// `n` scanlines on.
    pub open spec fn lines_ticked(self, n: nat) -> GbaState
        decreases n,
    {
        if n == 0 {
            self
        } else {
            self.lines_ticked((n - 1) as nat).line_ticked()
        }
    }

    /// The machine `cycles` cycles on: timers, sound, and scanlines with their
    /// DMA.
    #[verifier::opaque]
    pub open spec fn advanced(self, cycles: u32) -> GbaState {
        let t = GbaState {
            bus: Bus { timers: self.bus.timers.after_step(cycles), ..self.bus },
            ..self
        }.overflows_handled(4);
        let total = t.line_cycles + cycles;
        GbaState {
            sound: t.sound.after_step(cycles),
            line_cycles: (total % 1232) as u32,
            ..t
        }.lines_ticked((total / 1232) as nat)
    }

    /// The machine in its interrupt handler. With a real BIOS the vector at
    /// 0x18 runs its dispatcher; otherwise the dispatcher's work is done here:
    /// {r0-r3, r12, lr} pushed on the IRQ stack, LR pointed at the return stub,
    /// the I/O base passed in r0, and a jump to the registered handler.
    #[verifier::opaque]
    pub open spec fn in_handler(self) -> GbaState {
        let taken = self.cpu.excepted(
            crate::gba::cpu::VECTOR_IRQ,
            mode::IRQ,
            u32_specs::wrapping_add(self.cpu.pc, 4),
            false,
        );
        let c = Cpu { halted: false, ..taken };
        if c.has_bios {
            GbaState { cpu: c, ..self }
        } else {
            let (b, handler) = self.bus.loaded32(IRQ_HANDLER_ADDR);
            let sp = u32_specs::wrapping_sub(c.regs[13], 24);
            let regs = put(put(put(c.regs, 13, sp), 14, IRQ_RETURN_STUB), 0, 0x0400_0000);
            GbaState {
                cpu: Cpu { regs, pc: handler & !1u32, ..c },
                bus: pushed(b, sp, c.regs),
                ..self
            }
        }
    }

    /// A request to halt passed on to the CPU.
    pub open spec fn halt_checked(self) -> GbaState {
        if self.bus.io.halt_requested {
            GbaState {
                bus: Bus { io: Io { halt_requested: false, ..self.bus.io }, ..self.bus },
                cpu: Cpu { halted: true, ..self.cpu },
                ..self
            }
        } else {
            self
        }
    }

    /// A wait in progress looked at, where execution is back at it: it ends
    /// once the game's handler has flagged an awaited interrupt in the mirror
    /// of IF, and until then the CPU is halted.
    pub open spec fn wait_checked(self) -> GbaState {
        if self.cpu.waiting_here() {
            let mask = self.cpu.bios_wait->0;
            let (b, mirror) = self.bus.loaded16(BIOS_IF_ADDR);
            if (mirror as u16) & mask != 0 {
                GbaState {
                    bus: b.stored16(BIOS_IF_ADDR, ((mirror as u16) & !mask) as u32),
                    cpu: Cpu { bios_wait: None, halted: false, ..self.cpu },
                    ..self
                }
            } else {
                GbaState { bus: b, cpu: Cpu { halted: true, ..self.cpu }, ..self }
            }
        } else {
            self
        }
    }

    /// What comes before an instruction: device interrupts, halt requests and
    /// waits.
    #[verifier::opaque]
    pub open spec fn prepared(self) -> GbaState {
        GbaState { bus: self.bus.dev_irq_synced(), ..self }.halt_checked().wait_checked()
    }

    /// A recorded BIOS call carried out.
    #[verifier::opaque]
    pub open spec fn bios_called(self) -> GbaState {
        match self.cpu.bios_call {
            Some(num) => {
                let c = Cpu { bios_call: None, ..self.cpu };
                let (m, ok) = bios::ran(core_of(c, self.bus), num);
                GbaState {
                    cpu: m.cpu,
                    bus: m.bus,
                    last_unknown_swi: if ok || self.last_unknown_swi is Some {
                        self.last_unknown_swi
                    } else {
                        Some(num)
                    },
                    angle: if bios::wants_angle(c, num) {
                        Some((c.regs[0], c.regs[1]))
                    } else {
                        self.angle
                    },
                    ..self
                }
            },
            None => self,
        }
    }

    /// One instruction, and the cycles it took.
    #[verifier::opaque]
    pub open spec fn instruction_run(self) -> (GbaState, u32) {
        let b = Bus { cycles: 0, last_seq: false, ..self.bus };
        let m = core_of(self.cpu, b).executed();
        let total = u32_specs::wrapping_add(m.cpu.cycles, m.bus.cycles);
        let s = GbaState { cpu: m.cpu, bus: m.bus, ..self }.bios_called();
        (GbaState { bus: s.bus.after_dma(Timing::Immediate), ..s }.advanced(total), total)
    }

    /// Whether an interrupt is taken now.
    pub open spec fn interrupt_due(self) -> bool {
        self.bus.io.pending() != 0 && self.cpu.cpsr & crate::gba::cpu::flag::I == 0
    }

    /// Whether the CPU stays halted. HALT ends on any enabled interrupt even
    /// while IME is clear; an IntrWait only ends through its mirror flag.
    pub open spec fn stays_halted(self) -> bool {
        self.cpu.halted && !(self.cpu.bios_wait is None && self.bus.io.iflags & self.bus.io.ie != 0)
    }

    /// The machine after one step, and the cycles it took.
    #[verifier::opaque]
    pub open spec fn stepped(self) -> (GbaState, u32) {
        let s = self.prepared();
        if s.interrupt_due() {
            (s.in_handler().advanced(4), 4)
        } else if s.stays_halted() {
            (s.advanced(4), 4)
        } else {
            GbaState { cpu: Cpu { halted: false, ..s.cpu }, ..s }.instruction_run()
        }
    }

    /// The machine stepped until at least `left` more cycles have passed.
    pub open spec fn run_for(self, left: nat) -> GbaState
        decreases left,
    {
        if left == 0 {
            self
        } else {
            let (s, n) = self.stepped();
            if n == 0 || n >= left {
                s
            } else {
                s.run_for((left - n) as nat)
            }
        }
    }

    /// The title in the cartridge header, without padding.
    pub open spec fn header_title(self) -> Seq<char> {
        if self.bus.rom@.len() >= 0xB0 {
            bare_title(lossy_text(self.bus.rom@.subrange(0xA0, 0xB0)))
        } else {
            Seq::empty()
        }
    }
}

/// A title as the header holds it, without what fills it up.
pub open spec fn bare_title(text: Seq<char>) -> Seq<char> {
    trim_end(trim_start(trim_nuls(text)))
}

/// The title in a header's text: without the NULs at its end, then without
/// white space around it.
pub fn trim_title(text: &str) -> (r: String)
    ensures
        r@ == bare_title(text@),
{
    let text = without_nuls(text);
    trimmed(text.as_str())
}

/// What is said of a cartridge with the title `title`.
pub open spec fn description(title: Seq<char>) -> Seq<char> {
    (if title.len() == 0 {
        "unknown"@
    } else {
        title
    }) + " (GBA)"@
}

/// Describe a cartridge by its title.
pub fn describe(title: String) -> (r: String)
    ensures
        r@ == description(title@),
{
    let mut s = if title.as_str().unicode_len() == 0 {
        "unknown".to_owned()
    } else {
        title
    };
    s.push_str(" (GBA)");
    s
}

/// The return stub, byte for byte.
fn stub_bytes() -> (r: Vec<u8>)
    ensures
        r@ == stub_image(),
{
    let mut stub: Vec<u8> = Vec::with_capacity(0x28);
    let mut i: usize = 0;
    while i < 0x28
        invariant
            i <= 0x28,
            stub@.len() == i,
            forall|k: int| 0 <= k < i ==> stub@[k] == stub_image()[k],
        decreases 0x28 - i,
    {
        if i >= 0x20 {
            stub.push(RETURN_CODE[i - 0x20]);
        } else {
            stub.push(0);
        }
        i = i + 1;
    }
    assert(stub@ =~= stub_image());
    stub
}

impl Gba {
    /// A machine with a cartridge, booted past the BIOS.
    pub fn new(rom: Vec<u8>) -> (r: Gba)
        ensures
            r@.booted(rom@),
            rom@.len() > 0 ==> r@.wf(),
    {
        let mut cpu = Cpu::new();
        cpu.set_mode_sp(mode::SVC, 0x0300_7FE0);
        cpu.set_mode_sp(mode::IRQ, 0x0300_7FA0);
        cpu.set_mode_sp(mode::USR, 0x0300_7F00);
        cpu.set_cpsr(0x1F);
        cpu.set_pc(0x0800_0000);
        let mut bus = Bus::new(rom);
        Gba::install_irq_stub(&mut bus);
        bus.io.regs[0x300] = 1;
        bus.io.set_vcount(0x7E);
        Gba {
            cpu,
            bus,
            ppu: Ppu::new(),
            apu: Apu::new(),
            line_cycles: 0,
            line: 0x7E,
            frame_count: 0,
            last_unknown_swi: None,
            angle: None,
        }
    }

    /// Construct a system that boots a real BIOS dump from the reset vector
    /// (`0x00000000`). The BIOS runs its POST/intro and launches the cartridge,
    /// setting up the stack pointers and boot RAM that a skip-BIOS start omits.
    ///
    /// When `cold` is true the BIOS performs a full cold boot (logo intro);
    /// when false it sets POSTFLG for a warm boot that skips the intro.
    pub fn with_bios(rom: Vec<u8>, bios: Vec<u8>, cold: bool) -> (r: Gba)
        ensures
            r@.cpu == (Cpu { has_bios: true, ..Cpu::initial() }),
            r@.bus_is_fresh(
                rom@,
                bios@,
                if cold {
                    0
                } else {
                    1
                },
                0,
            ),
            r@.rest_is_fresh(0),
            rom@.len() > 0 ==> r@.wf(),
    {
        let mut gba = Gba::new(rom);
        // The real GBA powers on in SVC mode with IRQs masked at the reset
        // vector; the BIOS sets up everything else itself.
        gba.cpu = Cpu::new();
        gba.cpu.set_has_bios(true);
        gba.bus.set_bios(bios);
        // POSTFLG=1 requests a warm boot, skipping the ~2s "Nintendo" logo.
        gba.bus.io.regs[0x300] = if cold {
            0
        } else {
            1
        };
        gba.bus.io.set_vcount(0);
        gba.line = 0;
        assert(gba.bus.io.regs =~= put(
            Io::initial().regs,
            0x300,
            if cold {
                0
            } else {
                1
            },
        ));
        gba
    }

    /// Whether the machine can be stepped: it has a ROM, and what a save state
    /// restored is sound.
    pub fn is_valid(&self) -> (r: bool)
        ensures
            r == self@.wf(),
    {
        self.bus.is_valid() && self.ppu.framebuffer.len() == 38_400 && self.apu.is_valid()
    }

    /// The real BIOS returns from the game's IRQ handler through
    /// `ldmfd sp!, {r0-r3, r12, lr}; subs pc, lr, #4`. Without a BIOS image,
    /// plant those two instructions at 0x20 so that `bx lr` from the handler
    /// pops the frame `enter_irq` pushed and resumes the interrupted code.
    fn install_irq_stub(bus: &mut Bus)
        requires
            old(bus).bios@.len() < 0x4000,
        ensures
            final(bus).bios@ == stub_image(),
            *final(bus) == (Bus { bios: final(bus).bios, ..*old(bus) }),
    {
        bus.set_bios(stub_bytes());
    }

    fn push_registers(&mut self, sp: u32)
        requires
            old(self)@.wf(),
        ensures
            final(self)@ == (GbaState {
                bus: pushed(old(self)@.bus, sp, old(self)@.cpu.regs),
                ..old(self)@
            }),
            final(self)@.wf(),
    {
        self.bus.write32(sp, self.cpu.reg_raw(0));
        self.bus.write32(sp.wrapping_add(4), self.cpu.reg_raw(1));
        self.bus.write32(sp.wrapping_add(8), self.cpu.reg_raw(2));
        self.bus.write32(sp.wrapping_add(12), self.cpu.reg_raw(3));
        self.bus.write32(sp.wrapping_add(16), self.cpu.reg_raw(12));
        self.bus.write32(sp.wrapping_add(20), self.cpu.reg_raw(14));
    }

    /// Take a pending IRQ. With a real BIOS the vector at 0x18 runs its
    /// dispatcher; otherwise replicate it: push {r0-r3, r12, lr} on the IRQ
    /// stack, point LR at the return stub, pass the I/O base in r0 (the BIOS
    /// leaves it there) and jump to the handler registered at 0x03007FFC.
    fn enter_irq(&mut self)
        requires
            old(self)@.wf(),
        ensures
            final(self)@ == old(self)@.in_handler(),
            final(self)@.wf(),
    {
        reveal(GbaState::in_handler);
        let lr: u32 = self.cpu.pc().wrapping_add(4);
        self.cpu.irq(lr);
        self.cpu.halted = false;
        if self.cpu.has_bios {
            return;
        }
        let handler: u32 = self.bus.read32(IRQ_HANDLER_ADDR);
        let sp: u32 = self.cpu.sp_raw().wrapping_sub(24);
        self.push_registers(sp);
        self.cpu.set_reg(13, sp);
        self.cpu.set_reg(14, IRQ_RETURN_STUB);
        self.cpu.set_reg(0, 0x0400_0000);
        self.cpu.set_pc(handler);
    }

    /// Advance the machine by `cycles` (timers, APU, PPU scanlines, DMA).
    fn advance(&mut self, cycles: u32)
        requires
            old(self)@.wf(),
        ensures
            final(self)@ == old(self)@.advanced(cycles),
            final(self)@.wf(),
    {
        reveal(GbaState::advanced);
        self.bus.timers.step(cycles);
        self.handle_overflows();
        self.apu.step(cycles);
        let total: u64 = self.line_cycles as u64 + cycles as u64;
        self.line_cycles = (total % 1232) as u32;
        self.tick_lines((total / 1232) as u32);
    }

    fn handle_overflows(&mut self)
        requires
            old(self)@.wf(),
        ensures
            final(self)@ == old(self)@.overflows_handled(4),
            final(self)@.wf(),
    {
        let mut i: usize = 0;
        while i < 4
            invariant
                i <= 4,
                self@.wf(),
                self@ == old(self)@.overflows_handled(i as nat),
            decreases 4 - i,
        {
            if self.bus.timers.just_overflowed(i) {
                self.handle_overflow(i);
            }
            i = i + 1;
        }
    }

    fn tick_lines(&mut self, n: u32)
        requires
            old(self)@.wf(),
        ensures
            final(self)@ == old(self)@.lines_ticked(n as nat),
            final(self)@.wf(),
    {
        let mut k: u32 = 0;
        while k < n
            invariant
                k <= n,
                self@.wf(),
                self@ == old(self)@.lines_ticked(k as nat),
            decreases n - k,
        {
            self.tick_line();
            k = k + 1;
        }
    }

    fn handle_overflow(&mut self, i: usize)
        requires
            old(self)@.wf(),
            i < 4,
        ensures
            final(self)@ == old(self)@.overflow_handled(i as int),
            final(self)@.wf(),
    {
        self.apu.timer_overflow(i as u8);
        self.check_dma_fifo(i);
    }

    fn check_dma_fifo(&mut self, timer_idx: usize)
        requires
            old(self)@.wf(),
            timer_idx < 4,
        ensures
            forall|before: GbaState|
                (#[trigger] before.wf()) && old(self)@ == (GbaState {
                    sound: before.sound.after_overflow(timer_idx as u8),
                    ..before
                }) ==> final(self)@ == before.overflow_handled(timer_idx as int),
            final(self)@.wf(),
    {
        reveal(GbaState::overflow_handled);
        let cnt_h: u16 = self.bus.io.read16(0x82);
        let dsa_timer: usize = (cnt_h / 0x400 % 2) as usize;
        let dsb_timer: usize = (cnt_h / 0x4000 % 2) as usize;
        // DMA1 feeds FIFO A if dsa_timer matches and FIFO A has <= 16 bytes
        if dsa_timer == timer_idx && self.apu.fifo_a_count() <= 16 {
            refill(&mut self.bus, &mut self.apu.dsa, 1, 0x20);
        }
        // DMA2 feeds FIFO B if dsb_timer matches and FIFO B has <= 16 bytes
        if dsb_timer == timer_idx && self.apu.fifo_b_count() <= 16 {
            refill(&mut self.bus, &mut self.apu.dsb, 2, 0x40);
        }
    }

    fn line_irq(&mut self, on: bool, flags: u16)
        requires
            old(self)@.wf(),
        ensures
            final(self)@ == (GbaState { bus: raised(old(self)@.bus, on, flags), ..old(self)@ }),
            final(self)@.wf(),
    {
        if on {
            self.bus.io.raise_irq(flags);
        }
    }

    fn run_line_events(&mut self, y: u32, enables: u8, setting: u8)
        requires
            old(self)@.wf(),
        ensures
            final(self)@ == (GbaState {
                bus: line_events(old(self)@.bus, y, enables, setting),
                ..old(self)@
            }),
            final(self)@.wf(),
    {
        // VBlank transition.
        if y == ppu::VISIBLE_LINES {
            self.bus.run_dma(Timing::VBlank);
            self.line_irq(enables & 0x01 != 0, irq::VBLANK);
        }
        // VCOUNT match.
        self.line_irq(y == setting as u32 && enables & 0x04 != 0, irq::VCOUNT);
        // HBlank DMA runs on visible lines only; the HBlank IRQ fires on every
        // line, including those of VBlank.
        if y < ppu::VISIBLE_LINES {
            self.bus.run_dma(Timing::HBlank);
        }
        self.line_irq(enables & 0x02 != 0, irq::HBLANK);
    }

    /// Advance one scanline: update VCOUNT/DISPSTAT, render, raise IRQs and
    /// run VBlank/HBlank DMA.
    fn tick_line(&mut self)
        requires
            old(self)@.wf(),
        ensures
            final(self)@ == old(self)@.line_ticked(),
            final(self)@.wf(),
    {
        reveal(GbaState::line_ticked);
        if self.line >= ppu::LINES_PER_FRAME - 1 {
            self.line = 0;
            self.frame_count = self.frame_count.wrapping_add(1);
        } else {
            self.line = self.line + 1;
        }
        let y: u32 = self.line;
        self.bus.io.set_vcount(y as u16);
        // DISPSTAT at 0x04: low byte = flags + IRQ enables; high byte = VCOUNT
        // setting.
        let enables: u8 = self.bus.io.regs[4] / 8 % 8;
        let setting: u8 = self.bus.io.regs[5];
        // Render the visible line.
        if y < ppu::VISIBLE_LINES {
            self.ppu.render_scanline(&self.bus, y);
        }
        self.run_line_events(y, enables, setting);
        self.write_line_flags(y);
    }

    /// Write the DISPSTAT flags byte (VBlank + HBlank bits), preserving the
    /// game-written IRQ-enable bits (3-5).
    fn write_line_flags(&mut self, y: u32)
        requires
            old(self)@.wf(),
        ensures
            final(self)@ == (GbaState { bus: flagged(old(self)@.bus, y), ..old(self)@ }),
            final(self)@.wf(),
    {
        let vblank: u8 = if y >= ppu::VISIBLE_LINES && y < ppu::LINES_PER_FRAME - 1 {
            1
        } else {
            0
        };
        let enables: u8 = self.bus.io.regs[4] & 0x38;
        self.bus.io.regs[4] = vblank | 2 | enables;
    }

    fn button_to_bit(button: Button) -> (r: Option<u16>)
        ensures
            r == key_bit(button),
    {
        match button {
            Button::A => Some(key::A),
            Button::B => Some(key::B),
            Button::Select => Some(key::SELECT),
            Button::Start => Some(key::START),
            Button::Right => Some(key::RIGHT),
            Button::Left => Some(key::LEFT),
            Button::Up => Some(key::UP),
            Button::Down => Some(key::DOWN),
            Button::R => Some(key::R),
            Button::L => Some(key::L),
            _ => None,
        }
    }

    /// Press a button; one that the GBA lacks does nothing.
    pub fn press(&mut self, button: Button)
        ensures
            final(self)@ == match key_bit(button) {
                Some(k) => GbaState {
                    bus: Bus { io: old(self)@.bus.io.after_press(k), ..old(self)@.bus },
                    ..old(self)@
                },
                None => old(self)@,
            },
            old(self)@.wf() ==> final(self)@.wf(),
    {
        if let Some(bit) = Gba::button_to_bit(button) {
            self.bus.press(bit);
        }
    }

    /// Release a button.
    pub fn release(&mut self, button: Button)
        ensures
            final(self)@ == match key_bit(button) {
                Some(k) => GbaState {
                    bus: Bus { io: old(self)@.bus.io.after_release(k), ..old(self)@.bus },
                    ..old(self)@
                },
                None => old(self)@,
            },
            old(self)@.wf() ==> final(self)@.wf(),
    {
        if let Some(bit) = Gba::button_to_bit(button) {
            self.bus.release(bit);
        }
    }

    fn check_halt(&mut self)
        requires
            old(self)@.wf(),
        ensures
            final(self)@ == old(self)@.halt_checked(),
            final(self)@.wf(),
    {
        // HALTCNT (0x04000301) write requests CPU halt.
        if self.bus.io.halt_requested {
            self.bus.io.halt_requested = false;
            self.cpu.halted = true;
        }
    }

    fn check_wait(&mut self)
        requires
            old(self)@.wf(),
        ensures
            final(self)@ == old(self)@.wait_checked(),
            final(self)@.wf(),
    {
        // HLE IntrWait: the BIOS routine halts until the game's IRQ handler
        // flags the awaited interrupt in the IF mirror at 0x03007FF8, taking
        // interrupts normally in the meantime. The check only applies while
        // the PC is back at the wait loop, not while a handler runs.
        if self.cpu.at_bios_wait() {
            let mask: u16 = match self.cpu.bios_wait_mask() {
                Some(mask) => mask,
                None => 0,
            };
            let mirror: u16 = self.bus.read16(BIOS_IF_ADDR) as u16;
            if mirror & mask != 0 {
                self.bus.write16(BIOS_IF_ADDR, (mirror & !mask) as u32);
                self.cpu.complete_bios_wait();
                self.cpu.halted = false;
            } else {
                self.cpu.halted = true;
            }
        }
    }

    fn call_bios(&mut self)
        requires
            old(self)@.wf(),
        ensures
            final(self)@ == old(self)@.bios_called(),
            final(self)@.wf(),
    {
        reveal(GbaState::bios_called);
        if let Some(num) = self.cpu.take_bios_call() {
            let x: u32 = self.cpu.reg_raw(0);
            let y: u32 = self.cpu.reg_raw(1);
            let handled: bool = bios::run(&mut self.cpu, &mut self.bus, num);
            if !handled && self.last_unknown_swi.is_none() {
                // Unimplemented routine: return to the caller and record the
                // first number so the diagnostic tools can report it.
                self.last_unknown_swi = Some(num);
            }
            if num == 0x0A && (x != 0 || y != 0) {
                self.angle = Some((x, y));
            }
        }
    }

    fn run_instruction(&mut self) -> (r: u32)
        requires
            old(self)@.wf(),
        ensures
            (final(self)@, r) == old(self)@.instruction_run(),
            final(self)@.wf(),
    {
        reveal(GbaState::instruction_run);
        self.bus.begin_step();
        let instr: u32 = self.cpu.execute(&mut self.bus);
        let total: u32 = instr.wrapping_add(self.bus.cycles());
        // Dispatch a BIOS SWI (if any) now that the instruction has finished.
        self.call_bios();
        // Immediate DMA fires as soon as its channel is enabled.
        self.bus.run_dma(Timing::Immediate);
        self.advance(total);
        total
    }

    /// Execute one instruction (or idle cycle), returning cycles consumed. An
    /// ArcTan2 leaves its coordinates in `angle` for the frontend to answer.
    pub fn step(&mut self) -> (r: u32)
        requires
            old(self)@.wf(),
        ensures
            (final(self)@, r) == old(self)@.stepped(),
            final(self)@.wf(),
    {
        reveal(GbaState::stepped);
        reveal(GbaState::prepared);
        self.bus.sync_dev_irq();
        self.check_halt();
        self.check_wait();
        if self.bus.io.pending_irq() != 0 && !self.cpu.irq_masked() {
            self.enter_irq();
            self.advance(4);
            return 4;
        }
        if self.cpu.halted {
            // HALT ends on any enabled interrupt even while IME is clear; an
            // IntrWait only ends through its mirror flag.
            if self.cpu.bios_wait_mask().is_none() && self.bus.wake_irq() != 0 {
                self.cpu.halted = false;
            } else {
                self.advance(4);
                return 4;
            }
        }
        self.run_instruction()
    }

    /// Take the coordinates of an ArcTan2 that waits for its answer.
    pub fn take_angle(&mut self) -> (r: Option<(u32, u32)>)
        ensures
            r == old(self)@.angle,
            final(self)@ == (GbaState { angle: None, ..old(self)@ }),
    {
        let angle: Option<(u32, u32)> = self.angle;
        self.angle = None;
        angle
    }

    /// Answer an ArcTan2: the angle, in parts of a circle of 0x10000, goes to
    /// r0 as a positive one.
    pub fn answer_angle(&mut self, turn: i32)
        ensures
            ({
                let positive: int = if turn < 0 {
                    turn + 0x1_0000
                } else {
                    turn as int
                };
                final(self)@ == (GbaState {
                    cpu: old(self)@.cpu.with_value(0, (positive % 0x1_0000_0000) as u32),
                    ..old(self)@
                })
            }),
    {
        let positive: i32 = if turn < 0 {
            turn + 0x1_0000
        } else {
            turn
        };
        let value: u32 = ((positive as i64 + 0x1_0000_0000) % 0x1_0000_0000) as u32;
        self.cpu.set_reg(0, value);
    }

    /// Run exactly one full video frame. A frontend that answers ArcTan2 steps
    /// the machine itself.
    pub fn run_frame(&mut self)
        requires
            old(self)@.wf(),
        ensures
            final(self)@ == old(self)@.run_for(FRAME_CYCLES as nat),
            final(self)@.wf(),
    {
        let mut cycles: u32 = 0;
        while cycles < FRAME_CYCLES
            invariant
                self@.wf(),
                cycles <= FRAME_CYCLES + 72,
                old(self)@.run_for(FRAME_CYCLES as nat) == if cycles >= FRAME_CYCLES {
                    self@
                } else {
                    self@.run_for((FRAME_CYCLES - cycles) as nat)
                },
            decreases FRAME_CYCLES + 72 - cycles,
        {
            proof {
                law_step_length(self@);
            }
            cycles = cycles + self.step();
        }
    }

    /// Current DISPCNT register value (read diagnostics).
    pub fn dispcnt(&self) -> (r: u16)
        ensures
            r == self@.bus.io.half(0),
    {
        self.bus.io.read16(0)
    }

    /// Frames completed (diagnostics).
    pub fn frames(&self) -> (r: u64)
        ensures
            r == self@.frame_count,
    {
        self.frame_count
    }

    /// Current program counter (diagnostics).
    pub fn pc(&self) -> (r: u32)
        ensures
            r == self@.cpu.pc,
    {
        self.cpu.pc()
    }

    /// Whether the CPU is halted (waiting for an IRQ).
    pub fn halted(&self) -> (r: bool)
        ensures
            r == self@.cpu.halted,
    {
        self.cpu.halted
    }

    /// Read the instruction word at `pc` for tracing (diagnostics).
    pub fn peek16(&mut self, pc: u32) -> (r: u32)
        requires
            old(self)@.wf(),
        ensures
            r == old(self)@.bus.half(pc),
            final(self)@ == (GbaState { bus: old(self)@.bus.waited(pc, 16), ..old(self)@ }),
            final(self)@.wf(),
    {
        self.bus.read16(pc)
    }

    /// CPU registers (diagnostics).
    pub fn regs(&self) -> (r: [u32; 16])
        ensures
            r == put(self@.cpu.regs, 15, self@.cpu.pc),
    {
        self.cpu.dump_regs()
    }

    /// Current stack pointer (SVC/USR, diagnostics).
    pub fn sp(&self) -> (r: u32)
        ensures
            r == self@.cpu.regs[13],
    {
        self.cpu.sp_raw()
    }

    /// Read a 32-bit word (diagnostics).
    pub fn peek32(&mut self, addr: u32) -> (r: u32)
        requires
            old(self)@.wf(),
        ensures
            (final(self)@.bus, r) == old(self)@.bus.loaded32(addr),
            final(self)@ == (GbaState { bus: final(self)@.bus, ..old(self)@ }),
            final(self)@.wf(),
    {
        self.bus.read32(addr)
    }

    /// Number of cycles in one full frame.
    pub fn frame_cycles(&self) -> (r: u32)
        ensures
            r == FRAME_CYCLES,
    {
        FRAME_CYCLES
    }

    /// IRQ/exception diagnostics: (IME, IE, IF, handler pointer at 0x03007FFC).
    pub fn irq_debug(&mut self) -> (r: (bool, u16, u16, u32))
        requires
            old(self)@.wf(),
        ensures
            r.0 == old(self)@.bus.io.ime,
            r.1 == old(self)@.bus.io.ie,
            r.2 == old(self)@.bus.io.iflags,
            (final(self)@.bus, r.3) == old(self)@.bus.loaded32(IRQ_HANDLER_ADDR),
            final(self)@ == (GbaState { bus: final(self)@.bus, ..old(self)@ }),
            final(self)@.wf(),
    {
        let ime = self.bus.io.ime();
        let ie: u16 = self.bus.io.ie();
        let iflags: u16 = self.bus.io.iflags();
        let handler: u32 = self.bus.read32(IRQ_HANDLER_ADDR);
        (ime, ie, iflags, handler)
    }

    /// Stable console identifier.
    pub fn name(&self) -> (r: &'static str)
        ensures
            r@ == "gba"@,
    {
        "gba"
    }

    /// The cartridge title from its header, trimmed (may be empty).
    pub fn title(&self) -> (r: String)
        ensures
            r@ == self@.header_title(),
    {
        if self.bus.rom.len() >= 0xB0 {
            let text = string_from_utf8_lossy(
                slice_subrange(self.bus.rom.as_slice(), 0xA0, 0xB0),
            );
            trim_title(text.as_str())
        } else {
            let none = String::new();
            assert(none@ =~= Seq::<char>::empty());
            none
        }
    }

    /// Human-readable description of the loaded cartridge.
    pub fn info(&self) -> (r: String)
        ensures
            r@ == description(self@.header_title()),
    {
        describe(self.title())
    }

    /// Native display resolution, without allocating a frame.
    pub fn screen(&self) -> (r: Screen)
        ensures
            r == (Screen { width: SCREEN_W, height: SCREEN_H }),
    {
        Screen::new(SCREEN_W, SCREEN_H)
    }

    /// Reset the system to power-on state (keeps loaded cartridge).
    pub fn reset(&mut self)
        ensures
            final(self)@.booted(old(self)@.bus.rom@),
            old(self)@.wf() ==> final(self)@.wf(),
    {
        let mut rom: Vec<u8> = Vec::new();
        rom.extend_from_slice(self.bus.rom.as_slice());
        assert(rom@ =~= self.bus.rom@);
        *self = Gba::new(rom);
    }

    /// The current frame in colour.
    pub fn frame(&self) -> (r: Frame)
        requires
            self@.wf(),
        ensures
            r.width == SCREEN_W,
            r.height == SCREEN_H,
            r.shades@ == Seq::<u8>::empty(),
            r.rgb is Some,
            r.rgb->0@ == Seq::new(115_200, |k: int| color_byte(self@.picture[k / 3], k % 3)),
    {
        let mut rgb: Vec<u8> = Vec::with_capacity(115_200);
        let mut i: usize = 0;
        while i < 38_400
            invariant
                i <= 38_400,
                self.ppu.framebuffer@.len() == 38_400,
                rgb@.len() == i * 3,
                forall|k: int|
                    0 <= k < i * 3 ==> (#[trigger] rgb@[k]) == color_byte(
                        self.ppu.framebuffer@[k / 3],
                        k % 3,
                    ),
            decreases 38_400 - i,
        {
            let c: u32 = self.ppu.framebuffer[i] as u32;
            // BGR555: R bits 0-4, G bits 5-9, B bits 10-14.
            rgb.push((c % 32 * 255 / 31) as u8);
            rgb.push((c / 32 % 32 * 255 / 31) as u8);
            rgb.push((c / 1024 % 32 * 255 / 31) as u8);
            i = i + 1;
        }
        assert(rgb@ =~= Seq::new(115_200, |k: int| color_byte(self@.picture[k / 3], k % 3)));
        let shades: Vec<u8> = Vec::new();
        assert(shades@ =~= Seq::<u8>::empty());
        Frame { width: SCREEN_W, height: SCREEN_H, shades, rgb: Some(rgb) }
    }

    /// Audio output sample rate in Hz.
    pub fn audio_rate(&self) -> (r: u32)
        ensures
            r == 32768,
    {
        32768
    }

    /// Drain audio samples produced since the last call (interleaved stereo).
    /// Samples beyond one frame's worth are dropped, which would otherwise
    /// accumulate in the audio sink as ever-growing latency.
    pub fn take_audio(&mut self) -> (r: AudioBuffer)
        ensures
            ({
                let all = old(self)@.sound.samples;
                r@ == if all.len() > MAX_SAMPLES {
                    all.take(MAX_SAMPLES as int)
                } else {
                    all
                }
            }),
            final(self)@ == (GbaState {
                sound: ApuState { samples: Seq::empty(), ..old(self)@.sound },
                ..old(self)@
            }),
    {
        let mut buf = self.apu.take_audio();
        if buf.samples.len() > MAX_SAMPLES {
            buf.samples.truncate(MAX_SAMPLES);
            assert(buf@ =~= old(self)@.sound.samples.take(MAX_SAMPLES as int));
        }
        buf
    }

    pub fn battery_backed(&self) -> (r: bool)
        ensures
            r == (self@.bus.save.kind != crate::gba::save::SaveType::Absent),
    {
        self.bus.save.battery_backed()
    }

    /// The raw save-data bytes (empty if none).
    pub fn save_data(&self) -> (r: Vec<u8>)
        ensures
            r@ == self@.bus.save.bytes(),
    {
        let mut data: Vec<u8> = Vec::new();
        data.extend_from_slice(self.bus.save.raw());
        assert(data@ =~= self.bus.save.bytes());
        data
    }

    /// Load raw save-data bytes (must match `save_data` shape).
    pub fn load_data(&mut self, data: &[u8])
        ensures
            final(self)@ == (GbaState {
                bus: Bus { save: old(self)@.bus.save.after_load(data@), ..old(self)@.bus },
                ..old(self)@
            }),
            old(self)@.wf() ==> final(self)@.wf(),
    {
        self.bus.save.load(data);
    }

    /// Returns `true` once if the save data changed since the last call,
    /// clearing the flag.
    pub fn sram_changed(&mut self) -> (r: bool)
        ensures
            r == old(self)@.bus.save.dirty,
            final(self)@ == (GbaState {
                bus: Bus {
                    save: SaveCartridge { dirty: false, ..old(self)@.bus.save },
                    ..old(self)@.bus
                },
                ..old(self)@
            }),
    {
        self.bus.save.take_dirty()
    }

    /// Raw bytes of a real-time clock (none).
    pub fn rtc_data(&self) -> (r: Vec<u8>)
        ensures
            r@ == Seq::<u8>::empty(),
    {
        let none: Vec<u8> = Vec::new();
        assert(none@ =~= Seq::<u8>::empty());
        none
    }
}

fn feed(bus: &mut Bus, fifo: &mut DirectSound, src: u32)
    requires
        old(bus).wf(),
        old(fifo).wf(),
    ensures
        final(bus).wf(),
        final(fifo).wf(),
        (*final(bus), *final(fifo)) == fed(*old(bus), *old(fifo), src, 4),
{
    let mut n: usize = 0;
    while n < 4
        invariant
            n <= 4,
            bus.wf(),
            fifo.wf(),
            (*bus, *fifo) == fed(*old(bus), *old(fifo), src, n as nat),
        decreases 4 - n,
    {
        let w: u32 = bus.read32(src);
        fifo.push((w % 256) as u8);
        fifo.push((w / 0x100 % 256) as u8);
        fifo.push((w / 0x1_0000 % 256) as u8);
        fifo.push((w / 0x100_0000) as u8);
        n = n + 1;
    }
}

fn refill(bus: &mut Bus, fifo: &mut DirectSound, i: usize, flag: u16)
    requires
        old(bus).wf(),
        old(fifo).wf(),
        i < 4,
    ensures
        final(bus).wf(),
        final(fifo).wf(),
        (*final(bus), *final(fifo)) == refilled(*old(bus), *old(fifo), i as int, flag),
{
    let mut ch: Channel = bus.dma.chans[i];
    if ch.enabled && ch.timing() == Timing::Special {
        feed(bus, fifo, ch.src);
        let mode: u8 = ch.src_adjust();
        ch.src = adjust(ch.src, 16, mode);
        if ch.irq_enable() {
            bus.dma.flags = bus.dma.flags | flag;
        }
        bus.dma.chans[i] = ch;
    }
}

} // verus!

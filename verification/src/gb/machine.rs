//! Game Boy system: the composition root.
//!
//! [`Gb`] owns the CPU and bus and offers what a frontend drives: stepping,
//! input, frames, audio and battery saves.

use crate::bits::put;
use crate::emu::audio::AudioBuffer;
use crate::emu::input::Button;
use crate::emu::text::{trim_end, trim_start, trimmed};
use crate::emu::video::Frame;
use crate::emu::Screen;
use crate::gb::apu::ApuState;
use crate::gb::bus::{Bus, BusState, Model};
use crate::gb::cartridge::{CartState, Cartridge};
use crate::gb::cpu::{machine, Cpu, Machine};
use crate::gb::cycles::{law_documented_cycles, law_interrupt_cycles};
use crate::gb::joypad::{
    Joypad, BUTTON_A, BUTTON_B, BUTTON_DOWN, BUTTON_LEFT, BUTTON_RIGHT, BUTTON_SELECT,
    BUTTON_START, BUTTON_UP,
};
use vstd::prelude::*;

verus! {

pub const FRAME_CYCLES: u32 = 70224;
pub const SCREEN_W: u16 = 160;
pub const SCREEN_H: u16 = 144;

pub struct Gb {
    pub cpu: Cpu,
    pub bus: Bus,
}

impl View for Gb {
    type V = Machine;

    open spec fn view(&self) -> Machine {
        Machine { cpu: self.cpu, bus: self.bus@ }
    }
}

/// The joypad bit of a logical button; the Game Boy has eight.
pub open spec fn button_bit(button: Button) -> Option<u8> {
    match button {
        Button::A => Some(BUTTON_A),
        Button::B => Some(BUTTON_B),
        Button::Start => Some(BUTTON_START),
        Button::Select => Some(BUTTON_SELECT),
        Button::Left => Some(BUTTON_LEFT),
        Button::Right => Some(BUTTON_RIGHT),
        Button::Up => Some(BUTTON_UP),
        Button::Down => Some(BUTTON_DOWN),
        _ => None,
    }
}

impl Machine {
    pub open spec fn wf(self) -> bool {
        self.bus.wf()
    }

    /// The console as its boot ROM leaves it. A CGB shows itself to the game
    /// in A, and KEY0 holds the cartridge's CGB flag.
    pub open spec fn booted(cart: CartState, model: Model) -> Machine {
        let bus = BusState::initial(cart, model);
        if model == Model::Cgb {
            Machine {
                cpu: Cpu {
                    a: 0x11,
                    f: 0x80,
                    b: 0x00,
                    c: 0x00,
                    d: 0xFF,
                    e: 0x00,
                    h: 0x00,
                    l: 0x0D,
                    ..Cpu::initial()
                },
                bus: bus.with_io(0x4C, cart.cgb_flag),
            }
        } else {
            Machine { cpu: Cpu::initial(), bus }
        }
    }

    /// The machine after a change of a button, which requests the joypad
    /// interrupt.
    pub open spec fn after_button(self, state: u8) -> Machine {
        Machine {
            bus: BusState {
                joypad: Joypad { state },
                ..self.bus.with_io(0x0F, self.bus.io[0x0F] | 0x10)
            },
            ..self
        }
    }

    /// The machine after the buttons in `button` went down; nothing happens
    /// when they all were.
    pub open spec fn after_press(self, button: u8) -> Machine {
        if self.bus.joypad.state & button != 0 {
            self.after_button(self.bus.joypad.state & !button)
        } else {
            self
        }
    }

    /// The machine after the buttons in `button` went up; nothing happens when
    /// one of them was.
    pub open spec fn after_release(self, button: u8) -> Machine {
        if self.bus.joypad.state & button == 0 {
            self.after_button(self.bus.joypad.state | button)
        } else {
            self
        }
    }

    /// The machine idle for one M-cycle.
    pub open spec fn idle(self) -> Machine {
        Machine { bus: self.bus.after_step(4), ..self }
    }

    /// Whether STOP goes on: no speed switch is requested and no button held.
    pub open spec fn stays_stopped(self) -> bool {
        self.cpu.stopped && !(self.bus.is_cgb && self.bus.io[0x4D] & 1 != 0)
            && self.bus.joypad.state == 0xFF
    }

    /// The machine with STOP left: a CGB with KEY1 bit 0 set switches speed,
    /// a held button wakes any console.
    pub open spec fn after_stop(self) -> Machine {
        if !self.cpu.stopped {
            self
        } else {
            Machine {
                cpu: Cpu { stopped: false, ..self.cpu },
                bus: BusState {
                    double_speed: if self.bus.is_cgb && self.bus.io[0x4D] & 1 != 0 {
                        !self.bus.double_speed
                    } else {
                        self.bus.double_speed
                    },
                    ..self.bus
                },
            }
        }
    }

    /// One instruction, then the interrupt enable that an EI before it asked
    /// for: EI takes effect after the instruction that follows it.
    pub open spec fn after_instruction(self) -> Machine {
        let m = self.execute();
        if self.cpu.ei_pending && m.cpu.ei_pending {
            m.with_cpu(Cpu { ime: true, ei_pending: false, ..m.cpu })
        } else {
            m
        }
    }

    /// One step of a running CPU: an interrupt, or an instruction.
    pub open spec fn running_step(self) -> (Machine, u32) {
        if self.cpu.ime && self.pending() != 0 {
            (self.interrupted(), self.interrupted().cpu.ticked)
        } else {
            (self.after_instruction(), self.after_instruction().cpu.ticked)
        }
    }

    /// One step of the machine and the cycles it took.
    #[verifier::opaque]
    pub open spec fn stepped(self) -> (Machine, u32) {
        let m = self.after_stop();
        if self.stays_stopped() {
            (self.idle(), 4)
        } else if m.cpu.halted && m.pending() == 0 {
            (m.idle(), 4)
        } else {
            m.with_cpu(Cpu { halted: false, ..m.cpu }).running_step()
        }
    }

    /// The cycles of one video frame.
    pub open spec fn frame_length(self) -> u32 {
        if self.bus.double_speed {
            140448
        } else {
            70224
        }
    }

    /// The machine stepped until at least `left` more cycles have passed.
    pub open spec fn run_for(self, left: nat) -> Machine
        decreases left,
    {
        if left == 0 {
            self
        } else {
            let (m, n) = self.stepped();
            if n == 0 || n >= left {
                m
            } else {
                m.run_for((left - n) as nat)
            }
        }
    }

    /// Samples per second: the APU keeps the raw clock, so double speed
    /// doubles them.
    pub open spec fn sample_rate(self) -> u32 {
        if self.bus.double_speed {
            16384
        } else {
            8192
        }
    }
}

/// A step takes from one to six M-cycles.
pub proof fn law_step_length(m: Machine)
    ensures
        4 <= m.stepped().1 <= 24,
{
    reveal(Machine::stepped);
    let s = m.after_stop();
    let r = s.with_cpu(Cpu { halted: false, ..s.cpu });
    law_documented_cycles(r);
    law_interrupt_cycles(r);
}

/// EI and DI: EI only notes itself, and the instruction after it runs before
/// interrupts are enabled; a DI in between takes the note back.
pub proof fn law_ei_is_delayed(m: Machine)
    ensures
        m.exec(0xFB) == m.with_cpu(Cpu { ei_pending: true, ..m.cpu }),
        m.exec(0xF3) == m.with_cpu(Cpu { ime: false, ei_pending: false, ..m.cpu }),
        !m.cpu.ei_pending ==> m.after_instruction() == m.execute(),
        m.cpu.ei_pending && m.execute().cpu.ei_pending ==> m.after_instruction().cpu.ime
            && !m.after_instruction().cpu.ei_pending,
{
    reveal(Machine::exec);
    reveal(Machine::exec_block3_low);
}

impl Gb {
    pub fn new(cart: Cartridge) -> (r: Gb)
        ensures
            r@ == Machine::booted(cart@, Model::of(cart@)),
            cart@.wf() ==> r@.wf(),
    {
        let model = Model::for_cart(&cart);
        Gb::new_with_model(cart, model)
    }

    /// Boot the cartridge on a specific console model instead of the one its
    /// header requests (a CGB running a DMG cart in compatibility mode, or a
    /// DMG ignoring the colour flag).
    pub fn new_with_model(cart: Cartridge, model: Model) -> (r: Gb)
        ensures
            r@ == Machine::booted(cart@, model),
            cart@.wf() ==> r@.wf(),
    {
        let mut bus = Bus::new_with_model(cart, model);
        let mut cpu = Cpu::new();
        if model == Model::Cgb {
            // The CGB boot ROM leaves the CPU in CGB mode with A=$11 (which
            // games like Crystal probe to detect the console) and the related
            // register state; the DMG defaults (A=$01, F=$B0, ...) apply only
            // to plain Game Boy carts.
            cpu.a = 0x11;
            cpu.f = 0x80;
            cpu.b = 0x00;
            cpu.c = 0x00;
            cpu.d = 0xFF;
            cpu.e = 0x00;
            cpu.h = 0x00;
            cpu.l = 0x0D;
            // KEY0: write the cartridge's CGB compatibility flag, as the boot
            // ROM does when leaving full CGB mode.
            let flag: u8 = bus.cart.cgb_flag;
            bus.io[0x4C] = flag;
        }
        Gb { cpu, bus }
    }

    /// Whether the machine can be stepped: a save state restored from untrusted
    /// bytes may have left it in a state that no console is ever in.
    pub fn is_valid(&self) -> (r: bool)
        ensures
            r == self@.wf(),
    {
        self.bus.is_valid()
    }

    /// Whether the CPU executed `ld b,b` (opcode $40) since the last call.
    /// Test suites (mooneye, mealybug, acid2) use it to signal completion.
    pub fn take_breakpoint(&mut self) -> (r: bool)
        ensures
            r == old(self)@.cpu.breakpoint,
            final(self)@ == old(self)@.with_cpu(Cpu { breakpoint: false, ..old(self)@.cpu }),
    {
        let hit = self.cpu.breakpoint;
        self.cpu.breakpoint = false;
        hit
    }

    pub fn press_button(&mut self, button: u8)
        ensures
            final(self)@ == old(self)@.after_press(button),
            old(self)@.wf() ==> final(self)@.wf(),
    {
        if self.bus.joypad.state & button != 0 {
            self.bus.joypad.press(button);
            let flags: u8 = self.bus.io[0x0F] | 0x10;
            self.bus.io[0x0F] = flags;
        }
    }

    pub fn release_button(&mut self, button: u8)
        ensures
            final(self)@ == old(self)@.after_release(button),
            old(self)@.wf() ==> final(self)@.wf(),
    {
        if self.bus.joypad.state & button == 0 {
            self.bus.joypad.release(button);
            let flags: u8 = self.bus.io[0x0F] | 0x10;
            self.bus.io[0x0F] = flags;
        }
    }

    fn button_to_bit(button: Button) -> (r: Option<u8>)
        ensures
            r == button_bit(button),
    {
        match button {
            Button::A => Some(BUTTON_A),
            Button::B => Some(BUTTON_B),
            Button::Start => Some(BUTTON_START),
            Button::Select => Some(BUTTON_SELECT),
            Button::Left => Some(BUTTON_LEFT),
            Button::Right => Some(BUTTON_RIGHT),
            Button::Up => Some(BUTTON_UP),
            Button::Down => Some(BUTTON_DOWN),
            _ => None,
        }
    }

    /// Press a logical button; one the console lacks does nothing.
    pub fn press(&mut self, button: Button)
        ensures
            final(self)@ == match button_bit(button) {
                Some(b) => old(self)@.after_press(b),
                None => old(self)@,
            },
            old(self)@.wf() ==> final(self)@.wf(),
    {
        if let Some(b) = Self::button_to_bit(button) {
            self.press_button(b);
        }
    }

    /// Release a logical button.
    pub fn release(&mut self, button: Button)
        ensures
            final(self)@ == match button_bit(button) {
                Some(b) => old(self)@.after_release(b),
                None => old(self)@,
            },
            old(self)@.wf() ==> final(self)@.wf(),
    {
        if let Some(b) = Self::button_to_bit(button) {
            self.release_button(b);
        }
    }

    /// Leave STOP if something ends it; whether it goes on otherwise.
    fn leave_stop(&mut self) -> (r: bool)
        requires
            old(self)@.wf(),
        ensures
            r == old(self)@.stays_stopped(),
            final(self)@ == if r {
                old(self)@
            } else {
                old(self)@.after_stop()
            },
            final(self)@.wf(),
    {
        if !self.cpu.stopped {
            return false;
        }
        // On CGB hardware, STOP with KEY1 bit 0 set toggles double speed.
        if self.bus.is_cgb && self.bus.io[0x4D] & 1 != 0 {
            self.bus.double_speed = !self.bus.double_speed;
            self.cpu.stopped = false;
            return false;
        }
        if self.bus.joypad.state != 0xFF {
            self.cpu.stopped = false;
            return false;
        }
        true
    }

    /// One instruction with the delayed effect of EI.
    fn instruction(&mut self) -> (r: u32)
        requires
            old(self)@.wf(),
        ensures
            final(self)@ == old(self)@.after_instruction(),
            r == final(self)@.cpu.ticked,
            final(self)@.wf(),
    {
        let was_ei = self.cpu.ei_pending;
        // The CPU advances the bus itself, one M-cycle per memory access or
        // internal cycle, so devices see every access at its true time.
        let total: u32 = self.cpu.execute(&mut self.bus);
        if was_ei && self.cpu.ei_pending {
            self.cpu.ime = true;
            self.cpu.ei_pending = false;
        }
        total
    }

    /// Execute one instruction (or idle cycle), returning cycles consumed.
    pub fn step(&mut self) -> (r: u32)
        requires
            old(self)@.wf(),
        ensures
            (final(self)@, r) == old(self)@.stepped(),
            final(self)@.wf(),
    {
        reveal(Machine::stepped);
        if self.leave_stop() {
            self.bus.step(4);
            return 4;
        }
        let pending: u8 = self.bus.io[0x0F] & self.bus.ie & 0x1F;
        if self.cpu.halted && pending == 0 {
            self.bus.step(4);
            return 4;
        }
        self.cpu.halted = false;
        if self.cpu.ime && pending != 0 {
            return self.cpu.take_interrupt(&mut self.bus);
        }
        self.instruction()
    }

    /// Number of master cycles in one full video frame.
    pub fn frame_cycles(&self) -> (r: u32)
        ensures
            r == self@.frame_length(),
    {
        self.bus.frame_cycles()
    }

    /// Run exactly one full video frame.
    pub fn run_frame(&mut self)
        requires
            old(self)@.wf(),
        ensures
            final(self)@ == old(self)@.run_for(old(self)@.frame_length() as nat),
            final(self)@.wf(),
    {
        let total: u32 = self.frame_cycles();
        let mut cycles: u32 = 0;
        while cycles < total
            invariant
                self@.wf(),
                total <= 140448,
                cycles <= total + 24,
                old(self)@.run_for(total as nat) == if cycles >= total {
                    self@
                } else {
                    self@.run_for((total - cycles) as nat)
                },
            decreases total + 24 - cycles,
        {
            proof {
                law_step_length(self@);
            }
            cycles = cycles + self.step();
        }
    }

    /// Current framebuffer as 2-bit shades (`0..=3`) per pixel.
    pub fn framebuffer(&self) -> (r: &[u8])
        ensures
            r@ == self@.bus.ppu.frame_buffer@,
    {
        self.bus.frame()
    }

    /// The current frame, in shades and in colour.
    pub fn frame(&self) -> (r: Frame)
        ensures
            r.width == SCREEN_W,
            r.height == SCREEN_H,
            r.shades@ == self@.bus.ppu.frame_buffer@,
            r.rgb is Some,
            r.rgb->0@ == self@.bus.ppu.rgb_buffer@,
    {
        let mut shades: Vec<u8> = Vec::new();
        shades.extend_from_slice(self.framebuffer());
        let mut rgb: Vec<u8> = Vec::new();
        rgb.extend_from_slice(self.bus.ppu.rgb_buffer.as_slice());
        assert(shades@ =~= self.bus.ppu.frame_buffer@);
        assert(rgb@ =~= self.bus.ppu.rgb_buffer@);
        Frame { width: SCREEN_W, height: SCREEN_H, shades, rgb: Some(rgb) }
    }

    /// Stable console identifier.
    pub fn name(&self) -> (r: &'static str)
        ensures
            r@ == if self@.bus.is_cgb {
                "gbc"@
            } else {
                "gb"@
            },
    {
        if self.bus.is_cgb {
            "gbc"
        } else {
            "gb"
        }
    }

    /// Human-readable description of the loaded cartridge.
    pub fn info(&self) -> (r: String)
        ensures
            r@ == self@.bus.cart.title + " ("@ + self@.bus.cart.mbc.label() + ", battery="@ + (
            if self@.bus.cart.has_battery {
                "true"@
            } else {
                "false"@
            }) + ")"@,
    {
        let mut s = self.bus.cart.title.clone();
        s.push_str(" (");
        s.push_str(self.bus.cart.mbc.name());
        s.push_str(", battery=");
        if self.bus.cart.has_battery() {
            s.push_str("true");
        } else {
            s.push_str("false");
        }
        s.push_str(")");
        s
    }

    /// The cartridge title from its header, trimmed (may be empty).
    pub fn title(&self) -> (r: String)
        ensures
            r@ == trim_end(trim_start(self@.bus.cart.title)),
    {
        trimmed(self.bus.cart.title.as_str())
    }

    /// Native display resolution, without allocating a frame.
    pub fn screen(&self) -> (r: Screen)
        ensures
            r == (Screen { width: SCREEN_W, height: SCREEN_H }),
    {
        Screen::new(SCREEN_W, SCREEN_H)
    }

    /// Reset the system to power-on state (keeps loaded cartridge).
    pub fn reset(&mut self)
        ensures
            final(self)@ == Machine::booted(old(self)@.bus.cart, Model::of(old(self)@.bus.cart)),
            old(self)@.wf() ==> final(self)@.wf(),
    {
        let cart = self.bus.cart.clone();
        *self = Gb::new(cart);
    }

    /// Audio output sample rate in Hz.
    pub fn audio_rate(&self) -> (r: u32)
        ensures
            r == self@.sample_rate(),
    {
        if self.bus.double_speed {
            16384
        } else {
            8192
        }
    }

    /// Drain audio samples produced since the last call (interleaved stereo).
    /// A caller that never drained gets the newest second.
    pub fn take_audio(&mut self) -> (r: AudioBuffer)
        ensures
            ({
                let all = old(self)@.bus.apu.samples;
                let cap = old(self)@.sample_rate() as int * 2;
                r@ == if all.len() > cap {
                    all.skip(all.len() - cap)
                } else {
                    all
                }
            }),
            final(self)@ == (Machine {
                bus: BusState {
                    apu: ApuState { samples: Seq::empty(), ..old(self)@.bus.apu },
                    ..old(self)@.bus
                },
                ..old(self)@
            }),
    {
        let cap: usize = self.audio_rate() as usize * 2;
        let mut buf = AudioBuffer::new();
        core::mem::swap(&mut buf, &mut self.bus.apu.buffer);
        let n: usize = buf.samples.len();
        if n > cap {
            let newest = vstd::slice::slice_subrange(buf.samples.as_slice(), n - cap, n);
            let mut samples: Vec<i16> = Vec::new();
            samples.extend_from_slice(newest);
            assert(samples@ =~= buf@.skip(n - cap));
            buf = AudioBuffer { samples };
        }
        buf
    }

    pub fn battery_backed(&self) -> (r: bool)
        ensures
            r == self@.bus.cart.has_battery,
    {
        self.bus.cart.has_battery()
    }

    /// The raw save-data bytes (empty if none).
    pub fn save_data(&self) -> (r: Vec<u8>)
        ensures
            r@ == self@.bus.cart.ram,
    {
        let mut out: Vec<u8> = Vec::new();
        out.extend_from_slice(self.bus.cart.ram.as_slice());
        assert(out@ =~= self.bus.cart.ram@);
        out
    }

    /// Load raw save-data bytes: as many as there are and as fit.
    pub fn load_data(&mut self, data: &[u8])
        ensures
            final(self)@ == (Machine {
                bus: BusState {
                    cart: CartState {
                        ram: Seq::new(
                            old(self)@.bus.cart.ram.len(),
                            |i: int|
                                if i < data@.len() {
                                    data@[i]
                                } else {
                                    old(self)@.bus.cart.ram[i]
                                },
                        ),
                        ..old(self)@.bus.cart
                    },
                    ..old(self)@.bus
                },
                ..old(self)@
            }),
    {
        let n: usize = self.bus.cart.ram.len();
        let mut ram: Vec<u8> = Vec::new();
        let mut i: usize = 0;
        while i < n
            invariant
                i <= n,
                n == self.bus.cart.ram@.len(),
                *self == *old(self),
                ram@ =~= Seq::new(
                    i as nat,
                    |k: int|
                        if k < data@.len() {
                            data@[k]
                        } else {
                            self.bus.cart.ram@[k]
                        },
                ),
            decreases n - i,
        {
            ram.push(
                if i < data.len() {
                    data[i]
                } else {
                    self.bus.cart.ram[i]
                },
            );
            i = i + 1;
        }
        self.bus.cart.ram = ram;
        assert(self@.bus.cart.ram =~= Seq::new(
            old(self)@.bus.cart.ram.len(),
            |i: int|
                if i < data@.len() {
                    data@[i]
                } else {
                    old(self)@.bus.cart.ram[i]
                },
        ));
    }

    /// Whether battery-backed state changed since the last call.
    pub fn sram_changed(&mut self) -> (r: bool)
        ensures
            r == old(self)@.bus.cart.sram_dirty,
            final(self)@ == (Machine {
                bus: BusState {
                    cart: CartState { sram_dirty: false, ..old(self)@.bus.cart },
                    ..old(self)@.bus
                },
                ..old(self)@
            }),
    {
        self.bus.cart.sram_changed()
    }

    /// Raw bytes of the real-time clock (empty if the cartridge has none).
    pub fn rtc_data(&self) -> (r: Vec<u8>)
        ensures
            r@ == if self@.bus.cart.has_rtc {
                self@.bus.cart.rtc@
            } else {
                Seq::empty()
            },
    {
        self.bus.cart.rtc_data()
    }

    /// Load raw real-time-clock bytes (see [`Gb::rtc_data`]).
    pub fn load_rtc(&mut self, data: &[u8])
        ensures
            ({
                let sets = old(self)@.bus.cart.has_rtc && data@.len() >= 5;
                &&& sets ==> final(self)@.bus.cart.rtc@ == data@.take(5)
                &&& final(self)@ == (Machine {
                    bus: BusState {
                        cart: CartState {
                            rtc: if sets {
                                final(self)@.bus.cart.rtc
                            } else {
                                old(self)@.bus.cart.rtc
                            },
                            ..old(self)@.bus.cart
                        },
                        ..old(self)@.bus
                    },
                    ..old(self)@
                })
            }),
    {
        self.bus.cart.load_rtc(data);
    }
}

} // verus!

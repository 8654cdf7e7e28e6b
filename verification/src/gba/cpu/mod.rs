//! ARM7TDMI CPU core.
//!
//! The GBA's CPU is an ARM7TDMI running in little-endian mode. It executes the
//! 32-bit ARM instruction set (in `arm` mode) and the 16-bit Thumb instruction
//! set (in `thumb` mode). This module provides the register file, mode/banking
//! logic, CPSR/SPSR handling and exception entry; the two instruction decoders
//! live in [`arm`] and [`thumb`].
//!
//! The core is bus-agnostic in the sense that it talks to memory through the
//! [`Bus`] passed to [`Cpu::execute`]; the bus owns the address space and counts
//! the wait states of each access.

use crate::bits::{filled, put};
use vstd::prelude::*;
use vstd::wrapping::u32_specs;

pub mod arm;
pub mod field;
pub mod flag;
pub mod isa;
pub mod mode;
pub mod thumb;
pub mod thumb_isa;
pub mod transfers;

verus! {

/// All instruction addresses are 32-bit; there is no high-VRAM vector.
pub const VECTOR_UND: u32 = 0x0000_0004;
pub const VECTOR_SWI: u32 = 0x0000_0008;
pub const VECTOR_ABT_PREFETCH: u32 = 0x0000_000C;
pub const VECTOR_ABT_DATA: u32 = 0x0000_0010;
pub const VECTOR_IRQ: u32 = 0x0000_0018;
pub const VECTOR_FIQ: u32 = 0x0000_001C;

#[derive(Clone, Copy, PartialEq, Eq, Structural, Debug)]
pub enum MemAccess {
    ReadByte,
    ReadHalf,
    ReadWord,
    WriteByte,
    WriteHalf,
    WriteWord,
}

/// Memory interface the CPU decoders use. Implementations own the address
/// space and are responsible for their own timing; the CPU accumulates a cycle
/// count via [`Cpu::cycles`].
///
/// Every access is a function of the bus and the address: the `after_*`
/// functions give the bus afterwards, and the value read.
pub trait Bus: Sized {
    /// Whether the bus can serve accesses.
    spec fn ready(self) -> bool;

    spec fn after_read8(self, addr: u32) -> (Self, u32);

    spec fn after_read16(self, addr: u32) -> (Self, u32);

    spec fn after_read32(self, addr: u32) -> (Self, u32);

    spec fn after_write8(self, addr: u32, value: u32) -> Self;

    spec fn after_write16(self, addr: u32, value: u32) -> Self;

    spec fn after_write32(self, addr: u32, value: u32) -> Self;

    fn read8(&mut self, addr: u32) -> (r: u32)
        requires
            old(self).ready(),
        ensures
            final(self).ready(),
            (*final(self), r) == old(self).after_read8(addr),
    ;

    fn read16(&mut self, addr: u32) -> (r: u32)
        requires
            old(self).ready(),
        ensures
            final(self).ready(),
            (*final(self), r) == old(self).after_read16(addr),
    ;

    fn read32(&mut self, addr: u32) -> (r: u32)
        requires
            old(self).ready(),
        ensures
            final(self).ready(),
            (*final(self), r) == old(self).after_read32(addr),
    ;

    fn write8(&mut self, addr: u32, value: u32)
        requires
            old(self).ready(),
        ensures
            final(self).ready(),
            *final(self) == old(self).after_write8(addr, value),
    ;

    fn write16(&mut self, addr: u32, value: u32)
        requires
            old(self).ready(),
        ensures
            final(self).ready(),
            *final(self) == old(self).after_write16(addr, value),
    ;

    fn write32(&mut self, addr: u32, value: u32)
        requires
            old(self).ready(),
        ensures
            final(self).ready(),
            *final(self) == old(self).after_write32(addr, value),
    ;
}

#[derive(Clone, Copy, PartialEq, Eq, Debug)]
pub struct Cpu {
    /// Working register file: r0-r14. The *value* read from r15 is `pc + 8` in
    /// ARM mode or `pc + 4` in Thumb mode, but we store the actual
    /// next-instruction address in `pc` and synthesize reads.
    pub regs: [u32; 16],
    /// Current program counter (the address of the instruction being executed,
    /// or the next one to fetch).
    pub pc: u32,
    pub cpsr: u32,
    /// Banked r8-r12 shared by USR/SVC/ABT/UND/IRQ (only FIQ has its own copy).
    pub base_r8_12: [u32; 5],
    /// Banked r8-r12 for FIQ mode.
    pub fiq_r8_12: [u32; 5],
    /// Banked SP/LR, indexed by mode: [FIQ, SVC, ABT, UND, IRQ, USR]; SYS
    /// shares the bank of USR.
    pub sp: [u32; 6],
    pub lr: [u32; 6],
    /// SPSR per exception mode, same indexing as `sp`.
    pub spsr: [u32; 5],
    /// Cycle counter for the current instruction (reset each [`Cpu::execute`]).
    pub cycles: u32,
    /// True while the CPU is halted (SWI 0x02 `Halt`).
    pub halted: bool,
    /// HLE BIOS wait mask used by IntrWait and VBlankIntrWait: the IRQ flags
    /// the routine is waiting for. `None` when no wait is in progress.
    pub bios_wait: Option<u16>,
    /// The address the waiting routine returns to.
    pub bios_wait_pc: u32,
    /// A BIOS SWI recorded by the decoders, dispatched by the system once the
    /// instruction has finished executing. `None` when no SWI was executed.
    pub bios_call: Option<u32>,
    /// True when a real BIOS dump is loaded. In that mode SWIs take the real
    /// SVC exception (vector 0x08) so the BIOS dispatcher runs, instead of the
    /// HLE intercept.
    pub has_bios: bool,
}

/// Index of a banked register file within `sp`/`lr`/`spsr`.
#[derive(Clone, Copy, PartialEq, Eq, Structural, Debug)]
pub struct Bank(pub usize);

/// Whether the BIOS routine `num` is one that is emulated directly.
pub open spec fn known_swi(num: u32) -> bool {
    num == 0x01 || num == 0x02 || 0x05 <= num <= 0x08 || 0x0A <= num <= 0x0D || 0x11 <= num <= 0x18
}

fn is_known(num: u32) -> (r: bool)
    ensures
        r == known_swi(num),
{
    num == 0x01 || num == 0x02 || (0x05 <= num && num <= 0x08) || (0x0A <= num && num <= 0x0D) || (
    0x11 <= num && num <= 0x18)
}

/// The CPU and the bus it executes on.
pub struct Core<B> {
    pub cpu: Cpu,
    pub bus: B,
}

/// The bank of a mode.
pub open spec fn bank_of(m: u32) -> int {
    if m == mode::FIQ {
        0
    } else if m == mode::SVC {
        1
    } else if m == mode::ABT {
        2
    } else if m == mode::UND {
        3
    } else if m == mode::IRQ {
        4
    } else {
        5
    }
}

/// The slot of the SPSR of mode `m`. The user modes have none, and are given
/// the first.
pub open spec fn spsr_slot(m: u32) -> int {
    if bank_of(m) < 5 {
        bank_of(m)
    } else {
        0
    }
}

fn spsr_index(m: u32) -> (r: usize)
    ensures
        r == spsr_slot(m),
        r < 5,
{
    let bank: usize = bank_index(m);
    if bank < 5 {
        bank
    } else {
        0
    }
}

fn bank_index(m: u32) -> (r: usize)
    ensures
        r == bank_of(m),
        r < 6,
{
    match m {
        mode::FIQ => 0,
        mode::SVC => 1,
        mode::ABT => 2,
        mode::UND => 3,
        mode::IRQ => 4,
        _ => 5,
    }
}

impl Cpu {
    /// At reset: SVC mode with interrupts masked.
    pub open spec fn initial() -> Cpu {
        Cpu {
            regs: filled(0),
            pc: 0,
            cpsr: mode::SVC | flag::F | flag::I,
            base_r8_12: filled(0),
            fiq_r8_12: filled(0),
            sp: filled(0),
            lr: filled(0),
            spsr: filled(0),
            cycles: 0,
            halted: false,
            bios_wait: None,
            bios_wait_pc: 0,
            bios_call: None,
            has_bios: false,
        }
    }

    pub open spec fn thumb(self) -> bool {
        self.cpsr & flag::T != 0
    }

    pub open spec fn carry(self) -> bool {
        self.cpsr & flag::C != 0
    }

    pub open spec fn overflow(self) -> bool {
        self.cpsr & flag::V != 0
    }

    pub open spec fn mode_bits(self) -> u32 {
        self.cpsr & 0x1F
    }

    /// Whether the mode has an SPSR of its own.
    pub open spec fn privileged(self) -> bool {
        self.mode_bits() != mode::USR && self.mode_bits() != 0x1F
    }

    /// The value of register `n`; r15 reads two instructions ahead.
    pub open spec fn value(self, n: u32) -> u32 {
        if n == 15 {
            if self.thumb() {
                u32_specs::wrapping_add(self.pc, 2)
            } else {
                u32_specs::wrapping_add(self.pc, 4)
            }
        } else {
            self.regs[n as int]
        }
    }

    /// A jump to `value`, aligned for the current state.
    pub open spec fn branched(self, value: u32) -> Cpu {
        Cpu {
            pc: if self.thumb() {
                value & !1u32
            } else {
                value & !3u32
            },
            ..self
        }
    }

    /// Register `n` set to `value`; r15 is a jump.
    pub open spec fn with_value(self, n: u32, value: u32) -> Cpu {
        if n == 15 {
            self.branched(value)
        } else {
            Cpu { regs: put(self.regs, n as int, value), ..self }
        }
    }

    pub open spec fn with_cycles(self, n: u32) -> Cpu {
        Cpu { cycles: u32_specs::wrapping_add(self.cycles, n), ..self }
    }

    /// A jump that selects the state by bit 0 of the target.
    pub open spec fn exchanged(self, value: u32) -> Cpu {
        if value & 1 != 0 {
            Cpu { cpsr: self.cpsr | flag::T, pc: value & !1u32, ..self }
        } else {
            Cpu { cpsr: self.cpsr & !flag::T, pc: value & !3u32, ..self }
        }
    }

    /// The registers of the outgoing mode put away in their bank.
    pub open spec fn bank_saved(self) -> Cpu {
        let old_mode = self.mode_bits();
        let middle = [self.regs[8], self.regs[9], self.regs[10], self.regs[11], self.regs[12]];
        Cpu {
            fiq_r8_12: if old_mode == mode::FIQ {
                middle
            } else {
                self.fiq_r8_12
            },
            base_r8_12: if old_mode == mode::FIQ {
                self.base_r8_12
            } else {
                middle
            },
            sp: put(self.sp, bank_of(old_mode), self.regs[13]),
            lr: put(self.lr, bank_of(old_mode), self.regs[14]),
            ..self
        }
    }

    /// The registers of mode `new_mode` taken from their bank.
    pub open spec fn bank_loaded(self, new_mode: u32) -> Cpu {
        let middle = if new_mode == mode::FIQ {
            self.fiq_r8_12
        } else {
            self.base_r8_12
        };
        let r = put(
            put(put(put(put(self.regs, 8, middle[0]), 9, middle[1]), 10, middle[2]), 11, middle[3]),
            12,
            middle[4],
        );
        Cpu {
            regs: put(
                put(r, 13, self.sp[bank_of(new_mode)]),
                14,
                self.lr[bank_of(new_mode)],
            ),
            ..self
        }
    }

    /// The registers of mode `new_mode` switched in.
    #[verifier::opaque]
    pub open spec fn in_mode(self, new_mode: u32) -> Cpu {
        if self.mode_bits() == new_mode {
            self
        } else {
            self.bank_saved().bank_loaded(new_mode)
        }
    }

    /// The CPSR set to `value`, with the registers of its mode.
    pub open spec fn with_cpsr(self, value: u32) -> Cpu {
        Cpu { cpsr: value, ..self.in_mode(value & 0x1F) }
    }

    /// An exception taken to `vector` in mode `m`: the return address in LR,
    /// the old CPSR in SPSR, ARM state, interrupts masked.
    #[verifier::opaque]
    pub open spec fn excepted(self, vector: u32, m: u32, lr_value: u32, disable_fiq: bool) -> Cpu {
        let c = self.in_mode(m);
        let quiet = (c.cpsr & !flag::T) | flag::I;
        let masked = if disable_fiq {
            quiet | flag::F
        } else {
            quiet
        };
        Cpu {
            lr: put(c.lr, bank_of(m), lr_value),
            regs: put(c.regs, 14, lr_value),
            spsr: put(c.spsr, spsr_slot(m), c.cpsr),
            cpsr: (masked & !0x1Fu32) | m,
            pc: vector,
            ..c
        }
    }

    /// A software interrupt: a BIOS routine that is emulated is recorded for
    /// the system, anything else takes the exception.
    pub open spec fn interrupted(self, num: u32) -> Cpu {
        if !self.has_bios && known_swi(num) {
            Cpu { bios_call: Some(num), ..self }
        } else {
            self.excepted(VECTOR_SWI, mode::SVC, self.pc, false)
        }
    }

    /// The SPSR of the bank of `m`.
    pub open spec fn spsr_of(self, m: u32) -> u32 {
        self.spsr[spsr_slot(m)]
    }

    pub open spec fn with_spsr(self, m: u32, value: u32) -> Cpu {
        Cpu { spsr: put(self.spsr, spsr_slot(m), value), ..self }
    }

    /// Whether register `n` of the user bank is in the working registers now.
    pub open spec fn user_live(self, n: u32) -> bool {
        n < 8 || (if n < 13 {
            self.mode_bits() != mode::FIQ
        } else {
            bank_of(self.mode_bits()) == bank_of(mode::USR)
        })
    }

    /// A register of the user bank, as `LDM^`/`STM^` see it.
    pub open spec fn user_value(self, n: u32) -> u32 {
        if n >= 14 {
            if self.user_live(14) {
                self.regs[14]
            } else {
                self.lr[bank_of(mode::USR)]
            }
        } else if self.user_live(n) {
            self.regs[n as int]
        } else if n < 13 {
            self.base_r8_12[n - 8]
        } else {
            self.sp[bank_of(mode::USR)]
        }
    }

    pub open spec fn with_user_value(self, n: u32, v: u32) -> Cpu {
        if n >= 14 {
            if self.user_live(14) {
                Cpu { regs: put(self.regs, 14, v), ..self }
            } else {
                Cpu { lr: put(self.lr, bank_of(mode::USR), v), ..self }
            }
        } else if self.user_live(n) {
            Cpu { regs: put(self.regs, n as int, v), ..self }
        } else if n < 13 {
            Cpu { base_r8_12: put(self.base_r8_12, n - 8, v), ..self }
        } else {
            Cpu { sp: put(self.sp, bank_of(mode::USR), v), ..self }
        }
    }

    pub fn new() -> (r: Cpu)
        ensures
            r == Cpu::initial(),
    {
        Cpu {
            regs: [0; 16],
            pc: 0,
            cpsr: mode::SVC | flag::F | flag::I,
            base_r8_12: [0; 5],
            fiq_r8_12: [0; 5],
            sp: [0; 6],
            lr: [0; 6],
            spsr: [0; 5],
            cycles: 0,
            halted: false,
            bios_wait: None,
            bios_wait_pc: 0,
            bios_call: None,
            has_bios: false,
        }
    }

    /// Enable / disable real-BIOS SWI/exception handling.
    pub fn set_has_bios(&mut self, on: bool)
        ensures
            *final(self) == (Cpu { has_bios: on, ..*old(self) }),
    {
        self.has_bios = on;
    }

    /// Count `n` more cycles of the current instruction, modulo 2^32.
    pub fn add_cycles(&mut self, n: u32)
        ensures
            *final(self) == old(self).with_cycles(n),
    {
        self.cycles = self.cycles.wrapping_add(n);
    }

    pub fn cpsr(&self) -> (r: u32)
        ensures
            r == self.cpsr,
    {
        self.cpsr
    }

    pub fn set_cpsr(&mut self, value: u32)
        ensures
            *final(self) == old(self).with_cpsr(value),
    {
        self.change_mode(value & 0x1F);
        self.cpsr = value;
    }

    pub fn pc(&self) -> (r: u32)
        ensures
            r == self.pc,
    {
        self.pc
    }

    /// Jump without a change of state: bit 0 is dropped.
    pub fn set_pc(&mut self, value: u32)
        ensures
            *final(self) == (Cpu { pc: value & !1u32, ..*old(self) }),
    {
        self.pc = value & !1u32;
    }

    /// Read a general register (r0-r14). r15 is synthesized: the stored `pc`
    /// holds the *next* fetch address, so reading r15 yields `pc+4` (Thumb) or
    /// `pc+8` (ARM), i.e. the current instruction address + 4/+8.
    pub fn reg(&self, n: u32) -> (r: u32)
        requires
            n < 16,
        ensures
            r == self.value(n),
    {
        if n == 15 {
            if self.cpsr & flag::T != 0 {
                self.pc.wrapping_add(2)
            } else {
                self.pc.wrapping_add(4)
            }
        } else {
            self.regs[n as usize]
        }
    }

    /// Write a general register. Writing r15 is a branch.
    pub fn set_reg(&mut self, n: u32, value: u32)
        requires
            n < 16,
        ensures
            *final(self) == old(self).with_value(n, value),
    {
        if n == 15 {
            self.branch(value);
        } else {
            self.regs[n as usize] = value;
        }
    }

    /// Direct read of r15 (actual address, not +8/+4), used by the decoders.
    pub fn raw_pc(&self) -> (r: u32)
        ensures
            r == self.pc,
    {
        self.pc
    }

    /// Branch: clear the bottom bits according to the state.
    pub fn branch(&mut self, value: u32)
        ensures
            *final(self) == old(self).branched(value),
    {
        self.pc = if self.cpsr & flag::T != 0 {
            value & !1u32
        } else {
            value & !3u32
        };
    }

    /// `BX`: branch with possible switch to Thumb mode (value bit 0).
    pub fn bx(&mut self, value: u32)
        ensures
            *final(self) == old(self).exchanged(value),
    {
        // The target is aligned for the *new* state (halfword for Thumb, word
        // for ARM), not the one we are leaving.
        if value & 1 != 0 {
            self.cpsr = self.cpsr | flag::T;
            self.pc = value & !1u32;
        } else {
            self.cpsr = self.cpsr & !flag::T;
            self.pc = value & !3u32;
        }
    }

    /// Register read with no PC-synthesis, used internally.
    pub fn reg_raw(&self, n: u32) -> (r: u32)
        requires
            n < 16,
        ensures
            r == self.regs[n as int],
    {
        self.regs[n as usize]
    }

    fn save_bank(&mut self)
        ensures
            *final(self) == old(self).bank_saved(),
    {
        let old_mode: u32 = self.cpsr & 0x1F;
        let middle: [u32; 5] = [
            self.regs[8],
            self.regs[9],
            self.regs[10],
            self.regs[11],
            self.regs[12],
        ];
        if old_mode == mode::FIQ {
            self.fiq_r8_12 = middle;
        } else {
            self.base_r8_12 = middle;
        }
        let idx: usize = bank_index(old_mode);
        self.sp[idx] = self.regs[13];
        self.lr[idx] = self.regs[14];
        proof {
            assert(middle =~= [
                old(self).regs[8],
                old(self).regs[9],
                old(self).regs[10],
                old(self).regs[11],
                old(self).regs[12],
            ]);
        }
    }

    fn load_bank(&mut self, new_mode: u32)
        ensures
            *final(self) == old(self).bank_loaded(new_mode),
    {
        let middle: [u32; 5] = if new_mode == mode::FIQ {
            self.fiq_r8_12
        } else {
            self.base_r8_12
        };
        let idx: usize = bank_index(new_mode);
        self.regs[8] = middle[0];
        self.regs[9] = middle[1];
        self.regs[10] = middle[2];
        self.regs[11] = middle[3];
        self.regs[12] = middle[4];
        self.regs[13] = self.sp[idx];
        self.regs[14] = self.lr[idx];
    }

    /// Switch the active mode, banking r8-r14 as required.
    fn change_mode(&mut self, new_mode: u32)
        ensures
            *final(self) == old(self).in_mode(new_mode),
    {
        reveal(Cpu::in_mode);
        if self.cpsr & 0x1F == new_mode {
            return;
        }
        self.save_bank();
        self.load_bank(new_mode);
    }

    /// Return a copy of the current (non-PC) registers. Used for tests.
    pub fn dump_regs(&self) -> (r: [u32; 16])
        ensures
            r == put(self.regs, 15, self.pc),
    {
        let mut r: [u32; 16] = self.regs;
        r[15] = self.pc;
        r
    }

    /// Stack pointer of the current mode (diagnostics).
    pub fn sp_raw(&self) -> (r: u32)
        ensures
            r == self.regs[13],
    {
        self.regs[13]
    }

    /// Set the banked SP of a non-user mode. Used by the skip-BIOS boot path
    /// to give the exception modes the stacks the BIOS would have set up
    /// (GBATEK: SP_irq=03007FA0h, SP_svc=03007FE0h, SP_usr=03007F00h).
    pub fn set_mode_sp(&mut self, m: u32, value: u32)
        ensures
            *final(self) == if m == old(self).mode_bits() {
                Cpu { regs: put(old(self).regs, 13, value), ..*old(self) }
            } else {
                Cpu { sp: put(old(self).sp, bank_of(m), value), ..*old(self) }
            },
    {
        if m == self.cpsr & 0x1F {
            self.regs[13] = value;
        } else {
            let idx: usize = bank_index(m);
            self.sp[idx] = value;
        }
    }

    /// Enter an exception. Sets LR, SPSR, mode and PC, disabling the
    /// appropriate interrupts. `lr_value` is the link address to store.
    pub fn take_exception(&mut self, vector: u32, m: u32, lr_value: u32, disable_fiq: bool)
        ensures
            *final(self) == old(self).excepted(vector, m, lr_value, disable_fiq),
    {
        reveal(Cpu::excepted);
        self.change_mode(m);
        let idx: usize = bank_index(m);
        let slot: usize = spsr_index(m);
        let before: u32 = self.cpsr;
        self.lr[idx] = lr_value;
        self.regs[14] = lr_value;
        self.spsr[slot] = before;
        let quiet: u32 = (before & !flag::T) | flag::I;
        let masked: u32 = if disable_fiq {
            quiet | flag::F
        } else {
            quiet
        };
        self.cpsr = (masked & !0x1Fu32) | m;
        self.pc = vector;
    }

    /// SWI exception (called by both ARM and Thumb SWI decoders).
    pub fn swi(&mut self, lr_value: u32)
        ensures
            *final(self) == old(self).excepted(VECTOR_SWI, mode::SVC, lr_value, false),
    {
        self.take_exception(VECTOR_SWI, mode::SVC, lr_value, false);
    }

    /// Record a BIOS SWI to be dispatched by the system after the instruction
    /// finishes. The PC is already past the SWI, so a handled call returns
    /// directly to the next instruction.
    pub fn swi_bios(&mut self, num: u32)
        ensures
            *final(self) == (Cpu { bios_call: Some(num), ..*old(self) }),
    {
        self.bios_call = Some(num);
    }

    /// Carry out the software interrupt `num`.
    pub(crate) fn software_interrupt(&mut self, num: u32)
        ensures
            *final(self) == old(self).interrupted(num),
    {
        if !self.has_bios && is_known(num) {
            self.swi_bios(num);
        } else {
            let pc: u32 = self.pc;
            self.swi(pc);
        }
    }

    /// Take the recorded BIOS SWI number, clearing the pending flag.
    pub fn take_bios_call(&mut self) -> (r: Option<u32>)
        ensures
            r == old(self).bios_call,
            *final(self) == (Cpu { bios_call: None, ..*old(self) }),
    {
        let call: Option<u32> = self.bios_call;
        self.bios_call = None;
        call
    }

    /// Start an HLE IntrWait: the CPU idles until one of the `mask` IRQ flags
    /// is raised.
    pub fn begin_bios_wait(&mut self, mask: u16)
        ensures
            *final(self) == (Cpu {
                bios_wait: Some(mask),
                bios_wait_pc: old(self).pc,
                ..*old(self)
            }),
    {
        self.bios_wait = Some(mask);
        self.bios_wait_pc = self.pc;
    }

    /// The IRQ mask an HLE IntrWait is currently waiting for, if any.
    pub fn bios_wait_mask(&self) -> (r: Option<u16>)
        ensures
            r == self.bios_wait,
    {
        self.bios_wait
    }

    /// Whether a wait is in progress and execution is back at it, rather than
    /// in an interrupt handler.
    pub open spec fn waiting_here(self) -> bool {
        self.bios_wait is Some && self.pc == self.bios_wait_pc
    }

    pub fn at_bios_wait(&self) -> (r: bool)
        ensures
            r == self.waiting_here(),
    {
        self.bios_wait.is_some() && self.pc == self.bios_wait_pc
    }

    /// Finish the HLE IntrWait in progress.
    pub fn complete_bios_wait(&mut self)
        ensures
            *final(self) == (Cpu { bios_wait: None, ..*old(self) }),
    {
        self.bios_wait = None;
    }

    /// IRQ exception.
    pub fn irq(&mut self, lr_value: u32)
        ensures
            *final(self) == old(self).excepted(VECTOR_IRQ, mode::IRQ, lr_value, false),
    {
        self.take_exception(VECTOR_IRQ, mode::IRQ, lr_value, false);
    }

    /// FIQ exception.
    pub fn fiq(&mut self, lr_value: u32)
        ensures
            *final(self) == old(self).excepted(VECTOR_FIQ, mode::FIQ, lr_value, true),
    {
        self.take_exception(VECTOR_FIQ, mode::FIQ, lr_value, true);
    }

    /// Direct register write used by exception return paths (MRS/MSR/LDM^).
    pub fn set_spsr(&mut self, m: u32, value: u32)
        ensures
            *final(self) == old(self).with_spsr(m, value),
    {
        let idx: usize = spsr_index(m);
        self.spsr[idx] = value;
    }

    pub fn get_spsr(&self, m: u32) -> (r: u32)
        ensures
            r == self.spsr_of(m),
    {
        self.spsr[spsr_index(m)]
    }

    fn is_user_live(&self, n: u32) -> (r: bool)
        ensures
            r == self.user_live(n),
    {
        let m: u32 = self.cpsr & 0x1F;
        n < 8 || (if n < 13 {
            m != mode::FIQ
        } else {
            bank_index(m) == 5
        })
    }

    /// Read a register from the user (SYS) bank, used by `LDM^`/`STM^`.
    pub fn usr_reg(&self, n: u32) -> (r: u32)
        ensures
            r == self.user_value(n),
    {
        let n: u32 = if n < 14 {
            n
        } else {
            14
        };
        if self.is_user_live(n) {
            self.regs[n as usize]
        } else if n < 13 {
            self.base_r8_12[(n - 8) as usize]
        } else if n == 13 {
            self.sp[5]
        } else {
            self.lr[5]
        }
    }

    /// Write a register into the user (SYS) bank, used by `LDM^`/`STM^`.
    pub fn set_usr_reg(&mut self, n: u32, v: u32)
        ensures
            *final(self) == old(self).with_user_value(n, v),
    {
        let n: u32 = if n < 14 {
            n
        } else {
            14
        };
        if self.is_user_live(n) {
            self.regs[n as usize] = v;
        } else if n < 13 {
            self.base_r8_12[(n - 8) as usize] = v;
        } else if n == 13 {
            self.sp[5] = v;
        } else {
            self.lr[5] = v;
        }
    }

    /// Whether IRQ is masked.
    pub fn irq_masked(&self) -> (r: bool)
        ensures
            r == (self.cpsr & flag::I != 0),
    {
        self.cpsr & flag::I != 0
    }

    /// Whether FIQ is masked.
    pub fn fiq_masked(&self) -> (r: bool)
        ensures
            r == (self.cpsr & flag::F != 0),
    {
        self.cpsr & flag::F != 0
    }

    pub fn in_thumb(&self) -> (r: bool)
        ensures
            r == self.thumb(),
    {
        self.cpsr & flag::T != 0
    }
}

impl<B: Bus> Core<B> {
    /// The machine with its bus ready.
    pub open spec fn wf(self) -> bool {
        self.bus.ready()
    }

    pub open spec fn with_cpu(self, cpu: Cpu) -> Core<B> {
        Core { cpu, ..self }
    }

    /// One instruction: a halted CPU idles for a cycle, otherwise the word or
    /// halfword at PC is fetched and carried out.
    pub open spec fn executed(self) -> Core<B> {
        let c = Cpu { cycles: 0, ..self.cpu };
        if c.halted {
            self.with_cpu(c.with_cycles(1))
        } else if c.thumb() {
            let (bus, inst) = self.bus.after_read16(c.pc);
            let cpu = Cpu { pc: u32_specs::wrapping_add(c.pc, 2), ..c }.with_cycles(1);
            thumb::executed(Core { cpu, bus }, inst)
        } else {
            let (bus, inst) = self.bus.after_read32(c.pc);
            let cpu = Cpu { pc: u32_specs::wrapping_add(c.pc, 4), ..c }.with_cycles(1);
            arm::executed(Core { cpu, bus }, inst)
        }
    }
}

/// The machine that `cpu` and `bus` make.
pub open spec fn core_of<B>(cpu: Cpu, bus: B) -> Core<B> {
    Core { cpu, bus }
}

impl Cpu {
    /// Execute a single instruction, returning the cycles consumed. The
    /// instruction is fetched from `self.pc`; the mode (ARM/Thumb) is taken
    /// from the CPSR `T` flag.
    pub fn execute<B: Bus>(&mut self, bus: &mut B) -> (r: u32)
        requires
            old(bus).ready(),
        ensures
            final(bus).ready(),
            core_of(*final(self), *final(bus)) == core_of(*old(self), *old(bus)).executed(),
            r == final(self).cycles,
    {
        self.cycles = 0;
        if self.halted {
            self.add_cycles(1);
            return self.cycles;
        }
        let pc: u32 = self.pc;
        if self.cpsr & flag::T != 0 {
            let inst: u32 = bus.read16(pc);
            self.pc = pc.wrapping_add(2);
            self.add_cycles(1);
            thumb::execute(self, bus, inst);
        } else {
            let inst: u32 = bus.read32(pc);
            self.pc = pc.wrapping_add(4);
            self.add_cycles(1);
            arm::execute(self, bus, inst);
        }
        self.cycles
    }
}

/// The bank that slot `i` of a snapshot taken in mode `m` holds. The registers
/// of the current bank are at work, so that five slots are enough: outside the
/// user modes the user bank has the first slot, and FIQ's bank that of the
/// current mode.
pub open spec fn slot_bank(m: u32, i: int) -> int {
    if bank_of(m) == 5 {
        i
    } else if i == 0 {
        5
    } else if i == bank_of(m) {
        0
    } else {
        i
    }
}

/// The banks `b` in the slots of a snapshot taken in mode `m`.
pub open spec fn slots(b: [u32; 6], m: u32) -> [u32; 5] {
    [
        b[slot_bank(m, 0)],
        b[slot_bank(m, 1)],
        b[slot_bank(m, 2)],
        b[slot_bank(m, 3)],
        b[slot_bank(m, 4)],
    ]
}

/// Bank `b` of a snapshot with the slots `s`, taken in mode `m` while the
/// register was `live`.
pub open spec fn bank_in(s: [u32; 5], m: u32, live: u32, b: int) -> u32 {
    if b == bank_of(m) {
        live
    } else if bank_of(m) == 5 {
        s[b]
    } else if b == 5 {
        s[0]
    } else if b == 0 {
        s[bank_of(m)]
    } else {
        s[b]
    }
}

/// The banks of a snapshot.
pub open spec fn banks(s: [u32; 5], m: u32, live: u32) -> [u32; 6] {
    [
        bank_in(s, m, live, 0),
        bank_in(s, m, live, 1),
        bank_in(s, m, live, 2),
        bank_in(s, m, live, 3),
        bank_in(s, m, live, 4),
        bank_in(s, m, live, 5),
    ]
}

fn to_slots(b: &[u32; 6], m: u32) -> (r: [u32; 5])
    ensures
        r == slots(*b, m),
{
    let mut r: [u32; 5] = [b[0], b[1], b[2], b[3], b[4]];
    let current: usize = bank_index(m);
    if current != 5 {
        r[current] = b[0];
        r[0] = b[5];
    }
    assert(r =~= slots(*b, m));
    r
}

fn to_banks(s: &[u32; 5], m: u32, live: u32) -> (r: [u32; 6])
    ensures
        r == banks(*s, m, live),
{
    let mut r: [u32; 6] = [s[0], s[1], s[2], s[3], s[4], live];
    let current: usize = bank_index(m);
    if current != 5 {
        r[0] = s[current];
        r[5] = s[0];
        r[current] = live;
    }
    assert(r =~= banks(*s, m, live));
    r
}

/// Plain snapshot of the CPU state for save states.
#[derive(Clone, Copy, PartialEq, Eq, Debug)]
pub struct CpuSave {
    pub regs: [u32; 16],
    pub pc: u32,
    pub cpsr: u32,
    pub base_r8_12: [u32; 5],
    pub fiq_r8_12: [u32; 5],
    pub sp: [u32; 5],
    pub lr: [u32; 5],
    pub spsr: [u32; 5],
    pub cycles: u32,
    pub halted: bool,
    pub bios_wait: Option<u16>,
}

impl Cpu {
    pub open spec fn saved(self) -> CpuSave {
        CpuSave {
            regs: self.regs,
            pc: self.pc,
            cpsr: self.cpsr,
            base_r8_12: self.base_r8_12,
            fiq_r8_12: self.fiq_r8_12,
            sp: slots(self.sp, self.mode_bits()),
            lr: slots(self.lr, self.mode_bits()),
            spsr: self.spsr,
            cycles: self.cycles,
            halted: self.halted,
            bios_wait: self.bios_wait,
        }
    }

    pub fn save(&self) -> (r: CpuSave)
        ensures
            r == self.saved(),
    {
        let m: u32 = self.cpsr & 0x1F;
        CpuSave {
            regs: self.regs,
            pc: self.pc,
            cpsr: self.cpsr,
            base_r8_12: self.base_r8_12,
            fiq_r8_12: self.fiq_r8_12,
            sp: to_slots(&self.sp, m),
            lr: to_slots(&self.lr, m),
            spsr: self.spsr,
            cycles: self.cycles,
            halted: self.halted,
            bios_wait: self.bios_wait,
        }
    }

    /// The state of a snapshot. A wait in progress is resumed where the
    /// snapshot stands, and a recorded BIOS call is dropped.
    pub open spec fn restored(self, s: CpuSave) -> Cpu {
        Cpu {
            regs: s.regs,
            pc: s.pc,
            cpsr: s.cpsr,
            base_r8_12: s.base_r8_12,
            fiq_r8_12: s.fiq_r8_12,
            sp: banks(s.sp, s.cpsr & 0x1F, s.regs[13]),
            lr: banks(s.lr, s.cpsr & 0x1F, s.regs[14]),
            spsr: s.spsr,
            cycles: s.cycles,
            halted: s.halted,
            bios_wait: s.bios_wait,
            bios_wait_pc: s.pc,
            bios_call: None,
            has_bios: self.has_bios,
        }
    }

    pub fn restore(&mut self, s: CpuSave)
        ensures
            *final(self) == old(self).restored(s),
    {
        let m: u32 = s.cpsr & 0x1F;
        self.regs = s.regs;
        self.pc = s.pc;
        self.cpsr = s.cpsr;
        self.base_r8_12 = s.base_r8_12;
        self.fiq_r8_12 = s.fiq_r8_12;
        self.sp = to_banks(&s.sp, m, s.regs[13]);
        self.lr = to_banks(&s.lr, m, s.regs[14]);
        self.spsr = s.spsr;
        self.cycles = s.cycles;
        self.halted = s.halted;
        self.bios_wait = s.bios_wait;
        self.bios_wait_pc = s.pc;
        self.bios_call = None;
    }
}

/// A snapshot keeps the whole register file: every register of the current
/// mode, every bank of the others, and every register of any mode that is
/// switched to afterwards. Taken again it is the same.
pub proof fn law_snapshot(t: Cpu, c: Cpu)
    ensures
        ({
            let r = t.restored(c.saved());
            &&& r.saved() == c.saved()
            &&& r.regs == c.regs && r.pc == c.pc && r.cpsr == c.cpsr && r.spsr == c.spsr
            &&& forall|b: int|
                0 <= b < 6 && b != bank_of(c.mode_bits()) ==> #[trigger] r.sp[b] == c.sp[b]
                    && r.lr[b] == c.lr[b]
            &&& forall|m: u32| (#[trigger] r.in_mode(m)).regs == c.in_mode(m).regs
        }),
{
    let r = t.restored(c.saved());
    assert(r.saved().sp =~= c.saved().sp);
    assert(r.saved().lr =~= c.saved().lr);
    assert forall|m: u32| (#[trigger] r.in_mode(m)).regs == c.in_mode(m).regs by {
        reveal(Cpu::in_mode);
        assert(r.in_mode(m).regs =~= c.in_mode(m).regs);
    }
}

impl Default for Cpu {
    fn default() -> (r: Cpu)
        ensures
            r == Cpu::initial(),
    {
        Cpu::new()
    }
}

/// Leaving a mode and coming back finds every register as it was, whatever the
/// other mode's bank held.
pub proof fn law_mode_switch_keeps_registers(cpu: Cpu, other: u32)
    requires
        other & 0x1F == other,
    ensures
        ({
            let back = cpu.with_cpsr(other).with_cpsr(cpu.cpsr);
            back.regs == cpu.regs && back.cpsr == cpu.cpsr && back.pc == cpu.pc
        }),
{
    reveal(Cpu::in_mode);
    let there = cpu.with_cpsr(other);
    let back = there.with_cpsr(cpu.cpsr);
    assert(back.regs =~= cpu.regs);
}

/// What the user bank holds: a register set in a user mode is what the bank
/// gives in every mode afterwards, and what it takes in another mode is found
/// there on return.
pub proof fn law_user_bank(cpu: Cpu, n: u32, v: u32, other: u32)
    requires
        n < 15,
        bank_of(cpu.mode_bits()) == bank_of(mode::USR),
        other & 0x1F == other,
    ensures
        cpu.with_value(n, v).user_value(n) == v,
        cpu.with_value(n, v).with_cpsr(other).user_value(n) == v,
        cpu.with_cpsr(other).with_user_value(n, v).with_cpsr(cpu.cpsr).regs[n as int] == v,
{
    reveal(Cpu::in_mode);
}

/// An exception keeps the interrupted CPSR in the mode's SPSR and the return
/// address in its link register, and runs in ARM state with IRQs masked.
pub proof fn law_exception_entry(cpu: Cpu, vector: u32, m: u32, lr_value: u32, disable_fiq: bool)
    requires
        m & 0x1F == m,
    ensures
        ({
            let e = cpu.excepted(vector, m, lr_value, disable_fiq);
            &&& e.spsr_of(m) == cpu.cpsr
            &&& e.regs[14] == lr_value
            &&& e.lr[bank_of(m)] == lr_value
            &&& e.pc == vector
            &&& e.mode_bits() == m
            &&& !e.thumb()
            &&& e.cpsr & flag::I != 0
        }),
{
    reveal(Cpu::excepted);
    reveal(Cpu::in_mode);
    let c = cpu.in_mode(m);
    let p = c.cpsr;
    let quiet = (p & !flag::T) | flag::I;
    assert(((quiet & !0x1Fu32) | m) & 0x1F == m && ((quiet & !0x1Fu32) | m) & 0x20 == 0 && ((quiet
        & !0x1Fu32) | m) & 0x80 != 0 && (((quiet | 0x40) & !0x1Fu32) | m) & 0x1F == m && (((quiet
        | 0x40) & !0x1Fu32) | m) & 0x20 == 0 && (((quiet | 0x40) & !0x1Fu32) | m) & 0x80 != 0)
        by (bit_vector)
        requires
            m & 0x1F == m,
            quiet == (p & !0x20u32) | 0x80,
    ;
}

} // verus!

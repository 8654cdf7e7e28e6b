//! The SM83 CPU.
//!
//! Instructions are decoded by the fields of the opcode: `x` (bits 6-7), `y`
//! (bits 3-5) and `z` (bits 0-2). Every memory access and internal delay
//! advances the bus by one M-cycle (4 T-cycles), so devices see each access at
//! its true time.

use crate::bits::put;
use crate::gb::bus::{Bus, BusState};
use crate::gb::cycles::{instruction_cycles, law_decoder_cycles};
use vstd::prelude::*;
use vstd::wrapping::{u16_specs, u32_specs, u64_specs, u8_specs};

verus! {

#[derive(Clone, Copy, PartialEq, Eq, Structural, Debug)]
pub struct Cpu {
    pub a: u8,
    pub f: u8,
    pub b: u8,
    pub c: u8,
    pub d: u8,
    pub e: u8,
    pub h: u8,
    pub l: u8,
    pub sp: u16,
    pub pc: u16,
    pub ime: bool,
    pub ei_pending: bool,
    /// Set when `ld b,b` executes; test ROMs use the opcode as a breakpoint.
    pub breakpoint: bool,
    /// T-cycles the bus was advanced during the current instruction.
    pub ticked: u32,
    pub halted: bool,
    pub stopped: bool,
    pub halt_bug: bool,
    /// Timer interrupts taken, modulo 2^64.
    pub timer_interrupts: u64,
}

/// The CPU and the machine around it.
pub struct Machine {
    pub cpu: Cpu,
    pub bus: BusState,
}

/// The word with the bytes `hi` and `lo`.
pub open spec fn word(hi: u8, lo: u8) -> u16 {
    (hi * 256 + lo) as u16
}

/// `f` with the flag bits of `mask` set or cleared.
pub open spec fn with_flag(f: u8, mask: u8, v: bool) -> u8 {
    (f & !mask) | (if v {
        mask
    } else {
        0
    })
}

/// `f` with all four condition flags given.
pub open spec fn with_flags(f: u8, z: bool, n: bool, h: bool, c: bool) -> u8 {
    with_flag(with_flag(with_flag(with_flag(f, 0x80, z), 0x40, n), 0x20, h), 0x10, c)
}

/// The address `n`, a signed byte, away from `base`.
pub open spec fn displaced(base: u16, n: u8) -> u16 {
    ((base + (if n < 128 {
        n as int
    } else {
        n - 256
    })) % 0x1_0000) as u16
}

/// 1 for a set bit, 0 for a clear one.
pub open spec fn bit(v: bool) -> u8 {
    if v {
        1
    } else {
        0
    }
}

fn flag_set(f: u8, mask: u8, v: bool) -> (r: u8)
    ensures
        r == with_flag(f, mask, v),
{
    (f & !mask) | (if v {
        mask
    } else {
        0
    })
}

fn flags_set(f: u8, z: bool, n: bool, h: bool, c: bool) -> (r: u8)
    ensures
        r == with_flags(f, z, n, h, c),
{
    let f1: u8 = flag_set(f, 0x80, z);
    let f2: u8 = flag_set(f1, 0x40, n);
    let f3: u8 = flag_set(f2, 0x20, h);
    flag_set(f3, 0x10, c)
}

fn displace(base: u16, n: u8) -> (r: u16)
    ensures
        r == displaced(base, n),
{
    if n < 128 {
        base.wrapping_add(n as u16)
    } else {
        base.wrapping_add(n as u16 + 0xFF00)
    }
}

/// The result and carry-out of the CB rotations and shifts, by number: RLC,
/// RRC, RL, RR, SLA, SRA, SWAP, SRL.
pub open spec fn rotated(op: u8, v: u8, carry: bool) -> (u8, bool) {
    if op == 0 {
        (((v % 128) * 2 + v / 128) as u8, v >= 128)
    } else if op == 1 {
        ((v / 2 + (v % 2) * 128) as u8, v % 2 == 1)
    } else if op == 2 {
        (((v % 128) * 2 + bit(carry)) as u8, v >= 128)
    } else if op == 3 {
        ((v / 2 + bit(carry) * 128) as u8, v % 2 == 1)
    } else if op == 4 {
        (((v % 128) * 2) as u8, v >= 128)
    } else if op == 5 {
        ((v / 2 + (v / 128) * 128) as u8, v % 2 == 1)
    } else if op == 6 {
        (((v % 16) * 16 + v / 16) as u8, false)
    } else {
        (v / 2, v % 2 == 1)
    }
}

fn rotate(op: u8, v: u8, carry: bool) -> (r: (u8, bool))
    ensures
        r == rotated(op, v, carry),
{
    let c: u8 = if carry {
        1
    } else {
        0
    };
    match op {
        0 => ((v % 128) * 2 + v / 128, v >= 128),
        1 => (v / 2 + (v % 2) * 128, v % 2 == 1),
        2 => ((v % 128) * 2 + c, v >= 128),
        3 => (v / 2 + c * 128, v % 2 == 1),
        4 => ((v % 128) * 2, v >= 128),
        5 => (v / 2 + (v / 128) * 128, v % 2 == 1),
        6 => ((v % 16) * 16 + v / 16, false),
        _ => (v / 2, v % 2 == 1),
    }
}

impl Cpu {
    pub open spec fn flag_z(self) -> bool {
        self.f & 0x80 != 0
    }

    pub open spec fn flag_n(self) -> bool {
        self.f & 0x40 != 0
    }

    pub open spec fn flag_h(self) -> bool {
        self.f & 0x20 != 0
    }

    pub open spec fn flag_c(self) -> bool {
        self.f & 0x10 != 0
    }

    /// Register `i` in the order B, C, D, E, H, L, (HL), A.
    pub open spec fn reg(self, i: u8) -> u8 {
        if i == 0 {
            self.b
        } else if i == 1 {
            self.c
        } else if i == 2 {
            self.d
        } else if i == 3 {
            self.e
        } else if i == 4 {
            self.h
        } else if i == 5 {
            self.l
        } else {
            self.a
        }
    }

    pub open spec fn with_reg(self, i: u8, v: u8) -> Cpu {
        if i == 0 {
            Cpu { b: v, ..self }
        } else if i == 1 {
            Cpu { c: v, ..self }
        } else if i == 2 {
            Cpu { d: v, ..self }
        } else if i == 3 {
            Cpu { e: v, ..self }
        } else if i == 4 {
            Cpu { h: v, ..self }
        } else if i == 5 {
            Cpu { l: v, ..self }
        } else {
            Cpu { a: v, ..self }
        }
    }

    /// Register pair `p`: BC, DE, HL, SP.
    pub open spec fn pair(self, p: u8) -> u16 {
        if p == 0 {
            word(self.b, self.c)
        } else if p == 1 {
            word(self.d, self.e)
        } else if p == 2 {
            word(self.h, self.l)
        } else {
            self.sp
        }
    }

    pub open spec fn with_pair(self, p: u8, v: u16) -> Cpu {
        let hi = (v / 256) as u8;
        let lo = (v % 256) as u8;
        if p == 0 {
            Cpu { b: hi, c: lo, ..self }
        } else if p == 1 {
            Cpu { d: hi, e: lo, ..self }
        } else if p == 2 {
            Cpu { h: hi, l: lo, ..self }
        } else {
            Cpu { sp: v, ..self }
        }
    }

    /// Register pair `p` as PUSH and POP take it: the last is AF.
    pub open spec fn stack_pair(self, p: u8) -> u16 {
        if p == 3 {
            word(self.a, self.f)
        } else {
            self.pair(p)
        }
    }

    /// The low four bits of F do not exist.
    pub open spec fn with_stack_pair(self, p: u8, v: u16) -> Cpu {
        if p == 3 {
            Cpu { a: (v / 256) as u8, f: ((v % 256) / 16 * 16) as u8, ..self }
        } else {
            self.with_pair(p, v)
        }
    }

    /// Condition `y`: NZ, Z, NC, C.
    pub open spec fn condition(self, y: u8) -> bool {
        if y % 4 == 0 {
            !self.flag_z()
        } else if y % 4 == 1 {
            self.flag_z()
        } else if y % 4 == 2 {
            !self.flag_c()
        } else {
            self.flag_c()
        }
    }

    /// ADD A,v.
    pub open spec fn after_add(self, v: u8) -> Cpu {
        let sum = self.a + v;
        let half = self.a % 16 + v % 16 > 15;
        Cpu {
            a: (sum % 256) as u8,
            f: with_flags(self.f, sum % 256 == 0, false, half, sum > 255),
            ..self
        }
    }

    /// ADC A,v.
    pub open spec fn after_adc(self, v: u8) -> Cpu {
        let sum = self.a + v + bit(self.flag_c());
        let half = self.a % 16 + v % 16 + bit(self.flag_c()) > 15;
        Cpu {
            a: (sum % 256) as u8,
            f: with_flags(self.f, sum % 256 == 0, false, half, sum > 255),
            ..self
        }
    }

    /// F after CP v.
    pub open spec fn cp_flags(self, v: u8) -> u8 {
        with_flags(self.f, self.a == v, true, self.a % 16 < v % 16, self.a < v)
    }

    /// SUB v.
    pub open spec fn after_sub(self, v: u8) -> Cpu {
        Cpu { a: u8_specs::wrapping_sub(self.a, v), f: self.cp_flags(v), ..self }
    }

    /// SBC A,v.
    pub open spec fn after_sbc(self, v: u8) -> Cpu {
        let difference = self.a - v - bit(self.flag_c());
        let half = self.a % 16 < v % 16 + bit(self.flag_c());
        Cpu {
            a: (difference % 256) as u8,
            f: with_flags(self.f, difference % 256 == 0, true, half, difference < 0),
            ..self
        }
    }

    /// A logical operation with the result `r`.
    pub open spec fn after_logic(self, r: u8, half: bool) -> Cpu {
        Cpu { a: r, f: with_flags(self.f, r == 0, false, half, false), ..self }
    }

    /// An arithmetic operation on A, by number: ADD, ADC, SUB, SBC, AND, XOR,
    /// OR, CP.
    #[verifier::opaque]
    pub open spec fn after_alu(self, op: u8, v: u8) -> Cpu {
        if op == 0 {
            self.after_add(v)
        } else if op == 1 {
            self.after_adc(v)
        } else if op == 2 {
            self.after_sub(v)
        } else if op == 3 {
            self.after_sbc(v)
        } else if op == 4 {
            self.after_logic(self.a & v, true)
        } else if op == 5 {
            self.after_logic(self.a ^ v, false)
        } else if op == 6 {
            self.after_logic(self.a | v, false)
        } else {
            Cpu { f: self.cp_flags(v), ..self }
        }
    }

    /// F after an increment of a byte that held `old`.
    pub open spec fn inc_flags(self, old_value: u8) -> u8 {
        with_flags(self.f, old_value == 255, false, old_value % 16 == 15, self.flag_c())
    }

    /// F after a decrement of a byte that held `old`.
    pub open spec fn dec_flags(self, old_value: u8) -> u8 {
        with_flags(self.f, old_value == 1, true, old_value % 16 == 0, self.flag_c())
    }

    /// HL increased by `v`; Z is untouched.
    #[verifier::opaque]
    pub open spec fn after_add_hl(self, v: u16) -> Cpu {
        let hl = self.pair(2);
        Cpu {
            f: with_flag(
                with_flag(
                    with_flag(self.f, 0x40, false),
                    0x20,
                    hl % 4096 + v % 4096 > 4095,
                ),
                0x10,
                hl + v > 0xFFFF,
            ),
            ..self.with_pair(2, ((hl + v) % 0x1_0000) as u16)
        }
    }

    /// F after a signed byte `n` was added to SP.
    pub open spec fn sp_flags(self, n: u8) -> u8 {
        with_flags(
            self.f,
            false,
            false,
            self.sp % 16 + n % 16 > 15,
            self.sp % 256 + n > 255,
        )
    }

    /// The decimal adjustment of A after an addition or subtraction of packed
    /// decimal numbers.
    #[verifier::opaque]
    pub open spec fn after_daa(self) -> Cpu {
        let low = self.flag_h() || (!self.flag_n() && self.a % 16 > 9);
        let high = self.flag_c() || (!self.flag_n() && self.a > 0x99);
        let adjust = (if low {
            6int
        } else {
            0
        }) + (if high {
            0x60int
        } else {
            0
        });
        let a = (if self.flag_n() {
            (self.a - adjust) % 256
        } else {
            (self.a + adjust) % 256
        }) as u8;
        Cpu { a, f: with_flags(self.f, a == 0, self.flag_n(), false, high), ..self }
    }

    /// The single-byte operations on A and the flags, by number: RLCA, RRCA,
    /// RLA, RRA, DAA, CPL, SCF, CCF.
    #[verifier::opaque]
    pub open spec fn after_acc(self, op: u8) -> Cpu {
        if op < 4 {
            let (v, c) = rotated(op, self.a, self.flag_c());
            Cpu { a: v, f: with_flags(self.f, false, false, false, c), ..self }
        } else if op == 4 {
            self.after_daa()
        } else if op == 5 {
            Cpu {
                a: !self.a,
                f: with_flag(with_flag(self.f, 0x40, true), 0x20, true),
                ..self
            }
        } else {
            Cpu {
                f: with_flag(
                    with_flag(
                        with_flag(self.f, 0x10, op == 6 || !self.flag_c()),
                        0x40,
                        false,
                    ),
                    0x20,
                    false,
                ),
                ..self
            }
        }
    }
}

impl Machine {
    /// One M-cycle without a bus access.
    #[verifier::opaque]
    pub open spec fn tick(self) -> Machine {
        Machine {
            cpu: Cpu { ticked: u32_specs::wrapping_add(self.cpu.ticked, 4), ..self.cpu },
            bus: self.bus.after_step(4),
        }
    }

    /// One M-cycle that reads `addr` at its end.
    pub open spec fn read(self, addr: u16) -> (Machine, u8) {
        (self.tick(), self.tick().bus.byte(addr))
    }

    /// One M-cycle that writes `addr` at its end.
    pub open spec fn write(self, addr: u16, v: u8) -> Machine {
        Machine { bus: self.tick().bus.after_write(addr, v), ..self.tick() }
    }

    /// The byte at PC, PC moving on.
    pub open spec fn fetch8(self) -> (Machine, u8) {
        let (m, v) = self.read(self.cpu.pc);
        (m.with_cpu(Cpu { pc: u16_specs::wrapping_add(self.cpu.pc, 1), ..m.cpu }), v)
    }

    /// The word at PC, low byte first.
    pub open spec fn fetch16(self) -> (Machine, u16) {
        let (m1, lo) = self.fetch8();
        let (m2, hi) = m1.fetch8();
        (m2, word(hi, lo))
    }

    pub open spec fn with_cpu(self, cpu: Cpu) -> Machine {
        Machine { cpu, ..self }
    }

    /// SP one down and a byte written there.
    pub open spec fn push8(self, v: u8) -> Machine {
        let sp = u16_specs::wrapping_sub(self.cpu.sp, 1);
        self.with_cpu(Cpu { sp, ..self.cpu }).write(sp, v)
    }

    /// A word on the stack, after one internal cycle.
    #[verifier::opaque]
    pub open spec fn push16(self, v: u16) -> Machine {
        self.tick().push8((v / 256) as u8).push8((v % 256) as u8)
    }

    /// The byte at SP, SP moving up.
    pub open spec fn pop8(self) -> (Machine, u8) {
        let (m, v) = self.read(self.cpu.sp);
        (m.with_cpu(Cpu { sp: u16_specs::wrapping_add(self.cpu.sp, 1), ..m.cpu }), v)
    }

    /// The word on top of the stack.
    pub open spec fn pop16(self) -> (Machine, u16) {
        let (m1, lo) = self.pop8();
        let (m2, hi) = m1.pop8();
        (m2, word(hi, lo))
    }

    /// The value of operand `i`: a register, or memory at HL for 6.
    pub open spec fn operand(self, i: u8) -> (Machine, u8) {
        if i == 6 {
            self.read(self.cpu.pair(2))
        } else {
            (self, self.cpu.reg(i))
        }
    }

    /// Operand `i` set to `v`.
    pub open spec fn store(self, i: u8, v: u8) -> Machine {
        if i == 6 {
            self.write(self.cpu.pair(2), v)
        } else {
            self.with_cpu(self.cpu.with_reg(i, v))
        }
    }

    /// LD rr,d16.
    #[verifier::opaque]
    pub open spec fn ld_pair_d16(self, p: u8) -> Machine {
        let (m, v) = self.fetch16();
        m.with_cpu(m.cpu.with_pair(p, v))
    }

    /// ADD HL,rr.
    #[verifier::opaque]
    pub open spec fn add_hl_pair(self, p: u8) -> Machine {
        let m = self.tick();
        m.with_cpu(m.cpu.after_add_hl(m.cpu.pair(p)))
    }

    /// The address that the indirect accumulator loads use: BC, DE, and HL
    /// with an increment or a decrement afterwards.
    pub open spec fn indirect(self, p: u8) -> u16 {
        if p >= 2 {
            self.cpu.pair(2)
        } else {
            self.cpu.pair(p)
        }
    }

    /// HL moved on after an indirect access.
    pub open spec fn indirect_step(self, p: u8) -> Machine {
        if p == 2 {
            self.with_cpu(self.cpu.with_pair(2, u16_specs::wrapping_add(self.cpu.pair(2), 1)))
        } else if p == 3 {
            self.with_cpu(self.cpu.with_pair(2, u16_specs::wrapping_sub(self.cpu.pair(2), 1)))
        } else {
            self
        }
    }

    /// LD (rr),A.
    #[verifier::opaque]
    pub open spec fn ld_indirect_a(self, p: u8) -> Machine {
        self.write(self.indirect(p), self.cpu.a).indirect_step(p)
    }

    /// LD A,(rr).
    #[verifier::opaque]
    pub open spec fn ld_a_indirect(self, p: u8) -> Machine {
        let (m, v) = self.read(self.indirect(p));
        m.with_cpu(Cpu { a: v, ..m.cpu }).indirect_step(p)
    }

    /// INC rr.
    #[verifier::opaque]
    pub open spec fn inc_pair(self, p: u8) -> Machine {
        self.with_cpu(
            self.cpu.with_pair(p, u16_specs::wrapping_add(self.cpu.pair(p), 1)),
        ).tick()
    }

    /// DEC rr.
    #[verifier::opaque]
    pub open spec fn dec_pair(self, p: u8) -> Machine {
        self.with_cpu(
            self.cpu.with_pair(p, u16_specs::wrapping_sub(self.cpu.pair(p), 1)),
        ).tick()
    }

    /// INC r.
    #[verifier::opaque]
    pub open spec fn inc_operand(self, i: u8) -> Machine {
        let (m, v) = self.operand(i);
        m.with_cpu(Cpu { f: m.cpu.inc_flags(v), ..m.cpu }).store(i, u8_specs::wrapping_add(v, 1))
    }

    /// DEC r.
    #[verifier::opaque]
    pub open spec fn dec_operand(self, i: u8) -> Machine {
        let (m, v) = self.operand(i);
        m.with_cpu(Cpu { f: m.cpu.dec_flags(v), ..m.cpu }).store(i, u8_specs::wrapping_sub(v, 1))
    }

    /// LD r,d8.
    #[verifier::opaque]
    pub open spec fn ld_operand_d8(self, i: u8) -> Machine {
        let (m, v) = self.fetch8();
        m.store(i, v)
    }

    /// LD r,r'.
    #[verifier::opaque]
    pub open spec fn ld_operand_operand(self, dst: u8, src: u8) -> Machine {
        let (m, v) = self.operand(src);
        m.store(dst, v)
    }

    /// An arithmetic operation with operand `i`.
    #[verifier::opaque]
    pub open spec fn alu_operand(self, op: u8, i: u8) -> Machine {
        let (m, v) = self.operand(i);
        m.with_cpu(m.cpu.after_alu(op, v))
    }

    /// An arithmetic operation with an immediate byte.
    #[verifier::opaque]
    pub open spec fn alu_d8(self, op: u8) -> Machine {
        let (m, v) = self.fetch8();
        m.with_cpu(m.cpu.after_alu(op, v))
    }

    /// LD (a16),SP.
    #[verifier::opaque]
    pub open spec fn ld_a16_sp(self) -> Machine {
        let (m, addr) = self.fetch16();
        m.write(addr, (m.cpu.sp % 256) as u8).write(
            u16_specs::wrapping_add(addr, 1),
            (m.cpu.sp / 256) as u8,
        )
    }

    /// STOP: the padding byte is consumed.
    #[verifier::opaque]
    pub open spec fn stop(self) -> Machine {
        let m = self.fetch8().0;
        m.with_cpu(Cpu { stopped: true, ..m.cpu })
    }

    /// JR, when `taken`.
    #[verifier::opaque]
    pub open spec fn jr(self, taken: bool) -> Machine {
        let (m, n) = self.fetch8();
        if taken {
            let t = m.tick();
            t.with_cpu(Cpu { pc: displaced(t.cpu.pc, n), ..t.cpu })
        } else {
            m
        }
    }

    /// Interrupts requested and enabled.
    pub open spec fn pending(self) -> u8 {
        self.bus.io[0x0F] & self.bus.ie & 0x1F
    }

    /// HALT. With interrupts disabled and one pending the CPU does not halt;
    /// the byte after HALT is then executed twice. An EI just before HALT
    /// suppresses the bug.
    pub open spec fn halt(self) -> Machine {
        if !self.cpu.ime && !self.cpu.ei_pending && self.pending() != 0 {
            self.with_cpu(Cpu { halt_bug: true, ..self.cpu })
        } else {
            self.with_cpu(Cpu { halted: true, ..self.cpu })
        }
    }

    /// RET.
    #[verifier::opaque]
    pub open spec fn ret(self) -> Machine {
        let (m, v) = self.pop16();
        m.with_cpu(Cpu { pc: v, ..m.cpu }).tick()
    }

    /// RET cc: one internal cycle for the test.
    pub open spec fn ret_cc(self, taken: bool) -> Machine {
        if taken {
            self.tick().ret()
        } else {
            self.tick()
        }
    }

    /// RETI.
    pub open spec fn reti(self) -> Machine {
        let m = self.ret();
        m.with_cpu(Cpu { ime: true, ..m.cpu })
    }

    /// POP rr.
    #[verifier::opaque]
    pub open spec fn pop_pair(self, p: u8) -> Machine {
        let (m, v) = self.pop16();
        m.with_cpu(m.cpu.with_stack_pair(p, v))
    }

    /// PUSH rr.
    pub open spec fn push_pair(self, p: u8) -> Machine {
        self.push16(self.cpu.stack_pair(p))
    }

    /// JP a16, when `taken`.
    #[verifier::opaque]
    pub open spec fn jp(self, taken: bool) -> Machine {
        let (m, n) = self.fetch16();
        if taken {
            m.with_cpu(Cpu { pc: n, ..m.cpu }).tick()
        } else {
            m
        }
    }

    /// CALL a16, when `taken`.
    #[verifier::opaque]
    pub open spec fn call(self, taken: bool) -> Machine {
        let (m, n) = self.fetch16();
        if taken {
            let p = m.push16(m.cpu.pc);
            p.with_cpu(Cpu { pc: n, ..p.cpu })
        } else {
            m
        }
    }

    /// RST.
    #[verifier::opaque]
    pub open spec fn rst(self, addr: u16) -> Machine {
        let p = self.push16(self.cpu.pc);
        p.with_cpu(Cpu { pc: addr, ..p.cpu })
    }

    /// The address of a high-page access: an immediate byte, the register C,
    /// or a full immediate address.
    pub open spec fn far_address(self, kind: u8) -> (Machine, u16) {
        if kind == 0 {
            let (m, n) = self.fetch8();
            (m, word(0xFF, n))
        } else if kind == 1 {
            (self, word(0xFF, self.cpu.c))
        } else {
            self.fetch16()
        }
    }

    /// LDH (a8),A, LD (C),A and LD (a16),A.
    #[verifier::opaque]
    pub open spec fn ld_far_a(self, kind: u8) -> Machine {
        let (m, addr) = self.far_address(kind);
        m.write(addr, m.cpu.a)
    }

    /// LDH A,(a8), LD A,(C) and LD A,(a16).
    #[verifier::opaque]
    pub open spec fn ld_a_far(self, kind: u8) -> Machine {
        let (m, addr) = self.far_address(kind);
        let (n, v) = m.read(addr);
        n.with_cpu(Cpu { a: v, ..n.cpu })
    }

    /// ADD SP,r8.
    #[verifier::opaque]
    pub open spec fn add_sp(self) -> Machine {
        let (m, n) = self.fetch8();
        let t = m.tick().tick();
        t.with_cpu(Cpu { sp: displaced(t.cpu.sp, n), f: t.cpu.sp_flags(n), ..t.cpu })
    }

    /// LD HL,SP+r8.
    #[verifier::opaque]
    pub open spec fn ld_hl_sp(self) -> Machine {
        let (m, n) = self.fetch8();
        let t = m.tick();
        t.with_cpu(
            Cpu { f: t.cpu.sp_flags(n), ..t.cpu.with_pair(2, displaced(t.cpu.sp, n)) },
        )
    }

    /// LD SP,HL.
    pub open spec fn ld_sp_hl(self) -> Machine {
        self.with_cpu(Cpu { sp: self.cpu.pair(2), ..self.cpu }).tick()
    }

    /// A CB-prefixed rotation or shift.
    #[verifier::opaque]
    pub open spec fn cb_rotate(self, op: u8, i: u8) -> Machine {
        let (m, v) = self.operand(i);
        let (r, c) = rotated(op, v, m.cpu.flag_c());
        m.with_cpu(Cpu { f: with_flags(m.cpu.f, r == 0, false, false, c), ..m.cpu }).store(i, r)
    }

    /// BIT n,r.
    #[verifier::opaque]
    pub open spec fn cb_bit(self, n: u8, i: u8) -> Machine {
        let (m, v) = self.operand(i);
        m.with_cpu(
            Cpu {
                f: with_flag(
                    with_flag(with_flag(m.cpu.f, 0x80, v & (1u8 << n) == 0), 0x40, false),
                    0x20,
                    true,
                ),
                ..m.cpu
            },
        )
    }

    /// RES n,r.
    #[verifier::opaque]
    pub open spec fn cb_res(self, n: u8, i: u8) -> Machine {
        let (m, v) = self.operand(i);
        m.store(i, v & !(1u8 << n))
    }

    /// SET n,r.
    #[verifier::opaque]
    pub open spec fn cb_set(self, n: u8, i: u8) -> Machine {
        let (m, v) = self.operand(i);
        m.store(i, v | (1u8 << n))
    }

    /// The CB-prefixed instruction `op`.
    pub open spec fn exec_cb(self, op: u8) -> Machine {
        let y = (op / 8) % 8;
        let z = op % 8;
        if op < 0x40 {
            self.cb_rotate(y, z)
        } else if op < 0x80 {
            self.cb_bit(y, z)
        } else if op < 0xC0 {
            self.cb_res(y, z)
        } else {
            self.cb_set(y, z)
        }
    }

    /// The instructions 0x00-0x3F.
    #[verifier::opaque]
    pub open spec fn exec_block0(self, y: u8, z: u8) -> Machine {
        if z == 0 {
            if y == 0 {
                self
            } else if y == 1 {
                self.ld_a16_sp()
            } else if y == 2 {
                self.stop()
            } else {
                self.jr(y == 3 || self.cpu.condition(y))
            }
        } else if z == 1 {
            if y % 2 == 0 {
                self.ld_pair_d16(y / 2)
            } else {
                self.add_hl_pair(y / 2)
            }
        } else if z == 2 {
            if y % 2 == 0 {
                self.ld_indirect_a(y / 2)
            } else {
                self.ld_a_indirect(y / 2)
            }
        } else if z == 3 {
            if y % 2 == 0 {
                self.inc_pair(y / 2)
            } else {
                self.dec_pair(y / 2)
            }
        } else if z == 4 {
            self.inc_operand(y)
        } else if z == 5 {
            self.dec_operand(y)
        } else if z == 6 {
            self.ld_operand_d8(y)
        } else {
            self.with_cpu(self.cpu.after_acc(y))
        }
    }

    /// An undefined opcode: a NOP that consumes the following byte.
    pub open spec fn undefined(self) -> Machine {
        self.fetch8().0
    }

    /// The instructions 0xC0-0xFF with `z` below 4.
    #[verifier::opaque]
    pub open spec fn exec_block3_low(self, y: u8, z: u8) -> Machine {
        if z == 0 {
            if y < 4 {
                self.ret_cc(self.cpu.condition(y))
            } else if y == 4 {
                self.ld_far_a(0)
            } else if y == 5 {
                self.add_sp()
            } else if y == 6 {
                self.ld_a_far(0)
            } else {
                self.ld_hl_sp()
            }
        } else if z == 1 {
            if y % 2 == 0 {
                self.pop_pair(y / 2)
            } else if y == 1 {
                self.ret()
            } else if y == 3 {
                self.reti()
            } else if y == 5 {
                self.with_cpu(Cpu { pc: self.cpu.pair(2), ..self.cpu })
            } else {
                self.ld_sp_hl()
            }
        } else if z == 2 {
            if y < 4 {
                self.jp(self.cpu.condition(y))
            } else if y == 4 {
                self.ld_far_a(1)
            } else if y == 5 {
                self.ld_far_a(2)
            } else if y == 6 {
                self.ld_a_far(1)
            } else {
                self.ld_a_far(2)
            }
        } else {
            if y == 0 {
                self.jp(true)
            } else if y == 1 {
                let (m, op) = self.fetch8();
                m.exec_cb(op)
            } else if y == 6 {
                self.with_cpu(Cpu { ime: false, ei_pending: false, ..self.cpu })
            } else if y == 7 {
                self.with_cpu(Cpu { ei_pending: true, ..self.cpu })
            } else {
                self.undefined()
            }
        }
    }

    /// The instructions 0xC0-0xFF with `z` from 4 on.
    #[verifier::opaque]
    pub open spec fn exec_block3_high(self, y: u8, z: u8) -> Machine {
        if z == 4 {
            if y < 4 {
                self.call(self.cpu.condition(y))
            } else {
                self.undefined()
            }
        } else if z == 5 {
            if y % 2 == 0 {
                self.push_pair(y / 2)
            } else if y == 1 {
                self.call(true)
            } else {
                self.undefined()
            }
        } else if z == 6 {
            self.alu_d8(y)
        } else {
            self.rst((y * 8) as u16)
        }
    }

    /// The machine after the instruction `op`, whose opcode has been fetched.
    #[verifier::opaque]
    pub open spec fn exec(self, op: u8) -> Machine {
        let x = op / 64;
        let y = (op / 8) % 8;
        let z = op % 8;
        if x == 0 {
            self.exec_block0(y, z)
        } else if x == 1 {
            if op == 0x76 {
                self.halt()
            } else {
                self.ld_operand_operand(y, z)
            }
        } else if x == 2 {
            self.alu_operand(y, z)
        } else if z < 4 {
            self.exec_block3_low(y, z)
        } else {
            self.exec_block3_high(y, z)
        }
    }

    /// The machine after one instruction: fetch, execute, and the rewind of PC
    /// that a bugged HALT before it causes.
    #[verifier::opaque]
    pub open spec fn execute(self) -> Machine {
        let (m, op) = self.opcode_fetched();
        m.exec(op).rewound(self.cpu.halt_bug)
    }

    /// The opcode fetched, with `ld b,b` noted as a breakpoint.
    #[verifier::opaque]
    pub open spec fn opcode_fetched(self) -> (Machine, u8) {
        let (m, op) = self.with_cpu(Cpu { halt_bug: false, ticked: 0, ..self.cpu }).fetch8();
        (m.with_cpu(Cpu { breakpoint: m.cpu.breakpoint || op == 0x40, ..m.cpu }), op)
    }

    /// PC one back if `bugged`.
    pub open spec fn rewound(self, bugged: bool) -> Machine {
        if bugged {
            self.with_cpu(Cpu { pc: u16_specs::wrapping_sub(self.cpu.pc, 1), ..self.cpu })
        } else {
            self
        }
    }

    /// The interrupt served first: the lowest pending bit.
    pub open spec fn first_pending(pending: u8) -> u8 {
        if pending & 1 != 0 {
            0
        } else if pending & 2 != 0 {
            1
        } else if pending & 4 != 0 {
            2
        } else if pending & 8 != 0 {
            3
        } else {
            4
        }
    }

    /// PC at the vector of the first of `pending`, whose request clears; at 0
    /// when there is none.
    pub open spec fn vectored(self, pending: u8) -> Machine {
        if pending == 0 {
            self.with_cpu(Cpu { pc: 0, ..self.cpu })
        } else {
            let n = Machine::first_pending(pending);
            Machine {
                cpu: Cpu {
                    pc: (0x40 + n * 8) as u16,
                    timer_interrupts: if n == 2 {
                        u64_specs::wrapping_add(self.cpu.timer_interrupts, 1)
                    } else {
                        self.cpu.timer_interrupts
                    },
                    ..self.cpu
                },
                bus: self.bus.with_io(0x0F, self.bus.io[0x0F] & !(1u8 << n)),
            }
        }
    }

    /// The machine after an interrupt is taken. The push of PC's high byte
    /// can overwrite IE (SP = 0), so the vector is chosen from the flags as
    /// they stand after it; nothing left selects vector 0.
    #[verifier::opaque]
    pub open spec fn interrupted(self) -> Machine {
        let m = self.with_cpu(Cpu { ticked: 0, ime: false, halted: false, ..self.cpu });
        let high = m.tick().tick().push8((m.cpu.pc / 256) as u8);
        let pending = high.pending();
        let low = high.push8((high.cpu.pc % 256) as u8).tick();
        low.vectored(pending)
    }
}

/// The machine that `cpu` and `bus` make.
pub open spec fn machine(cpu: Cpu, bus: BusState) -> Machine {
    Machine { cpu, bus }
}

impl Cpu {
    /// The CPU as the DMG boot ROM leaves it.
    pub open spec fn initial() -> Cpu {
        Cpu {
            a: 0x01,
            f: 0xB0,
            b: 0x00,
            c: 0x13,
            d: 0x00,
            e: 0xD8,
            h: 0x01,
            l: 0x4D,
            sp: 0xFFFE,
            pc: 0x0100,
            ime: false,
            ei_pending: false,
            halted: false,
            stopped: false,
            halt_bug: false,
            breakpoint: false,
            ticked: 0,
            timer_interrupts: 0,
        }
    }

    pub fn new() -> (r: Cpu)
        ensures
            r == Cpu::initial(),
    {
        Cpu {
            a: 0x01,
            f: 0xB0,
            b: 0x00,
            c: 0x13,
            d: 0x00,
            e: 0xD8,
            h: 0x01,
            l: 0x4D,
            sp: 0xFFFE,
            pc: 0x0100,
            ime: false,
            ei_pending: false,
            halted: false,
            stopped: false,
            halt_bug: false,
            breakpoint: false,
            ticked: 0,
            timer_interrupts: 0,
        }
    }

    /// The zero flag.
    pub fn z(&self) -> (r: bool)
        ensures
            r == self.flag_z(),
    {
        self.f & 0x80 != 0
    }

    /// The subtraction flag.
    pub fn n(&self) -> (r: bool)
        ensures
            r == self.flag_n(),
    {
        self.f & 0x40 != 0
    }

    /// The half-carry flag.
    pub fn h(&self) -> (r: bool)
        ensures
            r == self.flag_h(),
    {
        self.f & 0x20 != 0
    }

    /// The carry flag.
    pub fn c(&self) -> (r: bool)
        ensures
            r == self.flag_c(),
    {
        self.f & 0x10 != 0
    }

    pub fn bc(&self) -> (r: u16)
        ensures
            r == self.pair(0),
    {
        self.b as u16 * 256 + self.c as u16
    }

    pub fn de(&self) -> (r: u16)
        ensures
            r == self.pair(1),
    {
        self.d as u16 * 256 + self.e as u16
    }

    pub fn hl(&self) -> (r: u16)
        ensures
            r == self.pair(2),
    {
        self.h as u16 * 256 + self.l as u16
    }

    pub fn af(&self) -> (r: u16)
        ensures
            r == self.stack_pair(3),
    {
        self.a as u16 * 256 + self.f as u16
    }

    fn get_reg(&self, i: u8) -> (r: u8)
        ensures
            r == self.reg(i),
    {
        match i {
            0 => self.b,
            1 => self.c,
            2 => self.d,
            3 => self.e,
            4 => self.h,
            5 => self.l,
            _ => self.a,
        }
    }

    fn set_reg(&mut self, i: u8, v: u8)
        ensures
            *final(self) == old(self).with_reg(i, v),
    {
        match i {
            0 => self.b = v,
            1 => self.c = v,
            2 => self.d = v,
            3 => self.e = v,
            4 => self.h = v,
            5 => self.l = v,
            _ => self.a = v,
        }
    }

    fn get_pair(&self, p: u8) -> (r: u16)
        ensures
            r == self.pair(p),
    {
        match p {
            0 => self.bc(),
            1 => self.de(),
            2 => self.hl(),
            _ => self.sp,
        }
    }

    fn set_pair(&mut self, p: u8, v: u16)
        ensures
            *final(self) == old(self).with_pair(p, v),
    {
        let hi: u8 = (v / 256) as u8;
        let lo: u8 = (v % 256) as u8;
        match p {
            0 => {
                self.b = hi;
                self.c = lo;
            },
            1 => {
                self.d = hi;
                self.e = lo;
            },
            2 => {
                self.h = hi;
                self.l = lo;
            },
            _ => self.sp = v,
        }
    }

    fn get_stack_pair(&self, p: u8) -> (r: u16)
        ensures
            r == self.stack_pair(p),
    {
        if p == 3 {
            self.af()
        } else {
            self.get_pair(p)
        }
    }

    fn set_stack_pair(&mut self, p: u8, v: u16)
        ensures
            *final(self) == old(self).with_stack_pair(p, v),
    {
        if p == 3 {
            self.a = (v / 256) as u8;
            self.f = ((v % 256) / 16 * 16) as u8;
        } else {
            self.set_pair(p, v);
        }
    }

    fn test(&self, y: u8) -> (r: bool)
        ensures
            r == self.condition(y),
    {
        match y % 4 {
            0 => !self.z(),
            1 => self.z(),
            2 => !self.c(),
            _ => self.c(),
        }
    }

    /// ADD A,v.
    pub fn add_a(&mut self, v: u8)
        ensures
            *final(self) == old(self).after_add(v),
    {
        let a: u8 = self.a;
        let r: u8 = a.wrapping_add(v);
        self.a = r;
        self.f = flags_set(self.f, r == 0, false, a % 16 + v % 16 > 15, a as u16 + v as u16 > 255);
    }

    fn adc_a(&mut self, v: u8)
        ensures
            *final(self) == old(self).after_adc(v),
    {
        let a: u8 = self.a;
        let c: u16 = if self.c() {
            1
        } else {
            0
        };
        let sum: u16 = a as u16 + v as u16 + c;
        let r: u8 = (sum % 256) as u8;
        let half = (a % 16) as u16 + (v % 16) as u16 + c > 15;
        self.a = r;
        self.f = flags_set(self.f, r == 0, false, half, sum > 255);
    }

    /// SUB v.
    pub fn sub_a(&mut self, v: u8)
        ensures
            *final(self) == old(self).after_sub(v),
    {
        let a: u8 = self.a;
        self.a = a.wrapping_sub(v);
        self.f = flags_set(self.f, a == v, true, a % 16 < v % 16, a < v);
    }

    fn sbc_a(&mut self, v: u8)
        ensures
            *final(self) == old(self).after_sbc(v),
    {
        let a: u8 = self.a;
        let c: u16 = if self.c() {
            1
        } else {
            0
        };
        let diff: u16 = a as u16 + 512 - v as u16 - c;
        let r: u8 = (diff % 256) as u8;
        let half = ((a % 16) as u16) < (v % 16) as u16 + c;
        let borrow = (a as u16) < v as u16 + c;
        self.a = r;
        self.f = flags_set(self.f, r == 0, true, half, borrow);
    }

    fn and_a(&mut self, v: u8)
        ensures
            *final(self) == old(self).after_logic(old(self).a & v, true),
    {
        self.a = self.a & v;
        self.f = flags_set(self.f, self.a == 0, false, true, false);
    }

    fn xor_a(&mut self, v: u8)
        ensures
            *final(self) == old(self).after_logic(old(self).a ^ v, false),
    {
        self.a = self.a ^ v;
        self.f = flags_set(self.f, self.a == 0, false, false, false);
    }

    fn or_a(&mut self, v: u8)
        ensures
            *final(self) == old(self).after_logic(old(self).a | v, false),
    {
        self.a = self.a | v;
        self.f = flags_set(self.f, self.a == 0, false, false, false);
    }

    fn cp_a(&mut self, v: u8)
        ensures
            *final(self) == (Cpu { f: old(self).cp_flags(v), ..*old(self) }),
    {
        let a: u8 = self.a;
        self.f = flags_set(self.f, a == v, true, a % 16 < v % 16, a < v);
    }

    fn alu(&mut self, op: u8, v: u8)
        requires
            op < 8,
        ensures
            *final(self) == old(self).after_alu(op, v),
    {
        reveal(Cpu::after_alu);
        match op {
            0 => self.add_a(v),
            1 => self.adc_a(v),
            2 => self.sub_a(v),
            3 => self.sbc_a(v),
            4 => self.and_a(v),
            5 => self.xor_a(v),
            6 => self.or_a(v),
            _ => self.cp_a(v),
        }
    }

    fn add_hl(&mut self, v: u16)
        ensures
            *final(self) == old(self).after_add_hl(v),
    {
        reveal(Cpu::after_add_hl);
        let hl: u16 = self.hl();
        let f1: u8 = flag_set(self.f, 0x40, false);
        let f2: u8 = flag_set(f1, 0x20, hl % 4096 + v % 4096 > 4095);
        self.f = flag_set(f2, 0x10, hl as u32 + v as u32 > 0xFFFF);
        self.set_pair(2, hl.wrapping_add(v));
    }

    /// DAA: the decimal adjustment of A.
    pub fn daa(&mut self)
        ensures
            *final(self) == old(self).after_daa(),
    {
        reveal(Cpu::after_daa);
        let n = self.n();
        let low = self.h() || (!n && self.a % 16 > 9);
        let high = self.c() || (!n && self.a > 0x99);
        let mut adjust: u8 = 0;
        if low {
            adjust = adjust + 6;
        }
        if high {
            adjust = adjust + 0x60;
        }
        let a: u8 = if n {
            self.a.wrapping_sub(adjust)
        } else {
            self.a.wrapping_add(adjust)
        };
        self.a = a;
        self.f = flags_set(self.f, a == 0, n, false, high);
    }

    fn acc(&mut self, op: u8)
        requires
            op < 8,
        ensures
            *final(self) == old(self).after_acc(op),
    {
        reveal(Cpu::after_acc);
        match op {
            0..=3 => {
                let (v, c): (u8, bool) = rotate(op, self.a, self.c());
                self.a = v;
                self.f = flags_set(self.f, false, false, false, c);
            },
            4 => self.daa(),
            5 => {
                self.a = !self.a;
                let f1: u8 = flag_set(self.f, 0x40, true);
                self.f = flag_set(f1, 0x20, true);
            },
            _ => {
                let c = op == 6 || !self.c();
                let f1: u8 = flag_set(self.f, 0x10, c);
                let f2: u8 = flag_set(f1, 0x40, false);
                self.f = flag_set(f2, 0x20, false);
            },
        }
    }

    fn sp_flags_of(&self, n: u8) -> (r: u8)
        ensures
            r == self.sp_flags(n),
    {
        let half = self.sp % 16 + (n % 16) as u16 > 15;
        let carry = self.sp % 256 + n as u16 > 255;
        flags_set(self.f, false, false, half, carry)
    }

    /// Advance the machine by one M-cycle (4 T-cycles) without a bus access.
    fn internal(&mut self, bus: &mut Bus)
        requires
            old(bus)@.wf(),
        ensures
            final(bus)@.wf(),
            machine(*final(self), final(bus)@) == machine(*old(self), old(bus)@).tick(),
    {
        reveal(Machine::tick);
        bus.step(4);
        self.ticked = self.ticked.wrapping_add(4);
    }

    /// One M-cycle that reads `addr` at its end.
    fn read8(&mut self, bus: &mut Bus, addr: u16) -> (r: u8)
        requires
            old(bus)@.wf(),
        ensures
            final(bus)@.wf(),
            (machine(*final(self), final(bus)@), r) == machine(*old(self), old(bus)@).read(addr),
    {
        self.internal(bus);
        bus.read(addr)
    }

    /// One M-cycle that writes `addr` at its end.
    fn write8(&mut self, bus: &mut Bus, addr: u16, v: u8)
        requires
            old(bus)@.wf(),
        ensures
            final(bus)@.wf(),
            machine(*final(self), final(bus)@) == machine(*old(self), old(bus)@).write(addr, v),
    {
        self.internal(bus);
        bus.write(addr, v);
    }

    fn fetch8(&mut self, bus: &mut Bus) -> (r: u8)
        requires
            old(bus)@.wf(),
        ensures
            final(bus)@.wf(),
            (machine(*final(self), final(bus)@), r) == machine(*old(self), old(bus)@).fetch8(),
    {
        let pc: u16 = self.pc;
        proof {
            reveal(Machine::tick);
        }
        let v: u8 = self.read8(bus, pc);
        self.pc = pc.wrapping_add(1);
        v
    }

    fn fetch16(&mut self, bus: &mut Bus) -> (r: u16)
        requires
            old(bus)@.wf(),
        ensures
            final(bus)@.wf(),
            (machine(*final(self), final(bus)@), r) == machine(*old(self), old(bus)@).fetch16(),
    {
        let lo: u8 = self.fetch8(bus);
        let hi: u8 = self.fetch8(bus);
        hi as u16 * 256 + lo as u16
    }

    fn push8(&mut self, bus: &mut Bus, v: u8)
        requires
            old(bus)@.wf(),
        ensures
            final(bus)@.wf(),
            machine(*final(self), final(bus)@) == machine(*old(self), old(bus)@).push8(v),
    {
        self.sp = self.sp.wrapping_sub(1);
        let sp: u16 = self.sp;
        self.write8(bus, sp, v);
    }

    /// PUSH: the internal cycle precedes the two writes.
    fn push16(&mut self, bus: &mut Bus, v: u16)
        requires
            old(bus)@.wf(),
        ensures
            final(bus)@.wf(),
            machine(*final(self), final(bus)@) == machine(*old(self), old(bus)@).push16(v),
    {
        reveal(Machine::push16);
        self.internal(bus);
        self.push8(bus, (v / 256) as u8);
        self.push8(bus, (v % 256) as u8);
    }

    fn pop8(&mut self, bus: &mut Bus) -> (r: u8)
        requires
            old(bus)@.wf(),
        ensures
            final(bus)@.wf(),
            (machine(*final(self), final(bus)@), r) == machine(*old(self), old(bus)@).pop8(),
    {
        proof {
            reveal(Machine::tick);
        }
        let sp: u16 = self.sp;
        let v: u8 = self.read8(bus, sp);
        self.sp = sp.wrapping_add(1);
        v
    }

    fn pop16(&mut self, bus: &mut Bus) -> (r: u16)
        requires
            old(bus)@.wf(),
        ensures
            final(bus)@.wf(),
            (machine(*final(self), final(bus)@), r) == machine(*old(self), old(bus)@).pop16(),
    {
        let lo: u8 = self.pop8(bus);
        let hi: u8 = self.pop8(bus);
        hi as u16 * 256 + lo as u16
    }

    fn read_operand(&mut self, bus: &mut Bus, i: u8) -> (r: u8)
        requires
            old(bus)@.wf(),
        ensures
            final(bus)@.wf(),
            (machine(*final(self), final(bus)@), r) == machine(*old(self), old(bus)@).operand(i),
    {
        if i == 6 {
            let hl: u16 = self.hl();
            self.read8(bus, hl)
        } else {
            self.get_reg(i)
        }
    }

    fn write_operand(&mut self, bus: &mut Bus, i: u8, v: u8)
        requires
            old(bus)@.wf(),
        ensures
            final(bus)@.wf(),
            machine(*final(self), final(bus)@) == machine(*old(self), old(bus)@).store(i, v),
    {
        if i == 6 {
            let hl: u16 = self.hl();
            self.write8(bus, hl, v);
        } else {
            self.set_reg(i, v);
        }
    }

    fn ld_pair_d16(&mut self, bus: &mut Bus, p: u8)
        requires
            old(bus)@.wf(),
        ensures
            final(bus)@.wf(),
            machine(*final(self), final(bus)@) == machine(*old(self), old(bus)@).ld_pair_d16(p),
    {
        reveal(Machine::ld_pair_d16);
        let v: u16 = self.fetch16(bus);
        self.set_pair(p, v);
    }

    fn add_hl_pair(&mut self, bus: &mut Bus, p: u8)
        requires
            old(bus)@.wf(),
        ensures
            final(bus)@.wf(),
            machine(*final(self), final(bus)@) == machine(*old(self), old(bus)@).add_hl_pair(p),
    {
        reveal(Machine::add_hl_pair);
        self.internal(bus);
        let v: u16 = self.get_pair(p);
        self.add_hl(v);
    }

    fn indirect_step(&mut self, bus: &mut Bus, p: u8)
        requires
            old(bus)@.wf(),
        ensures
            final(bus)@.wf(),
            machine(*final(self), final(bus)@) == machine(*old(self), old(bus)@).indirect_step(p),
    {
        let hl: u16 = self.hl();
        if p == 2 {
            self.set_pair(2, hl.wrapping_add(1));
        } else if p == 3 {
            self.set_pair(2, hl.wrapping_sub(1));
        }
    }

    fn ld_indirect_a(&mut self, bus: &mut Bus, p: u8)
        requires
            old(bus)@.wf(),
        ensures
            final(bus)@.wf(),
            machine(*final(self), final(bus)@) == machine(*old(self), old(bus)@).ld_indirect_a(p),
    {
        reveal(Machine::ld_indirect_a);
        let addr: u16 = if p >= 2 {
            self.hl()
        } else {
            self.get_pair(p)
        };
        let a: u8 = self.a;
        self.write8(bus, addr, a);
        self.indirect_step(bus, p);
    }

    fn ld_a_indirect(&mut self, bus: &mut Bus, p: u8)
        requires
            old(bus)@.wf(),
        ensures
            final(bus)@.wf(),
            machine(*final(self), final(bus)@) == machine(*old(self), old(bus)@).ld_a_indirect(p),
    {
        reveal(Machine::ld_a_indirect);
        let addr: u16 = if p >= 2 {
            self.hl()
        } else {
            self.get_pair(p)
        };
        self.a = self.read8(bus, addr);
        self.indirect_step(bus, p);
    }

    fn inc_pair(&mut self, bus: &mut Bus, p: u8)
        requires
            old(bus)@.wf(),
        ensures
            final(bus)@.wf(),
            machine(*final(self), final(bus)@) == machine(*old(self), old(bus)@).inc_pair(p),
    {
        reveal(Machine::inc_pair);
        let v: u16 = self.get_pair(p).wrapping_add(1);
        self.set_pair(p, v);
        self.internal(bus);
    }

    fn dec_pair(&mut self, bus: &mut Bus, p: u8)
        requires
            old(bus)@.wf(),
        ensures
            final(bus)@.wf(),
            machine(*final(self), final(bus)@) == machine(*old(self), old(bus)@).dec_pair(p),
    {
        reveal(Machine::dec_pair);
        let v: u16 = self.get_pair(p).wrapping_sub(1);
        self.set_pair(p, v);
        self.internal(bus);
    }

    fn inc_operand(&mut self, bus: &mut Bus, i: u8)
        requires
            old(bus)@.wf(),
        ensures
            final(bus)@.wf(),
            machine(*final(self), final(bus)@) == machine(*old(self), old(bus)@).inc_operand(i),
    {
        reveal(Machine::inc_operand);
        let v: u8 = self.read_operand(bus, i);
        self.f = flags_set(self.f, v == 255, false, v % 16 == 15, self.c());
        self.write_operand(bus, i, v.wrapping_add(1));
    }

    fn dec_operand(&mut self, bus: &mut Bus, i: u8)
        requires
            old(bus)@.wf(),
        ensures
            final(bus)@.wf(),
            machine(*final(self), final(bus)@) == machine(*old(self), old(bus)@).dec_operand(i),
    {
        reveal(Machine::dec_operand);
        let v: u8 = self.read_operand(bus, i);
        self.f = flags_set(self.f, v == 1, true, v % 16 == 0, self.c());
        self.write_operand(bus, i, v.wrapping_sub(1));
    }

    fn ld_operand_d8(&mut self, bus: &mut Bus, i: u8)
        requires
            old(bus)@.wf(),
        ensures
            final(bus)@.wf(),
            machine(*final(self), final(bus)@) == machine(*old(self), old(bus)@).ld_operand_d8(i),
    {
        reveal(Machine::ld_operand_d8);
        let v: u8 = self.fetch8(bus);
        self.write_operand(bus, i, v);
    }

    fn ld_operand_operand(&mut self, bus: &mut Bus, dst: u8, src: u8)
        requires
            old(bus)@.wf(),
        ensures
            final(bus)@.wf(),
            machine(*final(self), final(bus)@) == machine(*old(self), old(bus)@).ld_operand_operand(dst, src),
    {
        reveal(Machine::ld_operand_operand);
        let v: u8 = self.read_operand(bus, src);
        self.write_operand(bus, dst, v);
    }

    fn alu_operand(&mut self, bus: &mut Bus, op: u8, i: u8)
        requires
            old(bus)@.wf(),
            op < 8,
        ensures
            final(bus)@.wf(),
            machine(*final(self), final(bus)@) == machine(*old(self), old(bus)@).alu_operand(op, i),
    {
        reveal(Machine::alu_operand);
        let v: u8 = self.read_operand(bus, i);
        self.alu(op, v);
    }

    fn alu_d8(&mut self, bus: &mut Bus, op: u8)
        requires
            old(bus)@.wf(),
            op < 8,
        ensures
            final(bus)@.wf(),
            machine(*final(self), final(bus)@) == machine(*old(self), old(bus)@).alu_d8(op),
    {
        reveal(Machine::alu_d8);
        let v: u8 = self.fetch8(bus);
        self.alu(op, v);
    }

    fn ld_a16_sp(&mut self, bus: &mut Bus)
        requires
            old(bus)@.wf(),
        ensures
            final(bus)@.wf(),
            machine(*final(self), final(bus)@) == machine(*old(self), old(bus)@).ld_a16_sp(),
    {
        reveal(Machine::ld_a16_sp);
        let addr: u16 = self.fetch16(bus);
        let sp: u16 = self.sp;
        self.write8(bus, addr, (sp % 256) as u8);
        self.write8(bus, addr.wrapping_add(1), (sp / 256) as u8);
    }

    /// STOP: consume the padding byte, then stop until a button press.
    fn stop(&mut self, bus: &mut Bus)
        requires
            old(bus)@.wf(),
        ensures
            final(bus)@.wf(),
            machine(*final(self), final(bus)@) == machine(*old(self), old(bus)@).stop(),
    {
        reveal(Machine::stop);
        let _padding: u8 = self.fetch8(bus);
        self.stopped = true;
    }

    fn jr(&mut self, bus: &mut Bus, taken: bool)
        requires
            old(bus)@.wf(),
        ensures
            final(bus)@.wf(),
            machine(*final(self), final(bus)@) == machine(*old(self), old(bus)@).jr(taken),
    {
        reveal(Machine::jr);
        let n: u8 = self.fetch8(bus);
        if taken {
            self.internal(bus);
            self.pc = displace(self.pc, n);
        }
    }

    fn halt(&mut self, bus: &mut Bus)
        requires
            old(bus)@.wf(),
        ensures
            final(bus)@.wf(),
            machine(*final(self), final(bus)@) == machine(*old(self), old(bus)@).halt(),
    {
        let pending: u8 = bus.io[0x0F] & bus.ie & 0x1F;
        if !self.ime && !self.ei_pending && pending != 0 {
            self.halt_bug = true;
        } else {
            self.halted = true;
        }
    }

    fn ret(&mut self, bus: &mut Bus)
        requires
            old(bus)@.wf(),
        ensures
            final(bus)@.wf(),
            machine(*final(self), final(bus)@) == machine(*old(self), old(bus)@).ret(),
    {
        reveal(Machine::ret);
        self.pc = self.pop16(bus);
        self.internal(bus);
    }

    fn ret_cc(&mut self, bus: &mut Bus, taken: bool)
        requires
            old(bus)@.wf(),
        ensures
            final(bus)@.wf(),
            machine(*final(self), final(bus)@) == machine(*old(self), old(bus)@).ret_cc(taken),
    {
        self.internal(bus);
        if taken {
            self.ret(bus);
        }
    }

    fn reti(&mut self, bus: &mut Bus)
        requires
            old(bus)@.wf(),
        ensures
            final(bus)@.wf(),
            machine(*final(self), final(bus)@) == machine(*old(self), old(bus)@).reti(),
    {
        self.ret(bus);
        self.ime = true;
    }

    fn pop_pair(&mut self, bus: &mut Bus, p: u8)
        requires
            old(bus)@.wf(),
        ensures
            final(bus)@.wf(),
            machine(*final(self), final(bus)@) == machine(*old(self), old(bus)@).pop_pair(p),
    {
        reveal(Machine::pop_pair);
        let v: u16 = self.pop16(bus);
        self.set_stack_pair(p, v);
    }

    fn push_pair(&mut self, bus: &mut Bus, p: u8)
        requires
            old(bus)@.wf(),
        ensures
            final(bus)@.wf(),
            machine(*final(self), final(bus)@) == machine(*old(self), old(bus)@).push_pair(p),
    {
        let v: u16 = self.get_stack_pair(p);
        self.push16(bus, v);
    }

    fn jp(&mut self, bus: &mut Bus, taken: bool)
        requires
            old(bus)@.wf(),
        ensures
            final(bus)@.wf(),
            machine(*final(self), final(bus)@) == machine(*old(self), old(bus)@).jp(taken),
    {
        reveal(Machine::jp);
        let n: u16 = self.fetch16(bus);
        if taken {
            self.pc = n;
            self.internal(bus);
        }
    }

    fn call(&mut self, bus: &mut Bus, taken: bool)
        requires
            old(bus)@.wf(),
        ensures
            final(bus)@.wf(),
            machine(*final(self), final(bus)@) == machine(*old(self), old(bus)@).call(taken),
    {
        reveal(Machine::call);
        let n: u16 = self.fetch16(bus);
        if taken {
            let pc: u16 = self.pc;
            self.push16(bus, pc);
            self.pc = n;
        }
    }

    fn rst(&mut self, bus: &mut Bus, addr: u16)
        requires
            old(bus)@.wf(),
        ensures
            final(bus)@.wf(),
            machine(*final(self), final(bus)@) == machine(*old(self), old(bus)@).rst(addr),
    {
        reveal(Machine::rst);
        let pc: u16 = self.pc;
        self.push16(bus, pc);
        self.pc = addr;
    }

    fn far_address(&mut self, bus: &mut Bus, kind: u8) -> (r: u16)
        requires
            old(bus)@.wf(),
        ensures
            final(bus)@.wf(),
            (machine(*final(self), final(bus)@), r) == machine(*old(self), old(bus)@).far_address(kind),
    {
        if kind == 0 {
            let n: u8 = self.fetch8(bus);
            0xFF00 + n as u16
        } else if kind == 1 {
            0xFF00 + self.c as u16
        } else {
            self.fetch16(bus)
        }
    }

    fn ld_far_a(&mut self, bus: &mut Bus, kind: u8)
        requires
            old(bus)@.wf(),
        ensures
            final(bus)@.wf(),
            machine(*final(self), final(bus)@) == machine(*old(self), old(bus)@).ld_far_a(kind),
    {
        reveal(Machine::ld_far_a);
        let addr: u16 = self.far_address(bus, kind);
        let a: u8 = self.a;
        self.write8(bus, addr, a);
    }

    fn ld_a_far(&mut self, bus: &mut Bus, kind: u8)
        requires
            old(bus)@.wf(),
        ensures
            final(bus)@.wf(),
            machine(*final(self), final(bus)@) == machine(*old(self), old(bus)@).ld_a_far(kind),
    {
        reveal(Machine::ld_a_far);
        let addr: u16 = self.far_address(bus, kind);
        self.a = self.read8(bus, addr);
    }

    fn add_sp(&mut self, bus: &mut Bus)
        requires
            old(bus)@.wf(),
        ensures
            final(bus)@.wf(),
            machine(*final(self), final(bus)@) == machine(*old(self), old(bus)@).add_sp(),
    {
        reveal(Machine::add_sp);
        let n: u8 = self.fetch8(bus);
        self.internal(bus);
        self.internal(bus);
        let f: u8 = self.sp_flags_of(n);
        self.sp = displace(self.sp, n);
        self.f = f;
    }

    fn ld_hl_sp(&mut self, bus: &mut Bus)
        requires
            old(bus)@.wf(),
        ensures
            final(bus)@.wf(),
            machine(*final(self), final(bus)@) == machine(*old(self), old(bus)@).ld_hl_sp(),
    {
        reveal(Machine::ld_hl_sp);
        let n: u8 = self.fetch8(bus);
        self.internal(bus);
        let f: u8 = self.sp_flags_of(n);
        let v: u16 = displace(self.sp, n);
        self.set_pair(2, v);
        self.f = f;
    }

    fn ld_sp_hl(&mut self, bus: &mut Bus)
        requires
            old(bus)@.wf(),
        ensures
            final(bus)@.wf(),
            machine(*final(self), final(bus)@) == machine(*old(self), old(bus)@).ld_sp_hl(),
    {
        self.sp = self.hl();
        self.internal(bus);
    }

    fn cb_rotate(&mut self, bus: &mut Bus, op: u8, i: u8)
        requires
            old(bus)@.wf(),
        ensures
            final(bus)@.wf(),
            machine(*final(self), final(bus)@) == machine(*old(self), old(bus)@).cb_rotate(op, i),
    {
        reveal(Machine::cb_rotate);
        let v: u8 = self.read_operand(bus, i);
        let (r, c): (u8, bool) = rotate(op, v, self.c());
        self.f = flags_set(self.f, r == 0, false, false, c);
        self.write_operand(bus, i, r);
    }

    fn cb_bit(&mut self, bus: &mut Bus, n: u8, i: u8)
        requires
            old(bus)@.wf(),
            n < 8,
        ensures
            final(bus)@.wf(),
            machine(*final(self), final(bus)@) == machine(*old(self), old(bus)@).cb_bit(n, i),
    {
        reveal(Machine::cb_bit);
        let v: u8 = self.read_operand(bus, i);
        let f1: u8 = flag_set(self.f, 0x80, v & (1u8 << n) == 0);
        let f2: u8 = flag_set(f1, 0x40, false);
        self.f = flag_set(f2, 0x20, true);
    }

    fn cb_res(&mut self, bus: &mut Bus, n: u8, i: u8)
        requires
            old(bus)@.wf(),
            n < 8,
        ensures
            final(bus)@.wf(),
            machine(*final(self), final(bus)@) == machine(*old(self), old(bus)@).cb_res(n, i),
    {
        reveal(Machine::cb_res);
        let v: u8 = self.read_operand(bus, i);
        self.write_operand(bus, i, v & !(1u8 << n));
    }

    fn cb_set(&mut self, bus: &mut Bus, n: u8, i: u8)
        requires
            old(bus)@.wf(),
            n < 8,
        ensures
            final(bus)@.wf(),
            machine(*final(self), final(bus)@) == machine(*old(self), old(bus)@).cb_set(n, i),
    {
        reveal(Machine::cb_set);
        let v: u8 = self.read_operand(bus, i);
        self.write_operand(bus, i, v | (1u8 << n));
    }

    fn exec_cb(&mut self, bus: &mut Bus, op: u8)
        requires
            old(bus)@.wf(),
        ensures
            final(bus)@.wf(),
            machine(*final(self), final(bus)@) == machine(*old(self), old(bus)@).exec_cb(op),
    {
        let y: u8 = (op / 8) % 8;
        let z: u8 = op % 8;
        match op {
            0x00..=0x3F => self.cb_rotate(bus, y, z),
            0x40..=0x7F => self.cb_bit(bus, y, z),
            0x80..=0xBF => self.cb_res(bus, y, z),
            0xC0..=0xFF => self.cb_set(bus, y, z),
        }
    }

    fn exec_block0(&mut self, bus: &mut Bus, y: u8, z: u8)
        requires
            old(bus)@.wf(),
            y < 8,
            z < 8,
        ensures
            final(bus)@.wf(),
            machine(*final(self), final(bus)@) == machine(*old(self), old(bus)@).exec_block0(y, z),
    {
        reveal(Machine::exec_block0);
        match z {
            0 => {
                if y == 1 {
                    self.ld_a16_sp(bus);
                } else if y == 2 {
                    self.stop(bus);
                } else if y >= 3 {
                    let taken = y == 3 || self.test(y);
                    self.jr(bus, taken);
                }
            },
            1 => {
                if y % 2 == 0 {
                    self.ld_pair_d16(bus, y / 2);
                } else {
                    self.add_hl_pair(bus, y / 2);
                }
            },
            2 => {
                if y % 2 == 0 {
                    self.ld_indirect_a(bus, y / 2);
                } else {
                    self.ld_a_indirect(bus, y / 2);
                }
            },
            3 => {
                if y % 2 == 0 {
                    self.inc_pair(bus, y / 2);
                } else {
                    self.dec_pair(bus, y / 2);
                }
            },
            4 => self.inc_operand(bus, y),
            5 => self.dec_operand(bus, y),
            6 => self.ld_operand_d8(bus, y),
            _ => self.acc(y),
        }
    }

    fn exec_block3_low(&mut self, bus: &mut Bus, y: u8, z: u8)
        requires
            old(bus)@.wf(),
            y < 8,
            z < 4,
        ensures
            final(bus)@.wf(),
            machine(*final(self), final(bus)@) == machine(*old(self), old(bus)@).exec_block3_low(y, z),
    {
        reveal(Machine::exec_block3_low);
        match z {
            0 => {
                match y {
                    0..=3 => {
                        let taken = self.test(y);
                        self.ret_cc(bus, taken);
                    },
                    4 => self.ld_far_a(bus, 0),
                    5 => self.add_sp(bus),
                    6 => self.ld_a_far(bus, 0),
                    _ => self.ld_hl_sp(bus),
                }
            },
            1 => {
                match y {
                    1 => self.ret(bus),
                    3 => self.reti(bus),
                    5 => self.pc = self.hl(),
                    7 => self.ld_sp_hl(bus),
                    _ => self.pop_pair(bus, y / 2),
                }
            },
            2 => {
                match y {
                    0..=3 => {
                        let taken = self.test(y);
                        self.jp(bus, taken);
                    },
                    4 => self.ld_far_a(bus, 1),
                    5 => self.ld_far_a(bus, 2),
                    6 => self.ld_a_far(bus, 1),
                    _ => self.ld_a_far(bus, 2),
                }
            },
            _ => {
                match y {
                    0 => self.jp(bus, true),
                    1 => {
                        let op: u8 = self.fetch8(bus);
                        self.exec_cb(bus, op);
                    },
                    6 => {
                        self.ime = false;
                        self.ei_pending = false;
                    },
                    7 => self.ei_pending = true,
                    _ => self.undefined(bus),
                }
            },
        }
    }

    /// Undefined opcodes act as 2-byte NOPs on real DMG hardware: they consume
    /// the following byte and do nothing else.
    fn undefined(&mut self, bus: &mut Bus)
        requires
            old(bus)@.wf(),
        ensures
            final(bus)@.wf(),
            machine(*final(self), final(bus)@) == machine(*old(self), old(bus)@).undefined(),
    {
        let _padding: u8 = self.fetch8(bus);
    }

    fn exec_block3_high(&mut self, bus: &mut Bus, y: u8, z: u8)
        requires
            old(bus)@.wf(),
            y < 8,
            4 <= z < 8,
        ensures
            final(bus)@.wf(),
            machine(*final(self), final(bus)@) == machine(*old(self), old(bus)@).exec_block3_high(y, z),
    {
        reveal(Machine::exec_block3_high);
        match z {
            4 => {
                if y < 4 {
                    let taken = self.test(y);
                    self.call(bus, taken);
                } else {
                    self.undefined(bus);
                }
            },
            5 => {
                if y % 2 == 0 {
                    self.push_pair(bus, y / 2);
                } else if y == 1 {
                    self.call(bus, true);
                } else {
                    self.undefined(bus);
                }
            },
            6 => self.alu_d8(bus, y),
            _ => self.rst(bus, y as u16 * 8),
        }
    }

    /// Carry out the instruction `op`, whose opcode has been fetched, returning
    /// the T-cycles of the instruction: those that the bus was advanced by, and
    /// the four of the fetch.
    pub fn exec_opcode(&mut self, op: u8, bus: &mut Bus) -> (r: u32)
        requires
            old(bus)@.wf(),
            old(self).ticked <= 0xFFFF_FF00,
        ensures
            final(bus)@.wf(),
            machine(*final(self), final(bus)@) == machine(*old(self), old(bus)@).exec(op),
            r == instruction_cycles(
                op,
                old(self).condition((op / 8) % 8),
                machine(*old(self), old(bus)@).fetch8().1,
            ),
            r == 4 + final(self).ticked - old(self).ticked,
            r % 4 == 0,
            4 <= r <= 24,
    {
        let before: u32 = self.ticked;
        proof {
            law_decoder_cycles(machine(*self, bus@), op);
        }
        self.decode(bus, op);
        self.ticked - before + 4
    }

    fn decode(&mut self, bus: &mut Bus, op: u8)
        requires
            old(bus)@.wf(),
        ensures
            final(bus)@.wf(),
            machine(*final(self), final(bus)@) == machine(*old(self), old(bus)@).exec(op),
    {
        reveal(Machine::exec);
        let y: u8 = (op / 8) % 8;
        let z: u8 = op % 8;
        match op / 64 {
            0 => self.exec_block0(bus, y, z),
            1 => {
                if op == 0x76 {
                    self.halt(bus);
                } else {
                    self.ld_operand_operand(bus, y, z);
                }
            },
            2 => self.alu_operand(bus, y, z),
            _ => {
                if z < 4 {
                    self.exec_block3_low(bus, y, z);
                } else {
                    self.exec_block3_high(bus, y, z);
                }
            },
        }
    }

    fn fetch_opcode(&mut self, bus: &mut Bus) -> (r: u8)
        requires
            old(bus)@.wf(),
        ensures
            final(bus)@.wf(),
            (machine(*final(self), final(bus)@), r) == machine(*old(self), old(bus)@).opcode_fetched(),
    {
        reveal(Machine::opcode_fetched);
        self.halt_bug = false;
        self.ticked = 0;
        let op: u8 = self.fetch8(bus);
        self.breakpoint = self.breakpoint || op == 0x40;
        op
    }

    /// Execute one instruction, returning the number of machine cycles used.
    pub fn execute(&mut self, bus: &mut Bus) -> (r: u32)
        requires
            old(bus)@.wf(),
        ensures
            final(bus)@.wf(),
            machine(*final(self), final(bus)@) == machine(*old(self), old(bus)@).execute(),
            r == final(self).ticked,
    {
        reveal(Machine::execute);
        // If a bugged HALT ran on the previous step, the byte after it must be
        // fetched again: rewind PC by one after this instruction completes.
        let was_bugged = self.halt_bug;
        let op: u8 = self.fetch_opcode(bus);
        assert(self.ticked == 4) by {
            reveal(Machine::opcode_fetched);
            reveal(Machine::tick);
        }
        let _cycles: u32 = self.exec_opcode(op, bus);
        self.rewind(bus, was_bugged);
        self.ticked
    }

    fn rewind(&mut self, bus: &mut Bus, bugged: bool)
        requires
            old(bus)@.wf(),
        ensures
            final(bus)@.wf(),
            machine(*final(self), final(bus)@) == machine(*old(self), old(bus)@).rewound(bugged),
    {
        if bugged {
            self.pc = self.pc.wrapping_sub(1);
        }
    }

    fn interrupt(&mut self, bus: &mut Bus)
        requires
            old(bus)@.wf(),
        ensures
            final(bus)@.wf(),
            machine(*final(self), final(bus)@) == machine(*old(self), old(bus)@).interrupted(),
    {
        reveal(Machine::interrupted);
        self.ticked = 0;
        self.ime = false;
        self.halted = false;
        let pc: u16 = self.pc;
        self.internal(bus);
        self.internal(bus);
        self.push8(bus, (pc / 256) as u8);
        let pending: u8 = bus.io[0x0F] & bus.ie & 0x1F;
        let pc: u16 = self.pc;
        self.push8(bus, (pc % 256) as u8);
        self.internal(bus);
        self.vector(bus, pending);
    }

    fn vector(&mut self, bus: &mut Bus, pending: u8)
        requires
            old(bus)@.wf(),
        ensures
            final(bus)@.wf(),
            machine(*final(self), final(bus)@) == machine(*old(self), old(bus)@).vectored(pending),
    {
        if pending == 0 {
            self.pc = 0;
        } else {
            let n: u8 = first_bit(pending);
            if n == 2 {
                self.timer_interrupts = self.timer_interrupts.wrapping_add(1);
            }
            let flags: u8 = bus.io[0x0F] & !(1u8 << n);
            bus.io[0x0F] = flags;
            self.pc = 0x40 + n as u16 * 8;
        }
    }

    /// Take a pending interrupt, returning the cycles used: none without one.
    pub fn take_interrupt(&mut self, bus: &mut Bus) -> (r: u32)
        requires
            old(bus)@.wf(),
        ensures
            final(bus)@.wf(),
            ({
                let m = machine(*old(self), old(bus)@);
                if m.pending() == 0 {
                    machine(*final(self), final(bus)@) == m && r == 0
                } else {
                    machine(*final(self), final(bus)@) == m.interrupted() && r == final(self).ticked
                }
            }),
    {
        let pending: u8 = bus.io[0x0F] & bus.ie & 0x1F;
        if pending == 0 {
            return 0;
        }
        self.interrupt(bus);
        self.ticked
    }
}

fn first_bit(pending: u8) -> (r: u8)
    ensures
        r == Machine::first_pending(pending),
        r <= 4,
{
    if pending & 1 != 0 {
        0
    } else if pending & 2 != 0 {
        1
    } else if pending & 4 != 0 {
        2
    } else if pending & 8 != 0 {
        3
    } else {
        4
    }
}

impl Default for Cpu {
    fn default() -> (r: Cpu)
        ensures
            r == Cpu::initial(),
    {
        Cpu::new()
    }
}

} // verus!

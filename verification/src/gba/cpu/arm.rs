//! ARM (32-bit) instruction set decoder/executor for the ARM7TDMI.
//!
//! Each instruction is dispatched by examining the top bits; condition codes
//! gate every instruction.

use crate::gba::cpu::{core_of, field, flag, mode, Bus, Core, Cpu};
use vstd::prelude::*;
use vstd::wrapping::u32_specs;

verus! {

/// Whether condition `cond` holds of the flags in `cpsr`.
pub open spec fn condition(cpsr: u32, cond: u32) -> bool {
    let n = cpsr & flag::N != 0;
    let z = cpsr & flag::Z != 0;
    let c = cpsr & flag::C != 0;
    let v = cpsr & flag::V != 0;
    if cond == 0x0 {
        z
    } else if cond == 0x1 {
        !z
    } else if cond == 0x2 {
        c
    } else if cond == 0x3 {
        !c
    } else if cond == 0x4 {
        n
    } else if cond == 0x5 {
        !n
    } else if cond == 0x6 {
        v
    } else if cond == 0x7 {
        !v
    } else if cond == 0x8 {
        c && !z
    } else if cond == 0x9 {
        !c || z
    } else if cond == 0xA {
        n == v
    } else if cond == 0xB {
        n != v
    } else if cond == 0xC {
        !z && n == v
    } else if cond == 0xD {
        z || n != v
    } else {
        true
    }
}

pub(crate) fn cond_holds(cpu: &Cpu, cond: u32) -> (r: bool)
    ensures
        r == condition(cpu.cpsr, cond),
{
    let n = cpu.cpsr & flag::N != 0;
    let z = cpu.cpsr & flag::Z != 0;
    let c = cpu.cpsr & flag::C != 0;
    let v = cpu.cpsr & flag::V != 0;
    match cond {
        0x0 => z,
        0x1 => !z,
        0x2 => c,
        0x3 => !c,
        0x4 => n,
        0x5 => !n,
        0x6 => v,
        0x7 => !v,
        0x8 => c && !z,
        0x9 => !c || z,
        0xA => n == v,
        0xB => n != v,
        0xC => !z && n == v,
        0xD => z || n != v,
        _ => true,
    }
}

/// `v` rotated right by `n` (0-31).
pub open spec fn rotated(v: u32, n: u32) -> u32 {
    if n == 0 {
        v
    } else {
        (v >> n) | (v << ((32 - n) as u32))
    }
}

fn rotate(v: u32, n: u32) -> (r: u32)
    requires
        n < 32,
    ensures
        r == rotated(v, n),
{
    if n == 0 {
        v
    } else {
        (v >> n) | (v << (32 - n))
    }
}

/// The barrel shifter: the shifted value and the carry-out. The types are LSL,
/// LSR, ASR and ROR; an amount of 0 means 32 for LSR and ASR and a rotation
/// through carry for ROR. ASR fills the vacated bits with the sign.
pub open spec fn shifted(operand: u32, stype: u32, amount: u32, carry_in: bool) -> (u32, bool) {
    if stype == 0 {
        if amount == 0 {
            (operand, carry_in)
        } else if amount < 32 {
            (operand << amount, operand & (1u32 << ((32 - amount) as u32)) != 0)
        } else if amount == 32 {
            (0, operand & 1 != 0)
        } else {
            (0, false)
        }
    } else if stype == 1 {
        if amount == 0 || amount == 32 {
            (0, operand >> 31 != 0)
        } else if amount < 32 {
            (operand >> amount, operand & (1u32 << ((amount - 1) as u32)) != 0)
        } else {
            (0, false)
        }
    } else if stype == 2 {
        if amount == 0 || amount >= 32 {
            (
                if operand & 0x8000_0000 != 0 {
                    u32::MAX
                } else {
                    0
                },
                operand >> 31 != 0,
            )
        } else {
            (
                if operand >> 31 != 0 {
                    (operand >> amount) | !(((1u32 << ((32 - amount) as u32)) - 1) as u32)
                } else {
                    operand >> amount
                },
                operand & (1u32 << ((amount - 1) as u32)) != 0,
            )
        }
    } else if amount == 0 {
        (
            (operand >> 1) | (if carry_in {
                0x8000_0000u32
            } else {
                0
            }),
            operand & 1 != 0,
        )
    } else {
        let n = amount % 32;
        (
            rotated(operand, n),
            if n == 0 {
                operand & 0x8000_0000 != 0
            } else {
                operand & (1u32 << ((n - 1) as u32)) != 0
            },
        )
    }
}

/// Barrel shifter for a register operand. Returns (shifted value, carry-out).
pub fn shift_reg(operand: u32, stype: u32, amount: u32, carry_in: bool) -> (r: (u32, bool))
    ensures
        r == shifted(operand, stype, amount, carry_in),
{
    match stype {
        0 => {
            if amount == 0 {
                (operand, carry_in)
            } else if amount < 32 {
                (operand << amount, operand & (1u32 << (32 - amount)) != 0)
            } else if amount == 32 {
                (0, operand & 1 != 0)
            } else {
                (0, false)
            }
        },
        1 => {
            if amount == 0 || amount == 32 {
                (0, operand >> 31 != 0)
            } else if amount < 32 {
                (operand >> amount, operand & (1u32 << (amount - 1)) != 0)
            } else {
                (0, false)
            }
        },
        2 => {
            if amount == 0 || amount >= 32 {
                (
                    if operand & 0x8000_0000 != 0 {
                        u32::MAX
                    } else {
                        0
                    },
                    operand >> 31 != 0,
                )
            } else {
                let c = operand & (1u32 << (amount - 1)) != 0;
                let n: u32 = 32 - amount;
                assert(1u32 << n >= 1) by (bit_vector)
                    requires
                        n < 32,
                ;
                let v: u32 = if operand >> 31 != 0 {
                    (operand >> amount) | !((1u32 << n) - 1)
                } else {
                    operand >> amount
                };
                (v, c)
            }
        },
        _ => {
            if amount == 0 {
                let v: u32 = (operand >> 1) | (if carry_in {
                    0x8000_0000u32
                } else {
                    0
                });
                (v, operand & 1 != 0)
            } else {
                let n: u32 = amount % 32;
                let c = if n == 0 {
                    operand & 0x8000_0000 != 0
                } else {
                    operand & (1u32 << (n - 1)) != 0
                };
                (rotate(operand, n), c)
            }
        },
    }
}

/// `a + b` with its carry and overflow.
pub open spec fn sum_flags(a: u32, b: u32) -> (u32, bool, bool) {
    let r = u32_specs::wrapping_add(a, b);
    (r, a + b > u32::MAX, (a ^ r) & (b ^ r) & 0x8000_0000 != 0)
}

/// `a - b` with its carry (no borrow) and overflow.
pub open spec fn difference_flags(a: u32, b: u32) -> (u32, bool, bool) {
    let r = u32_specs::wrapping_sub(a, b);
    (r, a >= b, (a ^ b) & (a ^ r) & 0x8000_0000 != 0)
}

pub(crate) fn add_flags(a: u32, b: u32) -> (r: (u32, bool, bool))
    ensures
        r == sum_flags(a, b),
{
    let r: u32 = a.wrapping_add(b);
    let c = a as u64 + b as u64 > u32::MAX as u64;
    (r, c, (a ^ r) & (b ^ r) & 0x8000_0000 != 0)
}

pub(crate) fn sub_flags(a: u32, b: u32) -> (r: (u32, bool, bool))
    ensures
        r == difference_flags(a, b),
{
    let r: u32 = a.wrapping_sub(b);
    (r, a >= b, (a ^ b) & (a ^ r) & 0x8000_0000 != 0)
}

/// `a + b + carry`, in two steps whose carries and overflows are joined.
pub open spec fn adc(a: u32, b: u32, carry: bool) -> (u32, bool, bool) {
    let (t, c1, v1) = sum_flags(a, b);
    let (r, c2, v2) = sum_flags(
        t,
        if carry {
            1
        } else {
            0
        },
    );
    (r, c1 || c2, v1 || v2)
}

/// `a - b - !carry`, in two steps whose carries and overflows are joined.
pub open spec fn sbc(a: u32, b: u32, carry: bool) -> (u32, bool, bool) {
    let (t, c1, v1) = difference_flags(a, b);
    let (r, c2, v2) = difference_flags(
        t,
        if carry {
            0
        } else {
            1
        },
    );
    (r, c1 || c2, v1 || v2)
}

pub(crate) fn add_carry(a: u32, b: u32, carry: bool) -> (r: (u32, bool, bool))
    ensures
        r == adc(a, b, carry),
{
    let (t, c1, v1): (u32, bool, bool) = add_flags(a, b);
    let (r, c2, v2): (u32, bool, bool) = add_flags(
        t,
        if carry {
            1
        } else {
            0
        },
    );
    (r, c1 || c2, v1 || v2)
}

pub(crate) fn sub_carry(a: u32, b: u32, carry: bool) -> (r: (u32, bool, bool))
    ensures
        r == sbc(a, b, carry),
{
    let (t, c1, v1): (u32, bool, bool) = sub_flags(a, b);
    let (r, c2, v2): (u32, bool, bool) = sub_flags(
        t,
        if carry {
            0
        } else {
            1
        },
    );
    (r, c1 || c2, v1 || v2)
}

/// `cpsr` with N and Z of `result`, and C and V as given.
pub open spec fn flagged(cpsr: u32, result: u32, c: bool, v: bool) -> u32 {
    let f0 = cpsr & !field::FLAGS;
    let f1 = if result & 0x8000_0000 != 0 {
        f0 | flag::N
    } else {
        f0
    };
    let f2 = if result == 0 {
        f1 | flag::Z
    } else {
        f1
    };
    let f3 = if c {
        f2 | flag::C
    } else {
        f2
    };
    if v {
        f3 | flag::V
    } else {
        f3
    }
}

pub(crate) fn set_flags(cpu: &mut Cpu, result: u32, c: bool, v: bool)
    ensures
        *final(cpu) == (Cpu { cpsr: flagged(old(cpu).cpsr, result, c, v), ..*old(cpu) }),
{
    let mut f: u32 = cpu.cpsr & !field::FLAGS;
    if result & 0x8000_0000 != 0 {
        f = f | flag::N;
    }
    if result == 0 {
        f = f | flag::Z;
    }
    if c {
        f = f | flag::C;
    }
    if v {
        f = f | flag::V;
    }
    cpu.cpsr = f;
}

/// An 8-bit immediate rotated right by twice `rot` (0-15).
pub open spec fn immediate(v: u32, rot: u32) -> u32 {
    rotated(v, (rot * 2) as u32)
}

fn rotate_imm(v: u32, rot: u32) -> (r: u32)
    requires
        rot < 16,
    ensures
        r == immediate(v, rot),
{
    rotate(v, rot * 2)
}

/// The second operand of a data-processing instruction and the carry-out of
/// the shifter.
#[verifier::opaque]
pub open spec fn operand2(cpu: Cpu, inst: u32) -> (u32, bool) {
    if inst & 0x0200_0000 != 0 {
        let imm = inst & 0xFF;
        let rot = (inst >> 8) & 0xF;
        (
            immediate(imm, rot),
            if rot == 0 {
                cpu.carry()
            } else {
                immediate(imm, (rot - 1) as u32) & 0x8000_0000 != 0
            },
        )
    } else {
        let amount = if inst & 0x10 != 0 {
            cpu.value((inst >> 8) & 0xF) & 0xFF
        } else {
            (inst >> 7) & 0x1F
        };
        shifted(cpu.value(inst & 0xF), (inst >> 5) & 3, amount, cpu.carry())
    }
}

fn decode_operand2(cpu: &Cpu, inst: u32) -> (r: (u32, bool))
    ensures
        r == operand2(*cpu, inst),
{
    broadcast use crate::bits::group_masks;

    reveal(operand2);
    let carry = cpu.cpsr & flag::C != 0;
    if inst & 0x0200_0000 != 0 {
        let imm: u32 = inst & 0xFF;
        let rot: u32 = (inst >> 8) & 0xF;
        let c = if rot == 0 {
            carry
        } else {
            rotate_imm(imm, rot - 1) & 0x8000_0000 != 0
        };
        (rotate_imm(imm, rot), c)
    } else {
        let amount: u32 = if inst & 0x10 != 0 {
            cpu.reg((inst >> 8) & 0xF) & 0xFF
        } else {
            (inst >> 7) & 0x1F
        };
        shift_reg(cpu.reg(inst & 0xF), (inst >> 5) & 3, amount, carry)
    }
}

/// The sixteen operations, by number: AND, EOR, SUB, RSB, ADD, ADC, SBC, RSC,
/// TST, TEQ, CMP, CMN, ORR, MOV, BIC, MVN. The logical ones pass the shifter's
/// carry on and clear V.
#[verifier::opaque]
pub open spec fn operation(op: u32, a: u32, b: u32, shifter: bool, carry: bool) -> (
    u32,
    bool,
    bool,
) {
    if op == 0 || op == 8 {
        (a & b, shifter, false)
    } else if op == 1 || op == 9 {
        (a ^ b, shifter, false)
    } else if op == 2 || op == 10 {
        difference_flags(a, b)
    } else if op == 3 {
        difference_flags(b, a)
    } else if op == 4 || op == 11 {
        sum_flags(a, b)
    } else if op == 5 {
        adc(a, b, carry)
    } else if op == 6 {
        sbc(a, b, carry)
    } else if op == 7 {
        sbc(b, a, carry)
    } else if op == 12 {
        (a | b, shifter, false)
    } else if op == 13 {
        (b, shifter, false)
    } else if op == 14 {
        (a & !b, shifter, false)
    } else {
        (!b, shifter, false)
    }
}

fn operate(op: u32, a: u32, b: u32, shifter: bool, carry: bool) -> (r: (u32, bool, bool))
    ensures
        r == operation(op, a, b, shifter, carry),
{
    reveal(operation);
    match op {
        0 | 8 => (a & b, shifter, false),
        1 | 9 => (a ^ b, shifter, false),
        2 | 10 => sub_flags(a, b),
        3 => sub_flags(b, a),
        4 | 11 => add_flags(a, b),
        5 => add_carry(a, b, carry),
        6 => sub_carry(a, b, carry),
        7 => sub_carry(b, a, carry),
        12 => (a | b, shifter, false),
        13 => (b, shifter, false),
        14 => (a & !b, shifter, false),
        _ => (!b, shifter, false),
    }
}

/// The result of a data-processing instruction written to `rd`. With `s` a
/// write to r15 returns from an exception: the mode's SPSR becomes the CPSR. A
/// user mode has none, and keeps r15.
#[verifier::opaque]
pub open spec fn dp_written(cpu: Cpu, rd: u32, s: bool, result: u32) -> Cpu {
    if rd == 15 && s {
        if cpu.privileged() {
            cpu.with_cpsr(cpu.spsr_of(cpu.mode_bits())).branched(result)
        } else {
            cpu
        }
    } else {
        cpu.with_value(rd, result)
    }
}

/// A data-processing instruction. The comparisons always set the flags and
/// write nothing.
#[verifier::opaque]
pub open spec fn data_processed(cpu: Cpu, inst: u32) -> Cpu {
    let op = (inst >> 21) & 0xF;
    let s = inst & 0x0010_0000 != 0;
    let (b, shifter) = operand2(cpu, inst);
    let (result, c, v) = operation(op, cpu.value((inst >> 16) & 0xF), b, shifter, cpu.carry());
    let compares = 8 <= op <= 11;
    let set = if compares || s {
        Cpu { cpsr: flagged(cpu.cpsr, result, c, v), ..cpu }
    } else {
        cpu
    };
    let written = if compares {
        set
    } else {
        dp_written(set, (inst >> 12) & 0xF, s, result)
    };
    written.with_cycles(1)
}

fn write_dp(cpu: &mut Cpu, rd: u32, s: bool, result: u32)
    requires
        rd < 16,
    ensures
        *final(cpu) == dp_written(*old(cpu), rd, s, result),
{
    reveal(dp_written);
    let m: u32 = cpu.cpsr & 0x1F;
    if rd == 15 && s {
        if m != mode::USR && m != 0x1F {
            let spsr: u32 = cpu.get_spsr(m);
            cpu.set_cpsr(spsr);
            cpu.branch(result);
        }
    } else {
        cpu.set_reg(rd, result);
    }
}

fn data_operation(cpu: &mut Cpu, inst: u32)
    ensures
        *final(cpu) == data_processed(*old(cpu), inst),
{
    broadcast use crate::bits::group_masks;

    reveal(data_processed);
    let op: u32 = (inst >> 21) & 0xF;
    let s = inst & 0x0010_0000 != 0;
    let (b, shifter): (u32, bool) = decode_operand2(cpu, inst);
    let a: u32 = cpu.reg((inst >> 16) & 0xF);
    let carry = cpu.cpsr & flag::C != 0;
    let (result, c, v): (u32, bool, bool) = operate(op, a, b, shifter, carry);
    let compares = 8 <= op && op <= 11;
    if compares || s {
        set_flags(cpu, result, c, v);
    }
    if !compares {
        write_dp(cpu, (inst >> 12) & 0xF, s, result);
    }
    cpu.add_cycles(1);
}

/// MUL and MLA.
#[verifier::opaque]
pub open spec fn multiplied(cpu: Cpu, inst: u32) -> Cpu {
    let product = u32_specs::wrapping_mul(cpu.value(inst & 0xF), cpu.value((inst >> 8) & 0xF));
    let result = if inst & 0x0020_0000 != 0 {
        u32_specs::wrapping_add(product, cpu.value((inst >> 12) & 0xF))
    } else {
        product
    };
    let set = if inst & 0x0010_0000 != 0 {
        Cpu { cpsr: flagged(cpu.cpsr, result, cpu.carry(), cpu.overflow()), ..cpu }
    } else {
        cpu
    };
    set.with_value((inst >> 16) & 0xF, result).with_cycles(1)
}

fn multiply(cpu: &mut Cpu, inst: u32)
    ensures
        *final(cpu) == multiplied(*old(cpu), inst),
{
    broadcast use crate::bits::group_masks;

    reveal(multiplied);
    let product: u32 = cpu.reg(inst & 0xF).wrapping_mul(cpu.reg((inst >> 8) & 0xF));
    let result: u32 = if inst & 0x0020_0000 != 0 {
        product.wrapping_add(cpu.reg((inst >> 12) & 0xF))
    } else {
        product
    };
    if inst & 0x0010_0000 != 0 {
        let c = cpu.cpsr & flag::C != 0;
        let v = cpu.cpsr & flag::V != 0;
        set_flags(cpu, result, c, v);
    }
    cpu.set_reg((inst >> 16) & 0xF, result);
    cpu.add_cycles(1);
}

/// A word as a signed number.
pub open spec fn signed(v: u32) -> int {
    if v < 0x8000_0000 {
        v as int
    } else {
        v - 0x1_0000_0000
    }
}

/// The 64-bit product of two words, signed or unsigned, modulo 2^64.
pub open spec fn long_product(a: u32, b: u32, is_signed: bool) -> int {
    if is_signed {
        (signed(a) * signed(b)) % 0x1_0000_0000_0000_0000
    } else {
        a * b
    }
}

/// UMULL, UMLAL, SMULL and SMLAL.
#[verifier::opaque]
pub open spec fn long_multiplied(cpu: Cpu, inst: u32) -> Cpu {
    let rdhi = (inst >> 16) & 0xF;
    let rdlo = (inst >> 12) & 0xF;
    let product = long_product(
        cpu.value(inst & 0xF),
        cpu.value((inst >> 8) & 0xF),
        inst & 0x0040_0000 != 0,
    );
    let acc = if inst & 0x0020_0000 != 0 {
        cpu.value(rdhi) * 0x1_0000_0000 + cpu.value(rdlo)
    } else {
        0
    };
    let result = (product + acc) % 0x1_0000_0000_0000_0000;
    let hi = (result / 0x1_0000_0000) as u32;
    let lo = (result % 0x1_0000_0000) as u32;
    let f0 = cpu.cpsr & !field::FLAGS;
    let f1 = if hi & 0x8000_0000 != 0 {
        f0 | flag::N
    } else {
        f0
    };
    let set = if inst & 0x0010_0000 != 0 {
        Cpu {
            cpsr: if result == 0 {
                f1 | flag::Z
            } else {
                f1
            },
            ..cpu
        }
    } else {
        cpu
    };
    set.with_value(rdlo, lo).with_value(rdhi, hi).with_cycles(1)
}

fn long_mul(a: u32, b: u32, is_signed: bool) -> (r: u64)
    ensures
        r == long_product(a, b, is_signed),
{
    assert(0 <= a * b <= 0xFFFF_FFFF * 0xFFFF_FFFF) by (nonlinear_arith)
        requires
            0 <= a <= 0xFFFF_FFFF,
            0 <= b <= 0xFFFF_FFFF,
    ;
    let product: u64 = a as u64 * b as u64;
    if !is_signed {
        return product;
    }
    // A negative factor was taken 2^32 too large.
    let over_a: u64 = if a >= 0x8000_0000 {
        b as u64 * 0x1_0000_0000
    } else {
        0
    };
    let over_b: u64 = if b >= 0x8000_0000 {
        a as u64 * 0x1_0000_0000
    } else {
        0
    };
    let r: u64 = product.wrapping_sub(over_a).wrapping_sub(over_b);
    proof {
        let sa = signed(a);
        let sb = signed(b);
        let ea: int = if a >= 0x8000_0000 {
            1
        } else {
            0
        };
        let eb: int = if b >= 0x8000_0000 {
            1
        } else {
            0
        };
        assert(sa * sb == a * b - ea * b * 0x1_0000_0000 - eb * a * 0x1_0000_0000 + ea * eb
            * 0x1_0000_0000_0000_0000) by (nonlinear_arith)
            requires
                sa == a - ea * 0x1_0000_0000,
                sb == b - eb * 0x1_0000_0000,
        ;
        assert(ea * eb == 0 || ea * eb == 1) by (nonlinear_arith)
            requires
                ea == 0 || ea == 1,
                eb == 0 || eb == 1,
        ;
        assert(ea * b * 0x1_0000_0000 == over_a);
        assert(eb * a * 0x1_0000_0000 == over_b);
    }
    r
}

fn long_multiply(cpu: &mut Cpu, inst: u32)
    ensures
        *final(cpu) == long_multiplied(*old(cpu), inst),
{
    broadcast use crate::bits::group_masks;

    reveal(long_multiplied);
    let rdhi: u32 = (inst >> 16) & 0xF;
    let rdlo: u32 = (inst >> 12) & 0xF;
    let product: u64 = long_mul(
        cpu.reg(inst & 0xF),
        cpu.reg((inst >> 8) & 0xF),
        inst & 0x0040_0000 != 0,
    );
    let acc: u64 = if inst & 0x0020_0000 != 0 {
        cpu.reg(rdhi) as u64 * 0x1_0000_0000 + cpu.reg(rdlo) as u64
    } else {
        0
    };
    let result: u64 = product.wrapping_add(acc);
    let hi: u32 = (result / 0x1_0000_0000) as u32;
    let lo: u32 = (result % 0x1_0000_0000) as u32;
    if inst & 0x0010_0000 != 0 {
        let mut f: u32 = cpu.cpsr & !field::FLAGS;
        if hi & 0x8000_0000 != 0 {
            f = f | flag::N;
        }
        if result == 0 {
            f = f | flag::Z;
        }
        cpu.cpsr = f;
    }
    cpu.set_reg(rdlo, lo);
    cpu.set_reg(rdhi, hi);
    cpu.add_cycles(1);
}

/// SWP and SWPB.
#[verifier::opaque]
pub open spec fn swapped<B: Bus>(m: Core<B>, inst: u32) -> Core<B> {
    let addr = m.cpu.value((inst >> 16) & 0xF);
    let data = m.cpu.value(inst & 0xF);
    let byte = inst & 0x0040_0000 != 0;
    let (b1, old_value) = if byte {
        m.bus.after_read8(addr)
    } else {
        m.bus.after_read32(addr)
    };
    Core {
        bus: if byte {
            b1.after_write8(addr, data)
        } else {
            b1.after_write32(addr, data)
        },
        cpu: m.cpu.with_value((inst >> 12) & 0xF, old_value).with_cycles(1),
    }
}

fn swap<B: Bus>(cpu: &mut Cpu, bus: &mut B, inst: u32)
    requires
        old(bus).ready(),
    ensures
        final(bus).ready(),
        core_of(*final(cpu), *final(bus)) == swapped(core_of(*old(cpu), *old(bus)), inst),
{
    broadcast use crate::bits::group_masks;

    reveal(swapped);
    let addr: u32 = cpu.reg((inst >> 16) & 0xF);
    let data: u32 = cpu.reg(inst & 0xF);
    let value: u32 = if inst & 0x0040_0000 != 0 {
        let v: u32 = bus.read8(addr);
        bus.write8(addr, data);
        v
    } else {
        let v: u32 = bus.read32(addr);
        bus.write32(addr, data);
        v
    };
    cpu.set_reg((inst >> 12) & 0xF, value);
    cpu.add_cycles(1);
}

/// A byte sign-extended to a word.
pub open spec fn extended8(v: u32) -> u32 {
    if v % 256 < 128 {
        v % 256
    } else {
        (v % 256 + 0xFFFF_FF00) as u32
    }
}

/// A halfword sign-extended to a word.
pub open spec fn extended16(v: u32) -> u32 {
    if v % 0x1_0000 < 0x8000 {
        v % 0x1_0000
    } else {
        (v % 0x1_0000 + 0xFFFF_0000) as u32
    }
}

pub(crate) fn extend8(v: u32) -> (r: u32)
    ensures
        r == extended8(v),
{
    if v % 256 < 128 {
        v % 256
    } else {
        v % 256 + 0xFFFF_FF00
    }
}

pub(crate) fn extend16(v: u32) -> (r: u32)
    ensures
        r == extended16(v),
{
    if v % 0x1_0000 < 0x8000 {
        v % 0x1_0000
    } else {
        v % 0x1_0000 + 0xFFFF_0000
    }
}

/// The value a halfword transfer of kind `sh` (1 unsigned half, 2 signed byte,
/// 3 signed half) loads.
pub open spec fn half_loaded<B: Bus>(bus: B, addr: u32, sh: u32) -> (B, u32) {
    if sh == 1 {
        bus.after_read16(addr)
    } else if sh == 2 {
        (bus.after_read8(addr).0, extended8(bus.after_read8(addr).1))
    } else if sh == 3 {
        (bus.after_read16(addr).0, extended16(bus.after_read16(addr).1))
    } else {
        (bus, 0)
    }
}

pub(crate) fn load_half<B: Bus>(bus: &mut B, addr: u32, sh: u32) -> (r: u32)
    requires
        old(bus).ready(),
    ensures
        final(bus).ready(),
        (*final(bus), r) == half_loaded(*old(bus), addr, sh),
{
    match sh {
        1 => bus.read16(addr),
        2 => {
            let v: u32 = bus.read8(addr);
            extend8(v)
        },
        3 => {
            let v: u32 = bus.read16(addr);
            extend16(v)
        },
        _ => 0,
    }
}

/// `base` plus or minus `offset`, by the up bit of `inst`.
pub open spec fn indexed(inst: u32, base: u32, offset: u32) -> u32 {
    if inst & 0x0080_0000 != 0 {
        u32_specs::wrapping_add(base, offset)
    } else {
        u32_specs::wrapping_sub(base, offset)
    }
}

fn index(inst: u32, base: u32, offset: u32) -> (r: u32)
    ensures
        r == indexed(inst, base, offset),
{
    if inst & 0x0080_0000 != 0 {
        base.wrapping_add(offset)
    } else {
        base.wrapping_sub(offset)
    }
}

/// The offset of a halfword transfer.
pub open spec fn half_offset(cpu: Cpu, inst: u32) -> u32 {
    if inst & 0x0040_0000 != 0 {
        ((inst >> 4) & 0xF0) | (inst & 0xF)
    } else {
        cpu.value(inst & 0xF)
    }
}

/// LDRH, LDRSB, LDRSH and STRH. A post-indexed access always writes its base
/// back; a loaded base keeps the loaded value.
#[verifier::opaque]
pub open spec fn half_transferred<B: Bus>(m: Core<B>, inst: u32) -> Core<B> {
    let pre = inst & 0x0100_0000 != 0;
    let load = inst & 0x0010_0000 != 0;
    let rn = (inst >> 16) & 0xF;
    let rd = (inst >> 12) & 0xF;
    let sh = (inst >> 5) & 3;
    let base = m.cpu.value(rn);
    let moved = indexed(inst, base, half_offset(m.cpu, inst));
    let addr = if pre {
        moved
    } else {
        base
    };
    let done = if load {
        let (bus, value) = half_loaded(m.bus, addr, sh);
        Core { bus, cpu: m.cpu.with_value(rd, value) }
    } else if sh == 1 {
        Core { bus: m.bus.after_write16(addr, m.cpu.value(rd)), cpu: m.cpu }
    } else {
        m
    };
    let back = !pre || inst & 0x0020_0000 != 0;
    let cpu = if back && rn != 15 && !(load && rn == rd) {
        done.cpu.with_value(rn, moved)
    } else {
        done.cpu
    };
    Core { cpu: cpu.with_cycles(1), ..done }
}

fn halfword_transfer<B: Bus>(cpu: &mut Cpu, bus: &mut B, inst: u32)
    requires
        old(bus).ready(),
    ensures
        final(bus).ready(),
        core_of(*final(cpu), *final(bus)) == half_transferred(core_of(*old(cpu), *old(bus)), inst),
{
    broadcast use crate::bits::group_masks;

    reveal(half_transferred);
    let pre = inst & 0x0100_0000 != 0;
    let load = inst & 0x0010_0000 != 0;
    let rn: u32 = (inst >> 16) & 0xF;
    let rd: u32 = (inst >> 12) & 0xF;
    let sh: u32 = (inst >> 5) & 3;
    let offset: u32 = if inst & 0x0040_0000 != 0 {
        ((inst >> 4) & 0xF0) | (inst & 0xF)
    } else {
        cpu.reg(inst & 0xF)
    };
    let base: u32 = cpu.reg(rn);
    let moved: u32 = index(inst, base, offset);
    let addr: u32 = if pre {
        moved
    } else {
        base
    };
    if load {
        let value: u32 = load_half(bus, addr, sh);
        cpu.set_reg(rd, value);
    } else if sh == 1 {
        let value: u32 = cpu.reg(rd);
        bus.write16(addr, value);
    }
    let back = !pre || inst & 0x0020_0000 != 0;
    if back && rn != 15 && !(load && rn == rd) {
        cpu.set_reg(rn, moved);
    }
    cpu.add_cycles(1);
}

/// The offset of a word or byte transfer: an immediate, or a shifted register.
#[verifier::opaque]
pub open spec fn single_offset(cpu: Cpu, inst: u32) -> u32 {
    if inst & 0x0200_0000 != 0 {
        shifted(
            cpu.value(inst & 0xF),
            (inst >> 5) & 3,
            (inst >> 7) & 0x1F,
            cpu.carry(),
        ).0
    } else {
        inst & 0xFFF
    }
}

/// LDR, LDRB, STR and STRB. The base is written back where the W bit asks for
/// it; a loaded base keeps the loaded value.
#[verifier::opaque]
pub open spec fn single_transferred<B: Bus>(m: Core<B>, inst: u32) -> Core<B> {
    let pre = inst & 0x0100_0000 != 0;
    let byte = inst & 0x0040_0000 != 0;
    let load = inst & 0x0010_0000 != 0;
    let rn = (inst >> 16) & 0xF;
    let rd = (inst >> 12) & 0xF;
    let base = m.cpu.value(rn);
    let moved = indexed(inst, base, single_offset(m.cpu, inst));
    let addr = if pre {
        moved
    } else {
        base
    };
    let done = if load {
        let (bus, value) = if byte {
            m.bus.after_read8(addr)
        } else {
            m.bus.after_read32(addr)
        };
        Core { bus, cpu: m.cpu.with_value(rd, value) }
    } else {
        Core {
            bus: if byte {
                m.bus.after_write8(addr, m.cpu.value(rd))
            } else {
                m.bus.after_write32(addr, m.cpu.value(rd))
            },
            cpu: m.cpu,
        }
    };
    let cpu = if inst & 0x0020_0000 != 0 && rn != 15 && !(load && rn == rd) {
        done.cpu.with_value(rn, moved)
    } else {
        done.cpu
    };
    Core { cpu: cpu.with_cycles(1), ..done }
}

fn single_transfer<B: Bus>(cpu: &mut Cpu, bus: &mut B, inst: u32)
    requires
        old(bus).ready(),
    ensures
        final(bus).ready(),
        core_of(*final(cpu), *final(bus)) == single_transferred(core_of(*old(cpu), *old(bus)), inst),
{
    broadcast use crate::bits::group_masks;

    reveal(single_transferred);
    reveal(single_offset);
    let pre = inst & 0x0100_0000 != 0;
    let byte = inst & 0x0040_0000 != 0;
    let load = inst & 0x0010_0000 != 0;
    let rn: u32 = (inst >> 16) & 0xF;
    let rd: u32 = (inst >> 12) & 0xF;
    let offset: u32 = if inst & 0x0200_0000 != 0 {
        let carry = cpu.cpsr & flag::C != 0;
        shift_reg(cpu.reg(inst & 0xF), (inst >> 5) & 3, (inst >> 7) & 0x1F, carry).0
    } else {
        inst & 0xFFF
    };
    let base: u32 = cpu.reg(rn);
    let moved: u32 = index(inst, base, offset);
    let addr: u32 = if pre {
        moved
    } else {
        base
    };
    if load {
        let value: u32 = if byte {
            bus.read8(addr)
        } else {
            bus.read32(addr)
        };
        cpu.set_reg(rd, value);
    } else {
        let value: u32 = cpu.reg(rd);
        if byte {
            bus.write8(addr, value);
        } else {
            bus.write32(addr, value);
        }
    }
    if inst & 0x0020_0000 != 0 && rn != 15 && !(load && rn == rd) {
        cpu.set_reg(rn, moved);
    }
    cpu.add_cycles(1);
}

/// Whether register `r` is in the list.
pub open spec fn listed(list: u32, r: nat) -> bool {
    list & (1u32 << (r as u32)) != 0
}

/// How many of the first `n` registers are in the list.
pub open spec fn count_listed(list: u32, n: nat) -> nat
    decreases n,
{
    if n == 0 {
        0
    } else {
        count_listed(list, (n - 1) as nat) + (if listed(list, (n - 1) as nat) {
            1nat
        } else {
            0
        })
    }
}

pub(crate) fn list_len(list: u32, n: u32) -> (r: u32)
    requires
        n <= 16,
    ensures
        r == count_listed(list, n as nat),
        r <= n,
{
    let mut count: u32 = 0;
    let mut i: u32 = 0;
    while i < n
        invariant
            i <= n <= 16,
            count == count_listed(list, i as nat),
            count <= i,
        decreases n - i,
    {
        if list & (1u32 << i) != 0 {
            count = count + 1;
        }
        i = i + 1;
    }
    count
}

/// A block load under way: the machine, the next address, and the value loaded
/// for r15.
pub struct BlockLoad<B> {
    pub m: Core<B>,
    pub addr: u32,
    pub pc: Option<u32>,
}

/// The first `n` registers of a block load done; `user` loads the user bank.
pub open spec fn block_loaded<B: Bus>(
    m: Core<B>,
    addr: u32,
    list: u32,
    user: bool,
    n: nat,
) -> BlockLoad<B>
    decreases n,
{
    if n == 0 {
        BlockLoad { m, addr, pc: None }
    } else {
        let s = block_loaded(m, addr, list, user, (n - 1) as nat);
        let r = (n - 1) as u32;
        if listed(list, (n - 1) as nat) {
            let (bus, v) = s.m.bus.after_read32(s.addr);
            BlockLoad {
                addr: u32_specs::wrapping_add(s.addr, 4),
                pc: if r == 15 {
                    Some(v)
                } else {
                    s.pc
                },
                m: Core {
                    bus,
                    cpu: if r == 15 {
                        s.m.cpu
                    } else if user {
                        s.m.cpu.with_user_value(r, v)
                    } else {
                        s.m.cpu.with_value(r, v)
                    },
                },
            }
        } else {
            s
        }
    }
}

pub(crate) fn load_block<B: Bus>(
    cpu: &mut Cpu,
    bus: &mut B,
    addr: u32,
    list: u32,
    user: bool,
    n: u32,
) -> (r: (u32, Option<u32>))
    requires
        old(bus).ready(),
        n <= 16,
    ensures
        final(bus).ready(),
        ({
            let s = block_loaded(core_of(*old(cpu), *old(bus)), addr, list, user, n as nat);
            core_of(*final(cpu), *final(bus)) == s.m && r == (s.addr, s.pc)
        }),
{
    let mut at: u32 = addr;
    let mut pc: Option<u32> = None;
    let mut i: u32 = 0;
    while i < n
        invariant
            i <= n <= 16,
            bus.ready(),
            ({
                let s = block_loaded(core_of(*old(cpu), *old(bus)), addr, list, user, i as nat);
                core_of(*cpu, *bus) == s.m && at == s.addr && pc == s.pc
            }),
        decreases n - i,
    {
        if list & (1u32 << i) != 0 {
            let v: u32 = bus.read32(at);
            at = at.wrapping_add(4);
            if i == 15 {
                pc = Some(v);
            } else if user {
                cpu.set_usr_reg(i, v);
            } else {
                cpu.set_reg(i, v);
            }
        }
        i = i + 1;
    }
    (at, pc)
}

/// The value a block store writes for register `r`: with `user` that of the
/// user bank, and the mode's SPSR for r15.
pub open spec fn block_value(cpu: Cpu, r: u32, user: bool) -> u32 {
    if user {
        if r == 15 {
            if cpu.privileged() {
                cpu.spsr_of(cpu.mode_bits())
            } else {
                cpu.value(15)
            }
        } else {
            cpu.user_value(r)
        }
    } else {
        cpu.value(r)
    }
}

/// The first `n` registers of a block store done: the bus and the next
/// address.
pub open spec fn block_stored<B: Bus>(
    m: Core<B>,
    addr: u32,
    list: u32,
    user: bool,
    n: nat,
) -> (B, u32)
    decreases n,
{
    if n == 0 {
        (m.bus, addr)
    } else {
        let (bus, at) = block_stored(m, addr, list, user, (n - 1) as nat);
        if listed(list, (n - 1) as nat) {
            (
                bus.after_write32(at, block_value(m.cpu, (n - 1) as u32, user)),
                u32_specs::wrapping_add(at, 4),
            )
        } else {
            (bus, at)
        }
    }
}

pub(crate) fn store_block<B: Bus>(
    cpu: &Cpu,
    bus: &mut B,
    addr: u32,
    list: u32,
    user: bool,
    n: u32,
) -> (r: u32)
    requires
        old(bus).ready(),
        n <= 16,
    ensures
        final(bus).ready(),
        (*final(bus), r) == block_stored(core_of(*cpu, *old(bus)), addr, list, user, n as nat),
{
    let mut at: u32 = addr;
    let mut i: u32 = 0;
    while i < n
        invariant
            i <= n <= 16,
            bus.ready(),
            (*bus, at) == block_stored(core_of(*cpu, *old(bus)), addr, list, user, i as nat),
        decreases n - i,
    {
        if list & (1u32 << i) != 0 {
            let m: u32 = cpu.cpsr & 0x1F;
            let v: u32 = if user {
                if i == 15 {
                    if m != mode::USR && m != 0x1F {
                        cpu.get_spsr(m)
                    } else {
                        cpu.reg(15)
                    }
                } else {
                    cpu.usr_reg(i)
                }
            } else {
                cpu.reg(i)
            };
            bus.write32(at, v);
            at = at.wrapping_add(4);
        }
        i = i + 1;
    }
    at
}

/// The lowest address of a block transfer of `count` registers.
pub open spec fn block_start(inst: u32, base: u32, count: nat) -> u32 {
    let size = (4 * count) as u32;
    let pre = inst & 0x0100_0000 != 0;
    if inst & 0x0080_0000 != 0 {
        if pre {
            u32_specs::wrapping_add(base, 4)
        } else {
            base
        }
    } else if pre {
        u32_specs::wrapping_sub(base, size)
    } else {
        u32_specs::wrapping_add(u32_specs::wrapping_sub(base, size), 4)
    }
}

/// The effect of a loaded r15: with the S bit in a mode that has one, the SPSR
/// becomes the CPSR.
pub open spec fn block_jumped(cpu: Cpu, s: bool, pc: Option<u32>) -> Cpu {
    match pc {
        Some(v) => if s && cpu.privileged() {
            Cpu { cpsr: cpu.spsr_of(cpu.mode_bits()), ..cpu }.branched(v)
        } else {
            cpu.branched(v)
        },
        None => cpu,
    }
}

/// LDM and STM. The S bit stands for the user bank, or with r15 loaded for the
/// return from an exception; a loaded base keeps the loaded value.
#[verifier::opaque]
pub open spec fn block_transferred<B: Bus>(m: Core<B>, inst: u32) -> Core<B> {
    let s = inst & 0x0040_0000 != 0;
    let load = inst & 0x0010_0000 != 0;
    let rn = (inst >> 16) & 0xF;
    let list = inst & 0xFFFF;
    let count = count_listed(list, 16);
    let base = m.cpu.value(rn);
    let start = block_start(inst, base, count);
    let end = indexed(inst, base, (4 * count) as u32);
    let done = if load {
        let l = block_loaded(m, start, list, s && !listed(list, 15), 16);
        l.m.with_cpu(block_jumped(l.m.cpu, s, l.pc))
    } else {
        Core { bus: block_stored(m, start, list, s, 16).0, cpu: m.cpu }
    };
    let keeps = rn == 15 && listed(list, 15) || load && listed(list, rn as nat);
    let cpu = if inst & 0x0020_0000 != 0 && !keeps {
        done.cpu.with_value(rn, end)
    } else {
        done.cpu
    };
    Core { cpu: cpu.with_cycles(1), ..done }
}

fn jump_block(cpu: &mut Cpu, s: bool, pc: Option<u32>)
    ensures
        *final(cpu) == block_jumped(*old(cpu), s, pc),
{
    if let Some(v) = pc {
        let m: u32 = cpu.cpsr & 0x1F;
        if s && m != mode::USR && m != 0x1F {
            cpu.cpsr = cpu.get_spsr(m);
        }
        cpu.branch(v);
    }
}

fn block_transfer<B: Bus>(cpu: &mut Cpu, bus: &mut B, inst: u32)
    requires
        old(bus).ready(),
    ensures
        final(bus).ready(),
        core_of(*final(cpu), *final(bus)) == block_transferred(core_of(*old(cpu), *old(bus)), inst),
{
    broadcast use crate::bits::group_masks;

    reveal(block_transferred);
    let pre = inst & 0x0100_0000 != 0;
    let up = inst & 0x0080_0000 != 0;
    let s = inst & 0x0040_0000 != 0;
    let load = inst & 0x0010_0000 != 0;
    let rn: u32 = (inst >> 16) & 0xF;
    let list: u32 = inst & 0xFFFF;
    let size: u32 = 4 * list_len(list, 16);
    let base: u32 = cpu.reg(rn);
    let start: u32 = if up {
        if pre {
            base.wrapping_add(4)
        } else {
            base
        }
    } else if pre {
        base.wrapping_sub(size)
    } else {
        base.wrapping_sub(size).wrapping_add(4)
    };
    let end: u32 = index(inst, base, size);
    let has_pc = list & (1u32 << 15u32) != 0;
    if load {
        let (_next, pc): (u32, Option<u32>) = load_block(cpu, bus, start, list, s && !has_pc, 16);
        jump_block(cpu, s, pc);
    } else {
        let _next: u32 = store_block(cpu, bus, start, list, s, 16);
    }
    let keeps = rn == 15 && has_pc || load && list & (1u32 << rn) != 0;
    if inst & 0x0020_0000 != 0 && !keeps {
        cpu.set_reg(rn, end);
    }
    cpu.add_cycles(1);
}

/// The byte offset of a branch: 24 bits, signed, in words.
pub open spec fn branch_offset(inst: u32) -> u32 {
    let off = inst & 0x00FF_FFFF;
    if off & 0x0080_0000 != 0 {
        (off | 0xFF00_0000) << 2
    } else {
        off << 2
    }
}

/// B and BL.
#[verifier::opaque]
pub open spec fn branch_taken(cpu: Cpu, inst: u32) -> Cpu {
    let target = u32_specs::wrapping_add(cpu.value(15), branch_offset(inst));
    let linked = if inst & 0x0100_0000 != 0 {
        cpu.with_value(14, cpu.pc)
    } else {
        cpu
    };
    linked.branched(target).with_cycles(2)
}

fn branch(cpu: &mut Cpu, inst: u32)
    ensures
        *final(cpu) == branch_taken(*old(cpu), inst),
{
    reveal(branch_taken);
    let off: u32 = inst & 0x00FF_FFFF;
    let offset: u32 = if off & 0x0080_0000 != 0 {
        (off | 0xFF00_0000) << 2
    } else {
        off << 2
    };
    let target: u32 = cpu.reg(15).wrapping_add(offset);
    if inst & 0x0100_0000 != 0 {
        let pc: u32 = cpu.pc;
        cpu.set_reg(14, pc);
    }
    cpu.branch(target);
    cpu.add_cycles(2);
}

/// MSR: the flags field by bit 3 of the field mask, the control field by bit 0
/// where the mode is privileged.
#[verifier::opaque]
pub open spec fn msr_written(cpu: Cpu, inst: u32, value: u32) -> Cpu {
    let fields = (inst >> 16) & 0xF;
    let v1 = if fields & 8 != 0 {
        (cpu.cpsr & !field::FLAGS) | (value & field::FLAGS)
    } else {
        cpu.cpsr
    };
    let v2 = if fields & 1 != 0 && cpu.privileged() {
        (v1 & !field::CONTROL) | (value & field::CONTROL)
    } else {
        v1
    };
    let done = if inst & 0x0040_0000 != 0 {
        if cpu.privileged() {
            cpu.with_spsr(cpu.mode_bits(), v2)
        } else {
            cpu
        }
    } else {
        cpu.with_cpsr(v2)
    };
    done.with_cycles(2)
}

fn msr_write(cpu: &mut Cpu, inst: u32, value: u32)
    ensures
        *final(cpu) == msr_written(*old(cpu), inst, value),
{
    reveal(msr_written);
    let fields: u32 = (inst >> 16) & 0xF;
    let m: u32 = cpu.cpsr & 0x1F;
    let privileged = m != mode::USR && m != 0x1F;
    let mut v: u32 = cpu.cpsr;
    if fields & 8 != 0 {
        v = (v & !field::FLAGS) | (value & field::FLAGS);
    }
    if fields & 1 != 0 && privileged {
        v = (v & !field::CONTROL) | (value & field::CONTROL);
    }
    if inst & 0x0040_0000 != 0 {
        if privileged {
            cpu.set_spsr(m, v);
        }
    } else {
        cpu.set_cpsr(v);
    }
    cpu.add_cycles(2);
}

/// MRS.
#[verifier::opaque]
pub open spec fn mrs_read(cpu: Cpu, inst: u32) -> Cpu {
    let v = if inst & 0x0040_0000 != 0 {
        cpu.spsr_of(cpu.mode_bits())
    } else {
        cpu.cpsr
    };
    cpu.with_value((inst >> 12) & 0xF, v).with_cycles(2)
}

fn mrs(cpu: &mut Cpu, inst: u32)
    ensures
        *final(cpu) == mrs_read(*old(cpu), inst),
{
    broadcast use crate::bits::group_masks;

    reveal(mrs_read);
    let v: u32 = if inst & 0x0040_0000 != 0 {
        cpu.get_spsr(cpu.cpsr & 0x1F)
    } else {
        cpu.cpsr
    };
    cpu.set_reg((inst >> 12) & 0xF, v);
    cpu.add_cycles(2);
}

/// The instructions whose bits 27:26 are clear and that are not status
/// register transfers: swaps, multiplications, halfword transfers and data
/// processing.
#[verifier::opaque]
pub open spec fn family_executed<B: Bus>(m: Core<B>, inst: u32) -> Core<B> {
    if inst & 0x0FB0_00F0 == 0x0100_0090 {
        swapped(m, inst)
    } else if inst & 0x0F80_00F0 == 0x0080_0090 {
        m.with_cpu(long_multiplied(m.cpu, inst))
    } else if inst & 0x0FC0_00F0 == 0x0000_0090 {
        m.with_cpu(multiplied(m.cpu, inst))
    } else if inst & 0x0E00_0090 == 0x0000_0090 {
        half_transferred(m, inst)
    } else {
        m.with_cpu(data_processed(m.cpu, inst))
    }
}

fn data_processing<B: Bus>(cpu: &mut Cpu, bus: &mut B, inst: u32)
    requires
        old(bus).ready(),
    ensures
        final(bus).ready(),
        core_of(*final(cpu), *final(bus)) == family_executed(core_of(*old(cpu), *old(bus)), inst),
{
    reveal(family_executed);
    if inst & 0x0FB0_00F0 == 0x0100_0090 {
        swap(cpu, bus, inst);
    } else if inst & 0x0F80_00F0 == 0x0080_0090 {
        long_multiply(cpu, inst);
    } else if inst & 0x0FC0_00F0 == 0x0000_0090 {
        multiply(cpu, inst);
    } else if inst & 0x0E00_0090 == 0x0000_0090 {
        halfword_transfer(cpu, bus, inst);
    } else {
        data_operation(cpu, inst);
    }
}

/// An instruction whose condition holds.
#[verifier::opaque]
pub open spec fn dispatched<B: Bus>(m: Core<B>, inst: u32) -> Core<B> {
    if inst & 0x0FFF_FFF0 == 0x012F_FF10 {
        m.with_cpu(m.cpu.exchanged(m.cpu.value(inst & 0xF)).with_cycles(3))
    } else if inst & 0x0FBF_0FF0 == 0x010F_0000 {
        m.with_cpu(mrs_read(m.cpu, inst))
    } else if inst & 0x0FB0_FFF0 == 0x0120_F000 {
        m.with_cpu(msr_written(m.cpu, inst, m.cpu.value(inst & 0xF)))
    } else if inst & 0x0FB0_F000 == 0x0320_F000 {
        m.with_cpu(msr_written(m.cpu, inst, immediate(inst & 0xFF, (inst >> 8) & 0xF)))
    } else if inst & 0x0C00_0000 == 0 {
        family_executed(m, inst)
    } else if inst & 0x0C00_0000 == 0x0400_0000 {
        single_transferred(m, inst)
    } else if inst & 0x0E00_0000 == 0x0800_0000 {
        block_transferred(m, inst)
    } else if inst & 0x0E00_0000 == 0x0A00_0000 {
        m.with_cpu(branch_taken(m.cpu, inst))
    } else if inst & 0x0F00_0000 == 0x0E00_0000 {
        m.with_cpu(m.cpu.with_cycles(2))
    } else if inst & 0x0E00_0000 == 0x0C00_0000 {
        m.with_cpu(m.cpu.with_cycles(3))
    } else if inst & 0x0F00_0000 == 0x0F00_0000 {
        m.with_cpu(m.cpu.interrupted((inst >> 16) & 0xFF).with_cycles(3))
    } else {
        m.with_cpu(m.cpu.with_cycles(2))
    }
}

/// The machine after the ARM instruction `inst`, which does nothing unless its
/// condition holds.
pub open spec fn executed<B: Bus>(m: Core<B>, inst: u32) -> Core<B> {
    if condition(m.cpu.cpsr, inst >> 28) {
        dispatched(m, inst)
    } else {
        m
    }
}

/// Decode and execute a single ARM instruction.
pub fn execute<B: Bus>(cpu: &mut Cpu, bus: &mut B, inst: u32)
    requires
        old(bus).ready(),
    ensures
        final(bus).ready(),
        core_of(*final(cpu), *final(bus)) == executed(core_of(*old(cpu), *old(bus)), inst),
{
    broadcast use crate::bits::group_masks;

    if !cond_holds(cpu, inst >> 28) {
        return;
    }
    reveal(dispatched);
    if inst & 0x0FFF_FFF0 == 0x012F_FF10 {
        let v: u32 = cpu.reg(inst & 0xF);
        cpu.bx(v);
        cpu.add_cycles(3);
    } else if inst & 0x0FBF_0FF0 == 0x010F_0000 {
        mrs(cpu, inst);
    } else if inst & 0x0FB0_FFF0 == 0x0120_F000 {
        let v: u32 = cpu.reg(inst & 0xF);
        msr_write(cpu, inst, v);
    } else if inst & 0x0FB0_F000 == 0x0320_F000 {
        let v: u32 = rotate_imm(inst & 0xFF, (inst >> 8) & 0xF);
        msr_write(cpu, inst, v);
    } else if inst & 0x0C00_0000 == 0 {
        data_processing(cpu, bus, inst);
    } else if inst & 0x0C00_0000 == 0x0400_0000 {
        single_transfer(cpu, bus, inst);
    } else if inst & 0x0E00_0000 == 0x0800_0000 {
        block_transfer(cpu, bus, inst);
    } else if inst & 0x0E00_0000 == 0x0A00_0000 {
        branch(cpu, inst);
    } else if inst & 0x0F00_0000 == 0x0E00_0000 {
        // Coprocessor instructions: no-ops on the GBA.
        cpu.add_cycles(2);
    } else if inst & 0x0E00_0000 == 0x0C00_0000 {
        cpu.add_cycles(3);
    } else if inst & 0x0F00_0000 == 0x0F00_0000 {
        cpu.software_interrupt((inst >> 16) & 0xFF);
        cpu.add_cycles(3);
    } else {
        cpu.add_cycles(2);
    }
}

} // verus!

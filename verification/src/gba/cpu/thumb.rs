//! Thumb (16-bit) instruction set decoder/executor for the ARM7TDMI.
//!
//! Dispatch is by the top five bits (`inst >> 11`), with a few sub-fields
//! handled by inspecting individual bits.

use crate::gba::cpu::arm::{
    add_carry, add_flags, adc, block_loaded, block_stored, cond_holds, condition, count_listed,
    difference_flags, extend8, extended8, flagged, half_loaded, list_len, listed, load_block,
    load_half, sbc, set_flags, shift_reg, shifted, store_block, sub_carry, sub_flags, sum_flags,
};
use crate::gba::cpu::{core_of, flag, Bus, Core, Cpu};
use vstd::prelude::*;
use vstd::wrapping::u32_specs;

verus! {

/// `cpu` with the flags of `result`.
pub open spec fn with_flags(cpu: Cpu, result: u32, c: bool, v: bool) -> Cpu {
    Cpu { cpsr: flagged(cpu.cpsr, result, c, v), ..cpu }
}

/// LSL, LSR and ASR by an immediate.
#[verifier::opaque]
pub open spec fn shift_executed(cpu: Cpu, inst: u32) -> Cpu {
    let (v, c) = shifted(
        cpu.value((inst >> 3) & 7),
        (inst >> 11) & 3,
        (inst >> 6) & 0x1F,
        cpu.carry(),
    );
    with_flags(cpu.with_value(inst & 7, v), v, c, cpu.overflow()).with_cycles(1)
}

fn shift_imm(cpu: &mut Cpu, inst: u32)
    ensures
        *final(cpu) == shift_executed(*old(cpu), inst),
{
    broadcast use crate::bits::group_masks;

    reveal(shift_executed);
    let carry = cpu.cpsr & flag::C != 0;
    let overflow = cpu.cpsr & flag::V != 0;
    let (v, c): (u32, bool) = shift_reg(
        cpu.reg((inst >> 3) & 7),
        (inst >> 11) & 3,
        (inst >> 6) & 0x1F,
        carry,
    );
    cpu.set_reg(inst & 7, v);
    set_flags(cpu, v, c, overflow);
    cpu.add_cycles(1);
}

/// ADD and SUB of a register and a register or 3-bit immediate; the register
/// in bits 3-5 is the left operand.
#[verifier::opaque]
pub open spec fn add_sub_executed(cpu: Cpu, inst: u32) -> Cpu {
    let a = cpu.value((inst >> 3) & 7);
    let b = if inst & 0x400 != 0 {
        (inst >> 6) & 7
    } else {
        cpu.value((inst >> 6) & 7)
    };
    let (r, c, v) = if inst & 0x200 != 0 {
        difference_flags(a, b)
    } else {
        sum_flags(a, b)
    };
    with_flags(cpu.with_value(inst & 7, r), r, c, v).with_cycles(1)
}

fn add_sub(cpu: &mut Cpu, inst: u32)
    ensures
        *final(cpu) == add_sub_executed(*old(cpu), inst),
{
    broadcast use crate::bits::group_masks;

    reveal(add_sub_executed);
    let a: u32 = cpu.reg((inst >> 3) & 7);
    let b: u32 = if inst & 0x400 != 0 {
        (inst >> 6) & 7
    } else {
        cpu.reg((inst >> 6) & 7)
    };
    let (r, c, v): (u32, bool, bool) = if inst & 0x200 != 0 {
        sub_flags(a, b)
    } else {
        add_flags(a, b)
    };
    cpu.set_reg(inst & 7, r);
    set_flags(cpu, r, c, v);
    cpu.add_cycles(1);
}

/// MOV, CMP, ADD and SUB with an 8-bit immediate.
#[verifier::opaque]
pub open spec fn immediate_executed(cpu: Cpu, inst: u32) -> Cpu {
    let op = (inst >> 11) & 3;
    let rd = (inst >> 8) & 7;
    let imm = inst & 0xFF;
    let a = cpu.value(rd);
    let (r, c, v) = if op == 0 {
        (imm, cpu.carry(), cpu.overflow())
    } else if op == 2 {
        sum_flags(a, imm)
    } else {
        difference_flags(a, imm)
    };
    let written = if op != 1 {
        cpu.with_value(rd, r)
    } else {
        cpu
    };
    with_flags(written, r, c, v).with_cycles(1)
}

fn immediate_op(cpu: &mut Cpu, inst: u32)
    ensures
        *final(cpu) == immediate_executed(*old(cpu), inst),
{
    broadcast use crate::bits::group_masks;

    reveal(immediate_executed);
    let op: u32 = (inst >> 11) & 3;
    let rd: u32 = (inst >> 8) & 7;
    let imm: u32 = inst & 0xFF;
    let a: u32 = cpu.reg(rd);
    let (r, c, v): (u32, bool, bool) = match op {
        0 => (imm, cpu.cpsr & flag::C != 0, cpu.cpsr & flag::V != 0),
        2 => add_flags(a, imm),
        _ => sub_flags(a, imm),
    };
    if op != 1 {
        cpu.set_reg(rd, r);
    }
    set_flags(cpu, r, c, v);
    cpu.add_cycles(1);
}

/// The sixteen register operations, by number: AND, EOR, LSL, LSR, ASR, ADC,
/// SBC, ROR, TST, NEG, CMP, CMN, ORR, MUL, BIC, MVN. The logical ones keep C
/// and V.
#[verifier::opaque]
pub open spec fn alu_result(op: u32, a: u32, b: u32, c: bool, v: bool) -> (u32, bool, bool) {
    if op == 0 || op == 8 {
        (a & b, c, v)
    } else if op == 1 {
        (a ^ b, c, v)
    } else if 2 <= op <= 4 {
        let (r, carry) = shifted(a, (op - 2) as u32, b & 0xFF, c);
        (r, carry, v)
    } else if op == 5 {
        adc(a, b, c)
    } else if op == 6 {
        sbc(a, b, c)
    } else if op == 7 {
        let (r, carry) = shifted(a, 3, b & 0xFF, c);
        (r, carry, v)
    } else if op == 9 {
        difference_flags(0, b)
    } else if op == 10 {
        difference_flags(a, b)
    } else if op == 11 {
        sum_flags(a, b)
    } else if op == 12 {
        (a | b, c, v)
    } else if op == 13 {
        (u32_specs::wrapping_mul(a, b), c, v)
    } else if op == 14 {
        (a & !b, c, v)
    } else {
        (!b, c, v)
    }
}

fn alu_operate(op: u32, a: u32, b: u32, c: bool, v: bool) -> (r: (u32, bool, bool))
    ensures
        r == alu_result(op, a, b, c, v),
{
    reveal(alu_result);
    match op {
        0 | 8 => (a & b, c, v),
        1 => (a ^ b, c, v),
        2..=4 => {
            let (r, carry): (u32, bool) = shift_reg(a, op - 2, b & 0xFF, c);
            (r, carry, v)
        },
        5 => add_carry(a, b, c),
        6 => sub_carry(a, b, c),
        7 => {
            let (r, carry): (u32, bool) = shift_reg(a, 3, b & 0xFF, c);
            (r, carry, v)
        },
        9 => sub_flags(0, b),
        10 => sub_flags(a, b),
        11 => add_flags(a, b),
        12 => (a | b, c, v),
        13 => (a.wrapping_mul(b), c, v),
        14 => (a & !b, c, v),
        _ => (!b, c, v),
    }
}

/// A register operation; TST, CMP and CMN only set the flags.
#[verifier::opaque]
pub open spec fn alu_executed(cpu: Cpu, inst: u32) -> Cpu {
    let op = (inst >> 6) & 0xF;
    let (r, c, v) = alu_result(
        op,
        cpu.value(inst & 7),
        cpu.value((inst >> 3) & 7),
        cpu.carry(),
        cpu.overflow(),
    );
    let written = if op == 8 || op == 10 || op == 11 {
        cpu
    } else {
        cpu.with_value(inst & 7, r)
    };
    with_flags(written, r, c, v).with_cycles(1)
}

fn alu(cpu: &mut Cpu, inst: u32)
    ensures
        *final(cpu) == alu_executed(*old(cpu), inst),
{
    broadcast use crate::bits::group_masks;

    reveal(alu_executed);
    let op: u32 = (inst >> 6) & 0xF;
    let carry = cpu.cpsr & flag::C != 0;
    let overflow = cpu.cpsr & flag::V != 0;
    let (r, c, v): (u32, bool, bool) = alu_operate(
        op,
        cpu.reg(inst & 7),
        cpu.reg((inst >> 3) & 7),
        carry,
        overflow,
    );
    if !(op == 8 || op == 10 || op == 11) {
        cpu.set_reg(inst & 7, r);
    }
    set_flags(cpu, r, c, v);
    cpu.add_cycles(1);
}

/// ADD, CMP, MOV and BX on all sixteen registers. ADD and MOV set the flags
/// only between low registers.
#[verifier::opaque]
pub open spec fn hi_executed(cpu: Cpu, inst: u32) -> Cpu {
    let op = (inst >> 8) & 3;
    let high = inst & 0xC0 != 0;
    let src = ((inst >> 3) & 7) + (if inst & 0x40 != 0 {
        8int
    } else {
        0
    });
    let dst = (inst & 7) + (if inst & 0x80 != 0 {
        8int
    } else {
        0
    });
    let a = cpu.value(dst as u32);
    let b = cpu.value(src as u32);
    if op == 3 {
        cpu.exchanged(b).with_cycles(3)
    } else if op == 0 {
        let (r, c, v) = sum_flags(a, b);
        let w = cpu.with_value(dst as u32, r);
        (if high {
            w
        } else {
            with_flags(w, r, c, v)
        }).with_cycles(1)
    } else if op == 1 {
        let (r, c, v) = difference_flags(a, b);
        with_flags(cpu, r, c, v).with_cycles(1)
    } else {
        let w = cpu.with_value(dst as u32, b);
        (if high {
            w
        } else {
            with_flags(w, b, cpu.carry(), cpu.overflow())
        }).with_cycles(1)
    }
}

fn hi_reg_ops(cpu: &mut Cpu, inst: u32)
    ensures
        *final(cpu) == hi_executed(*old(cpu), inst),
{
    broadcast use crate::bits::group_masks;

    reveal(hi_executed);
    let op: u32 = (inst >> 8) & 3;
    let high = inst & 0xC0 != 0;
    let src: u32 = ((inst >> 3) & 7) + (if inst & 0x40 != 0 {
        8
    } else {
        0
    });
    let dst: u32 = (inst & 7) + (if inst & 0x80 != 0 {
        8
    } else {
        0
    });
    let a: u32 = cpu.reg(dst);
    let b: u32 = cpu.reg(src);
    let carry = cpu.cpsr & flag::C != 0;
    let overflow = cpu.cpsr & flag::V != 0;
    match op {
        3 => {
            cpu.bx(b);
            cpu.add_cycles(3);
        },
        0 => {
            let (r, c, v): (u32, bool, bool) = add_flags(a, b);
            cpu.set_reg(dst, r);
            if !high {
                set_flags(cpu, r, c, v);
            }
            cpu.add_cycles(1);
        },
        1 => {
            let (r, c, v): (u32, bool, bool) = sub_flags(a, b);
            set_flags(cpu, r, c, v);
            cpu.add_cycles(1);
        },
        _ => {
            cpu.set_reg(dst, b);
            if !high {
                set_flags(cpu, b, carry, overflow);
            }
            cpu.add_cycles(1);
        },
    }
}

/// The word-aligned PC that PC-relative instructions count from.
pub open spec fn aligned_pc(cpu: Cpu) -> u32 {
    u32_specs::wrapping_add(cpu.pc, 2) & !3u32
}

/// A load or store of `width` bytes.
pub open spec fn transferred<B: Bus>(
    m: Core<B>,
    load: bool,
    addr: u32,
    rd: u32,
    width: u32,
) -> Core<B> {
    if load {
        let (bus, v) = if width == 4 {
            m.bus.after_read32(addr)
        } else if width == 2 {
            m.bus.after_read16(addr)
        } else {
            m.bus.after_read8(addr)
        };
        Core { bus, cpu: m.cpu.with_value(rd, v).with_cycles(1) }
    } else {
        let v = m.cpu.value(rd);
        Core {
            bus: if width == 4 {
                m.bus.after_write32(addr, v)
            } else if width == 2 {
                m.bus.after_write16(addr, v)
            } else {
                m.bus.after_write8(addr, v)
            },
            cpu: m.cpu.with_cycles(1),
        }
    }
}

fn transfer<B: Bus>(cpu: &mut Cpu, bus: &mut B, load: bool, addr: u32, rd: u32, width: u32)
    requires
        old(bus).ready(),
        rd < 16,
    ensures
        final(bus).ready(),
        core_of(*final(cpu), *final(bus)) == transferred(
            core_of(*old(cpu), *old(bus)),
            load,
            addr,
            rd,
            width,
        ),
{
    if load {
        let v: u32 = match width {
            4 => bus.read32(addr),
            2 => bus.read16(addr),
            _ => bus.read8(addr),
        };
        cpu.set_reg(rd, v);
    } else {
        let v: u32 = cpu.reg(rd);
        match width {
            4 => bus.write32(addr, v),
            2 => bus.write16(addr, v),
            _ => bus.write8(addr, v),
        }
    }
    cpu.add_cycles(1);
}

/// Loads and stores at the sum of two registers. Bit 9 tells the signed and
/// halfword forms (STRH, LDSB, LDRH, LDSH by bits 11 and 10) from the word and
/// byte ones.
#[verifier::opaque]
pub open spec fn reg_transferred<B: Bus>(m: Core<B>, inst: u32) -> Core<B> {
    let addr = u32_specs::wrapping_add(
        m.cpu.value((inst >> 3) & 7),
        m.cpu.value((inst >> 6) & 7),
    );
    let rd = inst & 7;
    let high = inst & 0x800 != 0;
    let low = inst & 0x400 != 0;
    if inst & 0x200 == 0 {
        transferred(
            m,
            high,
            addr,
            rd,
            if low {
                1
            } else {
                4
            },
        )
    } else if !high && !low {
        transferred(m, false, addr, rd, 2)
    } else {
        let (bus, v) = half_loaded(
            m.bus,
            addr,
            if !low {
                1
            } else if high {
                3
            } else {
                2
            },
        );
        Core { bus, cpu: m.cpu.with_value(rd, v).with_cycles(1) }
    }
}

fn ldr_str_reg<B: Bus>(cpu: &mut Cpu, bus: &mut B, inst: u32)
    requires
        old(bus).ready(),
    ensures
        final(bus).ready(),
        core_of(*final(cpu), *final(bus)) == reg_transferred(core_of(*old(cpu), *old(bus)), inst),
{
    broadcast use crate::bits::group_masks;

    reveal(reg_transferred);
    let addr: u32 = cpu.reg((inst >> 3) & 7).wrapping_add(cpu.reg((inst >> 6) & 7));
    let rd: u32 = inst & 7;
    let high = inst & 0x800 != 0;
    let low = inst & 0x400 != 0;
    if inst & 0x200 == 0 {
        let width: u32 = if low {
            1
        } else {
            4
        };
        transfer(cpu, bus, high, addr, rd, width);
    } else if !high && !low {
        transfer(cpu, bus, false, addr, rd, 2);
    } else {
        let sh: u32 = if !low {
            1
        } else if high {
            3
        } else {
            2
        };
        let v: u32 = load_half(bus, addr, sh);
        cpu.set_reg(rd, v);
        cpu.add_cycles(1);
    }
}

/// Loads and stores with an immediate offset, by the top five bits: words
/// (12, 13), bytes (14, 15), halfwords (16, 17), SP-relative words (18, 19)
/// and PC-relative words (9).
#[verifier::opaque]
pub open spec fn imm_transferred<B: Bus>(m: Core<B>, inst: u32, top: u32) -> Core<B> {
    let load = inst & 0x800 != 0;
    let imm5 = (inst >> 6) & 0x1F;
    let base = m.cpu.value((inst >> 3) & 7);
    if top == 9 {
        transferred(
            m,
            true,
            u32_specs::wrapping_add(aligned_pc(m.cpu), (inst & 0xFF) << 2),
            (inst >> 8) & 7,
            4,
        )
    } else if top <= 13 {
        transferred(m, load, u32_specs::wrapping_add(base, imm5 << 2), inst & 7, 4)
    } else if top <= 15 {
        transferred(m, load, u32_specs::wrapping_add(base, imm5), inst & 7, 1)
    } else if top <= 17 {
        transferred(m, load, u32_specs::wrapping_add(base, imm5 << 1), inst & 7, 2)
    } else {
        transferred(
            m,
            load,
            u32_specs::wrapping_add(m.cpu.value(13), (inst & 0xFF) << 2),
            (inst >> 8) & 7,
            4,
        )
    }
}

fn ldr_str_imm<B: Bus>(cpu: &mut Cpu, bus: &mut B, inst: u32, top: u32)
    requires
        old(bus).ready(),
    ensures
        final(bus).ready(),
        core_of(*final(cpu), *final(bus)) == imm_transferred(
            core_of(*old(cpu), *old(bus)),
            inst,
            top,
        ),
{
    broadcast use crate::bits::group_masks;

    reveal(imm_transferred);
    let load = inst & 0x800 != 0;
    let imm5: u32 = (inst >> 6) & 0x1F;
    let base: u32 = cpu.reg((inst >> 3) & 7);
    if top == 9 {
        let addr: u32 = (cpu.pc.wrapping_add(2) & !3u32).wrapping_add((inst & 0xFF) << 2);
        transfer(cpu, bus, true, addr, (inst >> 8) & 7, 4);
    } else if top <= 13 {
        transfer(cpu, bus, load, base.wrapping_add(imm5 << 2), inst & 7, 4);
    } else if top <= 15 {
        transfer(cpu, bus, load, base.wrapping_add(imm5), inst & 7, 1);
    } else if top <= 17 {
        transfer(cpu, bus, load, base.wrapping_add(imm5 << 1), inst & 7, 2);
    } else {
        let addr: u32 = cpu.reg(13).wrapping_add((inst & 0xFF) << 2);
        transfer(cpu, bus, load, addr, (inst >> 8) & 7, 4);
    }
}

/// ADD rd,PC,#imm and ADD rd,SP,#imm.
#[verifier::opaque]
pub open spec fn address_executed(cpu: Cpu, inst: u32) -> Cpu {
    let base = if inst & 0x800 != 0 {
        cpu.value(13)
    } else {
        aligned_pc(cpu)
    };
    cpu.with_value(
        (inst >> 8) & 7,
        u32_specs::wrapping_add(base, (inst & 0xFF) << 2),
    ).with_cycles(1)
}

fn add_pc_or_sp(cpu: &mut Cpu, inst: u32)
    ensures
        *final(cpu) == address_executed(*old(cpu), inst),
{
    broadcast use crate::bits::group_masks;

    reveal(address_executed);
    let base: u32 = if inst & 0x800 != 0 {
        cpu.reg(13)
    } else {
        cpu.pc.wrapping_add(2) & !3u32
    };
    cpu.set_reg((inst >> 8) & 7, base.wrapping_add((inst & 0xFF) << 2));
    cpu.add_cycles(1);
}

/// ADD SP,#imm and SUB SP,#imm.
#[verifier::opaque]
pub open spec fn sp_executed(cpu: Cpu, inst: u32) -> Cpu {
    let delta = (inst & 0x7F) << 2;
    cpu.with_value(
        13,
        if inst & 0x80 != 0 {
            u32_specs::wrapping_sub(cpu.value(13), delta)
        } else {
            u32_specs::wrapping_add(cpu.value(13), delta)
        },
    ).with_cycles(1)
}

fn add_sub_sp(cpu: &mut Cpu, inst: u32)
    ensures
        *final(cpu) == sp_executed(*old(cpu), inst),
{
    reveal(sp_executed);
    let delta: u32 = (inst & 0x7F) << 2;
    let sp: u32 = cpu.reg(13);
    let moved: u32 = if inst & 0x80 != 0 {
        sp.wrapping_sub(delta)
    } else {
        sp.wrapping_add(delta)
    };
    cpu.set_reg(13, moved);
    cpu.add_cycles(1);
}

/// The size of a stack transfer, LR or PC included.
pub open spec fn stack_size(inst: u32) -> u32 {
    (4 * (count_listed(inst & 0xFF, 8) + (if inst & 0x100 != 0 {
        1nat
    } else {
        0
    }))) as u32
}

/// PUSH: the lowest register at the lowest address, LR on top.
#[verifier::opaque]
pub open spec fn pushed<B: Bus>(m: Core<B>, inst: u32) -> Core<B> {
    let start = u32_specs::wrapping_sub(m.cpu.value(13), stack_size(inst));
    let (bus, at) = block_stored(m, start, inst & 0xFF, false, 8);
    Core {
        bus: if inst & 0x100 != 0 {
            bus.after_write32(at, m.cpu.value(14))
        } else {
            bus
        },
        cpu: m.cpu.with_value(13, start).with_cycles(1),
    }
}

/// POP, in the same order, with PC on top.
#[verifier::opaque]
pub open spec fn popped<B: Bus>(m: Core<B>, inst: u32) -> Core<B> {
    let sp = m.cpu.value(13);
    let l = block_loaded(m, sp, inst & 0xFF, false, 8);
    let end = u32_specs::wrapping_add(sp, stack_size(inst));
    let cpu = l.m.cpu.with_value(13, end);
    if inst & 0x100 != 0 {
        let (bus, v) = l.m.bus.after_read32(l.addr);
        Core { bus, cpu: cpu.branched(v).with_cycles(1) }
    } else {
        Core { bus: l.m.bus, cpu: cpu.with_cycles(1) }
    }
}

fn push<B: Bus>(cpu: &mut Cpu, bus: &mut B, inst: u32)
    requires
        old(bus).ready(),
    ensures
        final(bus).ready(),
        core_of(*final(cpu), *final(bus)) == pushed(core_of(*old(cpu), *old(bus)), inst),
{
    reveal(pushed);
    let mut count: u32 = list_len(inst & 0xFF, 8);
    if inst & 0x100 != 0 {
        count = count + 1;
    }
    let start: u32 = cpu.reg(13).wrapping_sub(4 * count);
    let at: u32 = store_block(cpu, bus, start, inst & 0xFF, false, 8);
    if inst & 0x100 != 0 {
        let lr: u32 = cpu.reg(14);
        bus.write32(at, lr);
    }
    cpu.set_reg(13, start);
    cpu.add_cycles(1);
}

fn pop<B: Bus>(cpu: &mut Cpu, bus: &mut B, inst: u32)
    requires
        old(bus).ready(),
    ensures
        final(bus).ready(),
        core_of(*final(cpu), *final(bus)) == popped(core_of(*old(cpu), *old(bus)), inst),
{
    reveal(popped);
    let mut count: u32 = list_len(inst & 0xFF, 8);
    if inst & 0x100 != 0 {
        count = count + 1;
    }
    let sp: u32 = cpu.reg(13);
    let (at, _pc): (u32, Option<u32>) = load_block(cpu, bus, sp, inst & 0xFF, false, 8);
    cpu.set_reg(13, sp.wrapping_add(4 * count));
    if inst & 0x100 != 0 {
        let v: u32 = bus.read32(at);
        cpu.branch(v);
    }
    cpu.add_cycles(1);
}

/// LDMIA and STMIA; a loaded base keeps the loaded value.
#[verifier::opaque]
pub open spec fn multiple_transferred<B: Bus>(m: Core<B>, inst: u32) -> Core<B> {
    let load = inst & 0x800 != 0;
    let rb = (inst >> 8) & 7;
    let list = inst & 0xFF;
    let base = m.cpu.value(rb);
    let end = u32_specs::wrapping_add(base, (4 * count_listed(list, 8)) as u32);
    let done = if load {
        block_loaded(m, base, list, false, 8).m
    } else {
        Core { bus: block_stored(m, base, list, false, 8).0, cpu: m.cpu }
    };
    let cpu = if load && listed(list, rb as nat) {
        done.cpu
    } else {
        done.cpu.with_value(rb, end)
    };
    Core { cpu: cpu.with_cycles(1), ..done }
}

fn ldm_stm<B: Bus>(cpu: &mut Cpu, bus: &mut B, inst: u32)
    requires
        old(bus).ready(),
    ensures
        final(bus).ready(),
        core_of(*final(cpu), *final(bus)) == multiple_transferred(
            core_of(*old(cpu), *old(bus)),
            inst,
        ),
{
    broadcast use crate::bits::group_masks;

    reveal(multiple_transferred);
    let load = inst & 0x800 != 0;
    let rb: u32 = (inst >> 8) & 7;
    let list: u32 = inst & 0xFF;
    let base: u32 = cpu.reg(rb);
    let end: u32 = base.wrapping_add(4 * list_len(list, 8));
    if load {
        let (_at, _pc): (u32, Option<u32>) = load_block(cpu, bus, base, list, false, 8);
    } else {
        let _at: u32 = store_block(cpu, bus, base, list, false, 8);
    }
    if !(load && list & (1u32 << rb) != 0) {
        cpu.set_reg(rb, end);
    }
    cpu.add_cycles(1);
}

/// A conditional branch.
#[verifier::opaque]
pub open spec fn cond_branched(cpu: Cpu, inst: u32) -> Cpu {
    if condition(cpu.cpsr, (inst >> 8) & 0xF) {
        cpu.branched(
            u32_specs::wrapping_add(cpu.value(15), extended8(inst & 0xFF) << 1),
        ).with_cycles(2)
    } else {
        cpu.with_cycles(1)
    }
}

fn branch_cond(cpu: &mut Cpu, inst: u32)
    ensures
        *final(cpu) == cond_branched(*old(cpu), inst),
{
    reveal(cond_branched);
    if cond_holds(cpu, (inst >> 8) & 0xF) {
        let target: u32 = cpu.reg(15).wrapping_add(extend8(inst & 0xFF) << 1);
        cpu.branch(target);
        cpu.add_cycles(2);
    } else {
        cpu.add_cycles(1);
    }
}

/// The signed 11-bit offset of `inst`.
pub open spec fn offset11(inst: u32) -> u32 {
    if inst & 0x400 != 0 {
        (inst & 0x7FF) | 0xFFFF_F800
    } else {
        inst & 0x7FF
    }
}

fn signed_offset(inst: u32) -> (r: u32)
    ensures
        r == offset11(inst),
{
    if inst & 0x400 != 0 {
        (inst & 0x7FF) | 0xFFFF_F800
    } else {
        inst & 0x7FF
    }
}

/// B.
pub open spec fn jumped(cpu: Cpu, inst: u32) -> Cpu {
    cpu.branched(u32_specs::wrapping_add(cpu.value(15), offset11(inst) << 1)).with_cycles(2)
}

fn branch_uncond(cpu: &mut Cpu, inst: u32)
    ensures
        *final(cpu) == jumped(*old(cpu), inst),
{
    let target: u32 = cpu.reg(15).wrapping_add(signed_offset(inst) << 1);
    cpu.branch(target);
    cpu.add_cycles(2);
}

/// The first half of BL: LR takes the high part of the target.
pub open spec fn link_begun(cpu: Cpu, inst: u32) -> Cpu {
    cpu.with_value(
        14,
        u32_specs::wrapping_add(
            u32_specs::wrapping_add(cpu.pc, 2),
            offset11(inst) << 12,
        ),
    ).with_cycles(1)
}

fn bl_upper(cpu: &mut Cpu, inst: u32)
    ensures
        *final(cpu) == link_begun(*old(cpu), inst),
{
    let lr: u32 = cpu.pc.wrapping_add(2).wrapping_add(signed_offset(inst) << 12);
    cpu.set_reg(14, lr);
    cpu.add_cycles(1);
}

/// The second half of BL: the jump, with the return address (bit 0 set) in LR.
pub open spec fn link_taken(cpu: Cpu, inst: u32) -> Cpu {
    let target = u32_specs::wrapping_add(cpu.value(14), (inst & 0x7FF) << 1);
    cpu.with_value(14, cpu.pc | 1).branched(target).with_cycles(1)
}

fn bl_lower(cpu: &mut Cpu, inst: u32)
    ensures
        *final(cpu) == link_taken(*old(cpu), inst),
{
    let target: u32 = cpu.reg(14).wrapping_add((inst & 0x7FF) << 1);
    let back: u32 = cpu.pc | 1;
    cpu.set_reg(14, back);
    cpu.branch(target);
    cpu.add_cycles(1);
}

/// The machine after the Thumb instruction `inst`.
#[verifier::opaque]
pub open spec fn executed<B: Bus>(m: Core<B>, inst: u32) -> Core<B> {
    let top = (inst >> 11) & 0x1F;
    if top <= 2 {
        m.with_cpu(shift_executed(m.cpu, inst))
    } else if top == 3 {
        m.with_cpu(add_sub_executed(m.cpu, inst))
    } else if top <= 7 {
        m.with_cpu(immediate_executed(m.cpu, inst))
    } else if top == 8 {
        if inst & 0x400 != 0 {
            m.with_cpu(hi_executed(m.cpu, inst))
        } else {
            m.with_cpu(alu_executed(m.cpu, inst))
        }
    } else if top == 10 || top == 11 {
        reg_transferred(m, inst)
    } else if top <= 19 {
        imm_transferred(m, inst, top)
    } else if top <= 21 {
        m.with_cpu(address_executed(m.cpu, inst))
    } else if top <= 23 {
        if inst & 0x400 != 0 {
            if top == 23 {
                popped(m, inst)
            } else {
                pushed(m, inst)
            }
        } else if top == 22 {
            m.with_cpu(sp_executed(m.cpu, inst))
        } else {
            m.with_cpu(m.cpu.with_cycles(1))
        }
    } else if top <= 25 {
        multiple_transferred(m, inst)
    } else if top <= 27 {
        if inst & 0xFF00 == 0xDF00 {
            m.with_cpu(m.cpu.interrupted(inst & 0xFF).with_cycles(3))
        } else {
            m.with_cpu(cond_branched(m.cpu, inst))
        }
    } else if top == 28 {
        m.with_cpu(jumped(m.cpu, inst))
    } else if top == 30 {
        m.with_cpu(link_begun(m.cpu, inst))
    } else if top == 31 {
        m.with_cpu(link_taken(m.cpu, inst))
    } else {
        m.with_cpu(m.cpu.with_cycles(1))
    }
}

/// Execute a single Thumb instruction.
pub fn execute<B: Bus>(cpu: &mut Cpu, bus: &mut B, inst: u32)
    requires
        old(bus).ready(),
    ensures
        final(bus).ready(),
        core_of(*final(cpu), *final(bus)) == executed(core_of(*old(cpu), *old(bus)), inst),
{
    broadcast use crate::bits::group_masks;

    reveal(executed);
    let top: u32 = (inst >> 11) & 0x1F;
    match top {
        0..=2 => shift_imm(cpu, inst),
        3 => add_sub(cpu, inst),
        4..=7 => immediate_op(cpu, inst),
        8 => {
            if inst & 0x400 != 0 {
                hi_reg_ops(cpu, inst);
            } else {
                alu(cpu, inst);
            }
        },
        10 | 11 => ldr_str_reg(cpu, bus, inst),
        9 | 12..=19 => ldr_str_imm(cpu, bus, inst, top),
        20 | 21 => add_pc_or_sp(cpu, inst),
        22 | 23 => {
            if inst & 0x400 != 0 {
                if top == 23 {
                    pop(cpu, bus, inst);
                } else {
                    push(cpu, bus, inst);
                }
            } else if top == 22 {
                add_sub_sp(cpu, inst);
            } else {
                cpu.add_cycles(1);
            }
        },
        24 | 25 => ldm_stm(cpu, bus, inst),
        26 | 27 => {
            if inst & 0xFF00 == 0xDF00 {
                cpu.software_interrupt(inst & 0xFF);
                cpu.add_cycles(3);
            } else {
                branch_cond(cpu, inst);
            }
        },
        28 => branch_uncond(cpu, inst),
        30 => bl_upper(cpu, inst),
        31 => bl_lower(cpu, inst),
        _ => cpu.add_cycles(1),
    }
}

} // verus!

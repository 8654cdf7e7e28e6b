//! The documented length of every instruction, and the proof that the CPU
//! takes exactly that long.

use crate::gb::cpu::{Cpu, Machine};
use vstd::prelude::*;

verus! {

/// The T-cycles of the CB-prefixed instruction `op`, prefix included.
pub open spec fn cb_cycles(op: u8) -> int {
    if op % 8 != 6 {
        8
    } else if 0x40 <= op < 0x80 {
        12
    } else {
        16
    }
}

/// The T-cycles of instruction `op`: `taken` tells whether a conditional
/// branch is taken, `sub` is the byte after a CB prefix.
pub open spec fn instruction_cycles(op: u8, taken: bool, sub: u8) -> int {
    let x = op / 64;
    let y = (op / 8) % 8;
    let z = op % 8;
    if x == 0 {
        block0_cycles(y, z, taken)
    } else if x == 1 {
        if op != 0x76 && (y == 6 || z == 6) {
            8
        } else {
            4
        }
    } else if x == 2 {
        if z == 6 {
            8
        } else {
            4
        }
    } else if z < 4 {
        block3_low_cycles(y, z, taken, sub)
    } else {
        block3_high_cycles(y, z, taken)
    }
}

/// The instructions 0x00-0x3F.
pub open spec fn block0_cycles(y: u8, z: u8, taken: bool) -> int {
    if z == 0 {
        if y == 0 {
            4
        } else if y == 1 {
            20
        } else if y == 2 {
            8
        } else if y == 3 || taken {
            12
        } else {
            8
        }
    } else if z == 1 {
        if y % 2 == 0 {
            12
        } else {
            8
        }
    } else if z <= 3 {
        8
    } else if z <= 5 {
        if y == 6 {
            12
        } else {
            4
        }
    } else if z == 6 {
        if y == 6 {
            12
        } else {
            8
        }
    } else {
        4
    }
}

/// The instructions 0xC0-0xFF with `z` below 4.
pub open spec fn block3_low_cycles(y: u8, z: u8, taken: bool, sub: u8) -> int {
    if z == 0 {
        if y < 4 {
            if taken {
                20
            } else {
                8
            }
        } else if y == 5 {
            16
        } else {
            12
        }
    } else if z == 1 {
        if y % 2 == 0 {
            12
        } else if y < 4 {
            16
        } else if y == 5 {
            4
        } else {
            8
        }
    } else if z == 2 {
        if y < 4 {
            if taken {
                16
            } else {
                12
            }
        } else if y % 2 == 0 {
            8
        } else {
            16
        }
    } else {
        if y == 0 {
            16
        } else if y == 1 {
            cb_cycles(sub)
        } else if y >= 6 {
            4
        } else {
            8
        }
    }
}

/// The instructions 0xC0-0xFF with `z` from 4 on.
pub open spec fn block3_high_cycles(y: u8, z: u8, taken: bool) -> int {
    if z == 4 {
        if y >= 4 {
            8
        } else if taken {
            24
        } else {
            12
        }
    } else if z == 5 {
        if y % 2 == 0 {
            16
        } else if y == 1 {
            24
        } else {
            8
        }
    } else if z == 6 {
        8
    } else {
        16
    }
}

proof fn lemma_ld_pair_d16(m: Machine, p: u8)
    requires
        m.cpu.ticked <= 0xFFFF_FF80,
    ensures
        m.ld_pair_d16(p).cpu.ticked == m.cpu.ticked + 8,
{
    reveal(Machine::tick);
    reveal(Machine::ld_pair_d16);
}

proof fn lemma_add_hl_pair(m: Machine, p: u8)
    requires
        m.cpu.ticked <= 0xFFFF_FF80,
    ensures
        m.add_hl_pair(p).cpu.ticked == m.cpu.ticked + 4,
{
    reveal(Machine::tick);
    reveal(Machine::add_hl_pair);
    reveal(Cpu::after_add_hl);
}

proof fn lemma_ld_indirect_a(m: Machine, p: u8)
    requires
        m.cpu.ticked <= 0xFFFF_FF80,
    ensures
        m.ld_indirect_a(p).cpu.ticked == m.cpu.ticked + 4,
{
    reveal(Machine::tick);
    reveal(Machine::ld_indirect_a);
}

proof fn lemma_ld_a_indirect(m: Machine, p: u8)
    requires
        m.cpu.ticked <= 0xFFFF_FF80,
    ensures
        m.ld_a_indirect(p).cpu.ticked == m.cpu.ticked + 4,
{
    reveal(Machine::tick);
    reveal(Machine::ld_a_indirect);
}

proof fn lemma_inc_pair(m: Machine, p: u8)
    requires
        m.cpu.ticked <= 0xFFFF_FF80,
    ensures
        m.inc_pair(p).cpu.ticked == m.cpu.ticked + 4,
{
    reveal(Machine::tick);
    reveal(Machine::inc_pair);
}

proof fn lemma_dec_pair(m: Machine, p: u8)
    requires
        m.cpu.ticked <= 0xFFFF_FF80,
    ensures
        m.dec_pair(p).cpu.ticked == m.cpu.ticked + 4,
{
    reveal(Machine::tick);
    reveal(Machine::dec_pair);
}

proof fn lemma_inc_operand(m: Machine, i: u8)
    requires
        m.cpu.ticked <= 0xFFFF_FF80,
    ensures
        m.inc_operand(i).cpu.ticked == m.cpu.ticked + (if i == 6 {
            8int
        } else {
            0int
        }),
{
    reveal(Machine::tick);
    reveal(Machine::inc_operand);
}

proof fn lemma_dec_operand(m: Machine, i: u8)
    requires
        m.cpu.ticked <= 0xFFFF_FF80,
    ensures
        m.dec_operand(i).cpu.ticked == m.cpu.ticked + (if i == 6 {
            8int
        } else {
            0int
        }),
{
    reveal(Machine::tick);
    reveal(Machine::dec_operand);
}

proof fn lemma_ld_operand_d8(m: Machine, i: u8)
    requires
        m.cpu.ticked <= 0xFFFF_FF80,
    ensures
        m.ld_operand_d8(i).cpu.ticked == m.cpu.ticked + (if i == 6 {
            8int
        } else {
            4int
        }),
{
    reveal(Machine::tick);
    reveal(Machine::ld_operand_d8);
}

proof fn lemma_ld_operand_operand(m: Machine, d: u8, i: u8)
    requires
        m.cpu.ticked <= 0xFFFF_FF80,
    ensures
        m.ld_operand_operand(d, i).cpu.ticked == m.cpu.ticked + (if i == 6 {
            4int
        } else {
            0int
        }) + (if d == 6 {
            4int
        } else {
            0int
        }),
{
    reveal(Machine::tick);
    reveal(Machine::ld_operand_operand);
}

proof fn lemma_alu_operand(m: Machine, op: u8, i: u8)
    requires
        m.cpu.ticked <= 0xFFFF_FF80,
    ensures
        m.alu_operand(op, i).cpu.ticked == m.cpu.ticked + (if i == 6 {
            4int
        } else {
            0int
        }),
{
    reveal(Machine::tick);
    reveal(Machine::alu_operand);
    reveal(Cpu::after_alu);
}

proof fn lemma_alu_d8(m: Machine, op: u8)
    requires
        m.cpu.ticked <= 0xFFFF_FF80,
    ensures
        m.alu_d8(op).cpu.ticked == m.cpu.ticked + 4,
{
    reveal(Machine::tick);
    reveal(Machine::alu_d8);
    reveal(Cpu::after_alu);
}

proof fn lemma_ld_a16_sp(m: Machine)
    requires
        m.cpu.ticked <= 0xFFFF_FF80,
    ensures
        m.ld_a16_sp().cpu.ticked == m.cpu.ticked + 16,
{
    reveal(Machine::tick);
    reveal(Machine::ld_a16_sp);
}

proof fn lemma_stop(m: Machine)
    requires
        m.cpu.ticked <= 0xFFFF_FF80,
    ensures
        m.stop().cpu.ticked == m.cpu.ticked + 4,
{
    reveal(Machine::tick);
    reveal(Machine::stop);
}

proof fn lemma_jr(m: Machine, taken: bool)
    requires
        m.cpu.ticked <= 0xFFFF_FF80,
    ensures
        m.jr(taken).cpu.ticked == m.cpu.ticked + (if taken {
            8int
        } else {
            4int
        }),
{
    reveal(Machine::tick);
    reveal(Machine::jr);
}

proof fn lemma_ret(m: Machine)
    requires
        m.cpu.ticked <= 0xFFFF_FF80,
    ensures
        m.ret().cpu.ticked == m.cpu.ticked + 12,
{
    reveal(Machine::tick);
    reveal(Machine::ret);
}

proof fn lemma_pop_pair(m: Machine, p: u8)
    requires
        m.cpu.ticked <= 0xFFFF_FF80,
    ensures
        m.pop_pair(p).cpu.ticked == m.cpu.ticked + 8,
{
    reveal(Machine::tick);
    reveal(Machine::pop_pair);
}

proof fn lemma_push16(m: Machine, v: u16)
    requires
        m.cpu.ticked <= 0xFFFF_FF80,
    ensures
        m.push16(v).cpu.ticked == m.cpu.ticked + 12,
{
    reveal(Machine::tick);
    reveal(Machine::push16);
}

proof fn lemma_jp(m: Machine, taken: bool)
    requires
        m.cpu.ticked <= 0xFFFF_FF80,
    ensures
        m.jp(taken).cpu.ticked == m.cpu.ticked + (if taken {
            12int
        } else {
            8int
        }),
{
    reveal(Machine::tick);
    reveal(Machine::jp);
}

proof fn lemma_call(m: Machine, taken: bool)
    requires
        m.cpu.ticked <= 0xFFFF_FF00,
    ensures
        m.call(taken).cpu.ticked == m.cpu.ticked + (if taken {
            20int
        } else {
            8int
        }),
{
    reveal(Machine::tick);
    reveal(Machine::call);
    let n = m.fetch16().0;
    lemma_push16(n, n.cpu.pc);
}

proof fn lemma_rst(m: Machine, addr: u16)
    requires
        m.cpu.ticked <= 0xFFFF_FF00,
    ensures
        m.rst(addr).cpu.ticked == m.cpu.ticked + 12,
{
    reveal(Machine::tick);
    reveal(Machine::rst);
    lemma_push16(m, m.cpu.pc);
}

proof fn lemma_ld_far_a(m: Machine, kind: u8)
    requires
        m.cpu.ticked <= 0xFFFF_FF80,
    ensures
        m.ld_far_a(kind).cpu.ticked == m.cpu.ticked + (if kind == 0 {
            8int
        } else if kind == 1 {
            4int
        } else {
            12int
        }),
{
    reveal(Machine::tick);
    reveal(Machine::ld_far_a);
}

proof fn lemma_ld_a_far(m: Machine, kind: u8)
    requires
        m.cpu.ticked <= 0xFFFF_FF80,
    ensures
        m.ld_a_far(kind).cpu.ticked == m.cpu.ticked + (if kind == 0 {
            8int
        } else if kind == 1 {
            4int
        } else {
            12int
        }),
{
    reveal(Machine::tick);
    reveal(Machine::ld_a_far);
}

proof fn lemma_add_sp(m: Machine)
    requires
        m.cpu.ticked <= 0xFFFF_FF80,
    ensures
        m.add_sp().cpu.ticked == m.cpu.ticked + 12,
{
    reveal(Machine::tick);
    reveal(Machine::add_sp);
}

proof fn lemma_ld_hl_sp(m: Machine)
    requires
        m.cpu.ticked <= 0xFFFF_FF80,
    ensures
        m.ld_hl_sp().cpu.ticked == m.cpu.ticked + 8,
{
    reveal(Machine::tick);
    reveal(Machine::ld_hl_sp);
}

proof fn lemma_cb_rotate(m: Machine, op: u8, i: u8)
    requires
        m.cpu.ticked <= 0xFFFF_FF80,
    ensures
        m.cb_rotate(op, i).cpu.ticked == m.cpu.ticked + (if i == 6 {
            8int
        } else {
            0int
        }),
{
    reveal(Machine::tick);
    reveal(Machine::cb_rotate);
}

proof fn lemma_cb_bit(m: Machine, n: u8, i: u8)
    requires
        m.cpu.ticked <= 0xFFFF_FF80,
    ensures
        m.cb_bit(n, i).cpu.ticked == m.cpu.ticked + (if i == 6 {
            4int
        } else {
            0int
        }),
{
    reveal(Machine::tick);
    reveal(Machine::cb_bit);
}

proof fn lemma_cb_res(m: Machine, n: u8, i: u8)
    requires
        m.cpu.ticked <= 0xFFFF_FF80,
    ensures
        m.cb_res(n, i).cpu.ticked == m.cpu.ticked + (if i == 6 {
            8int
        } else {
            0int
        }),
{
    reveal(Machine::tick);
    reveal(Machine::cb_res);
}

proof fn lemma_cb_set(m: Machine, n: u8, i: u8)
    requires
        m.cpu.ticked <= 0xFFFF_FF80,
    ensures
        m.cb_set(n, i).cpu.ticked == m.cpu.ticked + (if i == 6 {
            8int
        } else {
            0int
        }),
{
    reveal(Machine::tick);
    reveal(Machine::cb_set);
}

proof fn lemma_acc(m: Machine, op: u8)
    requires
        m.cpu.ticked <= 0xFFFF_FF80,
    ensures
        m.with_cpu(m.cpu.after_acc(op)).cpu.ticked == m.cpu.ticked + 0,
{
    reveal(Machine::tick);
    reveal(Cpu::after_acc);
    reveal(Cpu::after_daa);
}

proof fn lemma_cb(m: Machine, op: u8)
    requires
        m.cpu.ticked <= 0xFFFF_FF80,
    ensures
        m.exec_cb(op).cpu.ticked == m.cpu.ticked + cb_cycles(op) - 8,
{
    let y = (op / 8) % 8;
    let z = op % 8;
    lemma_cb_rotate(m, y, z);
    lemma_cb_bit(m, y, z);
    lemma_cb_res(m, y, z);
    lemma_cb_set(m, y, z);
}

proof fn lemma_block0(m: Machine, y: u8, z: u8)
    requires
        m.cpu.ticked <= 0xFFFF_FF00,
        y < 8,
        z < 8,
    ensures
        m.exec_block0(y, z).cpu.ticked == m.cpu.ticked + block0_cycles(
            y,
            z,
            m.cpu.condition(y),
        ) - 4,
{
    reveal(Machine::exec_block0);
    if z == 0 {
        lemma_ld_a16_sp(m);
        lemma_stop(m);
        lemma_jr(m, y == 3 || m.cpu.condition(y));
    } else if z == 1 {
        lemma_ld_pair_d16(m, y / 2);
        lemma_add_hl_pair(m, y / 2);
    } else if z == 2 {
        lemma_ld_indirect_a(m, y / 2);
        lemma_ld_a_indirect(m, y / 2);
    } else if z == 3 {
        lemma_inc_pair(m, y / 2);
        lemma_dec_pair(m, y / 2);
    } else if z == 4 {
        lemma_inc_operand(m, y);
    } else if z == 5 {
        lemma_dec_operand(m, y);
    } else if z == 6 {
        lemma_ld_operand_d8(m, y);
    } else {
        lemma_acc(m, y);
    }
}

proof fn lemma_fetch8(m: Machine)
    requires
        m.cpu.ticked <= 0xFFFF_FF00,
    ensures
        m.fetch8().0.cpu.ticked == m.cpu.ticked + 4,
{
    reveal(Machine::tick);
}

proof fn lemma_tick(m: Machine)
    requires
        m.cpu.ticked <= 0xFFFF_FF00,
    ensures
        m.tick().cpu.ticked == m.cpu.ticked + 4,
{
    reveal(Machine::tick);
}

proof fn lemma_block3_low(m: Machine, y: u8, z: u8)
    requires
        m.cpu.ticked <= 0xFFFF_FF00,
        y < 8,
        z < 4,
    ensures
        m.exec_block3_low(y, z).cpu.ticked == m.cpu.ticked + block3_low_cycles(
            y,
            z,
            m.cpu.condition(y),
            m.fetch8().1,
        ) - 4,
{
    reveal(Machine::exec_block3_low);
    lemma_tick(m);
    lemma_fetch8(m);
    if z == 0 {
        lemma_ret(m.tick());
        lemma_ld_far_a(m, 0);
        lemma_add_sp(m);
        lemma_ld_a_far(m, 0);
        lemma_ld_hl_sp(m);
    } else if z == 1 {
        lemma_pop_pair(m, y / 2);
        lemma_ret(m);
        lemma_tick(m.with_cpu(Cpu { sp: m.cpu.pair(2), ..m.cpu }));
    } else if z == 2 {
        lemma_jp(m, m.cpu.condition(y));
        lemma_ld_far_a(m, 1);
        lemma_ld_far_a(m, 2);
        lemma_ld_a_far(m, 1);
        lemma_ld_a_far(m, 2);
    } else {
        lemma_jp(m, true);
        lemma_cb(m.fetch8().0, m.fetch8().1);
    }
}

proof fn lemma_block3_high(m: Machine, y: u8, z: u8)
    requires
        m.cpu.ticked <= 0xFFFF_FF00,
        y < 8,
        4 <= z < 8,
    ensures
        m.exec_block3_high(y, z).cpu.ticked == m.cpu.ticked + block3_high_cycles(
            y,
            z,
            m.cpu.condition(y),
        ) - 4,
{
    reveal(Machine::exec_block3_high);
    lemma_fetch8(m);
    lemma_call(m, m.cpu.condition(y));
    lemma_call(m, true);
    lemma_push16(m, m.cpu.stack_pair(y / 2));
    lemma_alu_d8(m, y);
    lemma_rst(m, (y * 8) as u16);
}

/// The decoder advances the bus by the documented number of T-cycles less the
/// four of the opcode fetch before it: whole M-cycles, from one to six of them
/// with the fetch.
pub proof fn law_decoder_cycles(m: Machine, op: u8)
    requires
        m.cpu.ticked <= 0xFFFF_FF00,
    ensures
        ({
            let cycles = instruction_cycles(op, m.cpu.condition((op / 8) % 8), m.fetch8().1);
            &&& m.exec(op).cpu.ticked == m.cpu.ticked + cycles - 4
            &&& cycles % 4 == 0
            &&& 4 <= cycles <= 24
        }),
{
    reveal(Machine::exec);
    let y = (op / 8) % 8;
    let z = op % 8;
    let x = op / 64;
    if x == 0 {
        lemma_block0(m, y, z);
    } else if x == 1 {
        lemma_ld_operand_operand(m, y, z);
        assert(op == 64 + 8 * y + z);
    } else if x == 2 {
        lemma_alu_operand(m, y, z);
    } else if z < 4 {
        lemma_block3_low(m, y, z);
    } else {
        lemma_block3_high(m, y, z);
    }
}

/// Every instruction advances the machine by its documented number of
/// T-cycles, the fetch of the opcode included.
pub proof fn law_documented_cycles(m: Machine)
    ensures
        ({
            let (n, op) = m.opcode_fetched();
            m.execute().cpu.ticked == instruction_cycles(
                op,
                n.cpu.condition((op / 8) % 8),
                n.fetch8().1,
            )
        }),
        4 <= m.execute().cpu.ticked <= 24,
{
    reveal(Machine::execute);
    reveal(Machine::opcode_fetched);
    let (n, op) = m.opcode_fetched();
    assert(n.cpu.ticked == 4) by {
        reveal(Machine::tick);
    }
    law_decoder_cycles(n, op);
}

/// Taking an interrupt lasts five M-cycles.
pub proof fn law_interrupt_cycles(m: Machine)
    ensures
        m.interrupted().cpu.ticked == 20,
{
    reveal(Machine::interrupted);
    reveal(Machine::tick);
}

} // verus!

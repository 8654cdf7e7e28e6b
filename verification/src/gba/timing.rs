//! How long the machine's steps take.

use crate::gba::bus::Bus;
use crate::gba::cpu::arm;
use crate::gba::cpu::thumb;
use crate::gba::cpu::{Bus as CpuBus, Core, Cpu};
use crate::gba::machine::GbaState;
use vstd::prelude::*;

verus! {

/// `after` took from one to three cycles more than `before`, and waited for at
/// most `accesses` memory accesses.
pub open spec fn took(before: Core<Bus>, after: Core<Bus>, accesses: int) -> bool {
    &&& before.cpu.cycles + 1 <= after.cpu.cycles <= before.cpu.cycles + 3
    &&& before.bus.cycles <= after.bus.cycles <= before.bus.cycles + 4 * accesses
}

/// An instruction has just been fetched.
pub open spec fn fetched(m: Core<Bus>) -> bool {
    m.cpu.cycles == 1 && m.bus.cycles <= 4
}

/// An access to the bus waits for four cycles at most.
proof fn lemma_access(b: Bus, addr: u32, value: u32)
    requires
        b.cycles <= 1000,
    ensures
        b.cycles <= b.after_read8(addr).0.cycles <= b.cycles + 4,
        b.cycles <= b.after_read16(addr).0.cycles <= b.cycles + 2,
        b.cycles <= b.after_read32(addr).0.cycles <= b.cycles + 4,
        b.cycles <= b.after_write8(addr, value).cycles <= b.cycles + 4,
        b.cycles <= b.after_write16(addr, value).cycles <= b.cycles + 2,
        b.cycles <= b.after_write32(addr, value).cycles <= b.cycles + 4,
{
    lemma_half(b, addr, value);
    reveal(Bus::stored8);
    let next = vstd::wrapping::u32_specs::wrapping_add(addr, 2);
    lemma_half(b.loaded16(addr).0, next, value);
    lemma_half(b.stored16(addr, value), next, value / 0x1_0000);
}

proof fn lemma_half(b: Bus, addr: u32, value: u32)
    requires
        b.cycles <= 1100,
    ensures
        b.cycles <= b.loaded16(addr).0.cycles <= b.cycles + 2,
        b.cycles <= b.stored16(addr, value).cycles <= b.cycles + 2,
{
    reveal(Bus::stored16);
}

/// Changes of mode keep the cycle count.
proof fn lemma_modes(cpu: Cpu, value: u32, vector: u32, m: u32)
    ensures
        cpu.with_cpsr(value).cycles == cpu.cycles,
        cpu.excepted(vector, m, value, false).cycles == cpu.cycles,
{
    reveal(Cpu::in_mode);
    reveal(Cpu::excepted);
}

proof fn lemma_interrupted(cpu: Cpu, num: u32)
    ensures
        cpu.interrupted(num).cycles == cpu.cycles,
{
    lemma_modes(cpu, cpu.pc, crate::gba::cpu::VECTOR_SWI, crate::gba::cpu::mode::SVC);
}

proof fn lemma_block_loaded(m: Core<Bus>, addr: u32, list: u32, user: bool, n: nat)
    requires
        m.bus.cycles <= 4,
        n <= 16,
    ensures
        ({
            let l = arm::block_loaded(m, addr, list, user, n);
            &&& l.m.cpu.cycles == m.cpu.cycles
            &&& m.bus.cycles <= l.m.bus.cycles <= m.bus.cycles + 4 * n
        }),
    decreases n,
{
    if n > 0 {
        lemma_block_loaded(m, addr, list, user, (n - 1) as nat);
        let s = arm::block_loaded(m, addr, list, user, (n - 1) as nat);
        lemma_access(s.m.bus, s.addr, 0);
    }
}

proof fn lemma_block_stored(m: Core<Bus>, addr: u32, list: u32, user: bool, n: nat)
    requires
        m.bus.cycles <= 4,
        n <= 16,
    ensures
        ({
            let b = arm::block_stored(m, addr, list, user, n).0;
            m.bus.cycles <= b.cycles <= m.bus.cycles + 4 * n
        }),
    decreases n,
{
    if n > 0 {
        lemma_block_stored(m, addr, list, user, (n - 1) as nat);
        let (bus, at) = arm::block_stored(m, addr, list, user, (n - 1) as nat);
        lemma_access(bus, at, arm::block_value(m.cpu, (n - 1) as u32, user));
    }
}

proof fn lemma_data(m: Core<Bus>, inst: u32)
    requires
        fetched(m),
    ensures
        took(m, m.with_cpu(arm::data_processed(m.cpu, inst)), 0),
{
    reveal(arm::data_processed);
    reveal(arm::dp_written);
    let s = inst & 0x0010_0000 != 0;
    let op = (inst >> 21) & 0xF;
    let (b, shifter) = arm::operand2(m.cpu, inst);
    let (result, c, v) = arm::operation(
        op,
        m.cpu.value((inst >> 16) & 0xF),
        b,
        shifter,
        m.cpu.carry(),
    );
    let set = if 8 <= op <= 11 || s {
        Cpu { cpsr: arm::flagged(m.cpu.cpsr, result, c, v), ..m.cpu }
    } else {
        m.cpu
    };
    lemma_modes(set, set.spsr_of(set.mode_bits()), 0, 0);
}

proof fn lemma_multiplications(m: Core<Bus>, inst: u32)
    requires
        fetched(m),
    ensures
        took(m, m.with_cpu(arm::multiplied(m.cpu, inst)), 0),
        took(m, m.with_cpu(arm::long_multiplied(m.cpu, inst)), 0),
{
    reveal(arm::multiplied);
    reveal(arm::long_multiplied);
}

proof fn lemma_swap(m: Core<Bus>, inst: u32)
    requires
        fetched(m),
    ensures
        took(m, arm::swapped(m, inst), 2),
{
    reveal(arm::swapped);
    let addr = m.cpu.value((inst >> 16) & 0xF);
    let data = m.cpu.value(inst & 0xF);
    lemma_access(m.bus, addr, data);
    lemma_access(m.bus.after_read8(addr).0, addr, data);
    lemma_access(m.bus.after_read32(addr).0, addr, data);
}

proof fn lemma_half_transfer(m: Core<Bus>, inst: u32)
    requires
        fetched(m),
    ensures
        took(m, arm::half_transferred(m, inst), 1),
{
    reveal(arm::half_transferred);
    let base = m.cpu.value((inst >> 16) & 0xF);
    let moved = arm::indexed(inst, base, arm::half_offset(m.cpu, inst));
    let addr = if inst & 0x0100_0000 != 0 {
        moved
    } else {
        base
    };
    lemma_access(m.bus, addr, m.cpu.value((inst >> 12) & 0xF));
}

proof fn lemma_single_transfer(m: Core<Bus>, inst: u32)
    requires
        fetched(m),
    ensures
        took(m, arm::single_transferred(m, inst), 1),
{
    reveal(arm::single_transferred);
    let base = m.cpu.value((inst >> 16) & 0xF);
    let moved = arm::indexed(inst, base, arm::single_offset(m.cpu, inst));
    let addr = if inst & 0x0100_0000 != 0 {
        moved
    } else {
        base
    };
    lemma_access(m.bus, addr, m.cpu.value((inst >> 12) & 0xF));
}

proof fn lemma_block_transfer(m: Core<Bus>, inst: u32)
    requires
        fetched(m),
    ensures
        took(m, arm::block_transferred(m, inst), 16),
{
    reveal(arm::block_transferred);
    let s = inst & 0x0040_0000 != 0;
    let list = inst & 0xFFFF;
    let base = m.cpu.value((inst >> 16) & 0xF);
    let start = arm::block_start(inst, base, arm::count_listed(list, 16));
    lemma_block_loaded(m, start, list, s && !arm::listed(list, 15), 16);
    lemma_block_stored(m, start, list, s, 16);
}

proof fn lemma_status(m: Core<Bus>, inst: u32, value: u32)
    requires
        fetched(m),
    ensures
        took(m, m.with_cpu(arm::msr_written(m.cpu, inst, value)), 0),
        took(m, m.with_cpu(arm::mrs_read(m.cpu, inst)), 0),
        took(m, m.with_cpu(arm::branch_taken(m.cpu, inst)), 0),
{
    reveal(arm::msr_written);
    reveal(arm::mrs_read);
    reveal(arm::branch_taken);
    reveal(Cpu::in_mode);
}

/// An ARM instruction takes from one to four cycles and waits for at most
/// sixteen accesses.
proof fn lemma_arm(m: Core<Bus>, inst: u32)
    requires
        fetched(m),
    ensures
        ({
            let r = arm::executed(m, inst);
            &&& 1 <= r.cpu.cycles <= 4
            &&& r.bus.cycles <= 68
        }),
{
    reveal(arm::dispatched);
    reveal(arm::family_executed);
    lemma_data(m, inst);
    lemma_multiplications(m, inst);
    lemma_swap(m, inst);
    lemma_half_transfer(m, inst);
    lemma_single_transfer(m, inst);
    lemma_block_transfer(m, inst);
    lemma_status(m, inst, m.cpu.value(inst & 0xF));
    lemma_status(m, inst, arm::immediate(inst & 0xFF, (inst >> 8) & 0xF));
    lemma_interrupted(m.cpu, (inst >> 16) & 0xFF);
}

proof fn lemma_thumb_registers(m: Core<Bus>, inst: u32)
    requires
        fetched(m),
    ensures
        took(m, m.with_cpu(thumb::shift_executed(m.cpu, inst)), 0),
        took(m, m.with_cpu(thumb::add_sub_executed(m.cpu, inst)), 0),
        took(m, m.with_cpu(thumb::immediate_executed(m.cpu, inst)), 0),
        took(m, m.with_cpu(thumb::alu_executed(m.cpu, inst)), 0),
        took(m, m.with_cpu(thumb::hi_executed(m.cpu, inst)), 0),
        took(m, m.with_cpu(thumb::address_executed(m.cpu, inst)), 0),
        took(m, m.with_cpu(thumb::sp_executed(m.cpu, inst)), 0),
{
    reveal(thumb::shift_executed);
    reveal(thumb::add_sub_executed);
    reveal(thumb::immediate_executed);
    reveal(thumb::alu_executed);
    reveal(thumb::hi_executed);
    reveal(thumb::address_executed);
    reveal(thumb::sp_executed);
}

proof fn lemma_thumb_jumps(m: Core<Bus>, inst: u32)
    requires
        fetched(m),
    ensures
        took(m, m.with_cpu(thumb::cond_branched(m.cpu, inst)), 0),
        took(m, m.with_cpu(thumb::jumped(m.cpu, inst)), 0),
        took(m, m.with_cpu(thumb::link_begun(m.cpu, inst)), 0),
        took(m, m.with_cpu(thumb::link_taken(m.cpu, inst)), 0),
{
    reveal(thumb::cond_branched);
    reveal(thumb::jumped);
    reveal(thumb::link_begun);
    reveal(thumb::link_taken);
}

proof fn lemma_thumb_transfer(m: Core<Bus>, load: bool, addr: u32, rd: u32, width: u32)
    requires
        fetched(m),
    ensures
        took(m, thumb::transferred(m, load, addr, rd, width), 1),
{
    lemma_access(m.bus, addr, m.cpu.value(rd));
}

proof fn lemma_thumb_memory(m: Core<Bus>, inst: u32, top: u32)
    requires
        fetched(m),
    ensures
        took(m, thumb::reg_transferred(m, inst), 1),
        took(m, thumb::imm_transferred(m, inst, top), 1),
{
    reveal(thumb::reg_transferred);
    reveal(thumb::imm_transferred);
    assert forall|load: bool, addr: u32, rd: u32, width: u32|
        took(m, #[trigger] thumb::transferred(m, load, addr, rd, width), 1) by {
        lemma_thumb_transfer(m, load, addr, rd, width);
    }
    let addr = vstd::wrapping::u32_specs::wrapping_add(
        m.cpu.value((inst >> 3) & 7),
        m.cpu.value((inst >> 6) & 7),
    );
    lemma_access(m.bus, addr, 0);
}

proof fn lemma_thumb_stack(m: Core<Bus>, inst: u32)
    requires
        fetched(m),
    ensures
        took(m, thumb::pushed(m, inst), 9),
        took(m, thumb::popped(m, inst), 9),
{
    reveal(thumb::pushed);
    reveal(thumb::popped);
    let sp = m.cpu.value(13);
    let start = vstd::wrapping::u32_specs::wrapping_sub(sp, thumb::stack_size(inst));
    lemma_block_stored(m, start, inst & 0xFF, false, 8);
    let (bus, at) = arm::block_stored(m, start, inst & 0xFF, false, 8);
    lemma_access(bus, at, m.cpu.value(14));
    lemma_block_loaded(m, sp, inst & 0xFF, false, 8);
    let l = arm::block_loaded(m, sp, inst & 0xFF, false, 8);
    lemma_access(l.m.bus, l.addr, 0);
}

proof fn lemma_thumb_multiple(m: Core<Bus>, inst: u32)
    requires
        fetched(m),
    ensures
        took(m, thumb::multiple_transferred(m, inst), 8),
{
    reveal(thumb::multiple_transferred);
    let base = m.cpu.value((inst >> 8) & 7);
    lemma_block_loaded(m, base, inst & 0xFF, false, 8);
    lemma_block_stored(m, base, inst & 0xFF, false, 8);
}

/// A Thumb instruction takes from two to four cycles and waits for at most
/// nine accesses.
proof fn lemma_thumb(m: Core<Bus>, inst: u32)
    requires
        fetched(m),
    ensures
        ({
            let r = thumb::executed(m, inst);
            &&& 2 <= r.cpu.cycles <= 4
            &&& r.bus.cycles <= 40
        }),
{
    reveal(thumb::executed);
    lemma_thumb_registers(m, inst);
    lemma_thumb_jumps(m, inst);
    lemma_thumb_memory(m, inst, (inst >> 11) & 0x1F);
    lemma_thumb_stack(m, inst);
    lemma_thumb_multiple(m, inst);
    lemma_interrupted(m.cpu, inst & 0xFF);
}

/// An instruction takes from one to four cycles of its own, and at most 68 of
/// wait states.
pub proof fn law_instruction_length(m: Core<Bus>)
    requires
        m.bus.cycles == 0,
    ensures
        1 <= m.executed().cpu.cycles <= 4,
        m.executed().bus.cycles <= 68,
{
    let c = Cpu { cycles: 0, ..m.cpu };
    if !c.halted {
        lemma_access(m.bus, c.pc, 0);
        if c.thumb() {
            let (bus, inst) = m.bus.after_read16(c.pc);
            let cpu = Cpu {
                pc: vstd::wrapping::u32_specs::wrapping_add(c.pc, 2),
                ..c
            }.with_cycles(1);
            lemma_thumb(Core { cpu, bus }, inst);
        } else {
            let (bus, inst) = m.bus.after_read32(c.pc);
            let cpu = Cpu {
                pc: vstd::wrapping::u32_specs::wrapping_add(c.pc, 4),
                ..c
            }.with_cycles(1);
            lemma_arm(Core { cpu, bus }, inst);
        }
    }
}

/// A step takes from 1 to 72 cycles.
pub proof fn law_step_length(s: GbaState)
    ensures
        1 <= s.stepped().1 <= 72,
{
    reveal(GbaState::stepped);
    reveal(GbaState::instruction_run);
    let p = s.prepared();
    let awake = Cpu { halted: false, ..p.cpu };
    let b = Bus { cycles: 0, last_seq: false, ..p.bus };
    law_instruction_length(crate::gba::cpu::core_of(awake, b));
}

} // verus!

use crabboy::gba::cpu::{field, flag, mode, Bus, Cpu, VECTOR_FIQ, VECTOR_IRQ, VECTOR_SWI};
use crabboy::gba::flat::TestBus;

fn arm(bus: &mut TestBus, addr: u32, inst: u32) {
    bus.write32(addr, inst);
}
fn thumb(bus: &mut TestBus, addr: u32, inst: u16) {
    bus.write16(addr, inst as u32);
}

#[test]
fn arm_mov_immediate_and_flags() {
    let mut cpu = Cpu::new();
    cpu.set_cpsr(mode::USR);
    let mut bus = TestBus::new();
    arm(&mut bus, 0, 0xE3B0102A); // MOVS r1, #0x2A (S set -> Z cleared)
    cpu.pc = 0;
    cpu.execute(&mut bus);
    assert_eq!(cpu.regs[1], 0x2A);
    assert_eq!(cpu.cpsr & flag::Z, 0);

    // MOVS r0, #0 sets Z.
    cpu.regs[0] = 0;
    arm(&mut bus, 0, 0xE3B00000);
    cpu.pc = 0;
    cpu.execute(&mut bus);
    assert_eq!(cpu.cpsr & flag::Z, flag::Z);
}

#[test]
fn arm_add_carry_and_zero() {
    let mut cpu = Cpu::new();
    cpu.set_cpsr(mode::USR);
    let mut bus = TestBus::new();
    cpu.regs[0] = 0xFFFF_FFFF;
    cpu.regs[1] = 1;
    arm(&mut bus, 0, 0xE0900001); // ADDS r0, r0, r1
    cpu.pc = 0;
    cpu.execute(&mut bus);
    assert_eq!(cpu.regs[0], 0);
    assert_ne!(cpu.cpsr & flag::C, 0);
    assert_ne!(cpu.cpsr & flag::Z, 0);
}

#[test]
fn arm_branch_relative() {
    let mut cpu = Cpu::new();
    cpu.set_cpsr(mode::USR);
    let mut bus = TestBus::new();
    arm(&mut bus, 0, 0xEA000002); // B +8 -> target 0x10
    cpu.pc = 0;
    cpu.execute(&mut bus);
    assert_eq!(cpu.pc, 0x10);
}

#[test]
fn arm_branch_link_sets_lr() {
    let mut cpu = Cpu::new();
    cpu.set_cpsr(mode::USR);
    let mut bus = TestBus::new();
    arm(&mut bus, 0, 0xEB000000); // BL +0
    cpu.pc = 0;
    cpu.execute(&mut bus);
    assert_eq!(cpu.regs[14], 4); // return address = A+4
    assert_eq!(cpu.pc, 8);
}

#[test]
fn arm_bx_to_thumb_and_back() {
    let mut cpu = Cpu::new();
    cpu.set_cpsr(mode::USR);
    let mut bus = TestBus::new();
    cpu.regs[0] = 0x200 | 1;
    arm(&mut bus, 0, 0xE12FFF10); // BX r0
    cpu.pc = 0;
    cpu.execute(&mut bus);
    assert_ne!(cpu.cpsr & flag::T, 0);
    assert_eq!(cpu.pc, 0x200);
    // Back to ARM via a Thumb BX (0x4700 = BX r0).
    cpu.regs[0] = 0x400;
    thumb(&mut bus, 0, 0x4700);
    cpu.pc = 0;
    cpu.execute(&mut bus);
    assert_eq!(cpu.cpsr & flag::T, 0);
    assert_eq!(cpu.pc, 0x400);
}

#[test]
fn arm_bx_keeps_halfword_aligned_thumb_target() {
    // An ARM-state `BX` to a Thumb address that is 2 mod 4 must land on
    // that halfword, not be word-aligned by the state being left.
    let mut cpu = Cpu::new();
    cpu.set_cpsr(mode::USR);
    let mut bus = TestBus::new();
    cpu.regs[14] = 0x082E_0023;
    arm(&mut bus, 0, 0xE12FFF1E); // BX lr
    cpu.pc = 0;
    cpu.execute(&mut bus);
    assert!(cpu.in_thumb());
    assert_eq!(cpu.pc, 0x082E_0022);
}

#[test]
fn thumb_bx_to_arm_word_aligns_target() {
    let mut cpu = Cpu::new();
    cpu.set_cpsr(mode::USR | flag::T);
    let mut bus = TestBus::new();
    cpu.regs[0] = 0x402;
    thumb(&mut bus, 0, 0x4700); // BX r0
    cpu.pc = 0;
    cpu.execute(&mut bus);
    assert!(!cpu.in_thumb());
    assert_eq!(cpu.pc, 0x400);
}

#[test]
fn arm_swi_enters_svc() {
    let mut cpu = Cpu::new();
    cpu.set_cpsr(mode::USR);
    let mut bus = TestBus::new();
    arm(&mut bus, 0, 0xEF000000); // SWI 0
    cpu.pc = 0;
    cpu.execute(&mut bus);
    assert_eq!(cpu.pc, VECTOR_SWI);
    assert_eq!(cpu.cpsr & 0x1F, mode::SVC);
    assert_ne!(cpu.cpsr & flag::I, 0);
    assert_eq!(cpu.lr[1], 4); // SVC LR = return address
                              // SPSR_SVC saved USR mode + no T.
    assert_eq!(cpu.spsr[1] & 0x1F, mode::USR);
}

#[test]
fn arm_ldr_str() {
    let mut cpu = Cpu::new();
    cpu.set_cpsr(mode::USR);
    let mut bus = TestBus::new();
    cpu.regs[1] = 0x100;
    cpu.regs[0] = 0xDEADBEEF;
    arm(&mut bus, 0, 0xE5810000); // STR r0, [r1]
    cpu.pc = 0;
    cpu.execute(&mut bus);
    assert_eq!(bus.read32(0x100), 0xDEADBEEF);
    arm(&mut bus, 0, 0xE5912000); // LDR r2, [r1]
    cpu.pc = 0;
    cpu.execute(&mut bus);
    assert_eq!(cpu.regs[2], 0xDEADBEEF);
}

#[test]
fn arm_ldm_stm() {
    let mut cpu = Cpu::new();
    cpu.set_cpsr(mode::USR);
    let mut bus = TestBus::new();
    cpu.regs[1] = 0x100; // base
    cpu.regs[2] = 0x22;
    cpu.regs[3] = 0x33;
    arm(&mut bus, 0, 0xE88A000C); // STMIA r2!, {r3,r4}? -> use r1 base, r2,r3
                                  // STMIA r1!, {r2,r3} = 0xE8A1000C
    arm(&mut bus, 0, 0xE8A1000C);
    cpu.pc = 0;
    cpu.execute(&mut bus);
    assert_eq!(bus.read32(0x100), 0x22);
    assert_eq!(bus.read32(0x104), 0x33);
    assert_eq!(cpu.regs[1], 0x108);
    // LDMIA r1!, {r4,r5}
    cpu.regs[1] = 0x100;
    arm(&mut bus, 0, 0xE8B10030);
    cpu.pc = 0;
    cpu.execute(&mut bus);
    assert_eq!(cpu.regs[4], 0x22);
    assert_eq!(cpu.regs[5], 0x33);
    assert_eq!(cpu.regs[1], 0x108);
}

#[test]
fn arm_multiply() {
    let mut cpu = Cpu::new();
    cpu.set_cpsr(mode::USR);
    let mut bus = TestBus::new();
    cpu.regs[0] = 7;
    cpu.regs[1] = 6;
    arm(&mut bus, 0, 0xE0000190); // MUL r0, r1, r0
    cpu.pc = 0;
    cpu.execute(&mut bus);
    assert_eq!(cpu.regs[0], 42);
}

#[test]
fn arm_mode_banking_fiq() {
    let mut cpu = Cpu::new();
    cpu.set_cpsr(mode::USR);
    cpu.regs[8] = 0x1111;
    cpu.regs[9] = 0x2222;
    // Enter FIQ via exception.
    cpu.take_exception(VECTOR_FIQ, mode::FIQ, 0x99, true);
    assert_eq!(cpu.cpsr & 0x1F, mode::FIQ);
    assert_ne!(cpu.cpsr & flag::F, 0);
    // FIQ r8 is now a separate bank (0 initially).
    assert_eq!(cpu.regs[8], 0);
    cpu.regs[8] = 0xAAAA;
    cpu.regs[9] = 0xBBBB;
    // Return to USR by restoring CPSR.
    let saved_usr = cpu.spsr[0];
    cpu.set_cpsr(saved_usr);
    assert_eq!(cpu.cpsr & 0x1F, mode::USR);
    assert_eq!(cpu.regs[8], 0x1111);
    assert_eq!(cpu.regs[9], 0x2222);
}

#[test]
fn thumb_add_immediate() {
    let mut cpu = Cpu::new();
    cpu.set_cpsr(mode::USR | flag::T);
    let mut bus = TestBus::new();
    cpu.regs[1] = 5;
    thumb(&mut bus, 0, 0x1D09); // ADD r1, r1, #4
    cpu.pc = 0;
    cpu.execute(&mut bus);
    assert_eq!(cpu.regs[1], 9);
    assert_eq!(cpu.pc, 2);
}

#[test]
fn thumb_branch_link() {
    let mut cpu = Cpu::new();
    cpu.set_cpsr(mode::USR | flag::T);
    let mut bus = TestBus::new();
    thumb(&mut bus, 0, 0xF000); // BL upper, offset 0
    cpu.pc = 0;
    cpu.execute(&mut bus);
    assert_eq!(cpu.regs[14], 4);
    assert_eq!(cpu.pc, 2);
    thumb(&mut bus, 2, 0xF800); // BL lower, offset 0
    cpu.pc = 2;
    cpu.execute(&mut bus);
    assert_eq!(cpu.pc, 4);
    assert_eq!(cpu.regs[14], 5); // return address | 1
}

#[test]
fn thumb_ldr_str_register() {
    let mut cpu = Cpu::new();
    cpu.set_cpsr(mode::USR | flag::T);
    let mut bus = TestBus::new();
    cpu.regs[0] = 0x200;
    cpu.regs[1] = 0x10;
    cpu.regs[2] = 0xCAFEBABE;
    // STR r2, [r0, r1]: format 7, L=0 B=0, Ro=001 Rb=000 Rd=010 = 0x5042.
    thumb(&mut bus, 0, 0x5042);
    cpu.pc = 0;
    cpu.execute(&mut bus);
    assert_eq!(bus.read32(0x210), 0xCAFEBABE);
    // LDR r3, [r0, r1]: format 7, L=1 B=0 = 0x5843.
    thumb(&mut bus, 0, 0x5843);
    cpu.pc = 0;
    cpu.execute(&mut bus);
    assert_eq!(cpu.regs[3], 0xCAFEBABE);
    // LDRSH r4, [r0, r1]: format 8, H=1 S=1 = 0x5E44.
    bus.write16(0x210, 0x8001);
    thumb(&mut bus, 0, 0x5E44);
    cpu.pc = 0;
    cpu.execute(&mut bus);
    assert_eq!(cpu.regs[4], 0xFFFF_8001);
}

#[test]
fn thumb_push_pop_round_trip() {
    let mut cpu = Cpu::new();
    cpu.set_cpsr(mode::USR | flag::T);
    let mut bus = TestBus::new();
    cpu.regs[4] = 0x4444_4444;
    cpu.regs[5] = 0x5555_5555;
    cpu.regs[6] = 0x6666_6666;
    cpu.regs[7] = 0x7777_7777;
    cpu.regs[14] = 0x0800_1234;
    cpu.regs[13] = 0x1000;
    thumb(&mut bus, 0, 0xB5F0); // push {r4-r7, lr}
    cpu.pc = 0;
    cpu.execute(&mut bus);
    assert_eq!(cpu.regs[13], 0x1000 - 20);
    // Lowest register at the lowest address, LR on top.
    assert_eq!(bus.read32(0x1000 - 20), 0x4444_4444);
    assert_eq!(bus.read32(0x1000 - 16), 0x5555_5555);
    assert_eq!(bus.read32(0x1000 - 12), 0x6666_6666);
    assert_eq!(bus.read32(0x1000 - 8), 0x7777_7777);
    assert_eq!(bus.read32(0x1000 - 4), 0x0800_1234);
    for r in 4..8 {
        cpu.regs[r] = 0;
    }
    thumb(&mut bus, 2, 0xBCF0); // pop {r4-r7}
    cpu.pc = 2;
    cpu.execute(&mut bus);
    assert_eq!(cpu.regs[13], 0x1000 - 4);
    assert_eq!(cpu.regs[4], 0x4444_4444);
    assert_eq!(cpu.regs[7], 0x7777_7777);
}

#[test]
fn thumb_pop_pc_branches_via_stack() {
    let mut cpu = Cpu::new();
    cpu.set_cpsr(mode::USR | flag::T);
    let mut bus = TestBus::new();
    cpu.regs[13] = 0x1000;
    bus.write32(0x1000, 0xAAAA_AAAA);
    bus.write32(0x1004, 0x0800_2000 | 1);
    thumb(&mut bus, 0, 0xBD02); // pop {r1, pc}
    cpu.pc = 0;
    cpu.execute(&mut bus);
    assert_eq!(cpu.regs[1], 0xAAAA_AAAA);
    assert_eq!(cpu.pc, 0x0800_2000);
    assert_eq!(cpu.regs[13], 0x1008);
    assert!(cpu.in_thumb());
}

#[test]
fn thumb_add_sub_register_uses_rs_as_left_operand() {
    let mut cpu = Cpu::new();
    cpu.set_cpsr(mode::USR | flag::T);
    let mut bus = TestBus::new();
    cpu.regs[0] = 3;
    cpu.regs[1] = 10;
    thumb(&mut bus, 0, 0x1842); // add r2, r0, r1
    thumb(&mut bus, 2, 0x1A43); // sub r3, r0, r1
    cpu.pc = 0;
    cpu.execute(&mut bus);
    cpu.execute(&mut bus);
    assert_eq!(cpu.regs[2], 13);
    assert_eq!(cpu.regs[3], (-7i32) as u32);
}

#[test]
fn thumb_ldr_sp_relative_and_ldmia_decode() {
    let mut cpu = Cpu::new();
    cpu.set_cpsr(mode::USR | flag::T);
    let mut bus = TestBus::new();
    cpu.regs[13] = 0x1000;
    bus.write32(0x1008, 0x1234_5678);
    thumb(&mut bus, 0, 0x9A02); // ldr r2, [sp, #8]
    cpu.pc = 0;
    cpu.execute(&mut bus);
    assert_eq!(cpu.regs[2], 0x1234_5678);
    cpu.regs[0] = 0x2000;
    bus.write32(0x2000, 1);
    bus.write32(0x2004, 2);
    thumb(&mut bus, 2, 0xC806); // ldmia r0!, {r1, r2}
    cpu.pc = 2;
    cpu.execute(&mut bus);
    assert_eq!((cpu.regs[1], cpu.regs[2], cpu.regs[0]), (1, 2, 0x2008));
}

#[test]
fn thumb_bl_negative_offset() {
    let mut cpu = Cpu::new();
    cpu.set_cpsr(mode::USR | flag::T);
    let mut bus = TestBus::new();
    // bl 0x80 from 0x100: offset -0x84 -> prefix F7FF, suffix FFBE.
    thumb(&mut bus, 0x100, 0xF7FF);
    thumb(&mut bus, 0x102, 0xFFBE);
    cpu.pc = 0x100;
    cpu.execute(&mut bus);
    cpu.execute(&mut bus);
    assert_eq!(cpu.pc, 0x80);
    assert_eq!(cpu.regs[14], 0x105);
}

#[test]
fn condition_codes() {
    let mut cpu = Cpu::new();
    cpu.set_cpsr(mode::USR | flag::Z);
    let mut bus = TestBus::new();
    // ADDEQ r0, r0, #1 (EQ executes, Z set)
    arm(&mut bus, 0, 0x02800001);
    cpu.regs[0] = 0;
    cpu.pc = 0;
    cpu.execute(&mut bus);
    assert_eq!(cpu.regs[0], 1);
    // ADDNE r0, r0, #1 (NE fails, no exec)
    cpu.regs[0] = 0;
    arm(&mut bus, 0, 0x12800001);
    cpu.pc = 0;
    cpu.execute(&mut bus);
    assert_eq!(cpu.regs[0], 0);
}

#[test]
fn arm_mrs_msr_register() {
    let mut cpu = Cpu::new();
    cpu.set_cpsr(mode::USR | flag::Z | flag::C);
    let mut bus = TestBus::new();
    // MRS r1, cpsr
    arm(&mut bus, 0, 0xE10F1000);
    cpu.pc = 0;
    cpu.execute(&mut bus);
    assert_eq!(cpu.regs[1], mode::USR | flag::Z | flag::C);
    // MSR cpsr_f, r1: the flags field is bit 3 of the field mask (0x8).
    cpu.regs[1] = flag::V | mode::USR;
    arm(&mut bus, 0, 0xE128F001);
    cpu.pc = 0;
    cpu.execute(&mut bus);
    assert_eq!(cpu.cpsr & field::FLAGS, flag::V);
    assert_eq!(cpu.cpsr & 0x1F, mode::USR);
    // MRS r2, spsr must decode (bit 22 set) and read the SPSR of the
    // current mode.
    cpu.set_cpsr(mode::IRQ);
    cpu.set_spsr(mode::IRQ, 0xF000_0010);
    arm(&mut bus, 0, 0xE14F2000);
    cpu.pc = 0;
    cpu.execute(&mut bus);
    assert_eq!(cpu.regs[2], 0xF000_0010);
}

#[test]
fn arm_subs_pc_lr_restores_spsr() {
    let mut cpu = Cpu::new();
    cpu.set_cpsr(mode::USR | flag::T);
    cpu.regs[13] = 0x0300_7F00;
    cpu.irq(0x0800_0102 + 4);
    assert_eq!(cpu.cpsr & 0x1F, mode::IRQ);
    assert_eq!(cpu.regs[14], 0x0800_0106);
    assert!(!cpu.in_thumb());
    let mut bus = TestBus::new();
    arm(&mut bus, VECTOR_IRQ, 0xE25EF004); // subs pc, lr, #4
    cpu.execute(&mut bus);
    assert_eq!(cpu.cpsr & 0x1F, mode::USR);
    assert!(cpu.in_thumb());
    assert_eq!(cpu.pc, 0x0800_0102);
    // The user-mode stack pointer is back in r13.
    assert_eq!(cpu.regs[13], 0x0300_7F00);
}

#[test]
fn arm_ldm_user_bank_without_pc() {
    let mut cpu = Cpu::new();
    cpu.set_cpsr(mode::USR);
    cpu.regs[13] = 0x1111;
    cpu.set_cpsr(mode::IRQ);
    cpu.regs[13] = 0x2222;
    let mut bus = TestBus::new();
    cpu.regs[0] = 0x400;
    bus.write32(0x400, 0xABCD);
    arm(&mut bus, 0, 0xE8D0_2000); // ldmia r0, {r13}^
    cpu.pc = 0;
    cpu.execute(&mut bus);
    assert_eq!(cpu.regs[13], 0x2222, "IRQ sp untouched");
    assert_eq!(cpu.usr_reg(13), 0xABCD, "user sp loaded");
}

#[test]
fn arm_strh_post_index_same_reg_writes_back() {
    let mut cpu = Cpu::new();
    cpu.set_cpsr(mode::USR);
    let mut bus = TestBus::new();
    cpu.regs[0] = 0x200;
    arm(&mut bus, 0, 0xE0C0_00B2); // strh r0, [r0], #2
    cpu.pc = 0;
    cpu.execute(&mut bus);
    assert_eq!(bus.read16(0x200), 0x200);
    assert_eq!(cpu.regs[0], 0x202);
}

#[test]
fn arm_ldm_writeback_loaded_base_wins() {
    let mut cpu = Cpu::new();
    cpu.set_cpsr(mode::USR);
    let mut bus = TestBus::new();
    cpu.regs[0] = 0x400;
    bus.write32(0x400, 0x1234);
    bus.write32(0x404, 0x5678);
    arm(&mut bus, 0, 0xE8B0_0003); // ldmia r0!, {r0, r1}
    cpu.pc = 0;
    cpu.execute(&mut bus);
    assert_eq!(cpu.regs[0], 0x1234);
    assert_eq!(cpu.regs[1], 0x5678);
}

#[test]
fn arm_swp_and_signed_half() {
    let mut cpu = Cpu::new();
    cpu.set_cpsr(mode::USR);
    let mut bus = TestBus::new();
    bus.write32(0x100, 0xDEADBEEF);
    cpu.regs[0] = 0x100;
    cpu.regs[1] = 0x11111111;
    // SWP r2, r1, [r0]
    arm(&mut bus, 0, 0xE1002091);
    cpu.pc = 0;
    cpu.execute(&mut bus);
    assert_eq!(cpu.regs[2], 0xDEADBEEF);
    assert_eq!(bus.read32(0x100), 0x11111111);
    // LDRSH r3, [r0, #2] (sign-extend signed halfword)
    bus.write16(0x102, 0xFFF2);
    cpu.regs[0] = 0x100;
    arm(&mut bus, 0, 0xE1D030F2);
    cpu.pc = 0;
    cpu.execute(&mut bus);
    assert_eq!(cpu.regs[3], 0xFFFF_FFF2);
}

#[test]
fn arm_long_multiply() {
    let mut cpu = Cpu::new();
    cpu.set_cpsr(mode::USR);
    let mut bus = TestBus::new();
    // UMAAL/SMULL: SMULL r2, r3, r0, r1 (signed, no acc)
    cpu.regs[0] = 0x8000_0000; // -2147483648
    cpu.regs[1] = 2;
    arm(&mut bus, 0, 0xE0C32091);
    cpu.pc = 0;
    cpu.execute(&mut bus);
    assert_eq!(cpu.regs[2], 0);
    assert_eq!(cpu.regs[3], 0xFFFF_FFFF);
}

#[test]
fn arm_ldm_stm_with_base_writeback() {
    let mut cpu = Cpu::new();
    cpu.set_cpsr(mode::USR);
    let mut bus = TestBus::new();
    cpu.regs[0] = 1;
    cpu.regs[1] = 2;
    cpu.regs[2] = 3;
    cpu.regs[10] = 0x100;
    // STMDB r10!, {r0, r1, r2}
    arm(&mut bus, 0, 0xE92A0007);
    cpu.pc = 0;
    cpu.execute(&mut bus);
    assert_eq!(cpu.regs[10], 0x0F4);
    assert_eq!(bus.read32(0x0F4), 1);
    assert_eq!(bus.read32(0x0F8), 2);
    assert_eq!(bus.read32(0x0FC), 3);
    // LDMIA r10!, {r4, r5, r6}
    arm(&mut bus, 0, 0xE8BA0070);
    cpu.pc = 0;
    cpu.execute(&mut bus);
    assert_eq!(cpu.regs[10], 0x100);
    assert_eq!(cpu.regs[4], 1);
    assert_eq!(cpu.regs[5], 2);
    assert_eq!(cpu.regs[6], 3);
}

use crabboy::gba::bus::{Bus, EWRAM_SIZE};
use crabboy::gba::cpu::Cpu;
use crabboy::gba::io::{self, key};

fn bus() -> Bus {
    Bus::new(vec![0; 0x4000])
}

#[test]
fn iwram_round_trip() {
    let mut b = bus();
    b.write32(0x0300_0000, 0xDEADBEEF);
    assert_eq!(b.read32(0x0300_0000), 0xDEADBEEF);
    b.write16(0x0300_0004, 0x1234);
    assert_eq!(b.read16(0x0300_0004), 0x1234);
    b.write8(0x0300_0006, 0xAB);
    assert_eq!(b.read8(0x0300_0006), 0xAB);
}

#[test]
fn ewram_mirrors() {
    let mut b = bus();
    b.write16(0x0200_0000, 0x1234);
    assert_eq!(b.read16(0x0200_0000), 0x1234);
    // Mirror within EWRAM range.
    assert_eq!(b.read16(0x0200_0000 + EWRAM_SIZE as u32), 0x1234);
}

#[test]
fn rom_read_and_mirror() {
    let mut b = Bus::new(vec![0x11, 0x22, 0x33, 0x44]);
    assert_eq!(b.read8(0x0800_0000), 0x11);
    assert_eq!(b.read16(0x0800_0000), 0x2211);
    assert_eq!(b.read32(0x0800_0000), 0x4433_2211);
    // 32 MB mirroring wraps into the 4-byte ROM.
    assert_eq!(b.read8(0x0900_0000), 0x11);
}

#[test]
fn keypad_active_low() {
    let mut b = bus();
    assert_eq!(b.read16(0x0400_0130) as u16 & key::MASK, key::MASK);
    b.press(key::A);
    assert_eq!(b.read16(0x0400_0130) as u16 & key::A, 0);
    b.release(key::A);
    assert_eq!(b.read16(0x0400_0130) as u16 & key::A, key::A);
}

#[test]
fn keypad_irq_and_if_clear() {
    let mut b = bus();
    // Enable keypad IRQ in OR mode, watch A.
    b.write16(0x0400_0132, (1 << 14) as u32 | key::A as u32);
    b.press(key::A);
    assert_ne!(b.io.iflags() & io::IRQ_KEYPAD, 0);
    // Without IE the flag is set but nothing is pending.
    assert_eq!(b.pending_irq() & io::IRQ_KEYPAD, 0);
    // Enable the keypad IRQ in IE, then it becomes pending.
    b.write16(0x0400_0200, io::IRQ_KEYPAD as u32);
    assert_ne!(b.pending_irq() & io::IRQ_KEYPAD, 0);
    // Acknowledge: writing 1 to IF clears.
    b.write16(0x0400_0202, io::IRQ_KEYPAD as u32);
    assert_eq!(b.io.iflags() & io::IRQ_KEYPAD, 0);
}

#[test]
fn wait_states_accumulate() {
    let mut b = bus();
    b.begin_step();
    b.read32(0x0300_0000); // IWRAM: 0 wait (word)
    b.read32(0x0200_0000); // EWRAM: 2 wait per 16-bit half => 4 total
    assert_eq!(b.cycles(), 4);
}

#[test]
fn unimplemented_region_reads_zero() {
    let mut b = bus();
    assert_eq!(b.read8(0x0FFF_0000), 0);
    assert_eq!(b.read32(0x0FFF_0000), 0);
}

#[test]
fn cpu_executes_program_from_iwram() {
    let mut b = bus();
    let mut cpu = Cpu::new();
    // MOV r0, #0; ADD r1, r0, #5; B back to 0x03000000 (all ARM).
    b.write32(0x0300_0000, 0xE3A0_0000);
    b.write32(0x0300_0004, 0xE280_1005);
    b.write32(0x0300_0008, 0xEAFF_FFFD);
    cpu.set_pc(0x0300_0000);
    cpu.set_cpsr(0x13); // SVC mode, ARM.
    b.begin_step();
    cpu.execute(&mut b);
    b.begin_step();
    cpu.execute(&mut b);
    assert_eq!(cpu.reg_raw(1), 5);
    assert_eq!(cpu.reg_raw(0), 0);
    // Both instructions consumed internal cycles (CPU returns the count).
    assert!(cpu.execute(&mut b) > 0);
}

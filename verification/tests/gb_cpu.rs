use crabboy::gb::bus::Bus;
use crabboy::gb::cartridge::Cartridge;
use crabboy::gb::cpu::Cpu;

fn cpu_with_bus() -> (Cpu, Bus) {
    let mut rom = vec![0u8; 0x8000];
    rom[0x147] = 0x00;
    let cart = Cartridge::load(&rom).unwrap();
    let bus = Bus::new(cart);
    (Cpu::new(), bus)
}

#[test]
fn nop() {
    let (mut cpu, mut bus) = cpu_with_bus();
    assert_eq!(cpu.execute(&mut bus), 4);
    assert_eq!(cpu.pc, 0x0101);
}

#[test]
fn ld_bc_d16() {
    let (mut cpu, mut bus) = cpu_with_bus();
    bus.cart.rom[0x0100] = 0x01;
    bus.cart.rom[0x0101] = 0x34;
    bus.cart.rom[0x0102] = 0x12;
    cpu.execute(&mut bus);
    assert_eq!(cpu.bc(), 0x1234);
    assert_eq!(cpu.pc, 0x0103);
}

#[test]
fn add_a() {
    let (mut cpu, mut bus) = cpu_with_bus();
    cpu.a = 0x0F;
    cpu.b = 0x01;
    bus.cart.rom[0x0100] = 0x80;
    cpu.execute(&mut bus);
    assert_eq!(cpu.a, 0x10);
    assert!(!cpu.z());
    assert!(!cpu.n());
    assert!(cpu.h());
    assert!(!cpu.c());
}

#[test]
fn add_a_carry() {
    let (mut cpu, mut bus) = cpu_with_bus();
    cpu.a = 0xFF;
    cpu.b = 0x01;
    bus.cart.rom[0x0100] = 0x80;
    cpu.execute(&mut bus);
    assert_eq!(cpu.a, 0x00);
    assert!(cpu.z());
    assert!(cpu.c());
}

#[test]
fn inc_b_half_carry() {
    let (mut cpu, mut bus) = cpu_with_bus();
    cpu.b = 0x0F;
    bus.cart.rom[0x0100] = 0x04;
    cpu.execute(&mut bus);
    assert_eq!(cpu.b, 0x10);
    assert!(cpu.h());
    assert!(!cpu.z());
}

#[test]
fn push_pop() {
    let (mut cpu, mut bus) = cpu_with_bus();
    bus.cart.rom[0x0100] = 0xC5; // push bc
    cpu.b = 0xAB;
    cpu.c = 0xCD;
    cpu.execute(&mut bus);
    assert_eq!(cpu.sp, 0xFFFC);
    bus.cart.rom[0x0100] = 0xC1; // pop bc
    cpu.pc = 0x0100;
    cpu.b = 0;
    cpu.c = 0;
    cpu.execute(&mut bus);
    assert_eq!(cpu.bc(), 0xABCD);
}

#[test]
fn cb_swap() {
    let (mut cpu, mut bus) = cpu_with_bus();
    bus.cart.rom[0x0100] = 0xCB;
    bus.cart.rom[0x0101] = 0x37; // swap a
    cpu.a = 0xAB;
    cpu.execute(&mut bus);
    assert_eq!(cpu.a, 0xBA);
    assert_eq!(cpu.pc, 0x0102);
}

#[test]
fn undefined_opcode_is_two_byte_nop() {
    let (mut cpu, mut bus) = cpu_with_bus();
    bus.cart.rom[0x0100] = 0xD3; // undefined
    bus.cart.rom[0x0101] = 0xAA; // consumed padding
    bus.cart.rom[0x0102] = 0x00; // nop
    assert_eq!(cpu.execute(&mut bus), 8);
    assert_eq!(cpu.pc, 0x0102, "undefined opcode consumes the padding byte");
    assert_eq!(cpu.execute(&mut bus), 4);
    assert_eq!(cpu.pc, 0x0103);
}

#[test]
fn halt_bug_executes_following_instruction_twice() {
    let (mut cpu, mut bus) = cpu_with_bus();
    bus.ie = 0x01;
    bus.io[0x0F] = 0x01; // vblank pending, IME off -> HALT bug
    cpu.ime = false;
    bus.cart.rom[0x0100] = 0x76; // halt
    bus.cart.rom[0x0101] = 0x04; // inc b
    bus.cart.rom[0x0102] = 0x00; // nop
    cpu.b = 0x05;

    cpu.execute(&mut bus); // halt (bug branch)
    assert!(!cpu.halted);
    assert!(cpu.halt_bug);

    cpu.execute(&mut bus); // inc b, first run
    assert_eq!(cpu.b, 0x06);

    cpu.execute(&mut bus); // inc b, second run (PC rewound)
    assert_eq!(cpu.b, 0x07);
    assert_eq!(
        cpu.pc, 0x0102,
        "continues at the byte after the doubled instruction"
    );
}

#[test]
fn halt_without_pending_interrupt_halts() {
    let (mut cpu, mut bus) = cpu_with_bus();
    bus.cart.rom[0x0100] = 0x76; // halt
    cpu.execute(&mut bus);
    assert!(cpu.halted);
    assert!(!cpu.halt_bug);
}

#[test]
fn stop_sets_stopped_and_consumes_padding() {
    let (mut cpu, mut bus) = cpu_with_bus();
    bus.cart.rom[0x0100] = 0x10; // stop
    bus.cart.rom[0x0101] = 0x00; // padding
    bus.cart.rom[0x0102] = 0x00; // nop
    cpu.execute(&mut bus);
    assert!(cpu.stopped);
    assert_eq!(cpu.pc, 0x0102, "STOP consumes its padding byte");
}

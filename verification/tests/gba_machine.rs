use crabboy::gba::bios::BIOS_IF_ADDR;
use crabboy::gba::cpu::mode;
use crabboy::gba::io::irq;
use crabboy::gba::machine::{Gba, IRQ_RETURN_STUB};
use crabboy::gba::state::STATE_MAGIC;

#[test]
fn boots_and_renders_a_frame() {
    // A tiny ROM that loops forever (B to itself in Thumb).
    let mut rom = vec![0u8; 0x4000];
    // Branch to self: 0xE7FE = B -2 (relative to the fetch address).
    rom[0x0000] = 0xFE;
    rom[0x0001] = 0xE7;
    let mut gba = Gba::new(rom);
    // Enable IRQ-less execution; just run a frame.
    gba.run_frame();
    let f = gba.frame();
    assert_eq!(f.width, 240);
    assert_eq!(f.height, 160);
    assert_eq!(f.rgb.as_ref().unwrap().len(), 240 * 160 * 3);
}

#[test]
fn audio_rate_is_32768() {
    let gba = Gba::new(vec![0; 0x4000]);
    assert_eq!(gba.audio_rate(), 32768);
}

#[test]
fn save_state_round_trip() {
    let mut gba = Gba::new(vec![0; 0x4000]);
    gba.run_frame();
    let saved = gba.save_state();
    assert_eq!(&saved[0..4], &STATE_MAGIC);
    // Run a bit further, then restore.
    gba.run_frame();
    gba.load_state(&saved).unwrap();
    let again = gba.save_state();
    assert_eq!(saved, again, "save(load(save())) must equal save()");
}

#[test]
fn save_state_rejects_bad_input() {
    let mut gba = Gba::new(vec![0; 0x4000]);
    assert!(gba.load_state(b"").is_err());
    assert!(gba.load_state(b"NOT_A_STATE").is_err());
    let mut good = gba.save_state();
    good[4] = 0xFF;
    assert!(gba.load_state(&good).is_err(), "bad version rejected");
}

#[test]
fn boots_from_cartridge_entry() {
    // A ROM whose entry is an unconditional branch to itself (B .).
    let mut rom = vec![0u8; 0x2000];
    rom[0..4].copy_from_slice(&0xEAFFFFFEu32.to_le_bytes());
    let mut gba = Gba::new(rom);
    // The CPU must begin executing at the cartridge base.
    assert_eq!(gba.cpu.pc(), 0x0800_0000);
    gba.step();
    // The branch at 0x08000000 loops back to itself (B .).
    assert_eq!(gba.cpu.pc(), 0x0800_0000);
}

#[test]
fn skip_bios_boot_state() {
    let mut gba = Gba::new(vec![0; 0x4000]);
    assert_eq!(gba.cpu.cpsr() & 0x1F, 0x1F, "SYS mode");
    assert_eq!(gba.cpu.cpsr() & (1 << 7), 0, "IRQs enabled");
    assert_eq!(gba.cpu.sp_raw(), 0x0300_7F00);
    gba.cpu.set_cpsr(mode::IRQ);
    assert_eq!(gba.cpu.sp_raw(), 0x0300_7FA0);
    gba.cpu.set_cpsr(mode::SVC);
    assert_eq!(gba.cpu.sp_raw(), 0x0300_7FE0);
    assert_eq!(gba.bus.io.regs[0x300], 1, "POSTFLG");
    assert_eq!(gba.bus.io.vcount(), 0x7E);
    assert!(!gba.cpu.has_bios);
}

/// A cartridge that calls VBlankIntrWait and then spins, with an ARM IRQ
/// handler in IWRAM that acknowledges IF and returns with `bx lr`.
fn vblank_wait_machine(ie: u16) -> Gba {
    let mut rom = vec![0u8; 0x4000];
    rom[0..4].copy_from_slice(&0xEF05_0000u32.to_le_bytes()); // swi VBlankIntrWait
    rom[4..8].copy_from_slice(&0xEAFF_FFFEu32.to_le_bytes()); // b .
    let mut gba = Gba::new(rom);
    gba.bus.write32(0x0300_7FFC, 0x0300_0100);
    for (i, w) in [
        0xE3A0_0404u32, // mov r0, #0x04000000
        0xE380_0C02,    // orr r0, r0, #0x200
        0xE3A0_1001,    // mov r1, #1
        0xE1C0_10B2,    // strh r1, [r0, #2]   (acknowledge VBlank in IF)
        0xE12F_FF1E,    // bx lr
    ]
    .iter()
    .enumerate()
    {
        gba.bus.write32(0x0300_0100 + i as u32 * 4, *w);
    }
    gba.bus.write16(0x0400_0200, ie as u32);
    gba.bus.write16(0x0400_0004, 0x0008); // DISPSTAT: VBlank IRQ enable
    gba
}

fn step_until(gba: &mut Gba, cond: impl Fn(&Gba) -> bool, max_steps: u32) -> bool {
    for _ in 0..max_steps {
        if cond(gba) {
            return true;
        }
        gba.step();
    }
    cond(gba)
}

#[test]
fn vblank_intr_wait_returns_after_handler_sets_mirror() {
    let mut gba = vblank_wait_machine(irq::VBLANK);
    gba.step(); // swi
    assert_eq!(gba.cpu.bios_wait_mask(), Some(irq::VBLANK));
    assert!(gba.bus.io.ime(), "IntrWait enables IME");
    assert_eq!(gba.cpu.pc(), 0x0800_0004);

    // The VBlank IRQ enters the handler through the BIOS-style frame.
    assert!(step_until(&mut gba, |g| g.cpu.pc() == 0x0300_0100, 400_000));
    assert_eq!(gba.cpu.cpsr() & 0x1F, mode::IRQ);
    assert_eq!(gba.cpu.reg_raw(0), 0x0400_0000);
    assert_eq!(gba.cpu.reg_raw(14), IRQ_RETURN_STUB);
    assert_eq!(gba.cpu.sp_raw(), 0x0300_7FA0 - 24);
    assert_eq!(gba.peek32(0x0300_7FA0 - 4), 0x0800_0008, "saved LR");

    // Handler (5) + stub (2) return to the wait in SYS mode; the mirror
    // is still clear, so the wait continues.
    for _ in 0..7 {
        gba.step();
    }
    assert_eq!(gba.cpu.cpsr() & 0x1F, 0x1F);
    assert_eq!(gba.cpu.pc(), 0x0800_0004);
    assert_eq!(gba.cpu.bios_wait_mask(), Some(irq::VBLANK));
    assert_eq!(gba.bus.io.iflags() & irq::VBLANK, 0, "handler acked IF");

    // Once a handler flags the mirror the wait completes and the game
    // continues with the next instruction.
    gba.bus
        .write16(BIOS_IF_ADDR, irq::VBLANK as u32);
    gba.step();
    assert_eq!(gba.cpu.bios_wait_mask(), None);
    assert_eq!(gba.bus.read16(BIOS_IF_ADDR), 0);
    gba.step();
    assert_eq!(gba.cpu.pc(), 0x0800_0004, "b . keeps spinning");
}

#[test]
fn vblank_intr_wait_stays_halted_without_ie() {
    let mut gba = vblank_wait_machine(0);
    gba.step();
    for _ in 0..3 {
        gba.run_frame();
    }
    assert_eq!(gba.cpu.bios_wait_mask(), Some(irq::VBLANK));
    assert_eq!(gba.cpu.pc(), 0x0800_0004, "never reached the handler");
    assert!(gba.cpu.halted);
}

#[test]
fn irq_return_stub_is_installed_only_without_a_real_bios() {
    let gba = Gba::new(vec![0; 0x4000]);
    assert!(!gba.bus.has_real_bios());
    assert_eq!(gba.bus.bios.len(), 0x28);
    let real = Gba::with_bios(vec![0; 0x4000], vec![0; 0x4000], false);
    assert!(real.bus.has_real_bios());
    assert!(real.cpu.has_bios);
}

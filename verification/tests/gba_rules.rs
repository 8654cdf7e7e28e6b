use crabboy::emu::input::Button;
use crabboy::emu::state::{Reader, Writer};
use crabboy::gba::apu::{Apu, FULL_SCALE};
use crabboy::gba::bios;
use crabboy::gba::bus::{Bus, Region};
use crabboy::gba::cpu::arm::shift_reg;
use crabboy::gba::cpu::{flag, mode, Bus as CpuBus, Cpu};
use crabboy::gba::dma::Timing;
use crabboy::gba::eeprom::Eeprom;
use crabboy::gba::flat::TestBus;
use crabboy::gba::io::{irq, key};
use crabboy::gba::machine::{describe, trim_title, Gba};
use crabboy::gba::ppu::{rgb, Ppu};
use crabboy::gba::rtc::{Rtc, CYCLES_PER_SECOND};
use crabboy::gba::save::{SaveCartridge, SaveType};
use crabboy::gba::state::{CPU_LEN, LINES_LEN};
use crabboy::gba::timer::Timers;

fn bus() -> Bus {
    Bus::new(vec![0; 0x4000])
}

/// A machine that runs ARM code from the cartridge.
fn machine(code: &[u32]) -> Gba {
    let mut rom = vec![0u8; 0x4000];
    for (i, word) in code.iter().enumerate() {
        rom[i * 4..i * 4 + 4].copy_from_slice(&word.to_le_bytes());
    }
    Gba::new(rom)
}

fn titled(title: &[u8]) -> Gba {
    let mut rom = vec![0u8; 0x4000];
    rom[0xA0..0xA0 + title.len()].copy_from_slice(title);
    Gba::new(rom)
}

#[test]
fn titles_are_read_from_the_header() {
    assert_eq!(titled(b" POKEMON EMER\0\0").title(), "POKEMON EMER");
    assert_eq!(titled(b" POKEMON EMER\0\0").info(), "POKEMON EMER (GBA)");
    assert_eq!(titled(b"A\xFFB \0").title(), "A\u{FFFD}B");
    assert_eq!(titled(b"").info(), "unknown (GBA)");
    assert_eq!(trim_title("\t AB \0C \0\0"), "AB \0C");
    assert_eq!(describe(String::new()), "unknown (GBA)");
    assert_eq!(Gba::new(vec![b'X'; 0xAF]).title(), "");
    assert_eq!(Gba::new(vec![b'X'; 0xB0]).title(), "XXXXXXXXXXXXXXXX");
}

#[test]
fn each_fault_of_a_gba_state_has_its_message() {
    let mut gba = machine(&[0xEAFF_FFFE]);
    let saved = gba.save_state();
    let mut fail = |edit: &dyn Fn(&mut Vec<u8>)| -> String {
        let mut bytes = saved.clone();
        edit(&mut bytes);
        gba.load_state(&bytes).unwrap_err()
    };
    let regs = 8 + CPU_LEN;
    let ewram = regs + 4 + 0x400 + LINES_LEN;
    let save = saved.len() - 22;
    assert_eq!(fail(&|b| b.truncate(3)), "state too short");
    assert_eq!(fail(&|b| b[1] = 0), "bad magic: [67, 0, 71, 65]");
    assert_eq!(fail(&|b| b.truncate(7)), "unexpected end of state");
    assert_eq!(fail(&|b| b[4] = 1), "unsupported version 1");
    assert_eq!(fail(&|b| b.truncate(30)), "unexpected end of state");
    assert_eq!(fail(&|b| b[regs] = 1), "IO regs wrong size");
    assert_eq!(fail(&|b| b[ewram] = 1), "memory wrong size");
    assert_eq!(fail(&|b| b[save] = 9), "unknown save type 9");
    assert_eq!(fail(&|b| b.push(0)), "trailing bytes in state");
    assert_eq!(fail(&|b| b.truncate(saved.len() - 1)), "unexpected end of state");
    assert!(gba.load_state(&saved).is_ok());
    assert_eq!(gba.save_state(), saved);
}

#[test]
fn a_machine_without_a_rom_cannot_run() {
    assert!(!Gba::new(vec![]).is_valid());
    assert!(Gba::new(vec![0]).is_valid());
}

#[test]
fn stores_read_back_in_every_memory() {
    let mut b = bus();
    for base in [0x0200_0000u32, 0x0300_0000, 0x0500_0000, 0x0600_0000, 0x0700_0000] {
        b.write16(base + 0x10, 0xBEEF);
        assert_eq!(b.read16(base + 0x10), 0xBEEF);
        b.write32(base + 0x20, 0x1234_5678);
        assert_eq!(b.read32(base + 0x20), 0x1234_5678);
        assert_eq!(b.read8(base + 0x21), 0x56);
        b.write8(base + 0x30, 0x9A);
        assert_eq!(b.read8(base + 0x30), 0x9A);
    }
}

#[test]
fn memories_are_mirrored() {
    let mut b = bus();
    b.rom[5] = 0x5A;
    b.write8(0x0200_0003, 0x11);
    b.write8(0x0300_0003, 0x22);
    assert_eq!(b.read8(0x0204_0003), 0x11);
    assert_eq!(b.read8(0x0300_8003), 0x22);
    assert_eq!(b.read8(0x0800_0005), 0x5A);
    assert_eq!(b.read8(0x0800_4005), 0x5A);
    assert_eq!(b.read8(0x0A00_0005), 0x5A);
    b.write32(0x0800_0004, 0);
    assert_eq!(b.rom[5], 0x5A);
}

#[test]
fn addresses_name_their_regions() {
    assert!(matches!(Region::of(0x0200_0000), Some(Region::Ewram)));
    assert!(matches!(Region::of(0x0300_7FFF), Some(Region::Iwram)));
    assert!(Region::of(0x1000_0000).is_none());
}

#[test]
fn a_dma_copies_and_raises_its_interrupt() {
    let mut b = bus();
    for i in 0..8 {
        b.write16(0x0200_0000 + i * 2, 0xA000 + i);
    }
    b.write32(0x0400_00D4, 0x0200_0000);
    b.write32(0x0400_00D8, 0x0300_0100);
    b.write16(0x0400_00DC, 8);
    b.write16(0x0400_00DE, 0xC000);
    b.run_dma(Timing::Immediate);
    for i in 0..8 {
        assert_eq!(b.read16(0x0300_0100 + i * 2), 0xA000 + i);
    }
    assert_ne!(b.dma.irq_flags() & 0x80, 0);
    b.sync_dev_irq();
    assert_eq!(b.io.iflags(), irq::DMA3);
    b.write16(0x0400_0202, irq::DMA3 as u32);
    b.sync_dev_irq();
    assert_eq!(b.io.iflags(), 0);
    assert_eq!(b.dma.irq_flags(), 0);
}

#[test]
fn interrupts_wait_for_the_master_enable() {
    let mut b = bus();
    b.io.raise_irq(irq::TIMER1 | irq::VBLANK);
    b.write16(0x0400_0200, irq::TIMER1 as u32);
    assert_eq!(b.io.pending_irq(), 0);
    assert_eq!(b.io.wake_irq(), irq::TIMER1);
    assert_eq!(b.pending_irq(), irq::TIMER1);
    b.write16(0x0400_0208, 1);
    assert_eq!(b.io.pending_irq(), irq::TIMER1);
    b.io.acknowledge(irq::TIMER1);
    assert_eq!(b.io.pending_irq(), 0);
    assert_eq!(b.io.iflags(), irq::VBLANK);
}

#[test]
fn keys_map_to_their_bits() {
    let mut gba = machine(&[0xEAFF_FFFE]);
    gba.press(Button::L);
    gba.press(Button::Down);
    gba.press(Button::ZL);
    let keys = gba.bus.read16(0x0400_0130) as u16;
    assert_eq!(keys & key::MASK, key::MASK & !(key::L | key::DOWN));
    gba.release(Button::L);
    let keys = gba.bus.read16(0x0400_0130) as u16;
    assert_eq!(keys & key::MASK, key::MASK & !key::DOWN);
}

#[test]
fn a_frame_has_228_lines() {
    let mut gba = machine(&[0xEAFF_FFFE]);
    gba.run_frame();
    let line = gba.line;
    let frames = gba.frames();
    for _ in 0..10 {
        gba.run_frame();
    }
    assert_eq!(gba.frames(), frames + 10);
    assert!(gba.line.abs_diff(line) <= 1);
    assert_eq!(gba.frame_cycles(), 228 * 1232);
}

#[test]
fn steps_take_from_1_to_72_cycles() {
    // A condition that fails; ldmia r0, {r0-r15} from EWRAM.
    let mut gba = machine(&[0x03A0_0000, 0xE890_FFFF]);
    gba.cpu.set_reg(0, 0x0200_0000);
    gba.cpu.set_cpsr(mode::SYS);
    assert_eq!(gba.step(), 3);
    assert_eq!(gba.step(), 2 + 2 + 64);
    // From IWRAM without wait states: a fetch and nothing else.
    let mut gba = machine(&[0]);
    gba.cpu.set_pc(0x0300_0000);
    assert_eq!(gba.step(), 1);
}

#[test]
fn arc_tan2_is_answered_from_outside() {
    // swi 0x0A
    let mut gba = machine(&[0xEF0A_0000, 0xEAFF_FFFE]);
    gba.cpu.set_reg(0, 5);
    gba.cpu.set_reg(1, 0xFFFF_FFFB);
    gba.step();
    assert_eq!(gba.take_angle(), Some((5, 0xFFFF_FFFB)));
    assert_eq!(gba.take_angle(), None);
    gba.answer_angle(-0x2000);
    assert_eq!(gba.cpu.reg_raw(0), 0xE000);
    gba.answer_angle(0x4000);
    assert_eq!(gba.cpu.reg_raw(0), 0x4000);
}

fn call(num: u32, r0: u32, r1: u32, r2: u32, b: &mut Bus) -> Cpu {
    let mut c = Cpu::new();
    c.set_reg(0, r0);
    c.set_reg(1, r1);
    c.set_reg(2, r2);
    assert!(bios::run(&mut c, b, num));
    c
}

#[test]
fn division_leaves_quotient_remainder_and_magnitude() {
    let c = call(0x06, (-1234i32) as u32, 10, 0, &mut bus());
    assert_eq!(c.reg_raw(0) as i32, -123);
    assert_eq!(c.reg_raw(1) as i32, -4);
    assert_eq!(c.reg_raw(3), 123);
    let c = call(0x08, 0xFFFF_FFFF, 0, 0, &mut bus());
    assert_eq!(c.reg_raw(0), 0xFFFF);
    let c = call(0x08, 99, 0, 0, &mut bus());
    assert_eq!(c.reg_raw(0), 9);
}

#[test]
fn copies_and_fills_move_the_counted_units() {
    let mut b = bus();
    b.write32(0x0200_0000, 0x4433_2211);
    call(0x0B, 0x0200_0000, 0x0300_0000, 2, &mut b);
    assert_eq!(b.read32(0x0300_0000), 0x4433_2211);
    assert_eq!(b.read32(0x0300_0004), 0);
    call(0x0C, 0x0200_0000, 0x0300_0010, 0x0100_0003, &mut b);
    for i in 0..3 {
        assert_eq!(b.read32(0x0300_0010 + i * 4), 0x4433_2211);
    }
    assert_eq!(b.read32(0x0300_001C), 0);
}

#[test]
fn running_sums_undo_differences() {
    let data = [3u8, 200, 7, 7, 0, 255, 1];
    let mut rom = vec![0u8; 0x4000];
    rom[0..4].copy_from_slice(&(0x81u32 | (data.len() as u32) << 8).to_le_bytes());
    let mut last = 0u8;
    for (i, &v) in data.iter().enumerate() {
        rom[4 + i] = v.wrapping_sub(last);
        last = v;
    }
    let mut b = Bus::new(rom);
    call(0x16, 0x0800_0000, 0x0200_0000, 0, &mut b);
    for (i, &v) in data.iter().enumerate() {
        assert_eq!(b.read8(0x0200_0000 + i as u32), v as u32);
    }
}

#[test]
fn vblank_wait_clears_an_earlier_vblank() {
    let mut b = bus();
    b.io.raise_irq(irq::VBLANK | irq::TIMER0);
    b.write16(bios::BIOS_IF_ADDR, 0x0009);
    let c = call(0x05, 0, 0, 0, &mut b);
    assert_eq!(c.bios_wait_mask(), Some(irq::VBLANK));
    assert_eq!(b.io.iflags(), irq::TIMER0);
    assert_eq!(b.read16(bios::BIOS_IF_ADDR), 0x0008);
    assert!(b.io.ime());
}

#[test]
fn an_unknown_routine_is_reported() {
    let mut c = Cpu::new();
    assert!(!bios::run(&mut c, &mut bus(), 0xEE));
}

#[test]
fn the_first_failing_routine_is_kept() {
    // swi 0x11; swi 0x14; b .
    let mut gba = machine(&[0xEF11_0000, 0xEF14_0000, 0xEAFF_FFFE]);
    gba.cpu.set_reg(0, 0x0800_0000);
    assert_eq!(gba.last_unknown_swi, None);
    gba.step();
    assert_eq!(gba.last_unknown_swi, Some(0x11));
    gba.step();
    assert_eq!(gba.last_unknown_swi, Some(0x11));
    assert_eq!(gba.pc(), 0x0800_0008);
}

#[test]
fn exceptions_bank_the_registers() {
    let mut cpu = Cpu::new();
    cpu.set_cpsr(mode::USR | flag::C);
    cpu.set_reg(13, 0x1111);
    cpu.irq(0x8004);
    assert_eq!(cpu.cpsr() & 0x1F, mode::IRQ);
    assert_ne!(cpu.cpsr() & flag::I, 0);
    assert_eq!(cpu.reg_raw(14), 0x8004);
    assert_eq!(cpu.get_spsr(mode::IRQ), mode::USR | flag::C);
    cpu.set_reg(13, 0x2222);
    cpu.set_cpsr(mode::USR);
    assert_eq!(cpu.reg_raw(13), 0x1111);
    cpu.set_cpsr(mode::IRQ);
    assert_eq!(cpu.reg_raw(13), 0x2222);
}

#[test]
fn the_user_bank_keeps_its_registers() {
    let mut cpu = Cpu::new();
    cpu.set_cpsr(mode::USR);
    cpu.set_reg(8, 0x8888);
    cpu.set_reg(13, 0x1111);
    cpu.set_reg(14, 0x2222);
    assert_eq!(cpu.usr_reg(13), 0x1111);
    for m in [mode::IRQ, mode::SVC, mode::FIQ, mode::SYS] {
        cpu.set_cpsr(m);
        assert_eq!(cpu.usr_reg(8), 0x8888);
        assert_eq!(cpu.usr_reg(13), 0x1111);
        assert_eq!(cpu.usr_reg(14), 0x2222);
    }
    cpu.set_cpsr(mode::FIQ);
    cpu.set_reg(13, 0x3333);
    cpu.set_usr_reg(8, 0x9999);
    cpu.set_usr_reg(13, 0x4444);
    assert_eq!(cpu.reg_raw(13), 0x3333);
    cpu.set_cpsr(mode::USR);
    assert_eq!((cpu.reg_raw(8), cpu.reg_raw(13)), (0x9999, 0x4444));
}

#[test]
fn arithmetic_shifts_and_carries() {
    let asr = |v: u32, n: u32| shift_reg(v, 2, n, false).0;
    assert_eq!(asr(0x8000_0000, 4), 0xF800_0000);
    assert_eq!(asr(0x4000_0000, 4), 0x0400_0000);
    assert_eq!(asr(0xFFFF_FFF8, 2), 0xFFFF_FFFE);
    // sbcs r0, r1, r2 with the carry clear: the first step of 5 - 5 - 1 does
    // not borrow.
    let mut b = TestBus::new();
    b.write32(0, 0xE0D1_0002);
    let mut cpu = Cpu::new();
    cpu.set_reg(1, 5);
    cpu.set_reg(2, 5);
    cpu.execute(&mut b);
    assert_eq!(cpu.reg_raw(0), 0xFFFF_FFFF);
    assert_ne!(cpu.cpsr() & flag::C, 0);
}

#[test]
fn a_snapshot_keeps_every_bank() {
    let modes = [mode::FIQ, mode::SVC, mode::ABT, mode::UND, mode::IRQ, mode::USR];
    let mut cpu = Cpu::new();
    for (i, m) in modes.into_iter().enumerate() {
        cpu.set_cpsr(m);
        cpu.set_reg(13, 0x1000 + i as u32);
        cpu.set_reg(14, 0x2000 + i as u32);
    }
    for now in modes {
        cpu.set_cpsr(now);
        let saved = cpu.save();
        let mut copy = Cpu::new();
        copy.restore(saved);
        assert_eq!(copy.save(), saved);
        for (i, m) in modes.into_iter().enumerate() {
            copy.set_cpsr(m);
            assert_eq!(copy.reg_raw(13), 0x1000 + i as u32);
            assert_eq!(copy.reg_raw(14), 0x2000 + i as u32);
        }
    }
}

#[test]
fn a_user_mode_does_not_return_from_an_exception() {
    // movs pc, #0x100
    let mut b = TestBus::new();
    b.write32(0, 0xE3B0_FC01);
    let mut cpu = Cpu::new();
    cpu.set_cpsr(mode::USR);
    cpu.set_pc(0);
    cpu.execute(&mut b);
    assert_eq!(cpu.pc(), 4);
}

#[test]
fn timers_count_and_cascade() {
    let mut t = Timers::new();
    t.write_cnt_l(0, 0xFFF0);
    t.write_cnt_h(0, 0x80);
    t.write_cnt_l(1, 0);
    t.write_cnt_h(1, 0x84);
    t.step(10);
    assert_eq!(t.read_cnt_l(0), 0xFFFA);
    t.step(6);
    assert_eq!(t.read_cnt_l(0), 0xFFF0);
    assert_eq!(t.read_cnt_l(1), 1);
    assert!(t.just_overflowed(0));
}

#[test]
fn an_overflow_runs_through_a_chain_of_timers() {
    let mut t = Timers::new();
    t.write_cnt_l(0, 0xFFFF);
    t.write_cnt_l(1, 0xFFFF);
    t.write_cnt_l(2, 0);
    t.write_cnt_h(0, 0x80);
    t.write_cnt_h(1, 0x84);
    t.write_cnt_h(2, 0x84);
    t.step(1);
    assert!(t.just_overflowed(0) && t.just_overflowed(1) && !t.just_overflowed(2));
    assert_eq!(t.read_cnt_l(2), 1);
}

#[test]
fn devices_raise_the_flags_of_their_sources() {
    let mut b = bus();
    b.write16(0x0400_0100, 0xFFFF);
    b.write16(0x0400_0102, 0xC0);
    b.timers.step(1);
    b.sync_dev_irq();
    assert_eq!(b.io.iflags(), irq::TIMER0);
    b.write16(0x0400_0202, irq::TIMER0 as u32);
    b.sync_dev_irq();
    assert_eq!(b.io.iflags(), 0);
}

#[test]
fn vram_addresses_are_masked() {
    let mut b = bus();
    b.write16(0x0600_0000, 0x1111);
    b.write16(0x0601_0000, 0x3333);
    assert_eq!(b.read16(0x0600_8000), 0x1111);
    assert_eq!(b.read16(0x0601_8000), 0x3333);
    assert_eq!(b.read16(0x0602_0000), 0x1111);
}

#[test]
fn save_memories_read_back() {
    let mut s = SaveCartridge::new();
    s.set_kind(SaveType::Sram);
    s.write8(0x0E00_0123, 0x77);
    assert_eq!(s.read8(0x0E00_0123), 0x77);
    assert!(s.battery_backed());
    let mut copy = SaveCartridge::new();
    copy.set_kind(SaveType::Sram);
    copy.load(s.raw());
    assert_eq!(copy.raw(), s.raw());
    assert!(!SaveCartridge::new().battery_backed());
}

#[test]
fn erasing_sets_every_bit() {
    let mut s = SaveCartridge::new();
    let mut command = |list: &[(usize, u8)]| {
        for &(addr, value) in list {
            s.write8(0x0E00_0000 + addr, value);
        }
    };
    command(&[(0x5555, 0xAA), (0x2AAA, 0x55), (0x5555, 0xA0), (0x1234, 0x00)]);
    command(&[(0x5555, 0xAA), (0x2AAA, 0x55), (0x5555, 0x80)]);
    command(&[(0x5555, 0xAA), (0x2AAA, 0x55), (0x5555, 0x30)]);
    assert_eq!(s.read8(0x0E00_1234), 0xFF);
}

#[test]
fn the_eeprom_protocol_survives_a_state() {
    let mut e = Eeprom::new();
    e.set_size_from_dma_count(9);
    for bit in [1u8, 1, 0, 0, 1] {
        e.write_bit(bit);
    }
    let saved = e.save_state_sm();
    let mut copy = Eeprom::new();
    copy.load_state_sm(&saved);
    assert_eq!(copy.save_state_sm(), saved);
    assert!(copy.is_valid());
    assert_eq!(Eeprom::new().read_bit(), 1);
}

#[test]
fn clock_advances_compose() {
    let mut a = Rtc::new();
    a.set_unix_time(1_000_000_000);
    let mut b = Rtc::new();
    b.load_state(&a.save_state());
    a.advance(CYCLES_PER_SECOND * 7 + 5);
    b.advance(CYCLES_PER_SECOND * 3 + CYCLES_PER_SECOND / 2);
    b.advance(CYCLES_PER_SECOND * 3 + CYCLES_PER_SECOND / 2 + 5);
    assert_eq!(a.save_state(), b.save_state());
    assert_eq!(a.unix_time(), 1_000_000_007);
}

#[test]
fn the_fifo_plays_in_order() {
    let mut apu = Apu::new();
    apu.write16(0x84, 0x80);
    apu.write16(0x82, 0x0304);
    for v in [10u8, 20, 0xF6] {
        apu.push_fifo_a(v);
    }
    assert_eq!(apu.fifo_a_count(), 3);
    let mut heard = Vec::new();
    for _ in 0..3 {
        apu.timer_overflow(0);
        apu.step(512);
        heard.push(apu.take_audio().samples[0]);
    }
    assert_eq!(apu.fifo_a_count(), 0);
    assert_eq!(heard, vec![40, 80, -40]);
    assert!(heard.iter().all(|&s| -FULL_SCALE <= s && s < FULL_SCALE));
}

#[test]
fn a_disabled_apu_is_silent() {
    let mut apu = Apu::new();
    apu.step(5120);
    assert_eq!(apu.take_audio().samples, vec![0; 20]);
}

#[test]
fn the_sound_state_round_trips() {
    let mut apu = Apu::new();
    apu.write16(0x84, 0x80);
    apu.write16(0x62, 0xF080);
    apu.write16(0x64, 0x8400);
    apu.push_fifo_b(99);
    apu.step(1000);
    let mut w = Writer::new();
    apu.save(&mut w);
    let bytes = w.finish();
    let mut copy = Apu::new();
    let mut r = Reader::new(&bytes);
    copy.load(&mut r).unwrap();
    assert_eq!(r.remaining(), 0);
    let mut w = Writer::new();
    copy.save(&mut w);
    assert_eq!(w.finish(), bytes);
    assert_eq!(
        Apu::new().load(&mut Reader::new(&bytes[1..])),
        Err("unexpected end of state".to_string())
    );
}

#[test]
fn lines_are_drawn_one_at_a_time() {
    let mut b = bus();
    b.palram.set(0, 0x1F);
    let mut ppu = Ppu::new();
    ppu.render_scanline(&b, 7);
    assert_eq!(ppu.framebuffer[6 * 240 + 239], 0);
    assert_eq!(ppu.framebuffer[7 * 240], ppu.framebuffer[7 * 240 + 239]);
    assert_eq!(ppu.framebuffer[8 * 240], 0);
    assert_eq!(rgb(31, 1, 2), 0x1F | 1 << 5 | 2 << 10);
}

fn put16(b: &mut Bus, off: usize, v: u16) {
    b.io.regs[off] = v as u8;
    b.io.regs[off + 1] = (v >> 8) as u8;
}

#[test]
fn the_better_priority_is_on_top() {
    let mut b = bus();
    // Mode 0, BG0 and BG1, both from tile 0, in colours of their own.
    put16(&mut b, 0, 0x0300);
    for i in 0..64 {
        b.vram.set(i, 0x11);
        b.vram.set(0x4000 + i, 0x22);
    }
    b.palram.set(2, 0x1F);
    b.palram.set(4, 0xE0);
    put16(&mut b, 0x10, 0x1F01);
    put16(&mut b, 0x18, 0x1F04);
    let mut ppu = Ppu::new();
    ppu.render_scanline(&b, 0);
    assert_eq!(ppu.framebuffer[0], 0x00E0);
    put16(&mut b, 0x18, 0x1F06);
    ppu.render_scanline(&b, 0);
    assert_eq!(ppu.framebuffer[0], 0x001F);
    // A window that lets nothing through.
    put16(&mut b, 0, 0x2300);
    put16(&mut b, 0x40, 0xFF00);
    put16(&mut b, 0x44, 0xFF00);
    ppu.render_scanline(&b, 0);
    assert_eq!(ppu.framebuffer[0], 0);
}

#[test]
fn wave_ram_reads_back_beside_the_playing_bank() {
    let mut apu = Apu::new();
    apu.write16(0x84, 0x80);
    apu.write16(0x70, 0x40);
    apu.write16(0x92, 0xBEEF);
    assert_eq!(apu.read_wave_ram16(2), 0xBEEF);
    apu.write16(0x70, 0x00);
    assert_eq!(apu.read_wave_ram16(2), 0);
}

#[test]
fn truncated_gba_states_are_refused() {
    let mut gba = machine(&[0xEAFF_FFFE]);
    let saved = gba.save_state();
    for len in (0..saved.len()).step_by(4099).chain(saved.len() - 40..saved.len()) {
        assert!(gba.load_state(&saved[..len]).is_err(), "length {len}");
    }
    assert!(gba.load_state(&saved).is_ok());
}

#[test]
fn a_snapshot_of_the_registers_restores_them() {
    let mut b = bus();
    b.press(key::A);
    b.write16(0x0400_0200, 0x1234);
    b.write16(0x0400_0208, 1);
    b.io.raise_irq(irq::VBLANK);
    b.io.set_vcount(77);
    let saved = b.io.snapshot();
    let mut other = bus();
    other.io.restore(saved);
    assert_eq!(other.io.ie(), 0x1234);
    assert!(other.io.ime());
    assert_eq!(other.io.iflags(), irq::VBLANK);
    assert_eq!(other.io.vcount(), 77);
    assert_eq!(other.read16(0x0400_0130) as u16 & key::A, 0);
}

#[test]
fn diagnostics_show_the_machine() {
    let mut gba = machine(&[0xEAFF_FFFE]);
    gba.bus.write32(0x0300_7FFC, 0x0800_1234);
    assert_eq!(gba.irq_debug(), (false, 0, 0, 0x0800_1234));
    assert_eq!(gba.peek16(0x0800_0000), 0xFFFE);
    assert_eq!(gba.peek32(0x0800_0000), 0xEAFF_FFFE);
    assert_eq!(gba.pc(), 0x0800_0000);
    assert_eq!(gba.regs()[13], gba.sp());
    assert!(!gba.halted());
    assert_eq!(gba.dispcnt(), 0x0080);
}

#[test]
fn the_return_stub_resumes_what_was_interrupted() {
    let mut gba = machine(&[0xEAFF_FFFE]);
    for r in 0..15 {
        if r != 13 {
            gba.cpu.set_reg(r, 0x1111 * (r + 1));
        }
    }
    // The handler: mov r0, #0; bx lr.
    gba.bus.write32(0x0300_0100, 0xE3A0_0000);
    gba.bus.write32(0x0300_0104, 0xE12F_FF1E);
    gba.bus.write32(0x0300_7FFC, 0x0300_0100);
    let (regs, cpsr, pc) = (gba.regs(), gba.cpu.cpsr(), gba.pc());
    gba.bus.write16(0x0400_0200, irq::TIMER2 as u32);
    gba.bus.write16(0x0400_0208, 1);
    gba.bus.io.raise_irq(irq::TIMER2);
    gba.step();
    assert_eq!(gba.pc(), 0x0300_0100);
    assert_eq!(gba.cpu.cpsr() & 0x1F, mode::IRQ);
    gba.bus.write16(0x0400_0202, irq::TIMER2 as u32);
    for _ in 0..4 {
        gba.step();
    }
    assert_eq!((gba.regs(), gba.cpu.cpsr(), gba.pc()), (regs, cpsr, pc));
}

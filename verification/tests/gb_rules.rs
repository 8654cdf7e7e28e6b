use crabboy::emu::input::Button;
use crabboy::gb::apu::{Apu, FULL_SCALE};
use crabboy::gb::bus::Bus;
use crabboy::gb::cartridge::{Cartridge, MbcType};
use crabboy::gb::joypad::{Joypad, BUTTON_A, BUTTON_B, BUTTON_LEFT, BUTTON_RIGHT};
use crabboy::gb::machine::Gb;
use crabboy::gb::ppu::Ppu;
use crabboy::gb::state::STATE_MAGIC;
use crabboy::gb::timer::Timer;

/// A ROM with a title, a memory bank controller and RAM.
fn rom(title: &[u8], mbc: u8, ram: u8) -> Vec<u8> {
    let mut data = vec![0u8; 0x8000];
    data[0x134..0x134 + title.len()].copy_from_slice(title);
    data[0x147] = mbc;
    data[0x149] = ram;
    data
}

fn machine(code: &[u8]) -> Gb {
    let mut data = rom(b"TEST", 0x13, 0x03);
    data[0x100..0x100 + code.len()].copy_from_slice(code);
    Gb::new(Cartridge::load(&data).unwrap())
}

#[test]
fn a_rom_without_a_header_is_refused() {
    assert_eq!(
        Cartridge::load(&[0u8; 0x14F]).err(),
        Some("ROM too small to contain a cartridge header".to_string())
    );
    let short = Cartridge::load(&[0u8; 0x150]).unwrap();
    assert!(!short.is_valid());
    assert!(Cartridge::load(&[0u8; 0x4000]).unwrap().is_valid());
}

#[test]
fn titles_are_trimmed_and_described() {
    let gb = Gb::new(Cartridge::load(&rom(b" POCKET\xE9 \0X", 0x13, 0x03)).unwrap());
    assert_eq!(gb.bus.cart.title, " POCKET\u{e9} ");
    assert_eq!(gb.title(), "POCKET\u{e9}");
    assert_eq!(gb.info(), " POCKET\u{e9}  (MBC3, battery=true)");
    assert_eq!(gb.name(), "gb");
    let gb = Gb::new(Cartridge::load(&rom(b"", 0x00, 0x00)).unwrap());
    assert_eq!(gb.title(), "");
    assert_eq!(gb.info(), " (ROM only, battery=false)");
    assert_eq!(MbcType::Mbc1.name(), "MBC1");
}

#[test]
fn a_state_keeps_a_title_beyond_ascii() {
    let gb = Gb::new(Cartridge::load(&rom(b"CAF\xC9", 0x01, 0x00)).unwrap());
    let saved = gb.save_state();
    let mut other = machine(&[]);
    other.load_state(&saved).unwrap();
    assert_eq!(other.bus.cart.title, "CAF\u{c9}");
    assert_eq!(other.save_state(), saved);
}

/// Where the title's length prefix stands in a state of `machine`.
fn title_at(saved: &[u8]) -> usize {
    let needle = b"\x04\0\0\0TEST";
    (0..saved.len()).find(|&i| saved[i..].starts_with(needle)).unwrap()
}

#[test]
fn each_fault_of_a_state_has_its_message() {
    let mut gb = machine(&[]);
    let saved = gb.save_state();
    let at = title_at(&saved);
    let mut fail = |edit: &dyn Fn(&mut Vec<u8>)| -> String {
        let mut bytes = saved.clone();
        edit(&mut bytes);
        let before = gb.save_state();
        let message = gb.load_state(&bytes).unwrap_err();
        assert_eq!(gb.save_state(), before, "a refused state changes nothing");
        message
    };
    assert_eq!(fail(&|b| b.truncate(7)), "save state too short");
    assert_eq!(fail(&|b| b[0] ^= 1), "bad save state magic");
    assert_eq!(fail(&|b| b[5] = 1), {
        let version = u32::from_le_bytes([saved[4], saved[5], saved[6], saved[7]]) | 0x100;
        format!("unsupported save state version {version}")
    });
    assert_eq!(fail(&|b| b.truncate(8)), "save state truncated");
    assert_eq!(
        fail(&|b| b[at + 3] = 0xFF),
        "save state length prefix exceeds remaining data"
    );
    assert_eq!(fail(&|b| b[at + 4] = 0xFF), "invalid UTF-8 in save state");
    assert_eq!(fail(&|b| b[at + 8] = 6), "unknown MBC discriminator 6");
    assert_eq!(
        fail(&|b| b.extend_from_slice(&[0; 12])),
        "save state has 12 trailing bytes"
    );
    assert_eq!(saved[..4], STATE_MAGIC);
}

#[test]
fn a_state_without_a_rom_cannot_run() {
    let mut gb = machine(&[]);
    let saved = gb.save_state();
    let at = title_at(&saved) + 10;
    // Take the ROM out: its length prefix follows the title, MBC and CGB flag.
    let mut bytes = saved[..at].to_vec();
    bytes.extend_from_slice(&[0; 4]);
    bytes.extend_from_slice(&saved[at + 4 + 0x8000..]);
    gb.load_state(&bytes).unwrap();
    assert!(!gb.is_valid());
    gb.load_state(&saved).unwrap();
    assert!(gb.is_valid());
}

#[test]
fn cartridge_ram_reads_back_while_open() {
    let mut cart = Cartridge::load(&rom(b"", 0x03, 0x03)).unwrap();
    cart.write(0x0000, 0x0A);
    cart.write_ram(0xA010, 0x5C);
    assert_eq!(cart.read_ram(0xA010), 0x5C);
    assert!(cart.sram_changed());
    assert!(!cart.sram_changed());
    cart.write(0x0000, 0x00);
    cart.write_ram(0xA010, 0x11);
    assert_eq!(cart.read_ram(0xA010), 0xFF);
    cart.write(0x0000, 0x0A);
    assert_eq!(cart.read_ram(0xA010), 0x5C);
}

#[test]
fn the_clock_carries_into_minutes_hours_and_days() {
    let mut cart = Cartridge::load(&rom(b"", 0x0F, 0x02)).unwrap();
    cart.load_rtc(&[59, 59, 23, 0xFF, 0x01]);
    cart.rtc_tick(4_194_304);
    assert_eq!(cart.rtc_data(), vec![0, 0, 0, 0, 0x80]);
    cart.load_rtc(&[1, 2, 3, 4]);
    assert_eq!(cart.rtc_data(), vec![0, 0, 0, 0, 0x80]);
}

#[test]
fn the_joypad_shows_the_selected_rows() {
    let mut pad = Joypad::new();
    pad.press(BUTTON_A | BUTTON_LEFT);
    assert_eq!(pad.read(0x10) & 0x0F, 0x0E);
    assert_eq!(pad.read(0x20) & 0x0F, 0x0D);
    assert_eq!(pad.read(0x30) & 0x0F, 0x0F);
    assert_eq!(pad.read(0x00) & 0x0F, 0x0C);
    pad.press(BUTTON_B);
    pad.release(BUTTON_A | BUTTON_LEFT | BUTTON_RIGHT);
    assert_eq!(pad.read(0x10) & 0x0F, 0x0D);
    assert_eq!(pad.read(0x20) & 0x0F, 0x0F);
}

#[test]
fn buttons_without_a_key_do_nothing() {
    let mut gb = machine(&[]);
    let before = gb.save_state();
    gb.press(Button::L);
    gb.release(Button::ZR);
    assert_eq!(gb.save_state(), before);
}

#[test]
fn work_ram_reads_back_and_echoes() {
    let mut gb = machine(&[]);
    gb.bus.write(0xC123, 0x77);
    assert_eq!(gb.bus.read(0xC123), 0x77);
    assert_eq!(gb.bus.read(0xE123), 0x77);
    gb.bus.write(0xFE00 - 1, 0x42);
    assert_eq!(gb.bus.read(0xDDFF), 0x42);
    gb.bus.write(0xFF80, 0x99);
    assert_eq!(gb.bus.read(0xFF80), 0x99);
    gb.bus.write(0x8001, 0x21);
    assert_eq!(gb.bus.read(0x8001), 0x21);
    // Time alone changes none of them.
    gb.bus.step(5000);
    assert_eq!(gb.bus.read(0xC123), 0x77);
    assert_eq!(gb.bus.read(0xFF80), 0x99);
    assert_eq!(gb.bus.read(0x8001), 0x21);
}

#[test]
fn a_push_is_undone_by_a_pop() {
    // ld sp,$D000; push bc; pop de
    let mut gb = machine(&[0x31, 0x00, 0xD0, 0xC5, 0xD1]);
    gb.cpu.b = 0x12;
    gb.cpu.c = 0x34;
    assert_eq!(gb.step(), 12);
    assert_eq!(gb.step(), 16);
    assert_eq!(gb.cpu.sp, 0xCFFE);
    assert_eq!(gb.step(), 12);
    assert_eq!((gb.cpu.d, gb.cpu.e, gb.cpu.sp), (0x12, 0x34, 0xD000));
}

#[test]
fn instructions_take_the_documented_cycles() {
    // nop; ld b,n; inc (hl); bit 0,(hl); jr taken
    let mut gb = machine(&[0x00, 0x06, 0x07, 0x34, 0xCB, 0x46, 0x18, 0xFE]);
    gb.cpu.h = 0xC0;
    gb.cpu.l = 0x00;
    let cycles: Vec<u32> = (0..5).map(|_| gb.step()).collect();
    assert_eq!(cycles, vec![4, 8, 12, 12, 12]);
}

#[test]
fn an_interrupt_takes_twenty_cycles() {
    let mut gb = machine(&[0x00]);
    gb.cpu.ime = true;
    gb.bus.write(0xFFFF, 0x04);
    gb.bus.write(0xFF0F, 0x04);
    assert_eq!(gb.step(), 20);
    assert_eq!(gb.cpu.pc, 0x50);
    assert!(!gb.cpu.ime);
    assert_eq!(gb.bus.read(0xFF0F) & 0x04, 0);
}

#[test]
fn timer_ticks_compose() {
    let start = || {
        let mut io = [0u8; 0x80];
        io[0x05] = 0xF0;
        io[0x06] = 0x33;
        io[0x07] = 0x05;
        (Timer::new(), io)
    };
    let (mut a, mut io_a) = start();
    a.step(1000, &mut io_a);
    let (mut b, mut io_b) = start();
    b.step(377, &mut io_b);
    b.step(623, &mut io_b);
    assert_eq!(io_a, io_b);
    assert_eq!(a.div_counter, b.div_counter);
    assert_eq!(a.div_counter, 1000);
    assert_eq!(io_a[0x04], 3);
}

#[test]
fn a_frame_takes_70224_dots() {
    let mut gb = machine(&[0x18, 0xFE]);
    gb.bus.write(0xFF40, 0x91);
    gb.run_frame();
    let ly = gb.bus.read(0xFF44);
    let dot = gb.bus.ppu.dot;
    gb.bus.step(70224);
    assert_eq!((gb.bus.read(0xFF44), gb.bus.ppu.dot), (ly, dot));
    assert_eq!(gb.frame_cycles(), 70224);
}

#[test]
fn oam_dma_copies_a_page() {
    let mut gb = machine(&[]);
    for i in 0..160u16 {
        gb.bus.write(0xC100 + i, (i * 3) as u8);
    }
    gb.bus.write(0xFF46, 0xC1);
    gb.bus.step(4 * 162);
    assert!(!gb.bus.dma_active());
    for i in 0..160usize {
        assert_eq!(gb.bus.oam[i], (i * 3) as u8);
    }
}

#[test]
fn samples_come_at_the_rate_and_within_full_scale() {
    let mut gb = machine(&[0x18, 0xFE]);
    gb.bus.write(0xFF26, 0x80);
    gb.bus.write(0xFF24, 0x77);
    gb.bus.write(0xFF25, 0xFF);
    gb.bus.write(0xFF12, 0xF0);
    gb.bus.write(0xFF14, 0x87);
    gb.take_audio();
    gb.bus.step(512 * 100);
    let audio = gb.take_audio();
    assert_eq!(audio.samples.len(), 200);
    assert!(audio.samples.iter().all(|&s| -FULL_SCALE <= s && s <= FULL_SCALE));
    assert!(audio.samples.iter().any(|&s| s != 0));
    assert!(gb.take_audio().is_empty());
}

#[test]
fn fresh_devices_are_valid() {
    assert!(Ppu::new().is_valid());
    assert!(Apu::new().is_valid());
    assert!(Bus::new(Cartridge::load(&rom(b"", 0, 0)).unwrap()).is_valid());
    assert!(machine(&[]).is_valid());
}

#[test]
fn save_data_loads_as_far_as_it_fits() {
    let mut gb = machine(&[]);
    assert_eq!(gb.save_data().len(), 0x8000);
    gb.load_data(&[1, 2, 3]);
    assert_eq!(gb.save_data()[..4], [1, 2, 3, 0]);
    gb.load_data(&vec![7u8; 0x9000]);
    assert_eq!(gb.save_data(), vec![7u8; 0x8000]);
}

#[test]
fn an_envelope_write_keeps_the_running_timer() {
    let mut apu = Apu::new();
    let mut io = [0u8; 0x80];
    apu.write(0xFF26, 0x80, &mut io);
    apu.write(0xFF17, 0xF3, &mut io);
    apu.write(0xFF19, 0x80, &mut io);
    let timer = apu.ch2.env.timer;
    apu.write(0xFF17, 0xA7, &mut io);
    assert_eq!(apu.ch2.env.timer, timer);
}

#[test]
fn a_retrigger_loads_an_expired_length() {
    let mut apu = Apu::new();
    let mut io = [0u8; 0x80];
    apu.write(0xFF26, 0x80, &mut io);
    apu.write(0xFF17, 0xF0, &mut io);
    apu.write(0xFF16, 0x3E, &mut io);
    assert_eq!(apu.ch2.length, 2);
    apu.write(0xFF19, 0x80, &mut io);
    assert_eq!(apu.ch2.length, 2);
    apu.ch2.length = 0;
    apu.write(0xFF19, 0x80, &mut io);
    assert_eq!(apu.ch2.length, 64);
}

#[test]
fn the_low_bits_of_the_flags_stay_clear() {
    // ld sp,$C100; pop af; daa; scf; ccf; add a,(hl); cpl
    let mut gb = machine(&[0x31, 0x00, 0xC1, 0xF1, 0x27, 0x37, 0x3F, 0x86, 0x2F]);
    assert_eq!(gb.cpu.f, 0xB0);
    gb.bus.write(0xC100, 0xFF);
    gb.bus.write(0xC101, 0x9A);
    gb.step();
    gb.step();
    assert_eq!((gb.cpu.a, gb.cpu.f), (0x9A, 0xF0));
    for _ in 0..5 {
        gb.step();
        assert_eq!(gb.cpu.f & 0x0F, 0);
    }
}

#[test]
fn tima_counts_once_per_period() {
    for (tac, period) in [(4u8, 1024u32), (5, 16), (6, 64), (7, 256)] {
        let mut timer = Timer::new();
        let mut io = [0u8; 0x80];
        io[0x07] = tac;
        timer.step(period - 1, &mut io);
        assert_eq!(io[0x05], 0);
        timer.step(1, &mut io);
        assert_eq!(io[0x05], 1);
        timer.step(9 * period, &mut io);
        assert_eq!(io[0x05], 10);
        assert_eq!(io[0x0F], 0);
    }
}

#[test]
fn an_mbc2_has_half_bytes_of_its_own() {
    let mut cart = Cartridge::load(&rom(b"", 0x06, 0x00)).unwrap();
    assert_eq!(cart.mbc, MbcType::Mbc2);
    assert!(cart.has_battery());
    assert_eq!(cart.ram_bytes(), 512);
    assert_eq!(cart.read_ram(0xA000), 0xFF);
    cart.write(0x0000, 0x0A);
    cart.write_ram(0xA003, 0x47);
    assert_eq!(cart.read_ram(0xA003), 0xF7);
    assert_eq!(cart.read_ram(0xA203), 0xF7);
    assert!(cart.sram_changed());
    cart.write(0x2100, 0x00);
    assert_eq!(cart.rom_bank, 1);
    cart.write(0x0000, 0x00);
    assert_eq!(cart.read_ram(0xA003), 0xFF);
}

#[test]
fn an_mbc5_banks_rom_and_ram() {
    let mut data = rom(b"", 0x1B, 0x03);
    data[0x148] = 0x07;
    let mut cart = Cartridge::load(&data).unwrap();
    assert_eq!(cart.mbc, MbcType::Mbc5);
    assert!(cart.has_battery());
    cart.write(0x2000, 0x00);
    assert_eq!(cart.rom_bank, 0);
    cart.write(0x2000, 0xC3);
    assert_eq!(cart.rom_bank, 0xC3);
    cart.write(0x0000, 0x0A);
    for bank in 0..4u8 {
        cart.write(0x4000, bank);
        cart.write_ram(0xA123, 0x40 + bank);
    }
    for bank in 0..4u8 {
        cart.write(0x4000, bank);
        assert_eq!(cart.read_ram(0xA123), 0x40 + bank);
    }
    assert_eq!(MbcType::Mbc2.name(), "MBC2");
    assert_eq!(MbcType::Mbc5.name(), "MBC5");
}

#[test]
fn packed_decimal_sums_and_differences() {
    let packed = |n: u32| (n / 10 * 16 + n % 10) as u8;
    for (op, minus) in [(0x80u8, false), (0x90, true)] {
        // add a,b or sub b; daa; jr back to the start
        let mut gb = machine(&[op, 0x27, 0x18, 0xFC]);
        for x in 0..100u32 {
            for y in 0..100u32 {
                gb.cpu.pc = 0x100;
                gb.cpu.a = packed(x);
                gb.cpu.b = packed(y);
                gb.step();
                assert_eq!(gb.step(), 4);
                let (sum, carry) = if minus {
                    ((100 + x - y) % 100, x < y)
                } else {
                    ((x + y) % 100, x + y >= 100)
                };
                assert_eq!(gb.cpu.a, packed(sum));
                assert_eq!(gb.cpu.f & 0x10 != 0, carry);
                assert_eq!(gb.cpu.f & 0x80 != 0, sum == 0);
                assert_eq!(gb.cpu.f & 0x20, 0);
                assert_eq!(gb.cpu.f & 0x40 != 0, minus);
            }
        }
    }
}

#[test]
fn dots_may_be_stepped_in_parts() {
    let start = || {
        let mut ppu = Ppu::new();
        let mut io = [0u8; 0x80];
        io[0x40] = 0x91;
        io[0x47] = 0xE4;
        let mut vram = [0u8; 0x4000];
        for (i, b) in vram.iter_mut().enumerate() {
            *b = (i * 7) as u8;
        }
        let mut oam = [0u8; 0xA0];
        ppu.step(100, &mut io, &mut vram, &mut oam);
        (ppu, io, vram, oam)
    };
    let (mut a, mut io_a, mut vram_a, mut oam_a) = start();
    a.step(30_000, &mut io_a, &mut vram_a, &mut oam_a);
    let (mut b, mut io_b, mut vram_b, mut oam_b) = start();
    for n in [1u32, 455, 2_000, 27_544] {
        b.step(n, &mut io_b, &mut vram_b, &mut oam_b);
    }
    assert_eq!(io_a, io_b);
    assert_eq!(a.frame_buffer[..], b.frame_buffer[..]);
    assert_eq!(a.rgb_buffer[..], b.rgb_buffer[..]);
    assert_eq!((a.ly, a.dot, a.mode), (b.ly, b.dot, b.mode));
    assert_eq!(a.vblank_interrupts, b.vblank_interrupts);
}

#[test]
fn a_tile_row_is_fetched_once_per_line() {
    let mut ppu = Ppu::new();
    ppu.ly = 1;
    let mut io = [0u8; 0x80];
    // Background, and a window from line 1 and column 80 on.
    io[0x40] = 0x80 | 0x40 | 0x20 | 0x10 | 0x01;
    io[0x47] = 0xE4;
    io[0x4A] = 1;
    io[0x4B] = 87;
    let mut vram = [0u8; 0x4000];
    // Tiles 0 and 1: colour 1 in the first row, colour 2 in the second.
    for tile in [0, 16] {
        vram[tile] = 0xFF;
        vram[tile + 3] = 0xFF;
    }
    // The window shows tile 0, then tile 1.
    vram[0x1C01] = 1;
    ppu.render_line(&io, &vram);
    assert_eq!(ppu.frame_buffer[160], 2);
    assert_eq!(ppu.frame_buffer[160 + 79], 2);
    // The background has fetched the second row of tile 0.
    assert_eq!(ppu.frame_buffer[160 + 80], 2);
    assert_eq!(ppu.frame_buffer[160 + 88], 1);
    assert_eq!(ppu.frame_buffer[0], 0);
}

#[test]
fn the_decoder_counts_whole_machine_cycles() {
    for op in 0..=255u8 {
        let mut gb = machine(&[op, 0, 0]);
        gb.cpu.h = 0xC0;
        gb.cpu.sp = 0xD000;
        let mut other = machine(&[op, 0, 0]);
        other.cpu.h = 0xC0;
        other.cpu.sp = 0xD000;
        other.cpu.pc += 1;
        other.cpu.ticked = 4;
        let counted = other.cpu.exec_opcode(op, &mut other.bus);
        assert_eq!(counted, other.cpu.ticked);
        let cycles = gb.step();
        assert_eq!(counted, cycles, "{op:#04x}");
        assert!(cycles % 4 == 0 && (4..=24).contains(&cycles), "{op:#04x}: {cycles}");
    }
}

#[test]
fn the_clock_shows_its_latched_copy() {
    let mut cart = Cartridge::load(&rom(b"", 0x10, 0x02)).unwrap();
    cart.write(0x0000, 0x0A);
    cart.write(0x4000, 0x08);
    cart.write_ram(0xA000, 30);
    assert_eq!(cart.read_ram(0xA000), 0);
    cart.write(0x6000, 0x01);
    assert_eq!(cart.read_ram(0xA000), 0);
    cart.write(0x6000, 0x00);
    assert_eq!(cart.read_ram(0xA000), 30);
    cart.rtc_tick(3 * 4_194_304);
    assert_eq!(cart.read_ram(0xA000), 30);
    cart.write(0x6000, 0x00);
    assert_eq!(cart.read_ram(0xA000), 30);
    cart.write(0x7FFF, 0x01);
    cart.write(0x7FFF, 0x00);
    assert_eq!(cart.read_ram(0xA000), 33);
}

use crabboy::gba::bios;
use crabboy::gba::bus::Bus;
use crabboy::gba::cpu::Cpu;

/// A bus whose ROM holds `stream` at 0x08000000.
fn rom_bus(stream: &[u8]) -> Bus {
    let mut rom = vec![0u8; 0x8000];
    rom[..stream.len()].copy_from_slice(stream);
    Bus::new(rom)
}

fn run_unpack(bus: &mut Bus, swi: u32) -> bool {
    let mut c = Cpu::new();
    c.set_reg(0, 0x0800_0000);
    c.set_reg(1, 0x0200_0000);
    bios::run(&mut c, bus, swi)
}

fn header(kind: u32, low: u32, size: u32) -> [u8; 4] {
    ((kind << 4) | low | (size << 8)).to_le_bytes()
}

#[test]
fn lz77_uncomp_expands_literals_and_back_references() {
    // "AB" literal, then a 3-byte back-reference with displacement 2
    // (repeats "AB" -> "ABA"), then literal "C": ABABAC.
    let mut s = header(1, 0, 6).to_vec();
    s.extend_from_slice(&[0b0010_0000, b'A', b'B', 0x00, 0x01, b'C']);
    let mut bus = rom_bus(&s);
    assert!(run_unpack(&mut bus, 0x11));
    let got: Vec<u8> = (0..6).map(|i| bus.read8(0x0200_0000 + i) as u8).collect();
    assert_eq!(got, b"ABABAC");
    // The VRAM variant produces the same bytes through halfword writes.
    let mut bus = rom_bus(&s);
    let mut c = Cpu::new();
    c.set_reg(0, 0x0800_0000);
    c.set_reg(1, 0x0600_0000);
    assert!(bios::run(&mut c, &mut bus, 0x12));
    assert_eq!(bus.read16(0x0600_0000), u16::from_le_bytes(*b"AB") as u32);
    assert_eq!(bus.read16(0x0600_0004), u16::from_le_bytes(*b"AC") as u32);
}

#[test]
fn rl_uncomp_expands_runs() {
    // Run of 4 x 0x12, then 2 literals.
    let mut s = header(3, 0, 6).to_vec();
    s.extend_from_slice(&[0x81, 0x12, 0x01, 0xAA, 0xBB]);
    let mut bus = rom_bus(&s);
    assert!(run_unpack(&mut bus, 0x14));
    assert_eq!(bus.read32(0x0200_0000), 0x1212_1212);
    assert_eq!(bus.read16(0x0200_0004), 0xBBAA);
}

#[test]
fn huff_uncomp_reads_eight_bit_symbols() {
    // Single node: both children are leaves; 0 -> 'A', 1 -> 'B'.
    let mut s = header(2, 8, 4).to_vec();
    s.push(1); // tree size byte: bitstream at +4+4
    s.push(0xC0); // root: left and right are data
    s.push(b'A');
    s.push(b'B');
    s.extend_from_slice(&0b0101_0000_0000_0000_0000_0000_0000_0000u32.to_le_bytes());
    let mut bus = rom_bus(&s);
    assert!(run_unpack(&mut bus, 0x13));
    assert_eq!(bus.read32(0x0200_0000), u32::from_le_bytes(*b"ABAB"));
}

#[test]
fn huff_uncomp_packs_four_bit_symbols_low_nibble_first() {
    let mut s = header(2, 4, 2).to_vec();
    s.push(1);
    s.push(0xC0);
    s.push(0x1);
    s.push(0x2);
    // Bits 0,1,1,0 -> symbols 1,2,2,1 -> bytes 0x21, 0x12.
    s.extend_from_slice(&0b0110_0000_0000_0000_0000_0000_0000_0000u32.to_le_bytes());
    let mut bus = rom_bus(&s);
    assert!(run_unpack(&mut bus, 0x13));
    assert_eq!(bus.read16(0x0200_0000), 0x1221);
}

#[test]
fn huff_uncomp_walks_a_two_level_tree() {
    // root(+5, offset 0) -> pair at +6/+7: left = node (offset 0), right
    // = leaf 'C'. Left node at +6 -> pair at +8/+9: leaves 'A', 'B'.
    // Codes: A = 00, B = 01, C = 1.
    let mut s = header(2, 8, 4).to_vec();
    s.push(3); // tree table padded to 8 bytes so the bitstream is aligned
    s.push(0x40); // root: right child is data
    s.push(0xC0); // left node: both children data
    s.push(b'C');
    s.push(b'A');
    s.push(b'B');
    s.push(0);
    s.push(0);
    // C A B C -> 1 00 01 1
    s.extend_from_slice(&0b1000_1100_0000_0000_0000_0000_0000_0000u32.to_le_bytes());
    let mut bus = rom_bus(&s);
    assert!(run_unpack(&mut bus, 0x13));
    assert_eq!(bus.read32(0x0200_0000), u32::from_le_bytes(*b"CABC"));
}

#[test]
fn diff8_and_diff16_unfilter() {
    let mut s = header(8, 1, 3).to_vec();
    s.extend_from_slice(&[0x10, 0x02, 0xFF]);
    let mut bus = rom_bus(&s);
    assert!(run_unpack(&mut bus, 0x16));
    assert_eq!(bus.read8(0x0200_0000), 0x10);
    assert_eq!(bus.read8(0x0200_0001), 0x12);
    assert_eq!(bus.read8(0x0200_0002), 0x11);

    let mut s = header(8, 2, 4).to_vec();
    s.extend_from_slice(&0x1234u16.to_le_bytes());
    s.extend_from_slice(&0xFFFEu16.to_le_bytes());
    let mut bus = rom_bus(&s);
    assert!(run_unpack(&mut bus, 0x18));
    assert_eq!(bus.read16(0x0200_0000), 0x1234);
    assert_eq!(bus.read16(0x0200_0002), 0x1232);
    // A byte-width stream is rejected by the 16-bit filter.
    let mut bus = rom_bus(&header(8, 1, 4));
    assert!(!run_unpack(&mut bus, 0x18));
}

#[test]
fn sqrt_handles_zero_and_squares() {
    let mut c = Cpu::new();
    c.set_reg(0, 0);
    bios::run(&mut c, &mut Bus::new(vec![0; 0x8000]), 0x08);
    assert_eq!(c.reg_raw(0), 0);
    c.set_reg(0, 81);
    bios::run(&mut c, &mut Bus::new(vec![0; 0x8000]), 0x08);
    assert_eq!(c.reg_raw(0), 9);
}

#[test]
fn div_sets_quotient_remainder_and_abs() {
    let mut c = Cpu::new();
    c.set_reg(0, 17);
    c.set_reg(1, 5);
    bios::run(&mut c, &mut Bus::new(vec![0; 0x8000]), 0x06);
    assert_eq!(c.reg_raw(0), 3);
    assert_eq!(c.reg_raw(1), 2);
    assert_eq!(c.reg_raw(3), 3);
    // Negative numerator -> |quotient|.
    c.set_reg(0, (-17i32) as u32);
    c.set_reg(1, 5);
    bios::run(&mut c, &mut Bus::new(vec![0; 0x8000]), 0x06);
    assert_eq!(c.reg_raw(0), (-3i32) as u32);
    assert_eq!(c.reg_raw(3), 3);
}

#[test]
fn cpu_set_copies_words() {
    let mut bus = Bus::new(vec![0; 0x8000]);
    let mut c = Cpu::new();
    // source in IWRAM, destination in EWRAM
    bus.write32(0x0300_0000, 0xDEADBEEF);
    bus.write32(0x0300_0004, 0x12345678);
    c.set_reg(0, 0x0300_0000);
    c.set_reg(1, 0x0200_0000);
    c.set_reg(2, 0x0400_0000 | 2); // 32-bit, 2 words
    bios::run(&mut c, &mut bus, 0x0B);
    assert_eq!(bus.read32(0x0200_0000), 0xDEADBEEF);
    assert_eq!(bus.read32(0x0200_0004), 0x12345678);
}

#[test]
fn unknown_swi_is_not_handled() {
    let mut bus = Bus::new(vec![0; 0x8000]);
    let mut c = Cpu::new();
    assert!(!bios::run(&mut c, &mut bus, 0x1F));
}

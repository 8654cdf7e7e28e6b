use crabboy::gba::eeprom::Eeprom;

fn send_bits(e: &mut Eeprom, value: u64, count: u8) {
    for i in (0..count).rev() {
        e.write_bit(((value >> i) & 1) as u8);
    }
}

fn read_block(e: &mut Eeprom, block: u64, addr_bits: u8) -> u64 {
    send_bits(e, 0b11, 2);
    send_bits(e, block, addr_bits);
    e.write_bit(0); // stop bit
    for _ in 0..4 {
        assert_eq!(e.read_bit(), 0, "dummy bits read as zero");
    }
    let mut v = 0u64;
    for _ in 0..64 {
        v = (v << 1) | e.read_bit() as u64;
    }
    v
}

fn write_block(e: &mut Eeprom, block: u64, addr_bits: u8, value: u64) {
    send_bits(e, 0b10, 2);
    send_bits(e, block, addr_bits);
    send_bits(e, value, 64);
    e.write_bit(0); // stop bit
}

#[test]
fn eeprom_write_then_read_8k_roundtrip() {
    let mut e = Eeprom::new();
    e.set_size_from_dma_count(81);
    assert!(e.is_8k());
    write_block(&mut e, 0x3FF, 14, 0x0123_4567_89AB_CDEF);
    assert!(e.dirty);
    assert_eq!(read_block(&mut e, 0x3FF, 14), 0x0123_4567_89AB_CDEF);
    assert_eq!(e.read_bit(), 1, "idle line reads high");
    // The top four address bits are ignored on the 8 KB part.
    assert_eq!(read_block(&mut e, 0x3FFF, 14), 0x0123_4567_89AB_CDEF);
}

#[test]
fn eeprom_512b_uses_6_address_bits() {
    let mut e = Eeprom::new();
    e.set_size_from_dma_count(9);
    assert!(!e.is_8k());
    assert_eq!(e.raw().len(), 512);
    write_block(&mut e, 63, 6, 0xFEED_FACE_CAFE_BEEF);
    assert_eq!(read_block(&mut e, 63, 6), 0xFEED_FACE_CAFE_BEEF);
    assert_eq!(
        &e.raw()[63 * 8..64 * 8],
        &0xFEED_FACE_CAFE_BEEFu64.to_be_bytes()
    );
}

#[test]
fn eeprom_size_autodetect_from_dma_count() {
    let mut e = Eeprom::new();
    e.set_size_from_dma_count(100); // not a request length: undecided
    e.set_size_from_dma_count(17);
    assert!(e.is_8k());
    e.set_size_from_dma_count(9); // later transfers do not flip it
    assert!(e.is_8k());
    let mut small = Eeprom::new();
    small.load(&[0u8; 512]);
    assert!(!small.is_8k());
}

#[test]
fn state_round_trip_preserves_a_pending_read() {
    let mut e = Eeprom::new();
    e.set_size_from_dma_count(9);
    write_block(&mut e, 5, 6, 0xAA55_AA55_AA55_AA55);
    send_bits(&mut e, 0b11, 2);
    send_bits(&mut e, 5, 6);
    e.write_bit(0);
    let sm = e.save_state_sm();
    let mut f = Eeprom::new();
    f.load(e.raw());
    f.load_state_sm(&sm);
    for _ in 0..4 {
        f.read_bit();
    }
    let mut v = 0u64;
    for _ in 0..64 {
        v = (v << 1) | f.read_bit() as u64;
    }
    assert_eq!(v, 0xAA55_AA55_AA55_AA55);
}

use crabboy::gba::save::{SaveCartridge, SaveType};

#[test]
fn sram_detection_and_write() {
    let mut s = SaveCartridge::new();
    s.write8(0x0E000000, 0x5A);
    assert_eq!(s.kind, SaveType::Sram);
    assert_eq!(s.read8(0x0E000000), 0x5A);
    assert!(s.take_dirty());
    assert!(!s.take_dirty());
}

#[test]
fn flash_program_and_read() {
    let mut s = SaveCartridge::new();
    // Command sequence to program 0x42 at offset 0x0004.
    s.write8(0x0E005555, 0xAA);
    s.write8(0x0E002AAA, 0x55);
    s.write8(0x0E005555, 0xA0);
    s.write8(0x0E000004, 0x42);
    assert_eq!(s.kind, SaveType::Flash);
    assert_eq!(s.read8(0x0E000004), 0x42);
    assert!(s.take_dirty());
}

#[test]
fn flash_bank_select_128k() {
    let mut s = SaveCartridge::new();
    s.write8(0x0E005555, 0xAA);
    s.write8(0x0E002AAA, 0x55);
    s.write8(0x0E005555, 0xB0);
    s.write8(0x0E000000, 0x01); // select bank 1
    s.write8(0x0E005555, 0xAA);
    s.write8(0x0E002AAA, 0x55);
    s.write8(0x0E005555, 0xA0);
    s.write8(0x0E000004, 0x11); // program bank 1
    assert_eq!(s.read8(0x0E000004), 0x11);
    // Bank 0 still 0xFF.
    s.write8(0x0E005555, 0xAA);
    s.write8(0x0E002AAA, 0x55);
    s.write8(0x0E005555, 0xB0);
    s.write8(0x0E000000, 0x00);
    assert_eq!(s.read8(0x0E000004), 0xFF);
}

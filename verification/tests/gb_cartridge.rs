use crabboy::gb::cartridge::{Cartridge, MbcType};

fn make_rom(mbc_code: u8, ram_size_code: u8) -> Vec<u8> {
    let mut data = vec![0u8; 0x8000];
    data[0x147] = mbc_code;
    data[0x148] = 0x05; // 64 banks (enough)
    data[0x149] = ram_size_code;
    data
}

#[test]
fn detects_battery() {
    let rom = make_rom(0x13, 0x03); // MBC3+RAM+BATTERY
    let cart = Cartridge::load(&rom).unwrap();
    assert!(cart.has_battery());
    assert_eq!(cart.ram_bytes(), 0x8000);
    assert_eq!(cart.mbc, MbcType::Mbc3);

    let rom = make_rom(0x00, 0x00);
    let cart = Cartridge::load(&rom).unwrap();
    assert!(!cart.has_battery());
    assert_eq!(cart.ram_bytes(), 0);
}

#[test]
fn mbc3_sram_banking() {
    let rom = make_rom(0x13, 0x03); // 4 banks * 0x2000
    let mut cart = Cartridge::load(&rom).unwrap();

    // writes are gated until RAM enabled
    cart.write_ram(0xA000, 0xAA);
    assert_eq!(cart.read_ram(0xA000), 0xFF);

    // enable RAM
    cart.write(0x0000, 0x0A);
    assert!(cart.ram_enabled);

    // write distinct bytes to each bank
    for bank in 0..4u8 {
        cart.write(0x4000, bank);
        cart.write_ram(0xA123, 0x40 + bank);
    }

    // verify isolation
    for bank in 0..4u8 {
        cart.write(0x4000, bank);
        assert_eq!(cart.read_ram(0xA123), 0x40 + bank);
    }

    // bank 0 unchanged elsewhere
    cart.write(0x4000, 0);
    assert_eq!(cart.read_ram(0xA000), 0);
}

#[test]
fn mbc3_rtc_register_vs_ram() {
    let rom = make_rom(0x0F, 0x02); // MBC3+TIMER+BATTERY with 1 ram bank
    let mut cart = Cartridge::load(&rom).unwrap();
    cart.write(0x0000, 0x0A);

    // select RTC register 1 and write to it
    cart.write(0x4000, 0x09);
    assert!(cart.rtc_selected);
    cart.write_ram(0xA000, 0x77);
    assert_eq!(cart.rtc[1], 0x77);

    // latch to make rtc visible via reads
    cart.write(0x6000, 0x01);
    cart.write(0x6000, 0x00);
    assert_eq!(cart.read_ram(0xA000), 0x77);

    // back to RAM select (value <= 3)
    cart.write(0x4000, 0x00);
    assert!(!cart.rtc_selected);
}

use crabboy::gb::bus::Bus;
use crabboy::gb::cartridge::Cartridge;

fn bus_with_rom() -> Bus {
    let mut rom = vec![0u8; 0x8000];
    rom[0x147] = 0x00;
    Bus::new(Cartridge::load(&rom).unwrap())
}

#[test]
fn dma_copies_oam_over_160_mcycles() {
    let mut bus = bus_with_rom();
    for i in 0..0xA0 {
        bus.wram[i] = (i % 256) as u8;
    }
    bus.write(0xFF46, 0xC0); // source = 0xC000 (WRAM)
    assert!(bus.dma_active());
    bus.step(640); // 160 M-cycles * 4
    assert!(!bus.dma_active(), "DMA completes after 640 T-cycles");
    for i in 0..0xA0 {
        assert_eq!(bus.oam[i], (i % 256) as u8, "byte {i} transferred");
    }
}

#[test]
fn serial_transfer_completes_and_interrupts() {
    let mut bus = bus_with_rom();
    bus.io[0x01] = 0xAB;
    bus.io[0x0F] = 0;
    bus.write(0xFF02, 0x80); // start transfer (normal speed)
    bus.step(4095);
    assert_eq!(bus.io[0x0F] & 0x08, 0, "not done yet before 4096 cycles");
    bus.step(1);
    assert_ne!(
        bus.io[0x0F] & 0x08,
        0,
        "serial interrupt raised at 4096 cycles"
    );
    assert_eq!(bus.io[0x02] & 0x80, 0, "transfer-complete bit cleared");
    assert_eq!(bus.io[0x01], 0xFF, "SB reflects received byte");
}

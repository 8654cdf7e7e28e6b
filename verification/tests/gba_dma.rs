use crabboy::gba::bus::Bus;
use crabboy::gba::dma::{Dma, Timing};

#[test]
fn immediate_copy() {
    let mut bus = Bus::new(vec![0; 0x4000]);
    for i in 0..4 {
        bus.write16(0x0300_0000 + i * 2, 0x1000 + i);
    }
    let mut dma = Dma::new();
    dma.write16(0xB0, 0x0000);
    dma.write16(0xB2, 0x0300);
    dma.write16(0xB4, 0x1000);
    dma.write16(0xB6, 0x0300);
    dma.write16(0xB8, 4); // count = 4 halves
    dma.write16(0xBA, 0x8000); // enable, immediate, 16-bit
    dma.run(&mut bus, Timing::Immediate);
    for i in 0..4 {
        assert_eq!(bus.read16(0x0300_1000 + i * 2), 0x1000 + i);
    }
    // Non-repeating channel disables itself.
    assert!(!dma.chans[0].enabled);
}

#[test]
fn timed_channel_waits() {
    let mut bus = Bus::new(vec![0; 0x4000]);
    let mut dma = Dma::new();
    dma.write16(0xB0, 0x0000);
    dma.write16(0xB2, 0x0300);
    dma.write16(0xB4, 0x1000);
    dma.write16(0xB6, 0x0300);
    dma.write16(0xB8, 2);
    dma.write16(0xBA, 0x8000 | (1 << 11)); // VBlank timing
    dma.run(&mut bus, Timing::Immediate);
    assert!(dma.chans[0].enabled); // not run yet
    dma.run(&mut bus, Timing::VBlank);
    assert!(!dma.chans[0].enabled);
}

use crabboy::gb::ppu::Ppu;

fn stepping_ppu() -> ([u8; 0x80], [u8; 0x4000], [u8; 0xA0], Ppu) {
    let mut io = [0u8; 0x80];
    io[0x40] = 0x80; // LCD on
    let vram = [0u8; 0x4000];
    let oam = [0u8; 0xA0];
    (io, vram, oam, Ppu::new())
}

#[test]
fn stat_oam_interrupt_fires_on_mode_two_entry() {
    let (mut io, mut vram, mut oam, mut ppu) = stepping_ppu();
    io[0x41] = 0x20; // enable OAM (mode 2) STAT interrupt
    io[0x0F] = 0;
    ppu.step(456, &mut io, &mut vram, &mut oam); // complete the first line
    assert_ne!(
        io[0x0F] & 0x02,
        0,
        "OAM STAT interrupt fires entering mode 2"
    );
}

#[test]
fn stat_oam_interrupt_does_not_fire_when_disabled() {
    let (mut io, mut vram, mut oam, mut ppu) = stepping_ppu();
    io[0x41] = 0x00; // no STAT interrupts enabled
    io[0x0F] = 0;
    ppu.step(456, &mut io, &mut vram, &mut oam);
    assert_eq!(io[0x0F] & 0x02, 0, "no STAT interrupt when disabled");
}

#[test]
fn stat_lyc_interrupt_fires_on_coincidence_edge() {
    let (mut io, mut vram, mut oam, mut ppu) = stepping_ppu();
    io[0x45] = 1; // LYC = 1
    io[0x41] = 0x40; // enable LYC STAT interrupt
    io[0x0F] = 0;
    ppu.step(456, &mut io, &mut vram, &mut oam); // LY goes 0 -> 1
    assert_ne!(
        io[0x0F] & 0x02,
        0,
        "LYC STAT interrupt fires on coincidence edge"
    );
}

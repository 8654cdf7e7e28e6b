use crabboy::gba::bus::Bus;
use crabboy::gba::ppu::{rgb, Ppu, SCREEN_W};

fn set16(bus: &mut Bus, off: usize, v: u16) {
    bus.io.regs[off] = v as u8;
    bus.io.regs[off + 1] = (v >> 8) as u8;
}

fn test_bus() -> Bus {
    Bus::new(vec![0; 0x4000])
}

#[test]
fn forced_blank_is_white() {
    let mut bus = test_bus();
    set16(&mut bus, 0, 1 << 6); // forced blank
    let mut ppu = Ppu::new();
    ppu.render_scanline(&bus, 0);
    assert_eq!(ppu.framebuffer[0], 0x7FFF);
}

#[test]
fn mode3_bitmap() {
    let mut bus = test_bus();
    set16(&mut bus, 0, 0x0403); // mode 3, BG2 enabled
    // Pixel at (5,3): address (3*240+5)*2 = 1450.
    let color = rgb(31, 0, 0); // pure red
    bus.vram.set(1450, color as u8);
    bus.vram.set(1451, (color >> 8) as u8);
    let mut ppu = Ppu::new();
    ppu.render_scanline(&bus, 3);
    assert_eq!(ppu.framebuffer[3 * SCREEN_W + 5], color);
    // Unset pixels stay black.
    assert_eq!(ppu.framebuffer[0], 0);
}

#[test]
fn mode0_text_tile() {
    let mut bus = test_bus();
    set16(&mut bus, 0, 0x0100); // mode 0, BG0 enabled
    // BG0CNT at 0x10: priority 0, char base 0, screen base 0, size 0.
    set16(&mut bus, 0x10, 0);
    // Map entry (0,0) -> tile 1 (stored in VRAM).
    bus.vram.set(0, 1);
    bus.vram.set(1, 0);
    // Tile 1 data at char base 0: byte offset tile*32. Pixel (0,0) -> 5.
    bus.vram.set(32, 5);
    // BG palette color 5 = green.
    let green = rgb(0, 31, 0);
    bus.palram.set(5 * 2, green as u8);
    bus.palram.set(5 * 2 + 1, (green >> 8) as u8);
    let mut ppu = Ppu::new();
    ppu.render_scanline(&bus, 0);
    assert_eq!(ppu.framebuffer[0], green);
}

#[test]
fn mode2_affine_identity() {
    let mut bus = test_bus();
    set16(&mut bus, 0, 0x0402); // mode 2, BG2 enabled
    // BG2CNT at 0x20: priority 0, screen base 0, size 0, no wrap.
    set16(&mut bus, 0x20, 0);
    // Identity matrix PA=256 (1.0), PD=256 (BG2 affine params at 0x30).
    set16(&mut bus, 0x30, 256);
    set16(&mut bus, 0x36, 256);
    // Map entry (0,0) -> tile 1; tile 1 pixel (0,0) -> 7.
    bus.vram.set(0, 1);
    bus.vram.set(1, 0);
    bus.vram.set(64, 7);
    let cyan = rgb(0, 31, 31);
    bus.palram.set(7 * 2, cyan as u8);
    bus.palram.set(7 * 2 + 1, (cyan >> 8) as u8);
    let mut ppu = Ppu::new();
    ppu.render_scanline(&bus, 0);
    assert_eq!(ppu.framebuffer[0], cyan);
}

#[test]
fn obj_sprite() {
    let mut bus = test_bus();
    set16(&mut bus, 0, 0x1400); // mode 0, OBJ enabled
    // OAM sprite 0: attr0 y=0, square, 16-color; attr1 x=8, size 0 (8x8);
    // attr2 tile 2, priority 0, palette bank 0.
    bus.oam.set(0, 0); // y=0
    bus.oam.set(1, 0);
    bus.oam.set(2, 8); // x=8
    bus.oam.set(3, 0);
    bus.oam.set(4, 2); // tile 2
    bus.oam.set(5, 0);
    // Tile 2, 16-color: byte offset 2*32. Pixel (0,0) -> 3.
    bus.vram.set(2 * 32, 3);
    let yellow = rgb(31, 31, 0);
    bus.palram.set(0x200 + 3 * 2, yellow as u8);
    bus.palram.set(0x200 + 3 * 2 + 1, (yellow >> 8) as u8);
    let mut ppu = Ppu::new();
    ppu.render_scanline(&bus, 0);
    assert_eq!(ppu.framebuffer[8], yellow);
}

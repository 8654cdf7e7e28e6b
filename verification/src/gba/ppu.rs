//! GBA PPU: scanline renderer for all five background modes, sprites (OBJ),
//! windows, mosaic and color effects.
//!
//! Rendering is scanline-based: the system root runs the CPU for one scanline
//! worth of cycles and then calls [`Ppu::render_scanline`]. The PPU reads the
//! display control registers, VRAM, OAM and palettes straight from the [`Bus`]
//! and writes native 15-bit BGR555 pixels into [`Ppu::framebuffer`].
//!
//! Timing constants match the GBA: 240 visible pixels + 68 H-blank pixels per
//! line (308 dots), 160 visible lines + 68 V-blank lines (228 lines), 4 cycles
//! per dot => 280896 cycles/frame.

use crate::gba::bus::{vram_at, vram_index, Bus};
use crate::gba::io::{get_half, half_at};
use vstd::prelude::*;

verus! {

/// Visible screen width in pixels.
pub const SCREEN_W: usize = 240;
/// Visible screen height in pixels.
pub const SCREEN_H: usize = 160;
/// Dots (pixels) per full scanline including H-blank.
pub const DOTS_PER_LINE: u32 = 308;
/// Visible pixels per scanline.
pub const VISIBLE_DOTS: u32 = 240;
/// Total scanlines per frame including V-blank.
pub const LINES_PER_FRAME: u32 = 228;
/// Visible scanlines.
pub const VISIBLE_LINES: u32 = 160;
/// CPU cycles per scanline (308 dots * 4).
pub const CYCLES_PER_LINE: u32 = 1232;
/// CPU cycles per full frame.
pub const FRAME_CYCLES: u32 = 280_896;

/// Layer ids.
pub const BG0: u8 = 0;
pub const BG1: u8 = 1;
pub const BG2: u8 = 2;
pub const BG3: u8 = 3;
pub const LAYER_OBJ: u8 = 4;
pub const LAYER_BACKDROP: u8 = 5;

/// Within a priority OBJ sits above BG and higher BG above lower.
pub const ORDER: [u8; 5] = [LAYER_OBJ, BG3, BG2, BG1, BG0];

/// A colour of three five-bit parts, red in the low bits.
pub open spec fn packed(r: int, g: int, b: int) -> u16 {
    (r % 32 + g % 32 * 32 + b % 32 * 1024) as u16
}

/// Build a native 15-bit BGR555 colour.
pub fn rgb(r: u32, g: u32, b: u32) -> (c: u16)
    ensures
        c == packed(r as int, g as int, b as int),
{
    (r % 32 + g % 32 * 32 + b % 32 * 1024) as u16
}

/// What a layer shows at a pixel: nothing, or a colour and a priority.
pub type Dot = Option<(u16, u8)>;

/// The two's-complement value of a register.
pub open spec fn signed16(v: u16) -> int {
    if v >= 0x8000 {
        v - 0x1_0000
    } else {
        v as int
    }
}

pub open spec fn signed32(v: u32) -> int {
    if v >= 0x8000_0000 {
        v - 0x1_0000_0000
    } else {
        v as int
    }
}

fn to_signed16(v: u16) -> (r: i64)
    ensures
        r == signed16(v),
        -0x8000 <= r < 0x8000,
{
    if v >= 0x8000 {
        v as i64 - 0x1_0000
    } else {
        v as i64
    }
}

fn to_signed32(v: u32) -> (r: i64)
    ensures
        r == signed32(v),
        -0x8000_0000 <= r < 0x8000_0000,
{
    if v >= 0x8000_0000 {
        v as i64 - 0x1_0000_0000
    } else {
        v as i64
    }
}

/// The word at `off` of the I/O registers.
pub open spec fn reg32(bus: Bus, off: int) -> u32 {
    (half_at(bus.io.regs, off) + half_at(bus.io.regs, off + 2) * 0x1_0000) as u32
}

fn get_reg16(bus: &Bus, off: usize) -> (r: u16)
    requires
        off < 0x3FF,
    ensures
        r == half_at(bus.io.regs, off as int),
{
    get_half(&bus.io.regs, off)
}

fn get_reg32(bus: &Bus, off: usize) -> (r: u32)
    requires
        off < 0x3F0,
    ensures
        r == reg32(*bus, off as int),
{
    get_half(&bus.io.regs, off) as u32 + get_half(&bus.io.regs, off + 2) as u32 * 0x1_0000
}

/// The byte of video memory that `addr` selects.
#[verifier::opaque]
pub open spec fn vram8(bus: Bus, addr: u32) -> u8 {
    bus.vram.at(vram_at(addr))
}

pub open spec fn vram16(bus: Bus, addr: u32) -> u16 {
    (vram8(bus, addr) + vram8(bus, (addr + 1) as u32) * 256) as u16
}

fn get_vram8(bus: &Bus, addr: u32) -> (r: u8)
    ensures
        r == vram8(*bus, addr),
{
    reveal(vram8);
    bus.vram.get(vram_index(addr))
}

fn get_vram16(bus: &Bus, addr: u32) -> (r: u16)
    requires
        addr < u32::MAX,
    ensures
        r == vram16(*bus, addr),
{
    get_vram8(bus, addr) as u16 + get_vram8(bus, addr + 1) as u16 * 256
}

/// Colour `index` of the palette that starts at `base`.
pub open spec fn palette(bus: Bus, base: int, index: int) -> u16 {
    ((bus.palram.at(base + index * 2) + bus.palram.at(base + index * 2 + 1) * 256) % 0x8000) as u16
}

fn get_palette(bus: &Bus, base: usize, index: usize) -> (r: u16)
    requires
        base <= 0x200,
        index < 256,
    ensures
        r == palette(*bus, base as int, index as int),
{
    let lo: u32 = bus.palram.get(base + index * 2) as u32;
    let hi: u32 = bus.palram.get(base + index * 2 + 1) as u32;
    ((lo + hi * 256) % 0x8000) as u16
}

/// The palette index that a tile byte selects: in 256-colour tiles the byte
/// itself, in 16-colour tiles its low or else its high half, in the bank
/// `bank`. 0 is transparent.
pub open spec fn tile_color(byte: u8, wide: bool, bank: int) -> Option<int> {
    if wide {
        if byte != 0 {
            Some(byte as int)
        } else {
            None
        }
    } else if byte % 16 != 0 {
        Some(bank * 16 + byte % 16)
    } else if byte / 16 != 0 {
        Some(bank * 16 + byte / 16)
    } else {
        None
    }
}

fn get_tile_color(byte: u8, wide: bool, bank: usize) -> (r: Option<usize>)
    requires
        bank < 16,
    ensures
        match r {
            Some(c) => tile_color(byte, wide, bank as int) == Some(c as int) && c < 256,
            None => tile_color(byte, wide, bank as int) is None,
        },
{
    if wide {
        if byte != 0 {
            Some(byte as usize)
        } else {
            None
        }
    } else if byte % 16 != 0 {
        Some(bank * 16 + (byte % 16) as usize)
    } else if byte / 16 != 0 {
        Some(bank * 16 + (byte / 16) as usize)
    } else {
        None
    }
}

pub open spec fn dispcnt(bus: Bus) -> u16 {
    half_at(bus.io.regs, 0)
}

pub open spec fn bgcnt(bus: Bus, bg: int) -> u16 {
    half_at(bus.io.regs, 0x10 + bg * 8)
}

/// The column that a mosaic shows at `x`.
pub open spec fn mosaic_column(bus: Bus, cnt: u16, x: u32) -> u32 {
    if cnt / 16 % 4 != 0 {
        x & !((half_at(bus.io.regs, 0x4C) % 16) as u32)
    } else {
        x
    }
}

/// What a text-mode background (tile map + tiles + palettes) shows.
pub open spec fn text_dot(bus: Bus, bg: int, x: u32, y: u32) -> Dot {
    let cnt = bgcnt(bus, bg);
    let wide = cnt & 0x40 != 0;
    let size = cnt / 0x4000;
    let columns: int = if size % 2 == 1 {
        64
    } else {
        32
    };
    let rows: int = if size >= 2 {
        64
    } else {
        32
    };
    let sx = (mosaic_column(bus, cnt, x) + half_at(bus.io.regs, 0x12 + bg * 8)) % (columns * 8);
    let sy = (y + half_at(bus.io.regs, 0x14 + bg * 8)) % (rows * 8);
    let entry = vram16(
        bus,
        (cnt / 0x80 % 32 * 0x800 + (sy / 8 * columns + sx / 8) * 2) as u32,
    );
    let px = if entry & 0x1000 != 0 {
        7 - sx % 8
    } else {
        sx % 8
    };
    let py = if entry & 0x2000 != 0 {
        7 - sy % 8
    } else {
        sy % 8
    };
    let tile = if wide {
        cnt / 4 % 4 * 0x8000 + entry % 0x400 * 64
    } else {
        cnt / 4 % 4 * 0x4000 + entry % 0x400 * 32
    };
    match tile_color(vram8(bus, (tile + py * 8 + px) as u32), wide, (entry / 0x400 % 16) as int) {
        Some(c) => Some((palette(bus, 0, c), (cnt % 4) as u8)),
        None => None,
    }
}

fn render_text(bus: &Bus, bg: usize, x: u32, y: u32) -> (r: Dot)
    requires
        bg < 4,
        x < 240,
        y < 160,
    ensures
        r == text_dot(*bus, bg as int, x, y),
        r is Some ==> (r->0).1 < 4,
{
    let cnt: u16 = get_reg16(bus, 0x10 + bg * 8);
    let wide = cnt & 0x40 != 0;
    let size: u16 = cnt / 0x4000;
    let columns: u32 = if size % 2 == 1 {
        64
    } else {
        32
    };
    let rows: u32 = if size >= 2 {
        64
    } else {
        32
    };
    let mx: u32 = if cnt / 16 % 4 != 0 {
        let mh: u32 = (get_reg16(bus, 0x4C) % 16) as u32;
        proof {
            crate::bits::and_le_u32(x, !mh);
        }
        x & !mh
    } else {
        x
    };
    let sx: u32 = (mx + get_reg16(bus, 0x12 + bg * 8) as u32) % (columns * 8);
    let sy: u32 = (y + get_reg16(bus, 0x14 + bg * 8) as u32) % (rows * 8);
    let map: u32 = cnt as u32 / 0x80 % 32 * 0x800;
    let row: u32 = if columns == 64 {
        sy / 8 * 64
    } else {
        sy / 8 * 32
    };
    let entry: u16 = get_vram16(bus, map + (row + sx / 8) * 2);
    let px: u32 = if entry & 0x1000 != 0 {
        7 - sx % 8
    } else {
        sx % 8
    };
    let py: u32 = if entry & 0x2000 != 0 {
        7 - sy % 8
    } else {
        sy % 8
    };
    let tile: u32 = if wide {
        cnt as u32 / 4 % 4 * 0x8000 + entry as u32 % 0x400 * 64
    } else {
        cnt as u32 / 4 % 4 * 0x4000 + entry as u32 % 0x400 * 32
    };
    let byte: u8 = get_vram8(bus, tile + py * 8 + px);
    match get_tile_color(byte, wide, (entry / 0x400 % 16) as usize) {
        Some(c) => Some((get_palette(bus, 0, c), (cnt % 4) as u8)),
        None => None,
    }
}

/// The point of an affine background that is seen at a pixel.
pub open spec fn affine_point(bus: Bus, bg: int, x: u32, y: u32) -> (int, int) {
    // BG2 affine parameters at 0x30, BG3 at 0x40.
    let base: int = if bg == 2 {
        0x30
    } else {
        0x40
    };
    let regs = bus.io.regs;
    let pa = signed16(half_at(regs, base));
    let pb = signed16(half_at(regs, base + 2));
    let pc = signed16(half_at(regs, base + 4));
    let pd = signed16(half_at(regs, base + 6));
    (
        signed32(reg32(bus, base + 8)) / 256 + pb * y + pa * x,
        signed32(reg32(bus, base + 12)) / 256 + pd * y + pc * x,
    )
}

/// The side of an affine background in tiles.
pub open spec fn affine_side(cnt: u16) -> int {
    let size = cnt / 0x4000;
    if size == 0 {
        32
    } else if size == 1 {
        64
    } else if size == 2 {
        128
    } else {
        256
    }
}

/// What an affine background shows. Outside its area it is transparent, unless
/// it wraps around.
pub open spec fn affine_dot(bus: Bus, bg: int, x: u32, y: u32) -> Dot {
    let cnt = bgcnt(bus, bg);
    let side = affine_side(cnt);
    let (px, py) = affine_point(bus, bg, x, y);
    let inside = 0 <= px < side * 8 && 0 <= py < side * 8;
    if cnt / 0x1000 % 4 == 0 && !inside {
        None
    } else {
        affine_tile_dot(bus, cnt, side, px % (side * 8), py % (side * 8))
    }
}

/// What the point (`sx`, `sy`) of an affine background holds.
pub open spec fn affine_tile_dot(bus: Bus, cnt: u16, side: int, sx: int, sy: int) -> Dot {
    let entry = vram16(bus, (cnt / 0x80 % 32 * 0x800 + (sy / 8 * side + sx / 8) * 2) as u32);
    let byte = vram8(bus, (entry % 0x400 * 64 + sy % 8 * 8 + sx % 8) as u32);
    if byte == 0 {
        None
    } else {
        Some((palette(bus, 0, byte as int), (cnt % 4) as u8))
    }
}

fn render_affine_tile(bus: &Bus, cnt: u16, side: u32, sx: u32, sy: u32) -> (r: Dot)
    requires
        side == 32 || side == 64 || side == 128 || side == 256,
        sx < side * 8,
        sy < side * 8,
    ensures
        r == affine_tile_dot(*bus, cnt, side as int, sx as int, sy as int),
        r is Some ==> (r->0).1 < 4,
{
    let map: u32 = cnt as u32 / 0x80 % 32 * 0x800;
    let row: u32 = sy / 8;
    assert(row * side <= 256 * 256) by (nonlinear_arith)
        requires
            row <= 256,
            side <= 256,
    ;
    let entry: u16 = get_vram16(bus, map + (row * side + sx / 8) * 2);
    let byte: u8 = get_vram8(bus, entry as u32 % 0x400 * 64 + sy % 8 * 8 + sx % 8);
    if byte == 0 {
        None
    } else {
        Some((get_palette(bus, 0, byte as usize), (cnt % 4) as u8))
    }
}

/// Where one coordinate of an affine background is sampled.
fn affine_coordinate(origin: u32, step_y: u16, step_x: u16, x: u32, y: u32) -> (r: i64)
    requires
        x < 240,
        y < 160,
    ensures
        r == signed32(origin) / 256 + signed16(step_y) * y + signed16(step_x) * x,
        -0x200_0000 < r < 0x200_0000,
{
    let o: i64 = ((to_signed32(origin) + 0x8000_0000) as u64 / 256) as i64 - 0x80_0000;
    let sy: i64 = to_signed16(step_y);
    let sx: i64 = to_signed16(step_x);
    assert(-0x8000 * 160 <= sy * y <= 0x8000 * 160) by (nonlinear_arith)
        requires
            -0x8000 <= sy < 0x8000,
            0 <= y < 160,
    ;
    assert(-0x8000 * 240 <= sx * x <= 0x8000 * 240) by (nonlinear_arith)
        requires
            -0x8000 <= sx < 0x8000,
            0 <= x < 240,
    ;
    o + sy * y as i64 + sx * x as i64
}

/// `v` wrapped around a background `side` tiles wide.
fn wrap_coordinate(v: i64, side: u32) -> (r: u32)
    requires
        side == 32 || side == 64 || side == 128 || side == 256,
        -0x200_0000 < v < 0x200_0000,
    ensures
        r == v as int % (side * 8),
        r < side * 8,
{
    // A multiple of every size, so that the sum is not negative.
    let u: u64 = (v + 0x4000_0000) as u64;
    proof {
        vstd::arithmetic::div_mod::lemma_mod_multiples_vanish(0x40_0000, v as int, 256);
        vstd::arithmetic::div_mod::lemma_mod_multiples_vanish(0x20_0000, v as int, 512);
        vstd::arithmetic::div_mod::lemma_mod_multiples_vanish(0x10_0000, v as int, 1024);
        vstd::arithmetic::div_mod::lemma_mod_multiples_vanish(0x8_0000, v as int, 2048);
    }
    match side {
        32 => (u % 256) as u32,
        64 => (u % 512) as u32,
        128 => (u % 1024) as u32,
        _ => (u % 2048) as u32,
    }
}

fn render_affine(bus: &Bus, bg: usize, x: u32, y: u32) -> (r: Dot)
    requires
        bg < 4,
        x < 240,
        y < 160,
    ensures
        r == affine_dot(*bus, bg as int, x, y),
        r is Some ==> (r->0).1 < 4,
{
    let cnt: u16 = get_reg16(bus, 0x10 + bg * 8);
    let base: usize = if bg == 2 {
        0x30
    } else {
        0x40
    };
    let pa: u16 = get_reg16(bus, base);
    let pb: u16 = get_reg16(bus, base + 2);
    let pc: u16 = get_reg16(bus, base + 4);
    let pd: u16 = get_reg16(bus, base + 6);
    let ref_x: u32 = get_reg32(bus, base + 8);
    let ref_y: u32 = get_reg32(bus, base + 12);
    let side: u32 = match cnt / 0x4000 {
        0 => 32,
        1 => 64,
        2 => 128,
        _ => 256,
    };
    let px: i64 = affine_coordinate(ref_x, pb, pa, x, y);
    let py: i64 = affine_coordinate(ref_y, pd, pc, x, y);
    let limit: i64 = side as i64 * 8;
    if cnt / 0x1000 % 4 == 0 && (px < 0 || px >= limit || py < 0 || py >= limit) {
        return None;
    }
    let sx: u32 = wrap_coordinate(px, side);
    let sy: u32 = wrap_coordinate(py, side);
    render_affine_tile(bus, cnt, side, sx, sy)
}

/// What a bitmap background (modes 3/4/5) shows.
pub open spec fn bitmap_dot(bus: Bus, mode: int, x: u32, y: u32) -> Dot {
    let page: int = if dispcnt(bus) & 8 != 0 {
        0xA000
    } else {
        0
    };
    if mode == 3 {
        Some((vram16(bus, ((y * 240 + x) * 2) as u32), 0))
    } else if mode == 4 {
        let byte = vram8(bus, (page + y * 240 + x) as u32);
        if byte == 0 {
            None
        } else {
            Some((palette(bus, 0, byte as int), 0))
        }
    } else if y >= 128 {
        None
    } else {
        Some((vram16(bus, (page + (y * 160 + x) * 2) as u32), 0))
    }
}

fn render_bitmap(bus: &Bus, mode: u16, x: u32, y: u32) -> (r: Dot)
    requires
        x < 240,
        y < 160,
    ensures
        r == bitmap_dot(*bus, mode as int, x, y),
        r is Some ==> (r->0).1 < 4,
{
    let page: u32 = if get_reg16(bus, 0) & 8 != 0 {
        0xA000
    } else {
        0
    };
    if mode == 3 {
        Some((get_vram16(bus, (y * 240 + x) * 2), 0))
    } else if mode == 4 {
        let byte: u8 = get_vram8(bus, page + y * 240 + x);
        if byte == 0 {
            None
        } else {
            Some((get_palette(bus, 0, byte as usize), 0))
        }
    } else if y >= 128 {
        None
    } else {
        Some((get_vram16(bus, page + (y * 160 + x) * 2), 0))
    }
}

/// What background `bg` shows, in the mode that DISPCNT selects.
pub open spec fn bg_dot(bus: Bus, bg: int, x: u32, y: u32) -> Dot {
    let mode = dispcnt(bus) % 8;
    let enabled = dispcnt(bus) / 0x100;
    let on = if bg == 0 {
        enabled % 2 != 0
    } else if bg == 1 {
        enabled / 2 % 2 != 0
    } else if bg == 2 {
        enabled / 4 % 2 != 0
    } else {
        enabled / 8 % 2 != 0
    };
    if !on {
        None
    } else if mode == 0 || (mode == 1 && bg <= 1) {
        text_dot(bus, bg, x, y)
    } else if mode == 1 || mode == 2 {
        affine_dot(bus, bg, x, y)
    } else if mode <= 5 && bg == 2 {
        bitmap_dot(bus, mode as int, x, y)
    } else {
        None
    }
}

fn render_bg(bus: &Bus, bg: usize, x: u32, y: u32) -> (r: Dot)
    requires
        bg < 4,
        x < 240,
        y < 160,
    ensures
        r == bg_dot(*bus, bg as int, x, y),
        r is Some ==> (r->0).1 < 4,
{
    let disp: u16 = get_reg16(bus, 0);
    let mode: u16 = disp % 8;
    let enabled: u16 = disp / 0x100;
    let on = match bg {
        0 => enabled % 2 != 0,
        1 => enabled / 2 % 2 != 0,
        2 => enabled / 4 % 2 != 0,
        _ => enabled / 8 % 2 != 0,
    };
    if !on {
        return None;
    }
    if mode == 0 || (mode == 1 && bg <= 1) {
        render_text(bus, bg, x, y)
    } else if mode == 1 || mode == 2 {
        render_affine(bus, bg, x, y)
    } else if mode <= 5 && bg == 2 {
        render_bitmap(bus, mode, x, y)
    } else {
        None
    }
}

/// A sprite as OAM describes it.
#[derive(Clone, Copy, PartialEq, Eq, Structural, Debug)]
pub struct Sprite {
    pub y: u32,
    pub affine: bool,
    pub mode: u16,
    pub palette256: bool,
    pub shape: u16,
    pub x: u32,
    pub size: u16,
    pub hflip: bool,
    pub vflip: bool,
    /// Where OAM holds the matrix of an affine sprite.
    pub matrix: usize,
    pub tile: u32,
    pub priority: u8,
    pub bank: usize,
}

/// A halfword of OAM.
pub open spec fn oam16(bus: Bus, i: int) -> u16 {
    (bus.oam.at(i) + bus.oam.at(i + 1) * 256) as u16
}

fn get_oam16(bus: &Bus, i: usize) -> (r: u16)
    requires
        i < 0x3FF,
    ensures
        r == oam16(*bus, i as int),
{
    bus.oam.get(i) as u16 + bus.oam.get(i + 1) as u16 * 256
}

impl Sprite {
    /// The sprite of the three attribute halfwords.
    pub open spec fn of(a0: u16, a1: u16, a2: u16) -> Sprite {
        Sprite {
            y: (a0 % 256) as u32,
            affine: a0 / 0x100 % 4 != 0,
            mode: (a0 / 0x400 % 4) as u16,
            palette256: a0 / 0x2000 % 2 != 0,
            shape: (a0 / 0x4000) as u16,
            x: (a1 % 512) as u32,
            size: (a1 / 0x400 % 4) as u16,
            hflip: a1 / 0x1000 % 2 != 0,
            vflip: a1 / 0x2000 % 2 != 0,
            matrix: (a1 / 0x200 % 32 / 2 * 8) as usize,
            tile: (a2 % 0x400) as u32,
            priority: (a2 / 0x400 % 4) as u8,
            bank: (a2 / 0x1000) as usize,
        }
    }

    /// Sprite `i` of OAM.
    pub open spec fn at(bus: Bus, i: int) -> Sprite {
        Sprite::of(oam16(bus, i * 8), oam16(bus, i * 8 + 2), oam16(bus, i * 8 + 4))
    }

    fn load(bus: &Bus, i: usize) -> (r: Sprite)
        requires
            i < 128,
        ensures
            r == Sprite::at(*bus, i as int),
            r.wf(),
    {
        let a0: u16 = get_oam16(bus, i * 8);
        let a1: u16 = get_oam16(bus, i * 8 + 2);
        let a2: u16 = get_oam16(bus, i * 8 + 4);
        Sprite {
            y: (a0 % 256) as u32,
            affine: a0 / 0x100 % 4 != 0,
            mode: a0 / 0x400 % 4,
            palette256: a0 / 0x2000 % 2 != 0,
            shape: a0 / 0x4000,
            x: (a1 % 512) as u32,
            size: a1 / 0x400 % 4,
            hflip: a1 / 0x1000 % 2 != 0,
            vflip: a1 / 0x2000 % 2 != 0,
            matrix: (a1 / 0x200 % 32 / 2 * 8) as usize,
            tile: (a2 % 0x400) as u32,
            priority: (a2 / 0x400 % 4) as u8,
            bank: (a2 / 0x1000) as usize,
        }
    }

    /// The ranges of the attribute fields.
    pub open spec fn wf(self) -> bool {
        &&& self.y < 256
        &&& self.x < 512
        &&& self.shape < 4
        &&& self.size < 4
        &&& self.matrix <= 120
        &&& self.tile < 0x400
        &&& self.priority < 4
        &&& self.bank < 16
    }

    /// The width and height in pixels. Shape 3 is prohibited: such a sprite has
    /// no area.
    pub open spec fn extent(self) -> (u32, u32) {
        if self.shape == 0 {
            if self.size == 0 {
                (8, 8)
            } else if self.size == 1 {
                (16, 16)
            } else if self.size == 2 {
                (32, 32)
            } else {
                (64, 64)
            }
        } else if self.shape == 1 {
            if self.size == 0 {
                (16, 8)
            } else if self.size <= 2 {
                (32, 16)
            } else {
                (64, 32)
            }
        } else if self.shape == 2 {
            if self.size <= 1 {
                (8, 16)
            } else if self.size == 2 {
                (16, 32)
            } else {
                (32, 64)
            }
        } else {
            (0, 0)
        }
    }

    fn dimensions(&self) -> (r: (u32, u32))
        ensures
            r == self.extent(),
            r.0 <= 64,
            r.1 <= 64,
    {
        match self.shape {
            0 => match self.size {
                0 => (8, 8),
                1 => (16, 16),
                2 => (32, 32),
                _ => (64, 64),
            },
            1 => match self.size {
                0 => (16, 8),
                1 | 2 => (32, 16),
                _ => (64, 32),
            },
            2 => match self.size {
                0 | 1 => (8, 16),
                2 => (16, 32),
                _ => (32, 64),
            },
            _ => (0, 0),
        }
    }

    /// Whether the sprite has a row on line `y`.
    pub open spec fn on_line(self, y: u32) -> bool {
        self.y <= y < self.y + self.extent().1
    }

    fn is_on_line(&self, y: u32) -> (r: bool)
        requires
            self.wf(),
        ensures
            r == self.on_line(y),
    {
        self.y <= y && y < self.y + self.dimensions().1
    }

    /// Whether the sprite has a column at `x`.
    pub open spec fn at_column(self, x: u32) -> bool {
        self.x <= x < self.x + self.extent().0
    }

    /// Whether the sprite shapes the OBJ window at a pixel.
    pub open spec fn masks(self, x: u32, y: u32) -> bool {
        self.mode == 2 && self.on_line(y) && self.at_column(x)
    }

    /// The texel that an affine sprite shows `dx`, `dy` into its area: around
    /// the centre, through the matrix, repeated over the area.
    pub open spec fn affine_texel(self, bus: Bus, dx: int, dy: int) -> (int, int) {
        let (w, h) = self.extent();
        let cx = dx - w as int / 2;
        let cy = dy - h as int / 2;
        let m = self.matrix as int;
        (
            (signed16(oam16(bus, m)) * cx + signed16(oam16(bus, m + 2)) * cy) / 256 % w as int,
            (signed16(oam16(bus, m + 4)) * cx + signed16(oam16(bus, m + 6)) * cy) / 256 % h as int,
        )
    }

    /// The texel shown `dx`, `dy` into the sprite's area.
    pub open spec fn texel(self, bus: Bus, dx: int, dy: int) -> (int, int) {
        let (w, h) = self.extent();
        if self.affine {
            self.affine_texel(bus, dx, dy)
        } else {
            (
                if self.hflip {
                    w - 1 - dx
                } else {
                    dx
                },
                if self.vflip {
                    h - 1 - dy
                } else {
                    dy
                },
            )
        }
    }

    /// What the texel (`tx`, `ty`) holds. With 1D mapping the tiles of a
    /// sprite follow each other; with 2D mapping its rows are four tiles apart.
    pub open spec fn texel_dot(self, bus: Bus, tx: int, ty: int) -> Dot {
        let per_row = if dispcnt(bus) & 0x20 != 0 {
            self.extent().0 as int / 8
        } else {
            4
        };
        let tile = self.tile + ty / 8 * per_row + tx / 8;
        let start = if self.palette256 {
            tile * 64
        } else {
            tile * 32
        };
        let byte = vram8(bus, (start + ty % 8 * 8 + tx % 8) as u32);
        match tile_color(byte, self.palette256, self.bank as int) {
            Some(c) => Some((palette(bus, 0x200, c), self.priority)),
            None => None,
        }
    }

    /// What the sprite shows at a pixel.
    pub open spec fn dot(self, bus: Bus, x: u32, y: u32) -> Dot {
        if self.mode == 2 || !self.on_line(y) || !self.at_column(x) {
            None
        } else {
            let (tx, ty) = self.texel(bus, x - self.x, y - self.y);
            self.texel_dot(bus, tx, ty)
        }
    }

    fn get_texel(&self, bus: &Bus, dx: u32, dy: u32) -> (r: (u32, u32))
        requires
            self.wf(),
            dx < self.extent().0,
            dy < self.extent().1,
        ensures
            r.0 == self.texel(*bus, dx as int, dy as int).0,
            r.1 == self.texel(*bus, dx as int, dy as int).1,
            r.0 < self.extent().0,
            r.1 < self.extent().1,
    {
        let (w, h) = self.dimensions();
        if self.affine {
            let m: usize = self.matrix;
            let cx: i64 = dx as i64 - (w / 2) as i64;
            let cy: i64 = dy as i64 - (h / 2) as i64;
            let tx: u32 = transformed(get_oam16(bus, m), get_oam16(bus, m + 2), cx, cy, w);
            let ty: u32 = transformed(get_oam16(bus, m + 4), get_oam16(bus, m + 6), cx, cy, h);
            (tx, ty)
        } else {
            let tx: u32 = if self.hflip {
                w - 1 - dx
            } else {
                dx
            };
            let ty: u32 = if self.vflip {
                h - 1 - dy
            } else {
                dy
            };
            (tx, ty)
        }
    }

    fn get_texel_dot(&self, bus: &Bus, tx: u32, ty: u32) -> (r: Dot)
        requires
            self.wf(),
            tx < 64,
            ty < 64,
        ensures
            r == self.texel_dot(*bus, tx as int, ty as int),
            r is Some ==> (r->0).1 < 4,
    {
        let per_row: u32 = if get_reg16(bus, 0) & 0x20 != 0 {
            self.dimensions().0 / 8
        } else {
            4
        };
        let row: u32 = ty / 8;
        assert(0 <= row * per_row <= 64) by (nonlinear_arith)
            requires
                0 <= row <= 8,
                0 <= per_row <= 8,
        ;
        let tile: u32 = self.tile + row * per_row + tx / 8;
        let start: u32 = if self.palette256 {
            tile * 64
        } else {
            tile * 32
        };
        let byte: u8 = get_vram8(bus, start + ty % 8 * 8 + tx % 8);
        match get_tile_color(byte, self.palette256, self.bank) {
            Some(c) => Some((get_palette(bus, 0x200, c), self.priority)),
            None => None,
        }
    }

    fn get_dot(&self, bus: &Bus, x: u32, y: u32) -> (r: Dot)
        requires
            self.wf(),
        ensures
            r == self.dot(*bus, x, y),
            r is Some ==> (r->0).1 < 4,
    {
        let (w, _) = self.dimensions();
        if self.mode == 2 || !self.is_on_line(y) || x < self.x || x >= self.x + w {
            return None;
        }
        let (tx, ty) = self.get_texel(bus, x - self.x, y - self.y);
        self.get_texel_dot(bus, tx, ty)
    }
}

/// One coordinate of a texel through the matrix, repeated over `n` pixels.
fn transformed(p: u16, q: u16, cx: i64, cy: i64, n: u32) -> (r: u32)
    requires
        n == 8 || n == 16 || n == 32 || n == 64,
        -32 <= cx <= 32,
        -32 <= cy <= 32,
    ensures
        r == (signed16(p) * cx + signed16(q) * cy) / 256 % n as int,
        r < n,
{
    let a: i64 = to_signed16(p);
    let b: i64 = to_signed16(q);
    assert(-0x8000 * 32 <= a * cx <= 0x8000 * 32) by (nonlinear_arith)
        requires
            -0x8000 <= a < 0x8000,
            -32 <= cx <= 32,
    ;
    assert(-0x8000 * 32 <= b * cy <= 0x8000 * 32) by (nonlinear_arith)
        requires
            -0x8000 <= b < 0x8000,
            -32 <= cy <= 32,
    ;
    let v: i64 = a * cx + b * cy;
    // A multiple of every size, so that the sum is not negative.
    let shifted: u64 = (v + 0x100_0000) as u64;
    assert(shifted as int / 256 == v as int / 256 + 0x1_0000);
    let ghost k = v as int / 256;
    proof {
        vstd::arithmetic::div_mod::lemma_mod_multiples_vanish(0x2000, k, 8);
        vstd::arithmetic::div_mod::lemma_mod_multiples_vanish(0x1000, k, 16);
        vstd::arithmetic::div_mod::lemma_mod_multiples_vanish(0x800, k, 32);
        vstd::arithmetic::div_mod::lemma_mod_multiples_vanish(0x400, k, 64);
    }
    (shifted / 256 % n as u64) as u32
}

/// What the first `n` sprites show at a pixel: the last of them that is opaque
/// there.
pub open spec fn obj_dot(bus: Bus, n: nat, x: u32, y: u32) -> Dot
    decreases n,
{
    if n == 0 {
        None
    } else {
        match Sprite::at(bus, n - 1).dot(bus, x, y) {
            Some(d) => Some(d),
            None => obj_dot(bus, (n - 1) as nat, x, y),
        }
    }
}

/// Whether the OBJ window of the first `n` sprites holds a pixel.
pub open spec fn obj_window(bus: Bus, n: nat, x: u32, y: u32) -> bool
    decreases n,
{
    n > 0 && (Sprite::at(bus, n - 1).masks(x, y) || obj_window(bus, (n - 1) as nat, x, y))
}

/// What layer `layer` shows at a pixel.
pub open spec fn layer_dot(bus: Bus, layer: int, x: u32, y: u32) -> Dot {
    if layer < 4 {
        bg_dot(bus, layer, x, y)
    } else if dispcnt(bus) & 0x1000 != 0 {
        obj_dot(bus, 128, x, y)
    } else {
        None
    }
}

/// Whether (`x`, `y`) lies in the window with the bounds `wh` and `wv`.
pub open spec fn in_window(x: u32, y: u32, wh: u16, wv: u16) -> bool {
    wh % 256 <= x <= wh / 256 && wv % 256 <= y <= wv / 256
}

fn is_in_window(x: u32, y: u32, wh: u16, wv: u16) -> (r: bool)
    ensures
        r == in_window(x, y, wh, wv),
{
    x >= (wh % 256) as u32 && x <= (wh / 256) as u32 && y >= (wv % 256) as u32 && y <= (wv
        / 256) as u32
}

/// The layers that the windows let through at a pixel.
pub open spec fn window_mask(bus: Bus, x: u32, y: u32) -> u16 {
    let disp = dispcnt(bus);
    let regs = bus.io.regs;
    let win0 = disp & 0x2000 != 0;
    let win1 = disp & 0x4000 != 0;
    let obj_win = disp & 0x8000 != 0;
    if !win0 && !win1 && !obj_win {
        0x3F
    } else if win0 && in_window(x, y, half_at(regs, 0x40), half_at(regs, 0x44)) {
        (half_at(regs, 0x48) % 64) as u16
    } else if win1 && in_window(x, y, half_at(regs, 0x42), half_at(regs, 0x46)) {
        (half_at(regs, 0x48) / 256 % 64) as u16
    } else if obj_win && disp & 0x1000 != 0 && obj_window(bus, 128, x, y) {
        (half_at(regs, 0x4A) / 256 % 64) as u16
    } else {
        (half_at(regs, 0x4A) % 64) as u16
    }
}

/// Whether `mask` has the bit of `layer`.
pub open spec fn has_layer(mask: u16, layer: int) -> bool {
    if layer == 0 {
        mask % 2 != 0
    } else if layer == 1 {
        mask / 2 % 2 != 0
    } else if layer == 2 {
        mask / 4 % 2 != 0
    } else if layer == 3 {
        mask / 8 % 2 != 0
    } else if layer == 4 {
        mask / 16 % 2 != 0
    } else {
        mask / 32 % 2 != 0
    }
}

fn layer_in(mask: u16, layer: u8) -> (r: bool)
    requires
        layer <= 5,
    ensures
        r == has_layer(mask, layer as int),
{
    match layer {
        0 => mask % 2 != 0,
        1 => mask / 2 % 2 != 0,
        2 => mask / 4 % 2 != 0,
        3 => mask / 8 % 2 != 0,
        4 => mask / 16 % 2 != 0,
        _ => mask / 32 % 2 != 0,
    }
}

/// The topmost layer at a pixel with its colour, and the colour of the
/// topmost layer below it that is a second target.
#[derive(Clone, Copy, PartialEq, Eq, Debug)]
pub struct Stack {
    pub top: Option<(u8, u16)>,
    pub second: Option<u16>,
}

impl Stack {
    /// The stack with one more layer looked at, which lies below the others.
    pub open spec fn over(self, layer: u8, color: u16, second_target: bool) -> Stack {
        if self.top is None {
            Stack { top: Some((layer, color)), ..self }
        } else if second_target && self.second is None {
            Stack { second: Some(color), ..self }
        } else {
            self
        }
    }
}

/// The layers in the order in which they are looked at: priority 0 first, and
/// within a priority as [`ORDER`] says. The first `k` steps of it.
pub open spec fn stacked(
    dots: spec_fn(int) -> Dot,
    mask: u16,
    second_targets: u16,
    k: nat,
) -> Stack
    decreases k,
{
    if k == 0 {
        Stack { top: None, second: None }
    } else {
        let s = stacked(dots, mask, second_targets, (k - 1) as nat);
        let p = (k - 1) / 5;
        let layer = ORDER[(k - 1) % 5];
        match dots(layer as int) {
            Some((color, priority)) => if has_layer(mask, layer as int) && priority == p {
                s.over(layer, color, has_layer(second_targets, layer as int))
            } else {
                s
            },
            None => s,
        }
    }
}

/// One colour part of an alpha blend.
pub open spec fn blended_part(s: int, d: int, eva: int, evb: int) -> int {
    let v = s * eva + d * evb;
    (if v < 0x1F0 {
        v
    } else {
        0x1F0
    }) / 16
}

pub open spec fn blended(src: u16, dst: u16, eva: int, evb: int) -> u16 {
    packed(
        blended_part((src % 32) as int, (dst % 32) as int, eva, evb),
        blended_part((src / 32 % 32) as int, (dst / 32 % 32) as int, eva, evb),
        blended_part((src / 1024 % 32) as int, (dst / 1024 % 32) as int, eva, evb),
    )
}

fn blend_part(s: u32, d: u32, eva: u32, evb: u32) -> (r: u32)
    requires
        s < 32,
        d < 32,
        eva < 32,
        evb < 32,
    ensures
        r == blended_part(s as int, d as int, eva as int, evb as int),
{
    assert(s * eva <= 961 && d * evb <= 961) by (nonlinear_arith)
        requires
            0 <= s <= 31,
            0 <= d <= 31,
            0 <= eva <= 31,
            0 <= evb <= 31,
    ;
    let v: u32 = s * eva + d * evb;
    (if v < 0x1F0 {
        v
    } else {
        0x1F0
    }) / 16
}

fn alpha_blend(src: u16, dst: u16, eva: u32, evb: u32) -> (r: u16)
    requires
        eva < 32,
        evb < 32,
    ensures
        r == blended(src, dst, eva as int, evb as int),
{
    let r: u32 = blend_part((src % 32) as u32, (dst % 32) as u32, eva, evb);
    let g: u32 = blend_part((src / 32 % 32) as u32, (dst / 32 % 32) as u32, eva, evb);
    let b: u32 = blend_part((src / 1024 % 32) as u32, (dst / 1024 % 32) as u32, eva, evb);
    rgb(r, g, b)
}

/// A colour part moved towards white by `evy` sixteenths.
pub open spec fn brightened_part(c: int, evy: int) -> int {
    let v = c + (31 - c) * evy / 16;
    if v < 31 {
        v
    } else {
        31
    }
}

pub open spec fn brightened(color: u16, evy: int) -> u16 {
    packed(
        brightened_part((color % 32) as int, evy),
        brightened_part((color / 32 % 32) as int, evy),
        brightened_part((color / 1024 % 32) as int, evy),
    )
}

fn brighten_part(c: u32, evy: u32) -> (r: u32)
    requires
        c < 32,
        evy < 32,
    ensures
        r == brightened_part(c as int, evy as int),
{
    assert((31 - c) * evy <= 961) by (nonlinear_arith)
        requires
            0 <= c <= 31,
            0 <= evy <= 31,
    ;
    let v: u32 = c + (31 - c) * evy / 16;
    if v < 31 {
        v
    } else {
        31
    }
}

fn brighten(color: u16, evy: u32) -> (r: u16)
    requires
        evy < 32,
    ensures
        r == brightened(color, evy as int),
{
    let r: u32 = brighten_part((color % 32) as u32, evy);
    let g: u32 = brighten_part((color / 32 % 32) as u32, evy);
    let b: u32 = brighten_part((color / 1024 % 32) as u32, evy);
    rgb(r, g, b)
}

/// A colour part moved towards black by `evy` sixteenths, at most all the way.
pub open spec fn darkened_part(c: int, evy: int) -> int {
    let v = c - c * evy / 16;
    if v > 0 {
        v
    } else {
        0
    }
}

pub open spec fn darkened(color: u16, evy: int) -> u16 {
    packed(
        darkened_part((color % 32) as int, evy),
        darkened_part((color / 32 % 32) as int, evy),
        darkened_part((color / 1024 % 32) as int, evy),
    )
}

fn darken_part(c: u32, evy: u32) -> (r: u32)
    requires
        c < 32,
        evy < 32,
    ensures
        r == darkened_part(c as int, evy as int),
{
    assert(c * evy <= 961) by (nonlinear_arith)
        requires
            0 <= c <= 31,
            0 <= evy <= 31,
    ;
    let part: u32 = c * evy / 16;
    if c > part {
        c - part
    } else {
        0
    }
}

fn darken(color: u16, evy: u32) -> (r: u16)
    requires
        evy < 32,
    ensures
        r == darkened(color, evy as int),
{
    let r: u32 = darken_part((color % 32) as u32, evy);
    let g: u32 = darken_part((color / 32 % 32) as u32, evy);
    let b: u32 = darken_part((color / 1024 % 32) as u32, evy);
    rgb(r, g, b)
}

/// The colour of a pixel after the colour effects.
pub open spec fn with_effect(bus: Bus, s: Stack) -> u16 {
    let regs = bus.io.regs;
    let bldcnt = half_at(regs, 0x50);
    let effect = bldcnt / 0x400 % 4;
    let (layer, color) = match s.top {
        Some(top) => top,
        None => (LAYER_BACKDROP, 0u16),
    };
    let below = match s.second {
        Some(c) => c,
        None => 0u16,
    };
    let alpha = half_at(regs, 0x52);
    let evy = (half_at(regs, 0x54) % 32) as int;
    if !has_layer(bldcnt, layer as int) {
        color
    } else if effect == 1 {
        blended(color, below, (alpha % 32) as int, (alpha / 256 % 32) as int)
    } else if effect == 2 {
        brightened(color, evy)
    } else if effect == 3 {
        darkened(color, evy)
    } else {
        color
    }
}

fn apply_effect(bus: &Bus, s: &Stack) -> (r: u16)
    requires
        s.top is Some ==> (s.top->0).0 <= 5,
    ensures
        r == with_effect(*bus, *s),
{
    let bldcnt: u16 = get_reg16(bus, 0x50);
    let alpha: u16 = get_reg16(bus, 0x52);
    let evy: u32 = (get_reg16(bus, 0x54) % 32) as u32;
    let (layer, color) = match s.top {
        Some(top) => top,
        None => (LAYER_BACKDROP, 0u16),
    };
    let below: u16 = match s.second {
        Some(c) => c,
        None => 0,
    };
    if !layer_in(bldcnt, layer) {
        return color;
    }
    match bldcnt / 0x400 % 4 {
        1 => alpha_blend(color, below, (alpha % 32) as u32, (alpha / 256 % 32) as u32),
        2 => brighten(color, evy),
        3 => darken(color, evy),
        _ => color,
    }
}

/// The pixel of the screen at (`x`, `y`): white while the display is blanked,
/// else the composition of the layers.
pub open spec fn pixel(bus: Bus, x: u32, y: u32) -> u16 {
    if dispcnt(bus) & 0x40 != 0 {
        0x7FFF
    } else {
        with_effect(
            bus,
            stacked(
                |layer: int| layer_dot(bus, layer, x, y),
                window_mask(bus, x, y),
                (half_at(bus.io.regs, 0x50) / 256 % 64) as u16,
                20,
            ),
        )
    }
}

/// The sprites of one line: what they show, and where the OBJ window is.
struct Line {
    /// Priority plus one; 0 is transparent.
    prio: [u8; 240],
    color: [u16; 240],
    window: [bool; 240],
}

impl Line {
    /// What the line shows at `x`.
    spec fn dot(self, x: int) -> Dot {
        if self.prio[x] == 0 {
            None
        } else {
            Some((self.color[x], (self.prio[x] - 1) as u8))
        }
    }

    spec fn holds(self, bus: Bus, n: nat, y: u32) -> bool {
        forall|x: int|
            0 <= x < 240 ==> {
                &&& (#[trigger] self.dot(x)) == obj_dot(bus, n, x as u32, y)
                &&& self.window[x] == obj_window(bus, n, x as u32, y)
                &&& self.prio[x] <= 4
            }
    }

    fn draw(&mut self, bus: &Bus, i: usize, y: u32)
        requires
            i < 128,
            old(self).holds(*bus, i as nat, y),
        ensures
            final(self).holds(*bus, (i + 1) as nat, y),
    {
        let s: Sprite = Sprite::load(bus, i);
        let ghost n = (i + 1) as nat;
        if !s.is_on_line(y) {
            assert forall|x: int| 0 <= x < 240 implies {
                &&& (#[trigger] self.dot(x)) == obj_dot(*bus, n, x as u32, y)
                &&& self.window[x] == obj_window(*bus, n, x as u32, y)
                &&& self.prio[x] <= 4
            } by {
                assert(s.dot(*bus, x as u32, y) is None);
            }
            return;
        }
        let (w, _) = s.dimensions();
        let mut x: u32 = 0;
        while x < 240
            invariant
                x <= 240,
                i < 128,
                n == i + 1,
                s == Sprite::at(*bus, i as int),
                s.wf(),
                s.on_line(y),
                w == s.extent().0,
                w <= 64,
                forall|k: int|
                    0 <= k < x ==> {
                        &&& (#[trigger] self.dot(k)) == obj_dot(*bus, n, k as u32, y)
                        &&& self.window[k] == obj_window(*bus, n, k as u32, y)
                        &&& self.prio[k] <= 4
                    },
                forall|k: int|
                    x <= k < 240 ==> {
                        &&& (#[trigger] self.dot(k)) == obj_dot(*bus, i as nat, k as u32, y)
                        &&& self.window[k] == obj_window(*bus, i as nat, k as u32, y)
                        &&& self.prio[k] <= 4
                    },
            decreases 240 - x,
        {
            let ghost before = *self;
            assert(before.dot(x as int) == obj_dot(*bus, i as nat, x, y));
            if s.mode == 2 {
                if x >= s.x && x < s.x + w {
                    self.window[x as usize] = true;
                }
            } else {
                match s.get_dot(bus, x, y) {
                    Some((color, priority)) => {
                        self.color[x as usize] = color;
                        self.prio[x as usize] = priority + 1;
                    },
                    None => {},
                }
            }
            assert(self.dot(x as int) == obj_dot(*bus, n, x, y));
            assert(self.window[x as int] == obj_window(*bus, n, x, y));
            assert forall|k: int| 0 <= k < 240 && k != x implies {
                &&& (#[trigger] self.dot(k)) == before.dot(k)
                &&& self.window[k] == before.window[k]
                &&& self.prio[k] == before.prio[k]
            } by {}
            x = x + 1;
        }
    }

    fn new() -> (r: Line)
        ensures
            forall|bus: Bus, y: u32| r.holds(bus, 0, y),
    {
        let r = Line { prio: [0; 240], color: [0; 240], window: [false; 240] };
        assert forall|bus: Bus, y: u32| r.holds(bus, 0, y) by {
            assert forall|x: int| 0 <= x < 240 implies (#[trigger] r.dot(x)) == obj_dot(
                bus,
                0,
                x as u32,
                y,
            ) && r.window[x] == obj_window(bus, 0, x as u32, y) && r.prio[x] <= 4 by {}
        }
        r
    }

    /// Render sprites (OBJ) into the line.
    fn render_obj(bus: &Bus, y: u32) -> (r: Line)
        ensures
            r.holds(*bus, 128, y),
    {
        let mut line = Line::new();
        let mut i: usize = 0;
        while i < 128
            invariant
                i <= 128,
                line.holds(*bus, i as nat, y),
            decreases 128 - i,
        {
            line.draw(bus, i, y);
            i = i + 1;
        }
        line
    }
}

/// What the five layers show at one pixel.
struct Column {
    dots: [Dot; 5],
}

impl Column {
    fn stack(&self, mask: u16, second_targets: u16) -> (r: Stack)
        requires
            forall|l: int| 0 <= l < 5 && self.dots[l] is Some ==> (#[trigger] self.dots[l]->0).1 < 4,
        ensures
            r == stacked(|layer: int| self.dots[layer], mask, second_targets, 20),
            r.top is Some ==> (r.top->0).0 <= 4,
    {
        let ghost dots = |layer: int| self.dots[layer];
        let mut s = Stack { top: None, second: None };
        let mut k: usize = 0;
        while k < 20
            invariant
                k <= 20,
                dots == (|layer: int| self.dots[layer]),
                s == stacked(dots, mask, second_targets, k as nat),
                s.top is Some ==> (s.top->0).0 <= 4,
            decreases 20 - k,
        {
            let layer: u8 = ORDER[k % 5];
            let dot: Dot = self.dots[layer as usize];
            match dot {
                Some((color, priority)) => {
                    if layer_in(mask, layer) && priority as usize == k / 5 {
                        if s.top.is_none() {
                            s.top = Some((layer, color));
                        } else if layer_in(second_targets, layer) && s.second.is_none() {
                            s.second = Some(color);
                        }
                    }
                },
                None => {},
            }
            k = k + 1;
        }
        s
    }
}

fn get_window_mask(bus: &Bus, line: &Line, x: u32, y: u32) -> (r: u16)
    requires
        x < 240,
        dispcnt(*bus) & 0x1000 != 0 ==> line.holds(*bus, 128, y),
        dispcnt(*bus) & 0x1000 == 0 ==> line.holds(*bus, 0, y),
    ensures
        r == window_mask(*bus, x, y),
{
    let disp: u16 = get_reg16(bus, 0);
    let win0 = disp & 0x2000 != 0;
    let win1 = disp & 0x4000 != 0;
    let obj_win = disp & 0x8000 != 0;
    assert(line.dot(x as int) == line.dot(x as int));
    if !win0 && !win1 && !obj_win {
        0x3F
    } else if win0 && is_in_window(x, y, get_reg16(bus, 0x40), get_reg16(bus, 0x44)) {
        get_reg16(bus, 0x48) % 64
    } else if win1 && is_in_window(x, y, get_reg16(bus, 0x42), get_reg16(bus, 0x46)) {
        get_reg16(bus, 0x48) / 256 % 64
    } else if obj_win && line.window[x as usize] {
        get_reg16(bus, 0x4A) / 256 % 64
    } else {
        get_reg16(bus, 0x4A) % 64
    }
}

fn composite(bus: &Bus, line: &Line, x: u32, y: u32) -> (r: u16)
    requires
        x < 240,
        y < 160,
        dispcnt(*bus) & 0x40 == 0,
        dispcnt(*bus) & 0x1000 != 0 ==> line.holds(*bus, 128, y),
        dispcnt(*bus) & 0x1000 == 0 ==> line.holds(*bus, 0, y),
    ensures
        r == pixel(*bus, x, y),
{
    let mask: u16 = get_window_mask(bus, line, x, y);
    let second_targets: u16 = get_reg16(bus, 0x50) / 256 % 64;
    assert(line.dot(x as int) == layer_dot(*bus, 4, x, y));
    let prio: u8 = line.prio[x as usize];
    let obj: Dot = if prio == 0 {
        None
    } else {
        Some((line.color[x as usize], prio - 1))
    };
    let column = Column {
        dots: [
            render_bg(bus, 0, x, y),
            render_bg(bus, 1, x, y),
            render_bg(bus, 2, x, y),
            render_bg(bus, 3, x, y),
            obj,
        ],
    };
    let s: Stack = column.stack(mask, second_targets);
    proof {
        let a = |layer: int| column.dots[layer];
        let b = |layer: int| layer_dot(*bus, layer, x, y);
        assert forall|layer: int| 0 <= layer < 5 implies #[trigger] a(layer) == b(layer) by {}
        lemma_same_stack(a, b, mask, second_targets, 20);
    }
    apply_effect(bus, &s)
}

/// The stack depends on the five layers only.
proof fn lemma_same_stack(
    a: spec_fn(int) -> Dot,
    b: spec_fn(int) -> Dot,
    mask: u16,
    second_targets: u16,
    k: nat,
)
    requires
        forall|layer: int| 0 <= layer < 5 ==> #[trigger] a(layer) == b(layer),
    ensures
        stacked(a, mask, second_targets, k) == stacked(b, mask, second_targets, k),
    decreases k,
{
    if k > 0 {
        lemma_same_stack(a, b, mask, second_targets, (k - 1) as nat);
        let layer = ORDER[(k - 1) % 5];
        assert(0 <= layer < 5);
        assert(a(layer as int) == b(layer as int));
    }
}

/// The GBA PPU.
pub struct Ppu {
    /// Native BGR555 framebuffer, `SCREEN_W * SCREEN_H` entries, row-major.
    pub framebuffer: Vec<u16>,
}

/// The picture after line `y` was drawn from what the bus holds.
pub open spec fn drawn(picture: Seq<u16>, bus: Bus, y: u32) -> Seq<u16> {
    Seq::new(
        picture.len(),
        |i: int|
            if i / 240 == y {
                pixel(bus, (i % 240) as u32, y)
            } else {
                picture[i]
            },
    )
}

impl View for Ppu {
    type V = Seq<u16>;

    open spec fn view(&self) -> Seq<u16> {
        self.framebuffer@
    }
}

impl Ppu {
    /// The picture has one entry per pixel.
    pub open spec fn wf(self) -> bool {
        self.framebuffer@.len() == 38_400
    }

    /// A black picture.
    pub open spec fn black() -> Seq<u16> {
        Seq::new(38_400, |i: int| 0u16)
    }

    pub fn new() -> (r: Ppu)
        ensures
            r.wf(),
            r@ == Ppu::black(),
    {
        let framebuffer: Vec<u16> = vec![0; SCREEN_W * SCREEN_H];
        assert(framebuffer@ =~= Ppu::black());
        Ppu { framebuffer }
    }

    /// Render one scanline (`y` in 0..160) into the framebuffer.
    pub fn render_scanline(&mut self, bus: &Bus, y: u32)
        requires
            old(self).wf(),
            y < 160,
        ensures
            final(self).wf(),
            final(self)@ == drawn(old(self)@, *bus, y),
    {
        let disp: u16 = get_reg16(bus, 0);
        let blank = disp & 0x40 != 0;
        let line: Line = if disp & 0x1000 != 0 {
            Line::render_obj(bus, y)
        } else {
            Line::new()
        };
        let row: usize = y as usize * SCREEN_W;
        let mut x: u32 = 0;
        while x < 240
            invariant
                x <= 240,
                y < 160,
                row == y * 240,
                self.framebuffer@.len() == 38_400,
                old(self).framebuffer@.len() == 38_400,
                blank == (dispcnt(*bus) & 0x40 != 0),
                dispcnt(*bus) & 0x1000 != 0 ==> line.holds(*bus, 128, y),
                dispcnt(*bus) & 0x1000 == 0 ==> line.holds(*bus, 0, y),
                forall|i: int|
                    0 <= i < 38_400 ==> (#[trigger] self.framebuffer@[i]) == if row <= i < row + x {
                        pixel(*bus, (i - row) as u32, y)
                    } else {
                        old(self).framebuffer@[i]
                    },
            decreases 240 - x,
        {
            let color: u16 = if blank {
                0x7FFF
            } else {
                composite(bus, &line, x, y)
            };
            self.framebuffer.set(row + x as usize, color);
            x = x + 1;
        }
        proof {
            let goal = drawn(old(self)@, *bus, y);
            assert forall|i: int| 0 <= i < 38_400 implies self.framebuffer@[i] == goal[i] by {
                if i / 240 == y {
                    assert(i % 240 == i - row);
                }
            }
            assert(self@ =~= goal);
        }
    }
}

impl Default for Ppu {
    fn default() -> (r: Ppu)
        ensures
            r.wf(),
            r@ == Ppu::black(),
    {
        Ppu::new()
    }
}

/// While the display is blanked every pixel is white.
pub proof fn law_forced_blank_is_white(picture: Seq<u16>, bus: Bus, x: u32, y: u32)
    requires
        picture.len() == 38_400,
        x < 240,
        y < 160,
        dispcnt(bus) & 0x40 != 0,
    ensures
        drawn(picture, bus, y)[y * 240 + x] == 0x7FFF,
{
    assert((y * 240 + x) / 240 == y && (y * 240 + x) % 240 == x);
}

/// Drawing a line changes that line only.
pub proof fn law_other_lines_stay(picture: Seq<u16>, bus: Bus, y: u32, other: u32, x: u32)
    requires
        picture.len() == 38_400,
        x < 240,
        other < 160,
        other != y,
    ensures
        drawn(picture, bus, y)[other * 240 + x] == picture[other * 240 + x],
{
    assert((other * 240 + x) / 240 == other);
}

/// A layer that the windows hold back does not show: with no layer let
/// through there is none on top, whatever the layers hold.
pub proof fn law_hidden_layers_do_not_show(dots: spec_fn(int) -> Dot, second_targets: u16, k: nat)
    ensures
        stacked(dots, 0, second_targets, k) == (Stack { top: None, second: None }),
    decreases k,
{
    if k > 0 {
        law_hidden_layers_do_not_show(dots, second_targets, (k - 1) as nat);
    }
}

/// The layer on top has the best priority of the layers let through.
pub proof fn law_top_layer_has_best_priority(
    dots: spec_fn(int) -> Dot,
    mask: u16,
    second_targets: u16,
    k: nat,
    layer: int,
)
    requires
        k <= 20,
        0 <= layer < 5,
        dots(layer) is Some,
        has_layer(mask, layer),
        (dots(layer)->0).1 * 5 + 5 <= k,
    ensures
        ({
            let s = stacked(dots, mask, second_targets, k);
            &&& s.top is Some
            &&& dots((s.top->0).0 as int) is Some
            &&& has_layer(mask, (s.top->0).0 as int)
            &&& (s.top->0).1 == (dots((s.top->0).0 as int)->0).0
            &&& (dots((s.top->0).0 as int)->0).1 <= (dots(layer)->0).1
        }),
{
    lemma_top(dots, mask, second_targets, k);
    let p = (dots(layer)->0).1 as int;
    let j = if layer == 4 {
        0
    } else {
        4 - layer
    };
    let at = p * 5 + j;
    assert(at / 5 == p && at % 5 == j) by {
        assert(0 <= j < 5);
    }
    assert(ORDER[j] == layer);
    lemma_found(dots, mask, second_targets, (at + 1) as nat, k);
    lemma_top(dots, mask, second_targets, (at + 1) as nat);
}

/// The top of the stack is a layer that is let through, at a priority already
/// passed.
proof fn lemma_top(dots: spec_fn(int) -> Dot, mask: u16, second_targets: u16, k: nat)
    ensures
        ({
            let s = stacked(dots, mask, second_targets, k);
            s.top is Some ==> {
                &&& dots((s.top->0).0 as int) is Some
                &&& has_layer(mask, (s.top->0).0 as int)
                &&& (s.top->0).1 == (dots((s.top->0).0 as int)->0).0
                &&& (dots((s.top->0).0 as int)->0).1 * 5 < k
            }
        }),
    decreases k,
{
    if k > 0 {
        lemma_top(dots, mask, second_targets, (k - 1) as nat);
        assert((k - 1) / 5 * 5 <= k - 1);
    }
}

/// Once found, the top of the stack stays.
proof fn lemma_found(dots: spec_fn(int) -> Dot, mask: u16, second_targets: u16, j: nat, k: nat)
    requires
        j <= k,
        stacked(dots, mask, second_targets, j).top is Some,
    ensures
        stacked(dots, mask, second_targets, k).top == stacked(dots, mask, second_targets, j).top,
    decreases k,
{
    if j < k {
        lemma_found(dots, mask, second_targets, j, (k - 1) as nat);
    }
}

} // verus!

//! What a pixel shows, told by the tiles, maps and registers it is made from.

use crate::bits::lemma_half_fields;
use crate::gba::bus::Bus;
use crate::gba::io::half_at;
use crate::gba::ppu::{
    affine_dot, affine_point, affine_side, bg_dot, bgcnt, bitmap_dot, blended, brightened,
    darkened, dispcnt, drawn, has_layer, layer_dot, obj_dot, obj_window, oam16, palette, pixel, reg32,
    signed16, signed32, text_dot, tile_color, vram16, vram8, window_mask, with_effect, Dot, Sprite,
    Stack,
};
use vstd::prelude::*;

verus! {

/// The halfword at `off` of the I/O registers.
pub open spec fn reg(bus: Bus, off: int) -> int {
    bus.io.regs[off] + 256 * bus.io.regs[off + 1]
}

/// Bit `i` of the number `n`, by its weight.
pub open spec fn has_bit(n: int, weight: int) -> bool {
    n / weight % 2 == 1
}

/// The width and height in pixels of the plane of a text background: two bits
/// of its control register.
pub open spec fn text_extent(cnt: int) -> (int, int) {
    (
        if has_bit(cnt, 0x4000) {
            512
        } else {
            256
        },
        if has_bit(cnt, 0x8000) {
            512
        } else {
            256
        },
    )
}

/// The map entry of the point (`sx`, `sy`) of the plane of a text background.
pub open spec fn text_entry(bus: Bus, cnt: int, sx: int, sy: int) -> int {
    let at = cnt / 0x80 % 32 * 0x800 + 2 * (sy / 8 * (text_extent(cnt).0 / 8) + sx / 8);
    vram8(bus, at as u32) + 256 * vram8(bus, (at + 1) as u32)
}

/// The tile byte at column `u` and row `v` of tile `n` of a text background:
/// 64 bytes a tile with 256 colours, 32 otherwise.
pub open spec fn text_byte(bus: Bus, cnt: int, n: int, u: int, v: int) -> u8 {
    let (base, size) = if has_bit(cnt, 0x40) {
        (0x8000int, 64int)
    } else {
        (0x4000int, 32int)
    };
    vram8(bus, (cnt / 4 % 4 * base + n * size + 8 * v + u) as u32)
}

/// The fifteen-bit colour of a palette that starts at `base`.
pub open spec fn color_at(bus: Bus, base: int, index: int) -> int {
    bus.palram.at(base + 2 * index) + 256 * (bus.palram.at(base + 2 * index + 1) % 128)
}

/// Whether `dot` shows the tile byte `byte` at the priority `priority`: with
/// 256 colours the byte is the colour, with 16 its lower half or, where that is
/// 0, its upper half picks one of the colours of the bank; 0 shows nothing.
pub open spec fn shows_byte(
    bus: Bus,
    base: int,
    wide: bool,
    bank: int,
    priority: int,
    byte: u8,
    dot: Dot,
) -> bool {
    match dot {
        None => byte == 0,
        Some((color, prio)) => {
            &&& byte != 0
            &&& prio == priority
            &&& color == color_at(
                bus,
                base,
                if wide {
                    byte as int
                } else if byte % 16 != 0 {
                    16 * bank + byte % 16
                } else {
                    16 * bank + byte / 16
                },
            )
        },
    }
}

/// Whether `dot` is what the point (`sx`, `sy`) of the plane of text background
/// `bg` shows. The entry's bit 12 mirrors the tile from left to right and bit 13
/// from top to bottom.
#[verifier::opaque]
pub open spec fn shows_text(bus: Bus, bg: int, sx: int, sy: int, dot: Dot) -> bool {
    let cnt = reg(bus, 0x10 + 8 * bg);
    let entry = text_entry(bus, cnt, sx, sy);
    let u = if has_bit(entry, 0x1000) {
        7 - sx % 8
    } else {
        sx % 8
    };
    let v = if has_bit(entry, 0x2000) {
        7 - sy % 8
    } else {
        sy % 8
    };
    shows_byte(
        bus,
        0,
        has_bit(cnt, 0x40),
        entry / 0x400 % 16,
        cnt % 4,
        text_byte(bus, cnt, entry % 0x400, u, v),
        dot,
    )
}

/// The column at which a pixel looks with the mosaic of `cnt`: the first of its
/// block, where the size less one is a mask of low bits.
proof fn lemma_mosaic(x: u32, m: u32)
    by (bit_vector)
    ensures
        m == 0 ==> x & !m == x,
        m == 1 ==> x & !m == x / 2 * 2,
        m == 3 ==> x & !m == x / 4 * 4,
        m == 7 ==> x & !m == x / 8 * 8,
        m == 15 ==> x & !m == x / 16 * 16,
{
}

proof fn lemma_tile_color(bus: Bus, base: int, byte: u8, wide: bool, bank: int, priority: u8)
    requires
        0 <= bank < 16,
    ensures
        shows_byte(
            bus,
            base,
            wide,
            bank,
            priority as int,
            byte,
            match tile_color(byte, wide, bank) {
                Some(c) => Some((palette(bus, base, c), priority)),
                None => None,
            },
        ),
{
    let index = if wide {
        byte as int
    } else if byte % 16 != 0 {
        16 * bank + byte % 16
    } else {
        16 * bank + byte / 16
    };
    lemma_color(bus, base, index);
}

proof fn lemma_color(bus: Bus, base: int, index: int)
    ensures
        palette(bus, base, index) == color_at(bus, base, index),
{
    let lo = bus.palram.at(base + index * 2) as int;
    let hi = bus.palram.at(base + index * 2 + 1) as int;
    assert((lo + hi * 256) % 0x8000 == lo + 256 * (hi % 128));
}

/// The column of the plane that a pixel of a text background looks at.
pub open spec fn text_column(bus: Bus, bg: int, x: int) -> int {
    (x + reg(bus, 0x12 + 8 * bg)) % text_extent(reg(bus, 0x10 + 8 * bg)).0
}

/// The row of the plane that a pixel of a text background looks at.
pub open spec fn text_row(bus: Bus, bg: int, y: int) -> int {
    (y + reg(bus, 0x14 + 8 * bg)) % text_extent(reg(bus, 0x10 + 8 * bg)).1
}

/// A text background shows the point of its plane that the pixel, moved by the
/// two scroll registers, falls on; the plane repeats in both directions.
pub proof fn law_text_scrolls(bus: Bus, bg: int, x: u32, y: u32)
    requires
        0 <= bg < 4,
        x < 240,
        y < 160,
        reg(bus, 0x10 + 8 * bg) / 16 % 4 == 0,
    ensures
        shows_text(
            bus,
            bg,
            text_column(bus, bg, x as int),
            text_row(bus, bg, y as int),
            text_dot(bus, bg, x, y),
        ),
{
    assert(bgcnt(bus, bg) == reg(bus, 0x10 + 8 * bg));
    lemma_text(bus, bg, x, y, x);
}

/// What a text background shows, given the column `mx` that the mosaic leaves.
#[verifier::rlimit(60)]
proof fn lemma_text(bus: Bus, bg: int, x: u32, y: u32, mx: u32)
    requires
        0 <= bg < 4,
        x < 240,
        y < 160,
        mx < 240,
        mx == if bgcnt(bus, bg) / 16 % 4 != 0 {
            x & !((half_at(bus.io.regs, 0x4C) % 16) as u32)
        } else {
            x
        },
    ensures
        shows_text(
            bus,
            bg,
            text_column(bus, bg, mx as int),
            text_row(bus, bg, y as int),
            text_dot(bus, bg, x, y),
        ),
{
    reveal(shows_text);
    let cnt = bgcnt(bus, bg);
    lemma_half_fields(cnt);
    assert(cnt == reg(bus, 0x10 + 8 * bg));
    let (w, h) = text_extent(cnt as int);
    assert((cnt / 0x4000) % 2 == 1 <==> has_bit(cnt as int, 0x4000));
    assert(cnt / 0x4000 >= 2 <==> has_bit(cnt as int, 0x8000));
    let sx = text_column(bus, bg, mx as int);
    let sy = text_row(bus, bg, y as int);
    let at = cnt / 0x80 % 32 * 0x800 + (sy / 8 * (w / 8) + sx / 8) * 2;
    let entry = vram16(bus, at as u32);
    lemma_half_fields(entry);
    assert(0 <= sy / 8 < 64 && 0 <= sx / 8 < 64);
    assert(0 <= at < 0x2_0000);
    assert(entry == text_entry(bus, cnt as int, sx, sy));
    let u = if has_bit(entry as int, 0x1000) {
        7 - sx % 8
    } else {
        sx % 8
    };
    let v = if has_bit(entry as int, 0x2000) {
        7 - sy % 8
    } else {
        sy % 8
    };
    let byte = text_byte(bus, cnt as int, entry as int % 0x400, u, v);
    lemma_tile_color(
        bus,
        0,
        byte,
        has_bit(cnt as int, 0x40),
        entry as int / 0x400 % 16,
        (cnt % 4) as u8,
    );
}

/// With a mosaic whose width is 1, 2, 4, 8 or 16 pixels, a text background shows
/// at every pixel of a block what lies under the block's first column.
pub proof fn law_text_mosaic(bus: Bus, bg: int, x: u32, y: u32, width: int)
    requires
        0 <= bg < 4,
        x < 240,
        y < 160,
        reg(bus, 0x10 + 8 * bg) / 16 % 4 != 0,
        width == reg(bus, 0x4C) % 16 + 1,
        width == 1 || width == 2 || width == 4 || width == 8 || width == 16,
    ensures
        shows_text(
            bus,
            bg,
            text_column(bus, bg, x - x as int % width),
            text_row(bus, bg, y as int),
            text_dot(bus, bg, x, y),
        ),
{
    assert(bgcnt(bus, bg) == reg(bus, 0x10 + 8 * bg));
    let m = (half_at(bus.io.regs, 0x4C) % 16) as u32;
    lemma_mosaic(x, m);
    assert(x & !m == x - x as int % width);
    lemma_text(bus, bg, x, y, x & !m);
}

/// Two pixels of a text background that fall on the same point of its plane
/// show the same.
pub proof fn law_text_repeats(bus: Bus, bg: int, x: u32, y: u32, x2: u32, y2: u32)
    requires
        0 <= bg < 4,
        x < 240,
        y < 160,
        x2 < 240,
        y2 < 160,
        reg(bus, 0x10 + 8 * bg) / 16 % 4 == 0,
        text_column(bus, bg, x as int) == text_column(bus, bg, x2 as int),
        text_row(bus, bg, y as int) == text_row(bus, bg, y2 as int),
    ensures
        text_dot(bus, bg, x, y) == text_dot(bus, bg, x2, y2),
{
    law_text_scrolls(bus, bg, x, y);
    law_text_scrolls(bus, bg, x2, y2);
    lemma_shows_one(
        bus,
        bg,
        text_column(bus, bg, x as int),
        text_row(bus, bg, y as int),
        text_dot(bus, bg, x, y),
        text_dot(bus, bg, x2, y2),
    );
}

proof fn lemma_shows_one(bus: Bus, bg: int, sx: int, sy: int, a: Dot, b: Dot)
    requires
        shows_text(bus, bg, sx, sy, a),
        shows_text(bus, bg, sx, sy, b),
    ensures
        a == b,
{
    reveal(shows_text);
}

/// Whether two machines have the same background `bg`, but for its map entries:
/// the same control register and tiles.
pub open spec fn same_tiles(b: Bus, c: Bus, bg: int) -> bool {
    let cnt = reg(b, 0x10 + 8 * bg);
    &&& reg(c, 0x10 + 8 * bg) == cnt
    &&& forall|n: int, u: int, v: int|
        0 <= n < 0x400 && 0 <= u < 8 && 0 <= v < 8 ==> #[trigger] text_byte(b, cnt, n, u, v)
            == text_byte(c, cnt, n, u, v)
}

/// Whether `n` colours of the palettes agree, from `i` on in `b` and from `j` on
/// in `c`.
pub open spec fn same_colors(b: Bus, i: int, c: Bus, j: int, n: int) -> bool {
    forall|k: int| 0 <= k < n ==> #[trigger] color_at(b, 0, i + k) == color_at(c, 0, j + k)
}

/// Whether the entries `e` and `f` differ in their bits 12 and 13 alone, bit 12
/// where `across` and bit 13 where `down`, clear in `e` and set in `f`.
pub open spec fn mirrors(e: int, f: int, across: bool, down: bool) -> bool {
    &&& across ==> !has_bit(e, 0x1000)
    &&& down ==> !has_bit(e, 0x2000)
    &&& f == e + (if across {
        0x1000int
    } else {
        0
    }) + (if down {
        0x2000int
    } else {
        0
    })
}

#[verifier::rlimit(60)]
proof fn lemma_mirrors(e: int, f: int, across: bool, down: bool)
    requires
        0 <= e < 0x1_0000,
        mirrors(e, f, across, down),
    ensures
        f % 0x400 == e % 0x400,
        0 <= f < 0x1_0000,
        has_bit(f, 0x1000) == (has_bit(e, 0x1000) || across),
        has_bit(f, 0x2000) == (has_bit(e, 0x2000) || down),
{
    let k: int = (if across {
        1int
    } else {
        0
    }) + (if down {
        2int
    } else {
        0
    });
    assert(f == e + 0x1000 * k);
    assert(f / 0x1000 == e / 0x1000 + k);
    assert(e / 0x1000 / 2 == e / 0x2000 && f / 0x1000 / 2 == f / 0x2000);
}

/// Map entries that differ in bit 12 alone show mirrored rows of a tile: the dot
/// at column `u` of the tile with the bit clear is the dot at column `7 - u` with
/// it set. Bit 13 mirrors the columns alike: row `v` with the bit clear is row
/// `7 - v` with it set. The colours are those of the entry's palette: with 16
/// colours that is the bank in its bits 10 to 13.
#[verifier::rlimit(60)]
pub proof fn law_text_mirrored(
    b: Bus,
    c: Bus,
    bg: int,
    x: u32,
    y: u32,
    x2: u32,
    y2: u32,
    across: bool,
    down: bool,
)
    requires
        0 <= bg < 4,
        x < 240,
        y < 160,
        x2 < 240,
        y2 < 160,
        reg(b, 0x10 + 8 * bg) / 16 % 4 == 0,
        same_tiles(b, c, bg),
        ({
            let cnt = reg(b, 0x10 + 8 * bg);
            let (sx, sy) = (text_column(b, bg, x as int), text_row(b, bg, y as int));
            let (tx, ty) = (text_column(c, bg, x2 as int), text_row(c, bg, y2 as int));
            let (e, f) = (text_entry(b, cnt, sx, sy), text_entry(c, cnt, tx, ty));
            &&& mirrors(e, f, across, down)
            &&& if has_bit(cnt, 0x40) {
                same_colors(b, 0, c, 0, 256)
            } else {
                same_colors(b, 16 * (e / 0x400 % 16), c, 16 * (f / 0x400 % 16), 16)
            }
            &&& tx % 8 == if across {
                7 - sx % 8
            } else {
                sx % 8
            }
            &&& ty % 8 == if down {
                7 - sy % 8
            } else {
                sy % 8
            }
        }),
    ensures
        text_dot(c, bg, x2, y2) == text_dot(b, bg, x, y),
{
    reveal(shows_text);
    let cnt = reg(b, 0x10 + 8 * bg);
    law_text_scrolls(b, bg, x, y);
    law_text_scrolls(c, bg, x2, y2);
    let (sx, sy) = (text_column(b, bg, x as int), text_row(b, bg, y as int));
    let (tx, ty) = (text_column(c, bg, x2 as int), text_row(c, bg, y2 as int));
    let e = text_entry(b, cnt, sx, sy);
    let f = text_entry(c, cnt, tx, ty);
    lemma_mirrors(e, f, across, down);
    let u = if has_bit(e, 0x1000) {
        7 - sx % 8
    } else {
        sx % 8
    };
    let v = if has_bit(e, 0x2000) {
        7 - sy % 8
    } else {
        sy % 8
    };
    let byte = text_byte(b, cnt, e % 0x400, u, v);
    assert(byte == text_byte(c, cnt, e % 0x400, u, v));
    if has_bit(cnt, 0x40) {
        assert(color_at(b, 0, 0 + byte) == color_at(c, 0, 0 + byte));
    } else {
        let (i, j) = (16 * (e / 0x400 % 16), 16 * (f / 0x400 % 16));
        assert(color_at(b, 0, i + byte as int % 16) == color_at(c, 0, j + byte as int % 16));
        assert(color_at(b, 0, i + byte as int / 16) == color_at(c, 0, j + byte as int / 16));
    }
}

/// The four parameters of an affine background and its origin: a step of a pixel
/// to the right moves the point that is seen by PA and PC, a step down by PB and
/// PD; the first pixel sees the origin, of which eight bits are a fraction.
#[verifier::rlimit(60)]
pub proof fn law_affine_steps(bus: Bus, bg: int, x: u32, y: u32)
    requires
        bg == 2 || bg == 3,
        x < 240,
        y < 160,
    ensures
        ({
            let base = 0x10 + 0x10 * bg;
            let (px, py) = affine_point(bus, bg, x, y);
            let (rx, ry) = affine_point(bus, bg, (x + 1) as u32, y);
            let (dx, dy) = affine_point(bus, bg, x, (y + 1) as u32);
            let (ox, oy) = affine_point(bus, bg, 0, 0);
            &&& (rx - px - reg(bus, base)) % 0x1_0000 == 0 && -0x8000 <= rx - px < 0x8000
            &&& (ry - py - reg(bus, base + 4)) % 0x1_0000 == 0 && -0x8000 <= ry - py < 0x8000
            &&& (dx - px - reg(bus, base + 2)) % 0x1_0000 == 0 && -0x8000 <= dx - px < 0x8000
            &&& (dy - py - reg(bus, base + 6)) % 0x1_0000 == 0 && -0x8000 <= dy - py < 0x8000
            &&& 256 * ox <= signed32(reg32(bus, base + 8)) < 256 * (ox + 1)
            &&& 256 * oy <= signed32(reg32(bus, base + 12)) < 256 * (oy + 1)
        }),
{
    let base = 0x10 + 0x10 * bg;
    let regs = bus.io.regs;
    let pa = signed16(half_at(regs, base));
    let pb = signed16(half_at(regs, base + 2));
    let pc = signed16(half_at(regs, base + 4));
    let pd = signed16(half_at(regs, base + 6));
    lemma_steps(pa, x as int);
    lemma_steps(pb, y as int);
    lemma_steps(pc, x as int);
    lemma_steps(pd, y as int);
    assert(half_at(regs, base) == reg(bus, base));
    assert(half_at(regs, base + 2) == reg(bus, base + 2));
    assert(half_at(regs, base + 4) == reg(bus, base + 4));
    assert(half_at(regs, base + 6) == reg(bus, base + 6));
    assert(pa * 0 == 0 && pb * 0 == 0 && pc * 0 == 0 && pd * 0 == 0) by (nonlinear_arith);
}

proof fn lemma_steps(p: int, x: int)
    ensures
        p * (x + 1) == p * x + p,
{
    assert(p * (x + 1) == p * x + p) by (nonlinear_arith);
}

/// Where two pixels of an affine background see points that are a multiple of
/// its side apart, and it wraps around, they show the same. Where it does not
/// wrap, a pixel that sees a point outside its square shows nothing.
pub proof fn law_affine_wraps(bus: Bus, bg: int, x: u32, y: u32, x2: u32, y2: u32)
    requires
        bg == 2 || bg == 3,
    ensures
        ({
            let cnt = reg(bus, 0x10 + 8 * bg);
            let side = 8 * affine_side(bgcnt(bus, bg));
            let (px, py) = affine_point(bus, bg, x, y);
            let (qx, qy) = affine_point(bus, bg, x2, y2);
            &&& side == if cnt / 0x4000 == 0 {
                256int
            } else if cnt / 0x4000 == 1 {
                512
            } else if cnt / 0x4000 == 2 {
                1024
            } else {
                2048
            }
            &&& cnt / 0x1000 % 4 != 0 && px % side == qx % side && py % side == qy % side
                ==> affine_dot(bus, bg, x, y) == affine_dot(bus, bg, x2, y2)
            &&& cnt / 0x1000 % 4 == 0 && !(0 <= px < side && 0 <= py < side) ==> affine_dot(
                bus,
                bg,
                x,
                y,
            ) is None
        }),
{
    assert(bgcnt(bus, bg) == reg(bus, 0x10 + 8 * bg));
}

/// A pixel of an affine background that sees the point (`px`, `py`) of its square
/// shows that point's tile: 64 bytes, one of 256 colours each, never mirrored.
#[verifier::rlimit(60)]
pub proof fn law_affine_tile(bus: Bus, bg: int, x: u32, y: u32)
    requires
        bg == 2 || bg == 3,
        ({
            let (px, py) = affine_point(bus, bg, x, y);
            let side = 8 * affine_side(bgcnt(bus, bg));
            0 <= px < side && 0 <= py < side
        }),
    ensures
        ({
            let cnt = reg(bus, 0x10 + 8 * bg);
            let (px, py) = affine_point(bus, bg, x, y);
            let at = cnt / 0x80 % 32 * 0x800 + 2 * (py / 8 * affine_side(bgcnt(bus, bg)) + px / 8);
            let entry = vram8(bus, at as u32) + 256 * vram8(bus, (at + 1) as u32);
            shows_byte(
                bus,
                0,
                true,
                0,
                cnt % 4,
                vram8(bus, (64 * (entry % 0x400) + 8 * (py % 8) + px % 8) as u32),
                affine_dot(bus, bg, x, y),
            )
        }),
{
    let cnt = bgcnt(bus, bg);
    assert(cnt == reg(bus, 0x10 + 8 * bg));
    let (px, py) = affine_point(bus, bg, x, y);
    let side = affine_side(cnt);
    vstd::arithmetic::div_mod::lemma_small_mod(px as nat, (side * 8) as nat);
    vstd::arithmetic::div_mod::lemma_small_mod(py as nat, (side * 8) as nat);
    let row = py / 8;
    assert(0 <= row * side <= 256 * 256) by (nonlinear_arith)
        requires
            0 <= row <= 256,
            0 <= side <= 256,
    ;
    let at = cnt / 0x80 % 32 * 0x800 + (row * side + px / 8) * 2;
    assert(0 <= at < 0x10_0000);
    let entry = vram16(bus, at as u32);
    assert(entry == vram8(bus, at as u32) + 256 * vram8(bus, (at + 1) as u32));
    let byte = vram8(bus, (entry % 0x400 * 64 + py % 8 * 8 + px % 8) as u32);
    lemma_color(bus, 0, byte as int);
}

/// The bitmaps hold their pixels row by row: in mode 3 240 by 160 colours, in
/// mode 4 240 by 160 bytes that pick a colour, in mode 5 160 by 128 colours.
/// DISPCNT bit 3 shows the second page of the last two.
#[verifier::rlimit(60)]
pub proof fn law_bitmaps(bus: Bus, x: u32, y: u32)
    requires
        x < 240,
        y < 160,
    ensures
        ({
            let page: int = if has_bit(reg(bus, 0), 8) {
                0xA000
            } else {
                0
            };
            let byte = vram8(bus, (page + 240 * y + x) as u32);
            let wide = 2 * (240 * y + x);
            let small = page + 2 * (160 * y + x);
            &&& bitmap_dot(bus, 3, x, y) is Some
            &&& (bitmap_dot(bus, 3, x, y)->0).0 == vram8(bus, wide as u32) + 256 * vram8(
                bus,
                (wide + 1) as u32,
            )
            &&& shows_byte(bus, 0, true, 0, 0, byte, bitmap_dot(bus, 4, x, y))
            &&& y >= 128 <==> bitmap_dot(bus, 5, x, y) is None
            &&& y < 128 ==> (bitmap_dot(bus, 5, x, y)->0).0 == vram8(bus, small as u32) + 256
                * vram8(bus, (small + 1) as u32)
        }),
{
    lemma_half_fields(dispcnt(bus));
    assert(dispcnt(bus) == reg(bus, 0));
    let page: int = if has_bit(reg(bus, 0), 8) {
        0xA000
    } else {
        0
    };
    lemma_color(bus, 0, vram8(bus, (page + 240 * y + x) as u32) as int);
}

/// Which kind of background is shown: DISPCNT bits 0 to 2 are the mode, and bits
/// 8 to 11 enable the four. Mode 0 has four text backgrounds, mode 1 two and two
/// affine ones, mode 2 affine ones, and modes 3 to 5 a bitmap as background 2.
pub proof fn law_background_kind(bus: Bus, bg: int, x: u32, y: u32)
    requires
        0 <= bg < 4,
    ensures
        ({
            let disp = reg(bus, 0);
            let weight: int = if bg == 0 {
                0x100
            } else if bg == 1 {
                0x200
            } else if bg == 2 {
                0x400
            } else {
                0x800
            };
            let mode = disp % 8;
            bg_dot(bus, bg, x, y) == if !has_bit(disp, weight) || mode > 5 {
                None
            } else if mode == 0 || mode == 1 && bg < 2 {
                text_dot(bus, bg, x, y)
            } else if mode == 1 || mode == 2 {
                affine_dot(bus, bg, x, y)
            } else if bg == 2 {
                bitmap_dot(bus, mode, x, y)
            } else {
                None
            }
        }),
{
    assert(dispcnt(bus) == reg(bus, 0));
    let disp = reg(bus, 0);
    assert(disp / 0x100 / 2 == disp / 0x200 && disp / 0x100 / 4 == disp / 0x400 && disp / 0x100 / 8
        == disp / 0x800);
}

/// Attribute `k` of entry `i` of OAM.
pub open spec fn attribute(bus: Bus, i: int, k: int) -> int {
    bus.oam.at(8 * i + 2 * k) + 256 * bus.oam.at(8 * i + 2 * k + 1)
}

/// The fields of a sprite in the three attributes of its OAM entry.
#[verifier::rlimit(60)]
pub proof fn law_sprite_attributes(bus: Bus, i: int)
    requires
        0 <= i < 128,
    ensures
        ({
            let s = Sprite::at(bus, i);
            let (a0, a1, a2) = (attribute(bus, i, 0), attribute(bus, i, 1), attribute(bus, i, 2));
            &&& s.wf()
            &&& s.y == a0 % 256
            &&& s.affine == (has_bit(a0, 0x100) || has_bit(a0, 0x200))
            &&& (s.mode == 2) == (has_bit(a0, 0x800) && !has_bit(a0, 0x400))
            &&& s.palette256 == has_bit(a0, 0x2000)
            &&& s.shape == a0 / 0x4000
            &&& s.x == a1 % 512
            &&& s.hflip == has_bit(a1, 0x1000)
            &&& s.vflip == has_bit(a1, 0x2000)
            &&& s.size == a1 / 0x400 % 4
            &&& s.tile == a2 % 0x400
            &&& s.priority == a2 / 0x400 % 4
            &&& s.bank == a2 / 0x1000
        }),
{
    let (a0, a1, a2) = (attribute(bus, i, 0), attribute(bus, i, 1), attribute(bus, i, 2));
    assert(oam16(bus, i * 8) == a0 && oam16(bus, i * 8 + 2) == a1 && oam16(bus, i * 8 + 4) == a2);
    lemma_two_bit_field(a0, 0x100);
    lemma_two_bit_field(a0, 0x400);
}

proof fn lemma_two_bit_field(n: int, w: int)
    requires
        0 <= n < 0x1_0000,
        w == 0x100 || w == 0x400,
    ensures
        (n / w % 4 != 0) == (has_bit(n, w) || has_bit(n, 2 * w)),
        (n / w % 4 == 2) == (!has_bit(n, w) && has_bit(n, 2 * w)),
{
    assert(n / 0x100 / 2 == n / 0x200 && n / 0x400 / 2 == n / 0x800);
}

/// The squares have sides of 8, 16, 32 and 64 pixels; shape 1 is wider than
/// high, shape 2 higher than wide, and the fourth shape has no area.
pub proof fn law_sprite_extent(s: Sprite)
    requires
        s.wf(),
    ensures
        ({
            let (w, h) = s.extent();
            &&& s.shape == 0 ==> w == h
            &&& s.shape == 0 ==> w == if s.size == 0 {
                8int
            } else if s.size == 1 {
                16
            } else if s.size == 2 {
                32
            } else {
                64
            }
            &&& s.shape == 1 ==> w == 2 * h && (h == 8 <==> s.size == 0) && (h == 32 <==> s.size
                == 3)
            &&& s.shape == 2 ==> h == 2 * w && (w == 8 <==> s.size < 2) && (w == 32 <==> s.size
                == 3)
            &&& s.shape == 3 ==> w == 0 && h == 0
        }),
{
}

/// The tile byte at column `u` and row `v` of a sprite's picture. Where DISPCNT
/// bit 5 is set its tiles follow each other row by row, otherwise a row of tiles
/// starts four tiles after the one above it.
pub open spec fn sprite_byte(bus: Bus, s: Sprite, u: int, v: int) -> u8 {
    let step = if has_bit(reg(bus, 0), 0x20) {
        s.extent().0 as int / 8
    } else {
        4
    };
    let size: int = if s.palette256 {
        64
    } else {
        32
    };
    vram8(bus, ((s.tile + v / 8 * step + u / 8) * size + 8 * (v % 8) + u % 8) as u32)
}

/// A sprite shows within its width from its column on, and within its height
/// from its line on, and nowhere else; one that shapes a window never. The bits
/// for mirroring show its columns, its rows or both in reverse.
#[verifier::rlimit(60)]
pub proof fn law_sprite_shows(bus: Bus, s: Sprite, x: u32, y: u32)
    requires
        s.wf(),
        !s.affine,
    ensures
        ({
            let (w, h) = s.extent();
            let u = if s.hflip {
                s.x + w - 1 - x
            } else {
                x - s.x
            };
            let v = if s.vflip {
                s.y + h - 1 - y
            } else {
                y - s.y
            };
            if s.mode != 2 && 0 <= u < w && 0 <= v < h {
                shows_byte(
                    bus,
                    0x200,
                    s.palette256,
                    s.bank as int,
                    s.priority as int,
                    sprite_byte(bus, s, u, v),
                    s.dot(bus, x, y),
                )
            } else {
                s.dot(bus, x, y) is None
            }
        }),
{
    lemma_half_fields(dispcnt(bus));
    assert(dispcnt(bus) == reg(bus, 0));
    let (w, h) = s.extent();
    let u = if s.hflip {
        s.x + w - 1 - x
    } else {
        x - s.x
    };
    let v = if s.vflip {
        s.y + h - 1 - y
    } else {
        y - s.y
    };
    if s.mode != 2 && 0 <= u < w && 0 <= v < h {
        lemma_tile_color(
            bus,
            0x200,
            sprite_byte(bus, s, u, v),
            s.palette256,
            s.bank as int,
            s.priority,
        );
    }
}

/// An affine sprite shows at its centre the centre of its picture, and a step
/// right or down moves the texel by the matrix, in 256ths: its place among the
/// sums `PA * cx + PB * cy` and `PC * cx + PD * cy` of the distances from the
/// centre, repeated over the picture.
pub proof fn law_affine_sprite(bus: Bus, s: Sprite, dx: int, dy: int)
    requires
        s.wf(),
        s.affine,
        s.shape < 3,
    ensures
        ({
            let (w, h) = s.extent();
            let (tx, ty) = s.texel(bus, dx, dy);
            let m = s.matrix as int;
            let (cx, cy) = (dx - w as int / 2, dy - h as int / 2);
            let sum = signed16(oam16(bus, m)) * cx + signed16(oam16(bus, m + 2)) * cy;
            let down = signed16(oam16(bus, m + 4)) * cx + signed16(oam16(bus, m + 6)) * cy;
            &&& 0 <= tx < w && 0 <= ty < h
            &&& (sum / 256 - tx) % w as int == 0
            &&& (down / 256 - ty) % h as int == 0
            &&& cx == 0 && cy == 0 ==> tx == 0 && ty == 0
        }),
{
    let (w, h) = s.extent();
    let m = s.matrix as int;
    let (cx, cy) = (dx - w as int / 2, dy - h as int / 2);
    let (pa, pb) = (signed16(oam16(bus, m)), signed16(oam16(bus, m + 2)));
    let (pc, pd) = (signed16(oam16(bus, m + 4)), signed16(oam16(bus, m + 6)));
    lemma_remainder((pa * cx + pb * cy) / 256, w as int);
    lemma_remainder((pc * cx + pd * cy) / 256, h as int);
    if cx == 0 && cy == 0 {
        assert(pa * cx == 0 && pb * cy == 0 && pc * cx == 0 && pd * cy == 0) by (nonlinear_arith)
            requires
                cx == 0,
                cy == 0,
        ;
    }
}

proof fn lemma_remainder(n: int, d: int)
    requires
        d == 8 || d == 16 || d == 32 || d == 64,
    ensures
        0 <= n % d < d,
        (n - n % d) % d == 0,
{
}

/// What sprite `i` shows at a pixel.
#[verifier::opaque]
pub open spec fn numbered_dot(bus: Bus, i: int, x: u32, y: u32) -> Dot {
    Sprite::at(bus, i).dot(bus, x, y)
}

proof fn lemma_one_more(bus: Bus, n: nat, x: u32, y: u32)
    requires
        n > 0,
    ensures
        obj_dot(bus, n, x, y) == match numbered_dot(bus, n - 1, x, y) {
            Some(d) => Some(d),
            None => obj_dot(bus, (n - 1) as nat, x, y),
        },
{
    reveal(numbered_dot);
}

/// Of the sprites at a pixel the one with the highest number that shows is seen.
#[verifier::rlimit(60)]
pub proof fn law_last_sprite_wins(bus: Bus, n: nat, x: u32, y: u32)
    ensures
        match obj_dot(bus, n, x, y) {
            Some(d) => exists|i: int|
                0 <= i < n && #[trigger] numbered_dot(bus, i, x, y) == Some(d) && forall|j: int|
                    i < j < n ==> #[trigger] numbered_dot(bus, j, x, y) is None,
            None => forall|j: int| 0 <= j < n ==> #[trigger] numbered_dot(bus, j, x, y) is None,
        },
    decreases n,
{
    if n > 0 {
        law_last_sprite_wins(bus, (n - 1) as nat, x, y);
        lemma_one_more(bus, n, x, y);
        assert(numbered_dot(bus, n - 1, x, y) is Some || numbered_dot(bus, n - 1, x, y) is None);
    }
}

/// The window that sprites shape holds the pixels of the areas of the sprites
/// that shape it.
pub proof fn law_sprite_window(bus: Bus, n: nat, x: u32, y: u32)
    ensures
        obj_window(bus, n, x, y) == exists|i: int|
            0 <= i < n && {
                let s = #[trigger] Sprite::at(bus, i);
                s.mode == 2 && s.x <= x < s.x + s.extent().0 && s.y <= y < s.y + s.extent().1
            },
    decreases n,
{
    if n > 0 {
        law_sprite_window(bus, (n - 1) as nat, x, y);
        let s = Sprite::at(bus, n - 1);
        assert(s.masks(x, y) == (s.mode == 2 && s.x <= x < s.x + s.extent().0 && s.y <= y < s.y
            + s.extent().1));
    }
}

/// Whether a pixel lies in the rectangle of a window: from the low bytes of its
/// two registers to their high bytes, both ends in it.
pub open spec fn in_rectangle(bus: Bus, window: int, x: u32, y: u32) -> bool {
    let (across, down) = (reg(bus, 0x40 + 2 * window), reg(bus, 0x44 + 2 * window));
    across % 256 <= x <= across / 256 && down % 256 <= y <= down / 256
}

/// Which layers, and the effects as layer 5, a pixel lets through: all where no
/// window is on; those of WININ where it is in window 0, or else in window 1;
/// those of WINOUT's high byte in the sprites' window, and its low byte outside.
#[verifier::rlimit(60)]
pub proof fn law_windows(bus: Bus, x: u32, y: u32, layer: int)
    requires
        0 <= layer < 6,
    ensures
        ({
            let disp = reg(bus, 0);
            let (w0, w1, wo) = (has_bit(disp, 0x2000), has_bit(disp, 0x4000), has_bit(disp, 0x8000));
            let bits = if w0 && in_rectangle(bus, 0, x, y) {
                bus.io.regs[0x48]
            } else if w1 && in_rectangle(bus, 1, x, y) {
                bus.io.regs[0x49]
            } else if wo && has_bit(disp, 0x1000) && obj_window(bus, 128, x, y) {
                bus.io.regs[0x4B]
            } else {
                bus.io.regs[0x4A]
            };
            has_layer(window_mask(bus, x, y), layer) == (!w0 && !w1 && !wo || has_bit(
                bits as int,
                if layer == 0 {
                    1
                } else if layer == 1 {
                    2
                } else if layer == 2 {
                    4
                } else if layer == 3 {
                    8
                } else if layer == 4 {
                    16
                } else {
                    32
                },
            ))
        }),
{
    lemma_half_fields(dispcnt(bus));
    assert(dispcnt(bus) == reg(bus, 0));
    let regs = bus.io.regs;
    assert(half_at(regs, 0x40) == reg(bus, 0x40) && half_at(regs, 0x42) == reg(bus, 0x42));
    assert(half_at(regs, 0x44) == reg(bus, 0x44) && half_at(regs, 0x46) == reg(bus, 0x46));
    assert(half_at(regs, 0x48) % 64 == regs[0x48] % 64);
    assert(half_at(regs, 0x48) / 256 == regs[0x49]);
    assert(half_at(regs, 0x4A) % 64 == regs[0x4A] % 64);
    assert(half_at(regs, 0x4A) / 256 == regs[0x4B]);
    lemma_low_bits(regs[0x48] as int);
    lemma_low_bits(regs[0x49] as int);
    lemma_low_bits(regs[0x4A] as int);
    lemma_low_bits(regs[0x4B] as int);
}

#[verifier::rlimit(60)]
proof fn lemma_low_bits(n: int)
    requires
        0 <= n < 256,
    ensures
        n % 64 % 2 == n % 2,
        n % 64 / 2 % 2 == n / 2 % 2,
        n % 64 / 4 % 2 == n / 4 % 2,
        n % 64 / 8 % 2 == n / 8 % 2,
        n % 64 / 16 % 2 == n / 16 % 2,
        n % 64 / 32 % 2 == n / 32 % 2,
{
    let (q, r) = (n / 64, n % 64);
    assert(n == 64 * q + r);
    assert(n / 2 == 32 * q + r / 2);
    assert(n / 4 == 16 * q + r / 4);
    assert(n / 8 == 8 * q + r / 8);
    assert(n / 16 == 4 * q + r / 16);
    assert(n / 32 == 2 * q + r / 32);
}

/// Part `i` of a colour: red, green, blue, five bits each.
pub open spec fn part(color: u16, i: int) -> int {
    if i == 0 {
        color as int % 32
    } else if i == 1 {
        color as int / 32 % 32
    } else {
        color as int / 1024 % 32
    }
}

/// Whether `r` is `s * a + d * b` in sixteenths, or the brightest where that is
/// beyond it.
pub open spec fn is_blend(s: int, d: int, a: int, b: int, r: int) -> bool {
    let v = s * a + d * b;
    if v >= 16 * 31 {
        r == 31
    } else {
        16 * r <= v < 16 * (r + 1)
    }
}

proof fn lemma_packed(r: int, g: int, b: int)
    requires
        0 <= r < 32,
        0 <= g < 32,
        0 <= b < 32,
    ensures
        part(crate::gba::ppu::packed(r, g, b), 0) == r,
        part(crate::gba::ppu::packed(r, g, b), 1) == g,
        part(crate::gba::ppu::packed(r, g, b), 2) == b,
{
}

proof fn lemma_blended_part(s: int, d: int, a: int, b: int)
    requires
        0 <= s < 32,
        0 <= d < 32,
        0 <= a < 32,
        0 <= b < 32,
    ensures
        is_blend(s, d, a, b, crate::gba::ppu::blended_part(s, d, a, b)),
        0 <= crate::gba::ppu::blended_part(s, d, a, b) < 32,
{
    assert(0 <= s * a && 0 <= d * b) by (nonlinear_arith)
        requires
            0 <= s,
            0 <= a,
            0 <= d,
            0 <= b,
    ;
}

/// An alpha blend adds `eva` sixteenths of each part of the upper colour and
/// `evb` sixteenths of the lower one's, up to the brightest.
pub proof fn law_blend(src: u16, dst: u16, eva: int, evb: int, i: int)
    requires
        0 <= eva < 32,
        0 <= evb < 32,
        0 <= i < 3,
    ensures
        is_blend(part(src, i), part(dst, i), eva, evb, part(blended(src, dst, eva, evb), i)),
{
    lemma_blended_part(part(src, 0), part(dst, 0), eva, evb);
    lemma_blended_part(part(src, 1), part(dst, 1), eva, evb);
    lemma_blended_part(part(src, 2), part(dst, 2), eva, evb);
    lemma_packed(
        crate::gba::ppu::blended_part(part(src, 0), part(dst, 0), eva, evb),
        crate::gba::ppu::blended_part(part(src, 1), part(dst, 1), eva, evb),
        crate::gba::ppu::blended_part(part(src, 2), part(dst, 2), eva, evb),
    );
}

proof fn lemma_faded_part(c: int, evy: int)
    requires
        0 <= c < 32,
        0 <= evy < 32,
    ensures
        ({
            let up = crate::gba::ppu::brightened_part(c, evy);
            let down = crate::gba::ppu::darkened_part(c, evy);
            &&& c <= up <= 31
            &&& 0 <= down <= c
            &&& evy <= 16 ==> 16 * (up - c) <= (31 - c) * evy < 16 * (up - c + 1)
            &&& evy >= 16 ==> up == 31
            &&& evy <= 16 ==> 16 * (c - down) <= c * evy < 16 * (c - down + 1)
            &&& evy >= 16 ==> down == 0
        }),
{
    let (k, j) = ((31 - c) * evy, c * evy);
    if evy <= 16 {
        assert(0 <= k <= (31 - c) * 16 && 0 <= j <= c * 16) by (nonlinear_arith)
            requires
                k == (31 - c) * evy,
                j == c * evy,
                0 <= c < 32,
                0 <= evy <= 16,
        ;
    }
    if evy >= 16 {
        assert((31 - c) * 16 <= k && c * 16 <= j) by (nonlinear_arith)
            requires
                k == (31 - c) * evy,
                j == c * evy,
                0 <= c < 32,
                16 <= evy,
        ;
    }
}

/// Brightening moves each part `evy` sixteenths of the way to white, and
/// darkening as far to black; from sixteen on they arrive.
pub proof fn law_fade(color: u16, evy: int, i: int)
    requires
        0 <= evy < 32,
        0 <= i < 3,
    ensures
        ({
            let c = part(color, i);
            let up = part(brightened(color, evy), i);
            let down = part(darkened(color, evy), i);
            &&& c <= up <= 31
            &&& 0 <= down <= c
            &&& evy <= 16 ==> 16 * (up - c) <= (31 - c) * evy < 16 * (up - c + 1)
            &&& evy >= 16 ==> up == 31
            &&& evy <= 16 ==> 16 * (c - down) <= c * evy < 16 * (c - down + 1)
            &&& evy >= 16 ==> down == 0
        }),
{
    lemma_faded_part(part(color, 0), evy);
    lemma_faded_part(part(color, 1), evy);
    lemma_faded_part(part(color, 2), evy);
    lemma_packed(
        crate::gba::ppu::brightened_part(part(color, 0), evy),
        crate::gba::ppu::brightened_part(part(color, 1), evy),
        crate::gba::ppu::brightened_part(part(color, 2), evy),
    );
    lemma_packed(
        crate::gba::ppu::darkened_part(part(color, 0), evy),
        crate::gba::ppu::darkened_part(part(color, 1), evy),
        crate::gba::ppu::darkened_part(part(color, 2), evy),
    );
}

/// The effect that BLDCNT selects goes to the layers that are first targets and to no other: none, a blend with the second
/// target below by BLDALPHA, or a fade by BLDY to white or to black.
#[verifier::rlimit(60)]
pub proof fn law_effect(bus: Bus, layer: u8, color: u16, second: Option<u16>)
    requires
        layer < 6,
    ensures
        ({
            let control = reg(bus, 0x50);
            let shown = with_effect(bus, Stack { top: Some((layer, color)), second });
            let below = match second {
                Some(c) => c,
                None => 0u16,
            };
            let evy = bus.io.regs[0x54] as int % 32;
            let target = has_bit(
                control,
                if layer == 0 {
                    1
                } else if layer == 1 {
                    2
                } else if layer == 2 {
                    4
                } else if layer == 3 {
                    8
                } else if layer == 4 {
                    16
                } else {
                    32
                },
            );
            shown == if !target || control / 0x400 % 4 == 0 {
                color
            } else if control / 0x400 % 4 == 1 {
                blended(color, below, bus.io.regs[0x52] as int % 32, bus.io.regs[0x53] as int % 32)
            } else if control / 0x400 % 4 == 2 {
                brightened(color, evy)
            } else {
                darkened(color, evy)
            }
        }),
{
    let regs = bus.io.regs;
    assert(half_at(regs, 0x50) == reg(bus, 0x50));
    assert(half_at(regs, 0x52) % 32 == regs[0x52] % 32 && half_at(regs, 0x52) / 256 == regs[0x53]);
    assert(half_at(regs, 0x54) % 32 == regs[0x54] % 32);
}

/// Whether layer `l` shows at a pixel and the windows let it through.
pub open spec fn seen(dots: spec_fn(int) -> Dot, mask: u16, l: int) -> bool {
    0 <= l < 5 && dots(l) is Some && has_layer(mask, l)
}

/// The place of a layer from the front: by priority, and within one the sprites
/// before background 3, that before background 2, and so on.
pub open spec fn depth(dots: spec_fn(int) -> Dot, l: int) -> int {
    5 * (dots(l)->0).1 + (if l == 4 {
        0
    } else {
        4 - l
    })
}

/// Whether, of the layers less than `k` deep, `s` has the frontmost that is seen
/// on top, and as second the frontmost of the others that is a second target.
pub open spec fn is_stack(
    dots: spec_fn(int) -> Dot,
    mask: u16,
    second_targets: u16,
    k: int,
    s: Stack,
) -> bool {
    match s.top {
        None => s.second is None && forall|l: int| #[trigger]
            seen(dots, mask, l) ==> depth(dots, l) >= k,
        Some((t, c)) => {
            &&& seen(dots, mask, t as int)
            &&& c == (dots(t as int)->0).0
            &&& depth(dots, t as int) < k
            &&& forall|l: int| #[trigger]
                seen(dots, mask, l) && l != t ==> depth(dots, l) > depth(dots, t as int)
            &&& match s.second {
                None => forall|l: int| #[trigger]
                    seen(dots, mask, l) && l != t && has_layer(second_targets, l) ==> depth(dots, l)
                        >= k,
                Some(below) => exists|b: int| #[trigger]
                    seen(dots, mask, b) && b != t && has_layer(second_targets, b) && below == (dots(
                        b,
                    )->0).0 && depth(dots, b) < k && forall|l: int| #[trigger]
                        seen(dots, mask, l) && l != t && l != b && has_layer(second_targets, l)
                            ==> depth(dots, l) > depth(dots, b),
            }
        },
    }
}

proof fn lemma_depth(dots: spec_fn(int) -> Dot, mask: u16, k: nat, layer: int)
    requires
        k < 20,
        layer == crate::gba::ppu::ORDER[k as int % 5],
    ensures
        0 <= layer < 5,
        seen(dots, mask, layer) && (dots(layer)->0).1 == k / 5 ==> depth(dots, layer) == k,
        forall|l: int| #[trigger]
            seen(dots, mask, l) && depth(dots, l) == k ==> l == layer && (dots(l)->0).1 == k / 5,
        forall|l: int, m: int|
            #![trigger seen(dots, mask, l), seen(dots, mask, m)]
            seen(dots, mask, l) && seen(dots, mask, m) && depth(dots, l) == depth(dots, m) ==> l
                == m,
{
    let i = k as int % 5;
    assert(i == 0 ==> layer == 4);
    assert(i > 0 ==> layer == 4 - i);
    assert(k == 5 * (k / 5) + i);
}

#[verifier::rlimit(60)]
proof fn lemma_stack(dots: spec_fn(int) -> Dot, mask: u16, second_targets: u16, k: nat)
    requires
        k <= 20,
    ensures
        is_stack(dots, mask, second_targets, k as int, crate::gba::ppu::stacked(
            dots,
            mask,
            second_targets,
            k,
        )),
    decreases k,
{
    if k > 0 {
        let j = (k - 1) as nat;
        lemma_stack(dots, mask, second_targets, j);
        let s = crate::gba::ppu::stacked(dots, mask, second_targets, j);
        let layer = crate::gba::ppu::ORDER[j as int % 5];
        lemma_depth(dots, mask, j, layer as int);
        let r = crate::gba::ppu::stacked(dots, mask, second_targets, k);
        let here = seen(dots, mask, layer as int) && (dots(layer as int)->0).1 == j / 5;
        if here {
            let color = (dots(layer as int)->0).0;
            assert(r == s.over(layer, color, has_layer(second_targets, layer as int)));
            lemma_over(dots, mask, second_targets, j as int, s, layer, color);
        } else {
            assert(r == s);
            lemma_passed(dots, mask, second_targets, j as int, s);
        }
    } else {
        assert forall|l: int| #[trigger] seen(dots, mask, l) implies depth(dots, l) >= 0 by {}
    }
}

/// A step at which no layer is.
proof fn lemma_passed(dots: spec_fn(int) -> Dot, mask: u16, second_targets: u16, j: int, s: Stack)
    requires
        is_stack(dots, mask, second_targets, j, s),
        forall|l: int| #[trigger] seen(dots, mask, l) ==> depth(dots, l) != j,
    ensures
        is_stack(dots, mask, second_targets, j + 1, s),
{
    if s.top is Some && s.second is Some {
        let t = (s.top->0).0 as int;
        let b = choose|b: int| #[trigger]
            seen(dots, mask, b) && b != t && has_layer(second_targets, b) && s.second->0 == (dots(
                b,
            )->0).0 && depth(dots, b) < j && forall|l: int| #[trigger]
                seen(dots, mask, l) && l != t && l != b && has_layer(second_targets, l) ==> depth(
                    dots,
                    l,
                ) > depth(dots, b);
        assert(seen(dots, mask, b));
    }
}

/// A step at which a layer is.
#[verifier::rlimit(60)]
proof fn lemma_over(
    dots: spec_fn(int) -> Dot,
    mask: u16,
    second_targets: u16,
    j: int,
    s: Stack,
    layer: u8,
    color: u16,
)
    requires
        is_stack(dots, mask, second_targets, j, s),
        seen(dots, mask, layer as int),
        depth(dots, layer as int) == j,
        color == (dots(layer as int)->0).0,
        forall|l: int| #[trigger]
            seen(dots, mask, l) && depth(dots, l) == j ==> l == layer,
    ensures
        is_stack(
            dots,
            mask,
            second_targets,
            j + 1,
            s.over(layer, color, has_layer(second_targets, layer as int)),
        ),
{
    if s.top is Some {
        let t = (s.top->0).0 as int;
        if s.second is Some {
            let b = choose|b: int| #[trigger]
                seen(dots, mask, b) && b != t && has_layer(second_targets, b) && s.second->0 == (
                dots(b)->0).0 && depth(dots, b) < j && forall|l: int| #[trigger]
                    seen(dots, mask, l) && l != t && l != b && has_layer(second_targets, l)
                        ==> depth(dots, l) > depth(dots, b);
            assert(seen(dots, mask, b));
        } else if has_layer(second_targets, layer as int) {
            let b = layer as int;
            assert(seen(dots, mask, b) && b != t);
        }
    }
}

/// Unless the display is blanked, which shows white, a pixel is the frontmost
/// layer that the windows let through, with the effect that goes to it; a blend
/// takes the frontmost second target behind it.
#[verifier::rlimit(60)]
pub proof fn law_pixel(bus: Bus, x: u32, y: u32)
    ensures
        has_bit(reg(bus, 0), 0x40) ==> pixel(bus, x, y) == 0x7FFF,
        !has_bit(reg(bus, 0), 0x40) ==> exists|s: Stack|
            is_stack(
                |layer: int| layer_dot(bus, layer, x, y),
                window_mask(bus, x, y),
                (bus.io.regs[0x51] % 64) as u16,
                20,
                s,
            ) && pixel(bus, x, y) == #[trigger] with_effect(bus, s),
{
    lemma_half_fields(dispcnt(bus));
    assert(dispcnt(bus) == reg(bus, 0));
    let second = (half_at(bus.io.regs, 0x50) / 256 % 64) as u16;
    assert(half_at(bus.io.regs, 0x50) / 256 == bus.io.regs[0x51]);
    let dots = |layer: int| layer_dot(bus, layer, x, y);
    lemma_stack(dots, window_mask(bus, x, y), second, 20);
    let s = crate::gba::ppu::stacked(dots, window_mask(bus, x, y), second, 20);
    assert(pixel(bus, x, y) == with_effect(bus, s) || has_bit(reg(bus, 0), 0x40));
}

/// The layers: the four backgrounds, and as the fifth the sprites, which DISPCNT
/// bit 12 enables.
pub proof fn law_layers(bus: Bus, layer: int, x: u32, y: u32)
    requires
        0 <= layer < 5,
    ensures
        layer_dot(bus, layer, x, y) == if layer < 4 {
            bg_dot(bus, layer, x, y)
        } else if has_bit(reg(bus, 0), 0x1000) {
            obj_dot(bus, 128, x, y)
        } else {
            None
        },
{
    lemma_half_fields(dispcnt(bus));
    assert(dispcnt(bus) == reg(bus, 0));
}

/// Drawing a line puts its 240 pixels into the picture, row by row.
pub proof fn law_line_drawn(picture: Seq<u16>, bus: Bus, x: u32, y: u32)
    requires
        picture.len() == 38_400,
        x < 240,
        y < 160,
    ensures
        drawn(picture, bus, y)[240 * y + x] == pixel(bus, x, y),
{
    assert((240 * y + x) / 240 == y && (240 * y + x) % 240 == x);
}

} // verus!

//! The pixel processing unit: mode timing, STAT interrupts and the scanline
//! renderer.

use crate::bits::{filled, put};
use crate::emu::state::{lemma_to_array, to_array};
use crate::gb::timer::IoRegs;
use vstd::prelude::*;

verus! {

pub const SCREEN_W: usize = 160;
pub const SCREEN_H: usize = 144;
/// Pixels of a frame.
pub const FRAME_PIXELS: usize = 23040;
/// Bytes of a full-colour frame.
pub const FRAME_RGB: usize = 69120;

/// Both VRAM banks.
pub type Vram = [u8; 0x4000];
/// The object attribute memory.
pub type Oam = [u8; 0xA0];

/// A sprite selected for the current line.
#[derive(Clone, Copy, PartialEq, Eq, Structural, Debug)]
pub struct Sprite {
    pub x: i16,
    pub y: u8,
    pub tile: u8,
    pub attr: u8,
    pub height: u8,
}

#[derive(Clone, Copy)]
pub struct Ppu {
    pub ly: u8,
    pub mode: u8,
    pub dot: u32,
    pub mode3_cycles: u32,
    pub prev_mode: u8,
    pub prev_coinc: bool,
    pub line_sprites: [Sprite; 10],
    pub line_sprite_count: usize,
    /// VBlank interrupts requested, modulo 2^64.
    pub vblank_interrupts: u64,
    pub frame_buffer: [u8; FRAME_PIXELS],
    /// True when rendering with CGB colour semantics (the loaded cartridge
    /// requests CGB mode). Monochrome games use DMG-mode-on-CGB instead.
    pub cgb: bool,
    /// Background palette RAM: 8 palettes of 4 colours of 2 bytes (RGB555).
    pub bg_pal: [u8; 64],
    /// Object palette RAM: 8 palettes of 4 colours of 2 bytes (RGB555).
    pub obj_pal: [u8; 64],
    /// Full-colour RGB888 framebuffer.
    pub rgb_buffer: [u8; FRAME_RGB],
}

/// One column of the background and window: colour index, shade, palette and
/// priority.
#[derive(Clone, Copy, PartialEq, Eq, Structural, Debug)]
pub struct Dot {
    pub color: u8,
    pub shade: u8,
    pub pal: u8,
    pub prio: u8,
}

/// The tile rows fetched so far on a line, by bank and tile number. A tile is
/// fetched once: whatever row of it a later column lies on, it shows the row
/// that was fetched.
pub type TileRows = [Option<[u8; 8]>; 512];

/// What a column of the background or window takes from its tile map: the
/// tile's number in [`TileRows`], its row and column, and its attributes.
#[derive(Clone, Copy, PartialEq, Eq, Structural, Debug)]
pub struct Cell {
    pub slot: usize,
    pub row: u8,
    pub col: usize,
    pub attr: u8,
}

/// The background and window of the line being drawn, column by column, and
/// the tile rows fetched for them.
#[derive(Clone, Copy)]
pub struct Line {
    pub color: [u8; SCREEN_W],
    pub shade: [u8; SCREEN_W],
    pub pal: [u8; SCREEN_W],
    pub prio: [u8; SCREEN_W],
    pub rows: TileRows,
}

impl Dot {
    pub open spec fn blank() -> Dot {
        Dot { color: 0, shade: 0, pal: 0, prio: 0 }
    }
}

impl Line {
    /// Column `px`.
    pub open spec fn at(self, px: int) -> Dot {
        Dot {
            color: self.color[px],
            shade: self.shade[px],
            pal: self.pal[px],
            prio: self.prio[px],
        }
    }

    fn new() -> (r: Line)
        ensures
            forall|px: int| 0 <= px < SCREEN_W ==> #[trigger] r.at(px) == Dot::blank(),
            r.rows == filled::<Option<[u8; 8]>, 512>(None),
    {
        Line {
            color: [0; SCREEN_W],
            shade: [0; SCREEN_W],
            pal: [0; SCREEN_W],
            prio: [0; SCREEN_W],
            rows: [None; 512],
        }
    }

    fn put(&mut self, px: usize, dot: Dot)
        requires
            px < SCREEN_W,
        ensures
            forall|k: int|
                0 <= k < SCREEN_W ==> #[trigger] final(self).at(k) == if k == px {
                    dot
                } else {
                    old(self).at(k)
                },
            final(self).rows == old(self).rows,
    {
        self.color[px] = dot.color;
        self.shade[px] = dot.shade;
        self.pal[px] = dot.pal;
        self.prio[px] = dot.prio;
    }
}

/// What shows where `top` lies over `below`.
pub open spec fn over(top: Option<(u8, u8)>, below: (u8, u8)) -> (u8, u8) {
    match top {
        Some(shown) => shown,
        None => below,
    }
}

/// Part `i` of a colour: red, green, blue.
pub open spec fn part(c: (u8, u8, u8), i: int) -> u8 {
    if i == 0 {
        c.0
    } else if i == 1 {
        c.1
    } else {
        c.2
    }
}

/// The two-bit colour of column `px` (0-7) in the tile row `lo`, `hi`.
pub open spec fn tile_color(lo: u8, hi: u8, px: u8) -> u8 {
    ((hi >> ((7 - px) as u8)) & 1) << 1 | ((lo >> ((7 - px) as u8)) & 1)
}

fn tile_color_at(lo: u8, hi: u8, px: u8) -> (r: u8)
    requires
        px < 8,
    ensures
        r == tile_color(lo, hi, px),
{
    let bit: u8 = 7 - px;
    ((hi >> bit) & 1) << 1 | ((lo >> bit) & 1)
}

/// The eight colours of the tile row `lo`, `hi`, left to right.
pub open spec fn tile_row_colors(lo: u8, hi: u8) -> [u8; 8] {
    [
        tile_color(lo, hi, 0),
        tile_color(lo, hi, 1),
        tile_color(lo, hi, 2),
        tile_color(lo, hi, 3),
        tile_color(lo, hi, 4),
        tile_color(lo, hi, 5),
        tile_color(lo, hi, 6),
        tile_color(lo, hi, 7),
    ]
}

fn decode_tile_row(lo: u8, hi: u8) -> (r: [u8; 8])
    ensures
        r == tile_row_colors(lo, hi),
{
    let r: [u8; 8] = [
        tile_color_at(lo, hi, 0),
        tile_color_at(lo, hi, 1),
        tile_color_at(lo, hi, 2),
        tile_color_at(lo, hi, 3),
        tile_color_at(lo, hi, 4),
        tile_color_at(lo, hi, 5),
        tile_color_at(lo, hi, 6),
        tile_color_at(lo, hi, 7),
    ];
    assert(r =~= tile_row_colors(lo, hi));
    r
}

/// The byte offset of a background tile: LCDC bit 4 counts from 0x8000,
/// otherwise the number is signed and counts from 0x9000.
pub open spec fn bg_tile_offset(lcdc: u8, tile: u8) -> int {
    if lcdc & 0x10 != 0 || tile >= 128 {
        tile * 16
    } else {
        0x1000 + tile * 16
    }
}

/// A colour register's shade for the colour index `color`.
pub open spec fn shade_of(palette: u8, color: u8) -> u8 {
    (palette >> ((color & 3) * 2) as u8) & 3
}

fn shade_for(palette: u8, color: u8) -> (r: u8)
    ensures
        r == shade_of(palette, color),
{
    broadcast use crate::bits::group_masks;

    (palette >> ((color & 3) * 2)) & 3
}

/// A five-bit channel widened to eight bits.
pub open spec fn widen5(c: int) -> u8 {
    ((c % 32) * 255 / 31) as u8
}

/// Insert `s` after every sprite that is not right of it.
pub open spec fn insert_by_x(sorted: Seq<Sprite>, s: Sprite) -> Seq<Sprite>
    decreases sorted.len(),
{
    if sorted.len() == 0 || sorted.last().x <= s.x {
        sorted.push(s)
    } else {
        insert_by_x(sorted.drop_last(), s).push(sorted.last())
    }
}

/// The sprites from left to right; equal positions keep their order.
pub open spec fn by_x(sprites: Seq<Sprite>) -> Seq<Sprite>
    decreases sprites.len(),
{
    if sprites.len() == 0 {
        sprites
    } else {
        insert_by_x(by_x(sprites.drop_last()), sprites.last())
    }
}

impl Ppu {
    /// What every PPU in use satisfies: rendering modes stay on visible lines,
    /// the dot stays within its line, and the line's sprites are at most ten.
    pub open spec fn wf(self) -> bool {
        &&& self.mode <= 3
        &&& self.mode != 1 ==> self.ly < 144
        &&& self.mode == 1 ==> self.ly < 154
        &&& self.line_sprite_count <= 10
        &&& self.mode3_cycles <= 232
        &&& self.dot < 456
    }

    pub open spec fn initial() -> Ppu {
        Ppu {
            ly: 0,
            mode: 0,
            dot: 0,
            mode3_cycles: 172,
            prev_mode: 0,
            prev_coinc: false,
            line_sprites: filled(Sprite { x: 0, y: 0, tile: 0, attr: 0, height: 8 }),
            line_sprite_count: 0,
            vblank_interrupts: 0,
            frame_buffer: filled(0),
            cgb: false,
            bg_pal: filled(0),
            obj_pal: filled(0),
            rgb_buffer: filled(0),
        }
    }

    pub fn new() -> (r: Ppu)
        ensures
            r == Ppu::initial(),
            r.wf(),
    {
        let none: Sprite = Sprite { x: 0, y: 0, tile: 0, attr: 0, height: 8 };
        Ppu {
            ly: 0,
            mode: 0,
            dot: 0,
            mode3_cycles: 172,
            prev_mode: 0,
            prev_coinc: false,
            line_sprites: [none; 10],
            line_sprite_count: 0,
            vblank_interrupts: 0,
            frame_buffer: [0; FRAME_PIXELS],
            cgb: false,
            bg_pal: [0; 64],
            obj_pal: [0; 64],
            rgb_buffer: [0; FRAME_RGB],
        }
    }

    /// Back to the first line, in HBlank.
    pub open spec fn after_reset(self, io: IoRegs) -> (Ppu, IoRegs) {
        (
            Ppu { ly: 0, mode: 0, dot: 0, prev_mode: 0, prev_coinc: false, ..self },
            put(io, 0x44, 0),
        )
    }

    pub fn reset(&mut self, io: &mut IoRegs)
        ensures
            (*final(self), *final(io)) == old(self).after_reset(*old(io)),
    {
        self.ly = 0;
        self.mode = 0;
        self.dot = 0;
        self.prev_mode = 0;
        self.prev_coinc = false;
        io[0x44] = 0;
    }

    /// What a palette register (0xFF68-0xFF6B) reads: the index registers give
    /// the index with the top bits set, the data registers the indexed byte.
    pub open spec fn pal_reg(self, addr: u16, io: IoRegs) -> u8 {
        if addr == 0xFF69 {
            self.bg_pal[(io[0x68] & 0x3F) as int]
        } else if addr == 0xFF6B {
            self.obj_pal[(io[0x6A] & 0x3F) as int]
        } else if addr == 0xFF68 {
            (io[0x68] & 0x3F) | 0x40 | 0x80
        } else if addr == 0xFF6A {
            (io[0x6A] & 0x3F) | 0x40 | 0x80
        } else {
            0u8 | 0x40 | 0x80
        }
    }

    /// Whether the state is sound; one restored from untrusted bytes may not be.
    pub fn is_valid(&self) -> (r: bool)
        ensures
            r == self.wf(),
    {
        self.mode <= 3 && (self.mode == 1 || self.ly < 144) && (self.mode != 1 || self.ly < 154)
            && self.line_sprite_count <= 10 && self.mode3_cycles <= 232 && self.dot < 456
    }

    /// Read a palette register (0xFF68-0xFF6B).
    pub fn read_pal_reg(&self, addr: u16, io: &IoRegs) -> (r: u8)
        ensures
            r == self.pal_reg(addr, *io),
    {
        broadcast use crate::bits::group_masks;

        let index: u8 = match addr {
            0xFF68 => io[0x68] & 0x3F,
            0xFF69 => {
                return self.bg_pal[(io[0x68] & 0x3F) as usize];
            },
            0xFF6A => io[0x6A] & 0x3F,
            0xFF6B => {
                return self.obj_pal[(io[0x6A] & 0x3F) as usize];
            },
            _ => 0,
        };
        index | 0x40 | 0x80
    }

    /// The index register `index` after a data write: bit 7 makes it advance
    /// within the 64 bytes.
    pub open spec fn next_index(index: u8) -> u8 {
        if index & 0x80 != 0 {
            0x80 | (((index & 0x3F) + 1) as u8 & 0x3F)
        } else {
            index
        }
    }

    /// Write the background palette byte that register 0xFF68 selects.
    pub fn write_bg_pal(&mut self, value: u8, io: &mut IoRegs)
        ensures
            *final(self) == (Ppu {
                bg_pal: put(old(self).bg_pal, (old(io)[0x68] & 0x3F) as int, value),
                ..*old(self)
            }),
            *final(io) == put(*old(io), 0x68, Ppu::next_index(old(io)[0x68])),
    {
        broadcast use crate::bits::group_masks;

        let i: u8 = io[0x68] & 0x3F;
        self.bg_pal[i as usize] = value;
        if io[0x68] & 0x80 != 0 {
            io[0x68] = 0x80 | ((i + 1) & 0x3F);
        }
        assert(*io =~= put(*old(io), 0x68, Ppu::next_index(old(io)[0x68])));
    }

    /// Write the object palette byte that register 0xFF6A selects.
    pub fn write_obj_pal(&mut self, value: u8, io: &mut IoRegs)
        ensures
            *final(self) == (Ppu {
                obj_pal: put(old(self).obj_pal, (old(io)[0x6A] & 0x3F) as int, value),
                ..*old(self)
            }),
            *final(io) == put(*old(io), 0x6A, Ppu::next_index(old(io)[0x6A])),
    {
        broadcast use crate::bits::group_masks;

        let i: u8 = io[0x6A] & 0x3F;
        self.obj_pal[i as usize] = value;
        if io[0x6A] & 0x80 != 0 {
            io[0x6A] = 0x80 | ((i + 1) & 0x3F);
        }
        assert(*io =~= put(*old(io), 0x6A, Ppu::next_index(old(io)[0x6A])));
    }

    /// The RGB555 word of a palette entry: palettes 0-7 are the background's,
    /// 8-15 the objects'.
    pub open spec fn rgb555(self, pal: u8, col: u8) -> int {
        let ram = if pal >= 8 {
            self.obj_pal
        } else {
            self.bg_pal
        };
        let i = (pal % 8) * 8 + (col % 4) * 2;
        (ram[i + 1] % 128) * 256 + ram[i]
    }

    /// A palette entry as RGB888.
    pub open spec fn rgb888(self, pal: u8, col: u8) -> (u8, u8, u8) {
        let c = self.rgb555(pal, col);
        (widen5(c), widen5(c / 32), widen5(c / 1024))
    }

    /// Decode a palette RAM entry into RGB888. `pal_idx` is 0-7 for the
    /// background palettes or 8-15 for the object palettes; `col` is the 2-bit
    /// colour index.
    pub fn palette_rgb(&self, pal_idx: u8, col: u8) -> (r: [u8; 3])
        ensures
            (r[0], r[1], r[2]) == self.rgb888(pal_idx, col),
    {
        let i: usize = (pal_idx % 8) as usize * 8 + (col % 4) as usize * 2;
        let (lo, hi): (u8, u8) = if pal_idx >= 8 {
            (self.obj_pal[i], self.obj_pal[i + 1])
        } else {
            (self.bg_pal[i], self.bg_pal[i + 1])
        };
        let c: u32 = (hi % 128) as u32 * 256 + lo as u32;
        let red: u32 = (c % 32) * 255 / 31;
        let green: u32 = ((c / 32) % 32) * 255 / 31;
        let blue: u32 = ((c / 1024) % 32) * 255 / 31;
        [red as u8, green as u8, blue as u8]
    }

    /// STAT after a change of mode or line: the mode and coincidence bits
    /// follow, and the interrupt fires on entering an enabled mode or on the
    /// rising edge of an enabled coincidence.
    pub open spec fn after_stat(self, io: IoRegs) -> (Ppu, IoRegs) {
        let stat = io[0x41];
        let coinc = self.ly == io[0x45];
        let bit: u8 = if self.mode == 2 {
            0x20
        } else if self.mode == 1 {
            0x10
        } else if self.mode == 0 {
            0x08
        } else {
            0
        };
        let entered = self.mode != self.prev_mode && bit != 0 && stat & bit != 0;
        let matched = coinc && !self.prev_coinc && stat & 0x40 != 0;
        let flags = if entered || matched {
            put(io, 0x0F, io[0x0F] | 0x02)
        } else {
            io
        };
        let base = (stat & 0xF8) | (self.mode & 0x03);
        (
            Ppu { prev_mode: self.mode, prev_coinc: coinc, ..self },
            put(
                flags,
                0x41,
                if coinc {
                    base | 0x04
                } else {
                    base & !0x04u8
                },
            ),
        )
    }

    fn update_stat(&mut self, io: &mut IoRegs)
        ensures
            (*final(self), *final(io)) == old(self).after_stat(*old(io)),
    {
        let stat: u8 = io[0x41];
        let coinc = self.ly == io[0x45];
        // Mode 2 -> OAM (0x20), mode 1 -> VBlank (0x10), mode 0 -> HBlank
        // (0x08). Mode 3 never fires.
        let bit: u8 = match self.mode {
            2 => 0x20,
            1 => 0x10,
            0 => 0x08,
            _ => 0,
        };
        let entered = self.mode != self.prev_mode && bit != 0 && stat & bit != 0;
        let matched = coinc && !self.prev_coinc && stat & 0x40 != 0;
        if entered || matched {
            io[0x0F] = io[0x0F] | 0x02;
        }
        self.prev_mode = self.mode;
        self.prev_coinc = coinc;
        let base: u8 = (stat & 0xF8) | (self.mode & 0x03);
        io[0x41] = if coinc {
            base | 0x04
        } else {
            base & !0x04u8
        };
    }

    /// LY shown in its register, and STAT with it.
    pub open spec fn after_set_ly(self, io: IoRegs) -> (Ppu, IoRegs) {
        self.after_stat(put(io, 0x44, self.ly))
    }

    fn set_ly(&mut self, io: &mut IoRegs)
        ensures
            (*final(self), *final(io)) == old(self).after_set_ly(*old(io)),
    {
        io[0x44] = self.ly;
        self.update_stat(io);
    }

    /// Whether OAM entry `i` is on the screen's columns and covers line `ly`.
    pub open spec fn covers(self, oam: Oam, i: int, height: u8) -> bool {
        let top = oam[i * 4] - 16;
        0 < oam[i * 4 + 1] <= 168 && top <= self.ly < top + height
    }

    /// The sprites chosen from the first `n` OAM entries, and how many.
    pub open spec fn scanned(self, oam: Oam, height: u8, n: nat) -> ([Sprite; 10], usize)
        decreases n,
    {
        if n == 0 {
            (self.line_sprites, 0)
        } else {
            let (sprites, count) = self.scanned(oam, height, (n - 1) as nat);
            let i = n - 1;
            if count < 10 && self.covers(oam, i, height) {
                (
                    put(
                        sprites,
                        count as int,
                        Sprite {
                            x: (oam[i * 4 + 1] - 8) as i16,
                            y: oam[i * 4],
                            tile: oam[i * 4 + 2],
                            attr: oam[i * 4 + 3],
                            height,
                        },
                    ),
                    (count + 1) as usize,
                )
            } else {
                (sprites, count)
            }
        }
    }

    /// The PPU after the OAM scan: the first ten sprites on the line, and the
    /// length of mode 3 they cause.
    pub open spec fn after_scan(self, io: IoRegs, oam: Oam) -> Ppu {
        let height = if io[0x40] & 0x04 != 0 {
            16u8
        } else {
            8u8
        };
        let (sprites, count) = self.scanned(oam, height, 40);
        Ppu {
            line_sprites: sprites,
            line_sprite_count: count,
            mode3_cycles: (172 + 6 * count) as u32,
            ..self
        }
    }

    fn scan_oam(&mut self, io: &IoRegs, oam: &Oam)
        ensures
            *final(self) == old(self).after_scan(*io, *oam),
            final(self).line_sprite_count <= 10,
    {
        let height: u8 = if io[0x40] & 0x04 != 0 {
            16
        } else {
            8
        };
        let mut count: usize = 0;
        let mut i: usize = 0;
        while i < 40
            invariant
                i <= 40,
                height <= 16,
                count <= 10,
                (self.line_sprites, count) == old(self).scanned(*oam, height, i as nat),
                *self == (Ppu { line_sprites: self.line_sprites, ..*old(self) }),
            decreases 40 - i,
        {
            let o: usize = i * 4;
            let sy: u8 = oam[o];
            let sx: u8 = oam[o + 1];
            let top: i16 = sy as i16 - 16;
            let ly: i16 = self.ly as i16;
            if count < 10 && 0 < sx && sx <= 168 && ly >= top && ly < top + height as i16 {
                self.line_sprites[count] = Sprite {
                    x: sx as i16 - 8,
                    y: sy,
                    tile: oam[o + 2],
                    attr: oam[o + 3],
                    height,
                };
                count = count + 1;
            }
            i = i + 1;
        }
        self.line_sprite_count = count;
        self.mode3_cycles = 172 + 6 * count as u32;
    }

    /// The start of a visible line: the OAM scan, in mode 2.
    pub open spec fn after_begin(self, io: IoRegs, oam: Oam) -> (Ppu, IoRegs) {
        Ppu { mode: 2, ..self.after_scan(io, oam) }.after_stat(io)
    }

    fn begin_scanline(&mut self, io: &mut IoRegs, oam: &Oam)
        ensures
            (*final(self), *final(io)) == old(self).after_begin(*old(io), *oam),
            final(self).line_sprite_count <= 10,
    {
        self.scan_oam(io, oam);
        self.mode = 2;
        self.update_stat(io);
    }

    /// The end of a visible line: the next line, or VBlank with its interrupt
    /// after the last.
    pub open spec fn after_end(self, io: IoRegs, oam: Oam) -> (Ppu, IoRegs) {
        let (p, regs) = Ppu {
            ly: vstd::wrapping::u8_specs::wrapping_add(self.ly, 1),
            ..self
        }.after_set_ly(io);
        if p.ly == 144 {
            let (p, regs) = Ppu { mode: 1, ..p }.after_stat(regs);
            (
                Ppu {
                    vblank_interrupts: vstd::wrapping::u64_specs::wrapping_add(
                        p.vblank_interrupts,
                        1,
                    ),
                    ..p
                },
                put(regs, 0x0F, regs[0x0F] | 0x01),
            )
        } else {
            p.after_begin(regs, oam)
        }
    }

    fn end_scanline(&mut self, io: &mut IoRegs, oam: &Oam)
        ensures
            (*final(self), *final(io)) == old(self).after_end(*old(io), *oam),
            old(self).line_sprite_count <= 10 ==> final(self).line_sprite_count <= 10,
    {
        self.ly = self.ly.wrapping_add(1);
        self.set_ly(io);
        if self.ly == 144 {
            self.mode = 1;
            self.update_stat(io);
            io[0x0F] = io[0x0F] | 0x01;
            self.vblank_interrupts = self.vblank_interrupts.wrapping_add(1);
        } else {
            self.begin_scanline(io, oam);
        }
    }

    /// The end of a VBlank line: after line 153 the next frame begins.
    pub open spec fn after_vblank_line(self, io: IoRegs, oam: Oam) -> (Ppu, IoRegs) {
        let (p, regs) = Ppu {
            ly: vstd::wrapping::u8_specs::wrapping_add(self.ly, 1),
            ..self
        }.after_set_ly(io);
        if p.ly == 154 {
            let (p, regs) = Ppu { ly: 0, ..p }.after_set_ly(regs);
            p.after_begin(regs, oam)
        } else {
            (p, regs)
        }
    }

    fn vblank_line(&mut self, io: &mut IoRegs, oam: &Oam)
        ensures
            (*final(self), *final(io)) == old(self).after_vblank_line(*old(io), *oam),
            old(self).line_sprite_count <= 10 ==> final(self).line_sprite_count <= 10,
    {
        self.ly = self.ly.wrapping_add(1);
        self.set_ly(io);
        if self.ly == 154 {
            self.ly = 0;
            self.set_ly(io);
            self.begin_scanline(io, oam);
        }
    }

    /// The colours of row `row` of background tile `tile` in VRAM bank `bank`.
    pub open spec fn bg_tile_row(vram: Vram, lcdc: u8, tile: u8, row: int, bank: int) -> [u8; 8] {
        let at = bg_tile_offset(lcdc, tile) + bank * 0x2000 + row * 2;
        tile_row_colors(vram[at], vram[at + 1])
    }

    /// Read a tile row from VRAM.
    pub fn tile_pixels(
        &self,
        vram: &Vram,
        io: &IoRegs,
        tile_index: u8,
        row: u8,
        bank: usize,
    ) -> (r: [u8; 8])
        requires
            row < 8,
            bank < 2,
        ensures
            r == Ppu::bg_tile_row(*vram, io[0x40], tile_index, row as int, bank as int),
    {
        let lcdc: u8 = io[0x40];
        let offset: usize = if lcdc & 0x10 != 0 || tile_index >= 128 {
            tile_index as usize * 16
        } else {
            0x1000 + tile_index as usize * 16
        };
        let at: usize = offset + bank * 0x2000 + row as usize * 2;
        decode_tile_row(vram[at], vram[at + 1])
    }

    /// The map cell attributes: bank 1 of VRAM on a CGB, none otherwise.
    pub open spec fn cell_attr(self, vram: Vram, cell: int) -> u8 {
        if self.cgb {
            vram[0x2000 + cell]
        } else {
            0
        }
    }

    /// What position (`x`, `y`) of the tile map at `map` holds.
    pub open spec fn map_cell(self, vram: Vram, map: int, x: int, y: int) -> Cell {
        let at = map + (y / 8 % 32) * 32 + x / 8 % 32;
        let attr = self.cell_attr(vram, at);
        Cell {
            slot: (attr as int / 8 % 2 * 256 + vram[at]) as usize,
            row: (if attr & 0x40 != 0 {
                7 - y % 8
            } else {
                y % 8
            }) as u8,
            col: (if attr & 0x20 != 0 {
                7 - x % 8
            } else {
                x % 8
            }) as usize,
            attr,
        }
    }

    fn read_cell(&self, vram: &Vram, map: usize, x: usize, y: usize) -> (r: Cell)
        requires
            map <= 0x1C00,
        ensures
            r == self.map_cell(*vram, map as int, x as int, y as int),
            r.slot < 512,
            r.row < 8,
            r.col < 8,
    {
        let at: usize = map + (y / 8 % 32) * 32 + x / 8 % 32;
        let attr: u8 = if self.cgb {
            vram[0x2000 + at]
        } else {
            0
        };
        Cell {
            slot: (attr / 8 % 2) as usize * 256 + vram[at] as usize,
            row: if attr & 0x40 != 0 {
                7 - (y % 8) as u8
            } else {
                (y % 8) as u8
            },
            col: if attr & 0x20 != 0 {
                7 - x % 8
            } else {
                x % 8
            },
            attr,
        }
    }

    /// Where LCDC bit `bit` puts a tile map.
    pub open spec fn map_at(io: IoRegs, bit: u8) -> int {
        if io[0x40] & bit != 0 {
            0x1C00
        } else {
            0x1800
        }
    }

    /// Column `i` of the window, or of the background.
    pub open spec fn cell(self, io: IoRegs, vram: Vram, window: bool, i: int) -> Cell {
        if window {
            self.map_cell(vram, Ppu::map_at(io, 0x20), i, self.ly - io[0x4A])
        } else {
            self.map_cell(vram, Ppu::map_at(io, 0x08), i + io[0x43], self.ly + io[0x42])
        }
    }

    /// The tile row that a cell asks for.
    pub open spec fn cell_row(io: IoRegs, vram: Vram, cell: Cell) -> [u8; 8] {
        Ppu::bg_tile_row(
            vram,
            io[0x40],
            (cell.slot % 256) as u8,
            cell.row as int,
            cell.slot as int / 256,
        )
    }

    /// The tile rows after the first `n` columns of the window, or of the
    /// background.
    pub open spec fn fetched(
        self,
        io: IoRegs,
        vram: Vram,
        window: bool,
        rows: TileRows,
        n: nat,
    ) -> TileRows
        decreases n,
    {
        if n == 0 {
            rows
        } else {
            let before = self.fetched(io, vram, window, rows, (n - 1) as nat);
            let cell = self.cell(io, vram, window, n - 1);
            if before[cell.slot as int] is Some {
                before
            } else {
                put(before, cell.slot as int, Some(Ppu::cell_row(io, vram, cell)))
            }
        }
    }

    /// What a cell shows where `pixels` are the row of its tile.
    pub open spec fn cell_dot(self, io: IoRegs, cell: Cell, pixels: [u8; 8]) -> Dot {
        let color = pixels[cell.col as int];
        Dot {
            color,
            shade: if self.cgb {
                color
            } else {
                shade_of(io[0x47], color)
            },
            pal: cell.attr % 8,
            prio: cell.attr / 128,
        }
    }

    /// Column `i` of the window, or of the background, drawn with `rows`
    /// fetched before it.
    pub open spec fn drawn_dot(
        self,
        io: IoRegs,
        vram: Vram,
        window: bool,
        rows: TileRows,
        i: int,
    ) -> Dot {
        let cell = self.cell(io, vram, window, i);
        let now = self.fetched(io, vram, window, rows, (i + 1) as nat);
        self.cell_dot(io, cell, now[cell.slot as int]->0)
    }

    /// Draw a cell, fetching its tile row where there is none.
    fn plot(&self, io: &IoRegs, vram: &Vram, rows: &mut TileRows, cell: Cell) -> (r: Dot)
        requires
            cell.slot < 512,
            cell.row < 8,
            cell.col < 8,
        ensures
            *final(rows) == if old(rows)[cell.slot as int] is Some {
                *old(rows)
            } else {
                put(*old(rows), cell.slot as int, Some(Ppu::cell_row(*io, *vram, cell)))
            },
            r == self.cell_dot(*io, cell, final(rows)[cell.slot as int]->0),
    {
        let pixels: [u8; 8] = match rows[cell.slot] {
            Some(p) => p,
            None => {
                let p: [u8; 8] = self.tile_pixels(
                    vram,
                    io,
                    (cell.slot % 256) as u8,
                    cell.row,
                    cell.slot / 256,
                );
                rows[cell.slot] = Some(p);
                p
            },
        };
        let color: u8 = pixels[cell.col];
        let shade: u8 = if self.cgb {
            color
        } else {
            shade_for(io[0x47], color)
        };
        Dot { color, shade, pal: cell.attr % 8, prio: cell.attr / 128 }
    }

    /// Draw the background.
    pub fn render_bg(&self, io: &IoRegs, vram: &Vram, line: &mut Line)
        ensures
            forall|px: int|
                0 <= px < SCREEN_W ==> #[trigger] final(line).at(px) == self.drawn_dot(
                    *io,
                    *vram,
                    false,
                    old(line).rows,
                    px,
                ),
            final(line).rows == self.fetched(*io, *vram, false, old(line).rows, SCREEN_W as nat),
    {
        let map: usize = if io[0x40] & 0x08 != 0 {
            0x1C00
        } else {
            0x1800
        };
        let y: usize = self.ly as usize + io[0x42] as usize;
        let mut px: usize = 0;
        while px < SCREEN_W
            invariant
                px <= SCREEN_W,
                map == Ppu::map_at(*io, 0x08),
                map <= 0x1C00,
                y == self.ly + io[0x42],
                line.rows == self.fetched(*io, *vram, false, old(line).rows, px as nat),
                forall|k: int|
                    0 <= k < px ==> #[trigger] line.at(k) == self.drawn_dot(
                        *io,
                        *vram,
                        false,
                        old(line).rows,
                        k,
                    ),
            decreases SCREEN_W - px,
        {
            let cell: Cell = self.read_cell(vram, map, px + io[0x43] as usize, y);
            let ghost before = *line;
            let mut rows: TileRows = line.rows;
            let dot: Dot = self.plot(io, vram, &mut rows, cell);
            assert(dot == self.drawn_dot(*io, *vram, false, old(line).rows, px as int));
            line.rows = rows;
            assert forall|k: int| 0 <= k < SCREEN_W implies #[trigger] line.at(k) == before.at(
                k,
            ) by {}
            line.put(px, dot);
            px = px + 1;
        }
    }

    /// The leftmost screen column the window covers.
    pub open spec fn window_left(io: IoRegs) -> int {
        if io[0x4B] >= 7 {
            io[0x4B] - 7
        } else {
            0
        }
    }

    /// Whether the window covers column `px`: it is drawn from line WY and
    /// column WX - 7 on.
    pub open spec fn window_covers(self, io: IoRegs, px: int) -> bool {
        self.ly >= io[0x4A] && px >= Ppu::window_left(io)
    }

    /// Draw the window over the background.
    pub fn render_window(&self, io: &IoRegs, vram: &Vram, line: &mut Line)
        ensures
            forall|px: int|
                0 <= px < SCREEN_W ==> #[trigger] final(line).at(px) == if self.window_covers(
                    *io,
                    px,
                ) {
                    self.drawn_dot(
                        *io,
                        *vram,
                        true,
                        old(line).rows,
                        px - Ppu::window_left(*io),
                    )
                } else {
                    old(line).at(px)
                },
            final(line).rows == if self.window_covers(*io, 159) {
                self.fetched(
                    *io,
                    *vram,
                    true,
                    old(line).rows,
                    (SCREEN_W - Ppu::window_left(*io)) as nat,
                )
            } else {
                old(line).rows
            },
    {
        if self.ly < io[0x4A] {
            return;
        }
        let first: usize = if io[0x4B] >= 7 {
            io[0x4B] as usize - 7
        } else {
            0
        };
        if first > 159 {
            return;
        }
        let map: usize = if io[0x40] & 0x20 != 0 {
            0x1C00
        } else {
            0x1800
        };
        let y: usize = self.ly as usize - io[0x4A] as usize;
        let mut px: usize = first;
        while px < SCREEN_W
            invariant
                first <= px <= SCREEN_W,
                first == Ppu::window_left(*io),
                self.ly >= io[0x4A],
                map == Ppu::map_at(*io, 0x20),
                map <= 0x1C00,
                y == self.ly - io[0x4A],
                line.rows == self.fetched(*io, *vram, true, old(line).rows, (px - first) as nat),
                forall|k: int|
                    0 <= k < SCREEN_W ==> #[trigger] line.at(k) == if first <= k < px {
                        self.drawn_dot(*io, *vram, true, old(line).rows, k - first)
                    } else {
                        old(line).at(k)
                    },
            decreases SCREEN_W - px,
        {
            let cell: Cell = self.read_cell(vram, map, px - first, y);
            let ghost before = *line;
            let mut rows: TileRows = line.rows;
            let dot: Dot = self.plot(io, vram, &mut rows, cell);
            assert(dot == self.drawn_dot(*io, *vram, true, old(line).rows, px - first));
            line.rows = rows;
            assert forall|k: int| 0 <= k < SCREEN_W implies #[trigger] line.at(k) == before.at(
                k,
            ) by {}
            line.put(px, dot);
            px = px + 1;
        }
    }

    /// The row of the sprite that lies on the current line.
    pub open spec fn sprite_row(self, s: Sprite) -> int {
        self.ly - (s.y - 16)
    }

    /// The tile number of the half of sprite `s` that lies on the line.
    pub open spec fn sprite_tile(self, s: Sprite) -> u8 {
        let row = self.sprite_row(s);
        let second = if s.attr & 0x40 != 0 {
            row < 8
        } else {
            row >= 8
        };
        if s.height == 16 && second {
            ((s.tile & 0xFE) + 1) as u8
        } else {
            s.tile
        }
    }

    /// The colours of sprite `s` on the current line, unflipped. Sprite tiles
    /// always count from 0x8000.
    pub open spec fn sprite_pixels(self, vram: Vram, s: Sprite) -> [u8; 8] {
        let row = self.sprite_row(s) % 8;
        let row = if s.attr & 0x40 != 0 {
            7 - row
        } else {
            row
        };
        let bank = if self.cgb {
            (s.attr / 8) % 2
        } else {
            0
        };
        let at = self.sprite_tile(s) * 16 + bank * 0x2000 + row * 2;
        tile_row_colors(vram[at], vram[at + 1])
    }

    /// The palette sprite `s` is drawn with: 8-15 on a CGB, one of the two
    /// monochrome palettes otherwise.
    pub open spec fn sprite_pal(self, s: Sprite) -> u8 {
        if self.cgb {
            (8 + s.attr % 8) as u8
        } else if s.attr & 0x10 != 0 {
            9
        } else {
            8
        }
    }

    /// Whether the background column `dot` hides sprite `s`.
    pub open spec fn sprite_hidden(self, io: IoRegs, dot: Dot, s: Sprite) -> bool {
        if self.cgb {
            dot.prio != 0 && dot.color != 0
        } else {
            io[0x40] & 0x01 != 0 && s.attr & 0x80 != 0 && dot.color != 0
        }
    }

    /// The shade and palette that sprite `s` shows at column `px`, over the
    /// background column `dot`.
    pub open spec fn sprite_dot(self, io: IoRegs, vram: Vram, dot: Dot, s: Sprite, px: int) -> Option<
        (u8, u8),
    > {
        let p = px - s.x;
        let color = self.sprite_pixels(vram, s)[if s.attr & 0x20 != 0 {
            7 - p
        } else {
            p
        }];
        let obp = if s.attr & 0x10 != 0 {
            io[0x49]
        } else {
            io[0x48]
        };
        if 0 <= p < 8 && color != 0 && !self.sprite_hidden(io, dot, s) {
            Some(
                (
                    if self.cgb {
                        color
                    } else {
                        shade_of(obp, color)
                    },
                    self.sprite_pal(s),
                ),
            )
        } else {
            None
        }
    }

    /// What the first of `sprites` that shows at column `px` shows there.
    pub open spec fn top_sprite(
        self,
        io: IoRegs,
        vram: Vram,
        dot: Dot,
        sprites: Seq<Sprite>,
        px: int,
    ) -> Option<(u8, u8)>
        decreases sprites.len(),
    {
        if sprites.len() == 0 {
            None
        } else {
            match self.sprite_dot(io, vram, dot, sprites[0], px) {
                Some(shown) => Some(shown),
                None => self.top_sprite(io, vram, dot, sprites.skip(1), px),
            }
        }
    }

    fn draw_sprite(
        &self,
        io: &IoRegs,
        vram: &Vram,
        line: &Line,
        shade: &mut [u8; SCREEN_W],
        pal: &mut [u8; SCREEN_W],
        s: Sprite,
    )
        ensures
            forall|px: int|
                0 <= px < SCREEN_W ==> (#[trigger] final(shade)[px], final(pal)[px]) == over(
                    self.sprite_dot(*io, *vram, line.at(px), s, px),
                    (old(shade)[px], old(pal)[px]),
                ),
    {
        broadcast use crate::bits::group_masks;

        let flip_x = s.attr & 0x20 != 0;
        let flip_y = s.attr & 0x40 != 0;
        let pal_num: u8 = if self.cgb {
            8 + s.attr % 8
        } else if s.attr & 0x10 != 0 {
            9
        } else {
            8
        };
        // The row is biased by 256 to stay positive.
        let row: u32 = self.ly as u32 + 272 - s.y as u32;
        let second = if flip_y {
            row < 264
        } else {
            row >= 264
        };
        let tile: u8 = if s.height == 16 && second {
            (s.tile & 0xFE) + 1
        } else {
            s.tile
        };
        let tile_row: usize = if flip_y {
            7 - (row % 8) as usize
        } else {
            (row % 8) as usize
        };
        let bank: usize = if self.cgb {
            ((s.attr / 8) % 2) as usize
        } else {
            0
        };
        let at: usize = tile as usize * 16 + bank * 0x2000 + tile_row * 2;
        let pixels: [u8; 8] = decode_tile_row(vram[at], vram[at + 1]);
        assert(pixels == self.sprite_pixels(*vram, s));
        let obp: u8 = if s.attr & 0x10 != 0 {
            io[0x49]
        } else {
            io[0x48]
        };
        let mut p: usize = 0;
        while p < 8
            invariant
                p <= 8,
                flip_x == (s.attr & 0x20 != 0),
                pal_num == self.sprite_pal(s),
                pixels == self.sprite_pixels(*vram, s),
                obp == if s.attr & 0x10 != 0 {
                    io[0x49]
                } else {
                    io[0x48]
                },
                forall|px: int|
                    0 <= px < SCREEN_W ==> (#[trigger] shade[px], pal[px]) == if px < s.x + p {
                        over(
                            self.sprite_dot(*io, *vram, line.at(px), s, px),
                            (old(shade)[px], old(pal)[px]),
                        )
                    } else {
                        (old(shade)[px], old(pal)[px])
                    },
            decreases 8 - p,
        {
            let px: i32 = s.x as i32 + p as i32;
            let col: usize = if flip_x {
                7 - p
            } else {
                p
            };
            let color: u8 = pixels[col];
            if px >= 0 && px < 160 && color != 0 {
                let at: usize = px as usize;
                let hidden = if self.cgb {
                    line.prio[at] != 0 && line.color[at] != 0
                } else {
                    io[0x40] & 0x01 != 0 && s.attr & 0x80 != 0 && line.color[at] != 0
                };
                if !hidden {
                    shade[at] = if self.cgb {
                        color
                    } else {
                        shade_for(obp, color)
                    };
                    pal[at] = pal_num;
                }
            }
            p = p + 1;
        }
    }

    /// The line's sprites from left to right.
    pub open spec fn sorted_sprites(self) -> Seq<Sprite> {
        by_x(self.line_sprites@.take(self.line_sprite_count as int))
    }

    /// Sort the line's sprites by position; equal positions keep OAM order.
    fn sort_sprites(&self) -> (r: Vec<Sprite>)
        requires
            self.line_sprite_count <= 10,
        ensures
            r@ == self.sorted_sprites(),
            r@.len() == self.line_sprite_count,
    {
        let mut sorted: Vec<Sprite> = Vec::new();
        let mut i: usize = 0;
        while i < self.line_sprite_count
            invariant
                i <= self.line_sprite_count <= 10,
                sorted@ == by_x(self.line_sprites@.take(i as int)),
                sorted@.len() == i,
            decreases self.line_sprite_count - i,
        {
            let s: Sprite = self.line_sprites[i];
            let ghost before = sorted@;
            let mut at: usize = sorted.len();
            proof {
                assert(before.take(at as int) =~= before);
                assert(before.skip(at as int) =~= Seq::empty());
                assert(insert_by_x(before, s) + Seq::<Sprite>::empty() =~= insert_by_x(before, s));
            }
            while at > 0 && sorted[at - 1].x > s.x
                invariant
                    at <= sorted@.len(),
                    sorted@ == before,
                    insert_by_x(before, s) == insert_by_x(before.take(at as int), s)
                        + before.skip(at as int),
                decreases at,
            {
                proof {
                    let t = before.take(at as int);
                    assert(t.last() == before[at - 1]);
                    assert(t.drop_last() =~= before.take(at - 1));
                    assert(insert_by_x(t.drop_last(), s).push(t.last()) + before.skip(at as int)
                        =~= insert_by_x(before.take(at - 1), s) + before.skip(at - 1));
                }
                at = at - 1;
            }
            sorted.insert(at, s);
            proof {
                let t = before.take(at as int);
                assert(at > 0 ==> t.last() == before[at - 1]);
                assert(insert_by_x(t, s) == t.push(s));
                assert(sorted@ =~= t.push(s) + before.skip(at as int));
                let taken = self.line_sprites@.take(i + 1);
                assert(taken.drop_last() =~= self.line_sprites@.take(i as int));
                assert(taken.last() == s);
            }
            i = i + 1;
        }
        sorted
    }

    /// Draw the line's sprites over the background.
    pub fn render_sprites(
        &self,
        io: &IoRegs,
        vram: &Vram,
        line: &Line,
        shade: &mut [u8; SCREEN_W],
        pal: &mut [u8; SCREEN_W],
    )
        requires
            self.line_sprite_count <= 10,
        ensures
            forall|px: int|
                0 <= px < SCREEN_W ==> (#[trigger] final(shade)[px], final(pal)[px]) == over(
                    self.top_sprite(*io, *vram, line.at(px), self.sorted_sprites(), px),
                    (old(shade)[px], old(pal)[px]),
                ),
    {
        let sprites: Vec<Sprite> = self.sort_sprites();
        let mut n: usize = sprites.len();
        assert(sprites@.skip(n as int) =~= Seq::empty());
        while n > 0
            invariant
                n <= sprites@.len(),
                forall|px: int|
                    0 <= px < SCREEN_W ==> (#[trigger] shade[px], pal[px]) == over(
                        self.top_sprite(*io, *vram, line.at(px), sprites@.skip(n as int), px),
                        (old(shade)[px], old(pal)[px]),
                    ),
            decreases n,
        {
            n = n - 1;
            self.draw_sprite(io, vram, line, shade, pal, sprites[n]);
            assert(sprites@.skip(n as int)[0] == sprites@[n as int]);
            assert(sprites@.skip(n as int).skip(1) =~= sprites@.skip(n + 1));
        }
        assert(sprites@.skip(0) =~= sprites@);
    }

    /// The tile rows that the background, if enabled, has fetched.
    pub open spec fn bg_rows(self, io: IoRegs, vram: Vram) -> TileRows {
        if io[0x40] & 0x01 != 0 {
            self.fetched(io, vram, false, filled(None), SCREEN_W as nat)
        } else {
            filled(None)
        }
    }

    /// The background and window at column `px`, as LCDC enables them. The
    /// window shares the tile rows that the background fetched.
    #[verifier::opaque]
    pub open spec fn layer_dot(self, io: IoRegs, vram: Vram, px: int) -> Dot {
        if io[0x40] & 0x40 != 0 && self.window_covers(io, px) {
            self.drawn_dot(io, vram, true, self.bg_rows(io, vram), px - Ppu::window_left(io))
        } else if io[0x40] & 0x01 != 0 {
            self.drawn_dot(io, vram, false, filled(None), px)
        } else {
            Dot::blank()
        }
    }

    /// The shade and palette of column `px`, sprites included.
    pub open spec fn column(self, io: IoRegs, vram: Vram, px: int) -> (u8, u8) {
        let dot = self.layer_dot(io, vram, px);
        if io[0x40] & 0x02 != 0 {
            over(
                self.top_sprite(io, vram, dot, self.sorted_sprites(), px),
                (dot.shade, dot.pal),
            )
        } else {
            (dot.shade, dot.pal)
        }
    }

    /// Shade `at` of the frame after the current line was drawn.
    pub open spec fn drawn_shade(self, io: IoRegs, vram: Vram, at: int) -> u8 {
        if at / 160 == self.ly {
            self.column(io, vram, at % 160).0
        } else {
            self.frame_buffer[at]
        }
    }

    /// Byte `k` of the full-colour frame after the current line was drawn.
    pub open spec fn drawn_byte(self, io: IoRegs, vram: Vram, k: int) -> u8 {
        if k / 480 == self.ly {
            let (shade, pal) = self.column(io, vram, k / 3 % 160);
            part(self.rgb888(pal, shade), k % 3)
        } else {
            self.rgb_buffer[k]
        }
    }

    /// The frame in shades after the current line was drawn.
    #[verifier::opaque]
    pub open spec fn drawn_frame(self, io: IoRegs, vram: Vram) -> [u8; FRAME_PIXELS] {
        to_array(Seq::new(FRAME_PIXELS as nat, |at: int| self.drawn_shade(io, vram, at)))
    }

    /// The frame in full colour after the current line was drawn.
    #[verifier::opaque]
    pub open spec fn drawn_rgb(self, io: IoRegs, vram: Vram) -> [u8; FRAME_RGB] {
        to_array(Seq::new(FRAME_RGB as nat, |k: int| self.drawn_byte(io, vram, k)))
    }

    /// The PPU with the current line drawn into its framebuffers.
    pub open spec fn after_render(self, io: IoRegs, vram: Vram) -> Ppu {
        Ppu {
            frame_buffer: self.drawn_frame(io, vram),
            rgb_buffer: self.drawn_rgb(io, vram),
            ..self
        }
    }

    /// The shades and palettes of the current line.
    fn draw_line(&self, io: &IoRegs, vram: &Vram) -> (r: ([u8; SCREEN_W], [u8; SCREEN_W]))
        requires
            self.line_sprite_count <= 10,
        ensures
            forall|px: int|
                0 <= px < SCREEN_W ==> (#[trigger] r.0[px], r.1[px]) == self.column(*io, *vram, px),
    {
        let lcdc: u8 = io[0x40];
        let mut line = Line::new();
        if lcdc & 0x01 != 0 {
            self.render_bg(io, vram, &mut line);
        }
        if lcdc & 0x40 != 0 {
            self.render_window(io, vram, &mut line);
        }
        assert forall|px: int| 0 <= px < SCREEN_W implies #[trigger] line.at(px) == self.layer_dot(
            *io,
            *vram,
            px,
        ) by {
            reveal(Ppu::layer_dot);
        }
        let mut shade: [u8; SCREEN_W] = line.shade;
        let mut pal: [u8; SCREEN_W] = line.pal;
        if lcdc & 0x02 != 0 {
            self.render_sprites(io, vram, &line, &mut shade, &mut pal);
        }
        assert forall|px: int| 0 <= px < SCREEN_W implies (#[trigger] shade[px], pal[px])
            == self.column(*io, *vram, px) by {
            assert(line.at(px) == self.layer_dot(*io, *vram, px));
            assert(line.at(px).shade == line.shade[px] && line.at(px).pal == line.pal[px]);
        }
        (shade, pal)
    }

    /// Render the current line.
    pub fn render_line(&mut self, io: &IoRegs, vram: &Vram)
        requires
            old(self).ly < 144,
            old(self).line_sprite_count <= 10,
        ensures
            *final(self) == old(self).after_render(*io, *vram),
    {
        let (shade, pal): ([u8; SCREEN_W], [u8; SCREEN_W]) = self.draw_line(io, vram);
        let row: usize = self.ly as usize * SCREEN_W;
        let mut px: usize = 0;
        while px < SCREEN_W
            invariant
                px <= SCREEN_W,
                self.ly < 144,
                row == self.ly * SCREEN_W,
                *self == (Ppu {
                    frame_buffer: self.frame_buffer,
                    rgb_buffer: self.rgb_buffer,
                    ..*old(self)
                }),
                forall|k: int|
                    0 <= k < SCREEN_W ==> (#[trigger] shade[k], pal[k]) == old(self).column(
                        *io,
                        *vram,
                        k,
                    ),
                forall|at: int|
                    0 <= at < FRAME_PIXELS ==> #[trigger] self.frame_buffer[at] == if row <= at
                        < row + px {
                        shade[at - row]
                    } else {
                        old(self).frame_buffer[at]
                    },
                forall|k: int|
                    0 <= k < FRAME_RGB ==> #[trigger] self.rgb_buffer[k] == if row * 3 <= k < row
                        * 3 + px * 3 {
                        part(old(self).rgb888(pal[k / 3 - row], shade[k / 3 - row]), k % 3)
                    } else {
                        old(self).rgb_buffer[k]
                    },
            decreases SCREEN_W - px,
        {
            self.frame_buffer[row + px] = shade[px];
            let c: [u8; 3] = self.palette_rgb(pal[px], shade[px]);
            let o: usize = (row + px) * 3;
            self.rgb_buffer[o] = c[0];
            self.rgb_buffer[o + 1] = c[1];
            self.rgb_buffer[o + 2] = c[2];
            px = px + 1;
        }
        proof {
            old(self).lemma_frame(*io, *vram, shade, pal, self.frame_buffer);
            old(self).lemma_rgb(*io, *vram, shade, pal, self.rgb_buffer);
        }
    }

    proof fn lemma_frame(
        self,
        io: IoRegs,
        vram: Vram,
        shade: [u8; SCREEN_W],
        pal: [u8; SCREEN_W],
        frame: [u8; FRAME_PIXELS],
    )
        requires
            self.ly < 144,
            forall|k: int|
                0 <= k < SCREEN_W ==> (#[trigger] shade[k], pal[k]) == self.column(io, vram, k),
            forall|at: int|
                0 <= at < FRAME_PIXELS ==> #[trigger] frame[at] == if self.ly * 160 <= at < self.ly
                    * 160 + 160 {
                    shade[at - self.ly * 160]
                } else {
                    self.frame_buffer[at]
                },
        ensures
            frame == self.drawn_frame(io, vram),
    {
        reveal(Ppu::drawn_frame);
        let all = Seq::new(FRAME_PIXELS as nat, |at: int| self.drawn_shade(io, vram, at));
        assert forall|at: int| 0 <= at < FRAME_PIXELS implies #[trigger] frame@[at] == all[at] by {
            assert(frame[at] == frame@[at]);
            assert((at / 160 == self.ly) == (self.ly * 160 <= at < self.ly * 160 + 160));
            if at / 160 == self.ly {
                let k = at % 160;
                assert(k == at - self.ly * 160);
                assert((shade[k], pal[k]) == self.column(io, vram, k));
            }
        }
        assert(frame@ =~= all);
        lemma_to_array(frame);
    }

    proof fn lemma_rgb(
        self,
        io: IoRegs,
        vram: Vram,
        shade: [u8; SCREEN_W],
        pal: [u8; SCREEN_W],
        rgb: [u8; FRAME_RGB],
    )
        requires
            self.ly < 144,
            forall|k: int|
                0 <= k < SCREEN_W ==> (#[trigger] shade[k], pal[k]) == self.column(io, vram, k),
            forall|k: int|
                0 <= k < FRAME_RGB ==> #[trigger] rgb[k] == if self.ly * 480 <= k < self.ly * 480
                    + 480 {
                    part(
                        self.rgb888(pal[k / 3 - self.ly * 160], shade[k / 3 - self.ly * 160]),
                        k % 3,
                    )
                } else {
                    self.rgb_buffer[k]
                },
        ensures
            rgb == self.drawn_rgb(io, vram),
    {
        reveal(Ppu::drawn_rgb);
        let all = Seq::new(FRAME_RGB as nat, |k: int| self.drawn_byte(io, vram, k));
        assert forall|k: int| 0 <= k < FRAME_RGB implies #[trigger] rgb@[k] == all[k] by {
            assert(rgb[k] == rgb@[k]);
            assert((k / 480 == self.ly) == (self.ly * 480 <= k < self.ly * 480 + 480));
            if k / 480 == self.ly {
                let c = k / 3 % 160;
                assert(k / 3 - self.ly * 160 == c);
                assert((shade[c], pal[c]) == self.column(io, vram, c));
            }
        }
        assert(rgb@ =~= all);
        lemma_to_array(rgb);
    }

    /// How far the current line still has to go through its modes.
    pub open spec fn phase(self) -> nat {
        if self.mode == 2 {
            2
        } else if self.mode == 3 {
            1
        } else {
            0
        }
    }

    /// Whether the dot has reached the end of the current mode: mode 2 ends at
    /// dot 80, mode 3 `mode3_cycles` later, HBlank and a VBlank line at 456.
    pub open spec fn due(self) -> bool {
        ||| self.mode <= 1 && self.dot >= 456
        ||| self.mode == 2 && self.dot >= 80
        ||| self.mode == 3 && self.dot >= 80 + self.mode3_cycles
    }

    /// The change of mode that is due.
    #[verifier::opaque]
    pub open spec fn after_mode(self, io: IoRegs, vram: Vram, oam: Oam) -> (Ppu, IoRegs) {
        if self.mode == 0 {
            Ppu { dot: (self.dot - 456) as u32, ..self }.after_end(io, oam)
        } else if self.mode == 1 {
            Ppu { dot: (self.dot - 456) as u32, ..self }.after_vblank_line(io, oam)
        } else if self.mode == 2 {
            Ppu { mode: 3, ..self }.after_stat(io)
        } else {
            Ppu { mode: 0, ..self.after_render(io, vram) }.after_stat(io)
        }
    }

    /// Every change of mode that is due, in turn.
    pub open spec fn run(self, io: IoRegs, vram: Vram, oam: Oam) -> (Ppu, IoRegs)
        decreases self.dot, self.phase(),
        via Self::run_decreases
    {
        if self.due() {
            let (p, regs) = self.after_mode(io, vram, oam);
            p.run(regs, vram, oam)
        } else {
            (self, io)
        }
    }

    #[via_fn]
    proof fn run_decreases(self, io: IoRegs, vram: Vram, oam: Oam) {
        reveal(Ppu::after_mode);
    }

    /// The PPU and the registers `cycles` dots on. With the LCD off it rests
    /// at the top of the frame.
    #[verifier::opaque]
    pub open spec fn after_step(self, io: IoRegs, vram: Vram, oam: Oam, cycles: u32) -> (
        Ppu,
        IoRegs,
    ) {
        if io[0x40] & 0x80 == 0 {
            if self.ly != 0 || self.mode != 0 {
                self.after_reset(io)
            } else {
                (self, io)
            }
        } else {
            Ppu { dot: (self.dot + cycles) as u32, ..self }.run(io, vram, oam)
        }
    }

    /// Carry out the change of mode that is due.
    fn change_mode(&mut self, io: &mut IoRegs, vram: &Vram, oam: &Oam)
        requires
            old(self).due(),
            old(self).wf() || old(self).dot >= 456,
            old(self).mode <= 3,
            old(self).mode != 1 ==> old(self).ly < 144,
            old(self).mode == 1 ==> old(self).ly < 154,
            old(self).line_sprite_count <= 10,
            old(self).mode3_cycles <= 232,
        ensures
            (*final(self), *final(io)) == old(self).after_mode(*old(io), *vram, *oam),
            final(self).line_sprite_count <= 10,
            final(self).mode <= 3,
            final(self).mode != 1 ==> final(self).ly < 144,
            final(self).mode == 1 ==> final(self).ly < 154,
            final(self).mode3_cycles <= 232,
            final(self).dot < old(self).dot || final(self).dot == old(self).dot
                && final(self).phase() < old(self).phase(),
    {
        reveal(Ppu::after_mode);
        match self.mode {
            0 => {
                self.dot = self.dot - 456;
                self.end_scanline(io, oam);
            },
            1 => {
                self.dot = self.dot - 456;
                self.vblank_line(io, oam);
            },
            2 => {
                self.mode = 3;
                self.update_stat(io);
            },
            _ => {
                self.render_line(io, vram);
                self.mode = 0;
                self.update_stat(io);
            },
        }
    }

    fn is_due(&self) -> (r: bool)
        requires
            self.mode3_cycles <= 232,
        ensures
            r == self.due(),
    {
        match self.mode {
            0 => self.dot >= 456,
            1 => self.dot >= 456,
            2 => self.dot >= 80,
            3 => self.dot >= 80 + self.mode3_cycles,
            _ => false,
        }
    }

    /// Advance by `cycles` dots.
    pub fn step(&mut self, cycles: u32, io: &mut IoRegs, vram: &mut Vram, oam: &mut Oam)
        requires
            old(self).wf(),
            old(self).dot + cycles <= u32::MAX,
        ensures
            (*final(self), *final(io)) == old(self).after_step(
                *old(io),
                *old(vram),
                *old(oam),
                cycles,
            ),
            *final(vram) == *old(vram),
            *final(oam) == *old(oam),
            final(self).wf(),
    {
        reveal(Ppu::after_step);
        if io[0x40] & 0x80 == 0 {
            if self.ly != 0 || self.mode != 0 {
                self.reset(io);
            }
            return;
        }
        self.dot = self.dot + cycles;
        let ghost start = *self;
        while self.is_due()
            invariant
                self.mode <= 3,
                self.mode != 1 ==> self.ly < 144,
                self.mode == 1 ==> self.ly < 154,
                self.line_sprite_count <= 10,
                self.mode3_cycles <= 232,
                *vram == *old(vram),
                *oam == *old(oam),
                self.run(*io, *vram, *oam) == start.run(*old(io), *old(vram), *old(oam)),
            decreases self.dot, self.phase(),
        {
            self.change_mode(io, vram, oam);
        }
    }
}

impl Default for Ppu {
    fn default() -> (r: Ppu)
        ensures
            r == Ppu::initial(),
            r.wf(),
    {
        Ppu::new()
    }
}

/// The position within the frame, in dots.
pub open spec fn frame_position(p: Ppu) -> int {
    p.ly * 456 + p.dot
}

/// While the LCD is on, the position in the frame of 154 lines of 456 dots
/// advances by exactly the dots stepped.
pub proof fn law_frame_is_70224_dots(p: Ppu, io: IoRegs, vram: Vram, oam: Oam, cycles: u32)
    requires
        p.wf(),
        p.dot + cycles <= u32::MAX,
        io[0x40] & 0x80 != 0,
    ensures
        frame_position(p.after_step(io, vram, oam, cycles).0) == (frame_position(p) + cycles)
            % 70224,
{
    reveal(Ppu::after_step);
    let start = Ppu { dot: (p.dot + cycles) as u32, ..p };
    lemma_run_position(start, io, vram, oam);
    let end = start.run(io, vram, oam).0;
    assert(p.after_step(io, vram, oam, cycles).0 == end);
    assert(0 <= frame_position(end) < 70224);
    assert(frame_position(start) == frame_position(p) + cycles);
}

/// Time leaves the PPU well formed.
pub proof fn law_ppu_stays_well_formed(p: Ppu, io: IoRegs, vram: Vram, oam: Oam, cycles: u32)
    requires
        p.wf(),
        p.dot + cycles <= u32::MAX,
    ensures
        p.after_step(io, vram, oam, cycles).0.wf(),
{
    reveal(Ppu::after_step);
    lemma_run_position(Ppu { dot: (p.dot + cycles) as u32, ..p }, io, vram, oam);
}

/// The invariant of a PPU whose dot may have run past its line.
spec fn on_line(p: Ppu) -> bool {
    &&& p.mode <= 3
    &&& p.mode != 1 ==> p.ly < 144
    &&& p.mode == 1 ==> p.ly < 154
    &&& p.line_sprite_count <= 10
    &&& p.mode3_cycles <= 232
}

proof fn lemma_begin(p: Ppu, io: IoRegs, oam: Oam)
    ensures
        ({
            let q = p.after_begin(io, oam).0;
            q.mode == 2 && q.ly == p.ly && q.dot == p.dot && q.line_sprite_count <= 10
                && q.mode3_cycles <= 232
        }),
{
    lemma_scan_count(p, oam, 8, 40);
    lemma_scan_count(p, oam, 16, 40);
}

proof fn lemma_mode_position(p: Ppu, io: IoRegs, vram: Vram, oam: Oam)
    requires
        on_line(p),
        p.due(),
    ensures
        on_line(p.after_mode(io, vram, oam).0),
        frame_position(p.after_mode(io, vram, oam).0) == frame_position(p) || frame_position(
            p.after_mode(io, vram, oam).0,
        ) == frame_position(p) - 70224,
        p.after_mode(io, vram, oam).0.dot < p.dot || p.after_mode(io, vram, oam).0.dot == p.dot
            && p.after_mode(io, vram, oam).0.phase() < p.phase(),
{
    reveal(Ppu::after_mode);
    if p.mode == 0 {
        let r = Ppu { dot: (p.dot - 456) as u32, ly: (p.ly + 1) as u8, ..p };
        let (s, regs) = r.after_set_ly(io);
        lemma_begin(s, regs, oam);
    } else if p.mode == 1 {
        let r = Ppu { dot: (p.dot - 456) as u32, ly: (p.ly + 1) as u8, ..p };
        let (s, regs) = r.after_set_ly(io);
        let (t, regs2) = Ppu { ly: 0, ..s }.after_set_ly(regs);
        lemma_begin(t, regs2, oam);
    }
}

proof fn lemma_run_position(p: Ppu, io: IoRegs, vram: Vram, oam: Oam)
    requires
        on_line(p),
    ensures
        p.run(io, vram, oam).0.wf(),
        frame_position(p.run(io, vram, oam).0) % 70224 == frame_position(p) % 70224,
    decreases p.dot, p.phase(),
{
    if p.due() {
        let (q, regs) = p.after_mode(io, vram, oam);
        lemma_mode_position(p, io, vram, oam);
        lemma_run_position(q, regs, vram, oam);
        assert(p.run(io, vram, oam) == q.run(regs, vram, oam));
    }
}

proof fn lemma_scan_count(p: Ppu, oam: Oam, height: u8, n: nat)
    ensures
        p.scanned(oam, height, n).1 <= 10,
    decreases n,
{
    if n > 0 {
        lemma_scan_count(p, oam, height, (n - 1) as nat);
    }
}

/// The sprites of a line are drawn in order of position: the sorted list is a
/// permutation of the scanned one, ascending in `x`.
pub proof fn law_sprites_sorted(sprites: Seq<Sprite>)
    ensures
        by_x(sprites).to_multiset() == sprites.to_multiset(),
        by_x(sprites).len() == sprites.len(),
        forall|i: int, j: int|
            0 <= i <= j < by_x(sprites).len() ==> by_x(sprites)[i].x <= by_x(sprites)[j].x,
    decreases sprites.len(),
{
    broadcast use vstd::seq_lib::group_to_multiset_ensures;

    if sprites.len() > 0 {
        law_sprites_sorted(sprites.drop_last());
        lemma_insert_sorted(by_x(sprites.drop_last()), sprites.last());
        assert(sprites.drop_last().push(sprites.last()) =~= sprites);
    }
}

proof fn lemma_insert_sorted(sorted: Seq<Sprite>, s: Sprite)
    requires
        forall|i: int, j: int| 0 <= i <= j < sorted.len() ==> sorted[i].x <= sorted[j].x,
    ensures
        insert_by_x(sorted, s).to_multiset() == sorted.to_multiset().insert(s),
        insert_by_x(sorted, s).len() == sorted.len() + 1,
        forall|i: int|
            0 <= i < insert_by_x(sorted, s).len() ==> insert_by_x(sorted, s)[i].x <= s.x
                || sorted.len() > 0 && insert_by_x(sorted, s)[i].x <= sorted.last().x,
        forall|i: int, j: int|
            0 <= i <= j < insert_by_x(sorted, s).len() ==> insert_by_x(sorted, s)[i].x
                <= insert_by_x(sorted, s)[j].x,
    decreases sorted.len(),
{
    broadcast use vstd::seq_lib::group_to_multiset_ensures;

    if sorted.len() > 0 && sorted.last().x > s.x {
        lemma_insert_sorted(sorted.drop_last(), s);
        assert(sorted.drop_last().push(sorted.last()) =~= sorted);
        let inner = insert_by_x(sorted.drop_last(), s);
        assert(inner.push(sorted.last()).to_multiset() =~= sorted.to_multiset().insert(s));
    } else {
        assert(sorted.push(s).to_multiset() =~= sorted.to_multiset().insert(s));
    }
}

/// The PPU `n` dots further along its line, before any change of mode.
pub open spec fn with_dots(p: Ppu, n: int) -> Ppu {
    Ppu { dot: (p.dot + n) as u32, ..p }
}

proof fn lemma_scan_shift(p: Ppu, oam: Oam, height: u8, k: nat, n: int)
    ensures
        with_dots(p, n).scanned(oam, height, k) == p.scanned(oam, height, k),
    decreases k,
{
    if k > 0 {
        lemma_scan_shift(p, oam, height, (k - 1) as nat, n);
    }
}

proof fn lemma_begin_shift(p: Ppu, io: IoRegs, oam: Oam, n: int)
    ensures
        with_dots(p, n).after_begin(io, oam) == (
            with_dots(p.after_begin(io, oam).0, n),
            p.after_begin(io, oam).1,
        ),
{
    lemma_scan_shift(p, oam, 8, 40, n);
    lemma_scan_shift(p, oam, 16, 40, n);
}

proof fn lemma_sprite_shift(
    p: Ppu,
    io: IoRegs,
    vram: Vram,
    dot: Dot,
    sprites: Seq<Sprite>,
    px: int,
    n: int,
)
    ensures
        with_dots(p, n).top_sprite(io, vram, dot, sprites, px) == p.top_sprite(
            io,
            vram,
            dot,
            sprites,
            px,
        ),
    decreases sprites.len(),
{
    if sprites.len() > 0 {
        lemma_sprite_shift(p, io, vram, dot, sprites.skip(1), px, n);
    }
}

proof fn lemma_fetch_shift(
    p: Ppu,
    io: IoRegs,
    vram: Vram,
    window: bool,
    rows: TileRows,
    k: nat,
    n: int,
)
    ensures
        with_dots(p, n).fetched(io, vram, window, rows, k) == p.fetched(io, vram, window, rows, k),
    decreases k,
{
    if k > 0 {
        lemma_fetch_shift(p, io, vram, window, rows, (k - 1) as nat, n);
    }
}

proof fn lemma_layer_shift(p: Ppu, io: IoRegs, vram: Vram, px: int, n: int)
    ensures
        with_dots(p, n).layer_dot(io, vram, px) == p.layer_dot(io, vram, px),
{
    reveal(Ppu::layer_dot);
    lemma_fetch_shift(p, io, vram, false, filled(None), SCREEN_W as nat, n);
    lemma_fetch_shift(p, io, vram, false, filled(None), (px + 1) as nat, n);
    let at = px - Ppu::window_left(io);
    lemma_fetch_shift(p, io, vram, true, p.bg_rows(io, vram), (at + 1) as nat, n);
}

proof fn lemma_column_shift(p: Ppu, io: IoRegs, vram: Vram, px: int, n: int)
    ensures
        with_dots(p, n).column(io, vram, px) == p.column(io, vram, px),
{
    lemma_layer_shift(p, io, vram, px, n);
    lemma_sprite_shift(p, io, vram, p.layer_dot(io, vram, px), p.sorted_sprites(), px, n);
}

proof fn lemma_render_shift(p: Ppu, io: IoRegs, vram: Vram, n: int)
    ensures
        with_dots(p, n).drawn_frame(io, vram) == p.drawn_frame(io, vram),
        with_dots(p, n).drawn_rgb(io, vram) == p.drawn_rgb(io, vram),
{
    reveal(Ppu::drawn_frame);
    reveal(Ppu::drawn_rgb);
    let q = with_dots(p, n);
    let f = Seq::new(FRAME_PIXELS as nat, |at: int| p.drawn_shade(io, vram, at));
    let g = Seq::new(FRAME_PIXELS as nat, |at: int| q.drawn_shade(io, vram, at));
    assert forall|at: int| 0 <= at < FRAME_PIXELS implies f[at] == g[at] by {
        lemma_column_shift(p, io, vram, at % 160, n);
    }
    assert(f =~= g);
    let c = Seq::new(FRAME_RGB as nat, |k: int| p.drawn_byte(io, vram, k));
    let d = Seq::new(FRAME_RGB as nat, |k: int| q.drawn_byte(io, vram, k));
    assert forall|k: int| 0 <= k < FRAME_RGB implies c[k] == d[k] by {
        lemma_column_shift(p, io, vram, k / 3 % 160, n);
    }
    assert(c =~= d);
}

/// A change of mode that is due takes no account of the dots past it.
proof fn lemma_mode_shift(p: Ppu, io: IoRegs, vram: Vram, oam: Oam, n: int)
    requires
        p.due(),
        0 <= n,
        p.dot + n <= u32::MAX,
    ensures
        with_dots(p, n).due(),
        ({
            let (q, regs) = p.after_mode(io, vram, oam);
            &&& with_dots(p, n).after_mode(io, vram, oam) == (with_dots(q, n), regs)
            &&& q.dot < p.dot || q.dot == p.dot && q.phase() < p.phase()
            &&& regs[0x40] == io[0x40]
        }),
{
    reveal(Ppu::after_mode);
    if p.mode <= 1 {
        let r = Ppu {
            dot: (p.dot - 456) as u32,
            ly: vstd::wrapping::u8_specs::wrapping_add(p.ly, 1),
            ..p
        };
        let (s, regs) = r.after_set_ly(io);
        lemma_begin_shift(s, regs, oam, n);
        let (t, regs2) = Ppu { ly: 0, ..s }.after_set_ly(regs);
        lemma_begin_shift(t, regs2, oam, n);
    } else {
        lemma_render_shift(p, io, vram, n);
    }
}

proof fn lemma_run_shift(p: Ppu, io: IoRegs, vram: Vram, oam: Oam, n: int)
    requires
        0 <= n,
        p.dot + n <= u32::MAX,
    ensures
        ({
            let (q, regs) = p.run(io, vram, oam);
            &&& with_dots(p, n).run(io, vram, oam) == with_dots(q, n).run(regs, vram, oam)
            &&& q.dot <= p.dot
            &&& regs[0x40] == io[0x40]
        }),
    decreases p.dot, p.phase(),
{
    if p.due() {
        let (m, regs) = p.after_mode(io, vram, oam);
        lemma_mode_shift(p, io, vram, oam, n);
        lemma_run_shift(m, regs, vram, oam, n);
    }
}

/// Two steps make one of their dots together.
pub proof fn law_steps_compose(p: Ppu, io: IoRegs, vram: Vram, oam: Oam, a: u32, b: u32)
    requires
        p.dot + a + b <= u32::MAX,
    ensures
        ({
            let (q, regs) = p.after_step(io, vram, oam, a);
            q.after_step(regs, vram, oam, b) == p.after_step(io, vram, oam, (a + b) as u32)
        }),
{
    reveal(Ppu::after_step);
    lemma_run_shift(with_dots(p, a as int), io, vram, oam, b as int);
}

} // verus!

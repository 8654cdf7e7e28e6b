//! What a line of the picture shows, told by the planes of tiles in VRAM.

use crate::bits::{bit8, filled, lemma_byte_fields, lemma_two_bits, put};
use crate::emu::state::{lemma_to_array, to_array};
use crate::gb::ppu::{
    shade_of, tile_color, tile_row_colors, widen5, Cell, Dot, Oam, Ppu, Sprite, TileRows, Vram,
};
use crate::gb::timer::IoRegs;
use vstd::prelude::*;

verus! {

/// The colour at column `u` and row `v` of the tile whose sixteen bytes start
/// at `at`: each row is two bytes, the low bits of its colours and then their
/// high bits, and the leftmost column is in bit 7.
pub open spec fn tile_dot(vram: Vram, at: int, u: int, v: int) -> int {
    (if bit8(vram[at + 2 * v + 1], 7 - u) {
        2int
    } else {
        0
    }) + (if bit8(vram[at + 2 * v], 7 - u) {
        1int
    } else {
        0
    })
}

/// Where the tile with the number `n` starts: LCDC bit 4 counts it up from
/// 0x8000, otherwise it is signed and counts from 0x9000.
pub open spec fn tile_start(lcdc: u8, n: u8) -> int {
    if lcdc / 16 % 2 == 1 || n >= 128 {
        16 * n
    } else {
        0x1000 + 16 * n
    }
}

/// The place in the tile map at `map` of the point (`x`, `y`) of its plane of
/// 256 by 256 points.
pub open spec fn map_place(map: int, x: int, y: int) -> int {
    map + 32 * (y / 8) + x / 8
}

/// The attributes of a place in a tile map, which a monochrome machine lacks.
pub open spec fn attributes(p: Ppu, vram: Vram, place: int) -> u8 {
    if p.cgb {
        vram[0x2000 + place]
    } else {
        0
    }
}

/// The colour at the point (`x`, `y`) of the plane at `map`. Attribute bit 5
/// mirrors the tile from left to right, bit 6 from top to bottom; bit 3 takes
/// it from the second bank.
#[verifier::opaque]
pub open spec fn plane_color(p: Ppu, lcdc: u8, vram: Vram, map: int, x: int, y: int) -> int {
    let place = map_place(map, x, y);
    let attr = attributes(p, vram, place);
    let bank: int = if attr / 8 % 2 == 1 {
        0x2000
    } else {
        0
    };
    tile_dot(
        vram,
        tile_start(lcdc, vram[place]) + bank,
        if attr / 32 % 2 == 1 {
            7 - x % 8
        } else {
            x % 8
        },
        if attr / 64 % 2 == 1 {
            7 - y % 8
        } else {
            y % 8
        },
    )
}

/// What the plane shows at a point: on a colour machine the colour with the
/// palette and priority of its attributes, otherwise the shade that BGP gives
/// the colour, two bits each.
#[verifier::opaque]
pub open spec fn shows_plane(
    p: Ppu,
    io: IoRegs,
    vram: Vram,
    map: int,
    x: int,
    y: int,
    dot: Dot,
) -> bool {
    let attr = attributes(p, vram, map_place(map, x, y));
    &&& dot.color == plane_color(p, io[0x40], vram, map, x, y)
    &&& p.cgb ==> dot.shade == dot.color && dot.pal == attr % 8 && dot.prio == attr / 128
    &&& !p.cgb ==> dot.shade == shade(io[0x47], dot.color as int) && dot.pal == 0 && dot.prio == 0
}

/// The shade that a palette register gives the colour `color`.
pub open spec fn shade(palette: u8, color: int) -> int {
    if color == 0 {
        palette as int % 4
    } else if color == 1 {
        palette as int / 4 % 4
    } else if color == 2 {
        palette as int / 16 % 4
    } else {
        palette as int / 64
    }
}

/// Whether no two tiles on row `y` of the plane differ in whether they are
/// mirrored from top to bottom; on a monochrome machine none is.
#[verifier::opaque]
pub open spec fn level(p: Ppu, vram: Vram, map: int, y: int, flipped: bool) -> bool {
    forall|k: int|
        0 <= k < 32 ==> (#[trigger] attributes(p, vram, map + 32 * (y / 8) + k) / 64 % 2 == 1)
            == flipped
}

/// The tile rows fetched are all of row `row`.
spec fn rows_hold(lcdc: u8, vram: Vram, rows: TileRows, row: int) -> bool {
    forall|slot: int|
        0 <= slot < 512 && (#[trigger] rows[slot]) is Some ==> rows[slot]->0 == slot_row(
            lcdc,
            vram,
            slot,
            row,
        )
}

proof fn lemma_tile_row(lo: u8, hi: u8, u: int)
    requires
        0 <= u < 8,
    ensures
        tile_row_colors(lo, hi)[u] == (if bit8(hi, 7 - u) {
            2int
        } else {
            0
        }) + (if bit8(lo, 7 - u) {
            1int
        } else {
            0
        }),
        tile_row_colors(lo, hi)[u] < 4,
{
    let row = tile_row_colors(lo, hi);
    assert(row[0] == tile_color(lo, hi, 0) && row[1] == tile_color(lo, hi, 1) && row[2]
        == tile_color(lo, hi, 2) && row[3] == tile_color(lo, hi, 3));
    assert(row[4] == tile_color(lo, hi, 4) && row[5] == tile_color(lo, hi, 5) && row[6]
        == tile_color(lo, hi, 6) && row[7] == tile_color(lo, hi, 7));
    assert(row[u] == tile_color(lo, hi, u as u8));
    lemma_two_bits(hi, lo, (7 - u) as u8);
}

proof fn lemma_shade(palette: u8, color: u8)
    requires
        color < 4,
    ensures
        shade_of(palette, color) == shade(palette, color as int),
{
    lemma_byte_fields(palette, 0);
    lemma_byte_fields(color, 0);
}

proof fn lemma_bg_row(vram: Vram, lcdc: u8, n: u8, row: int, bank: int, u: int)
    requires
        0 <= u < 8,
        0 <= row < 8,
        0 <= bank < 2,
    ensures
        Ppu::bg_tile_row(vram, lcdc, n, row, bank)[u] == tile_dot(
            vram,
            tile_start(lcdc, n) + if bank == 1 {
                0x2000int
            } else {
                0
            },
            u,
            row,
        ),
        Ppu::bg_tile_row(vram, lcdc, n, row, bank)[u] < 4,
{
    lemma_byte_fields(lcdc, 0);
    let at = tile_start(lcdc, n) + bank * 0x2000 + row * 2;
    lemma_tile_row(vram[at], vram[at + 1], u);
}

proof fn lemma_wrapped(x: int)
    requires
        0 <= x,
    ensures
        x / 8 % 32 == x % 256 / 8,
        x % 256 % 8 == x % 8,
        0 <= x % 256 < 256,
{
}

/// The place and tile of column `i` on the plane that wraps around at 256.
#[verifier::rlimit(60)]
proof fn lemma_cell(p: Ppu, vram: Vram, map: int, x: int, y: int, flipped: bool)
    requires
        map == 0x1800 || map == 0x1C00,
        0 <= x,
        0 <= y,
        level(p, vram, map, y % 256, flipped),
    ensures
        ({
            let c = p.map_cell(vram, map, x, y);
            let place = map_place(map, x % 256, y % 256);
            let attr = attributes(p, vram, place);
            &&& c.attr == attr
            &&& c.slot == attr as int / 8 % 2 * 256 + vram[place]
            &&& c.slot < 512
            &&& c.row == if flipped {
                7 - y % 8
            } else {
                y % 8
            }
            &&& c.col == if attr / 32 % 2 == 1 {
                7 - x % 8
            } else {
                x % 8
            }
            &&& (attr / 64 % 2 == 1) == flipped
        }),
{
    let place = map_place(map, x % 256, y % 256);
    reveal(level);
    lemma_wrapped(x);
    lemma_wrapped(y);
    let k = x % 256 / 8;
    assert(place == map + 32 * (y % 256 / 8) + k);
    lemma_byte_fields(attributes(p, vram, place), 0);
}

/// The first `n` columns fetch rows of one number alone.
#[verifier::rlimit(60)]
proof fn lemma_fetched(
    p: Ppu,
    io: IoRegs,
    vram: Vram,
    window: bool,
    rows: TileRows,
    n: nat,
    row: int,
)
    requires
        rows_hold(io[0x40], vram, rows, row),
        forall|i: int|
            0 <= i < n ==> (#[trigger] p.cell(io, vram, window, i)).row == row && p.cell(
                io,
                vram,
                window,
                i,
            ).slot < 512,
    ensures
        rows_hold(io[0x40], vram, p.fetched(io, vram, window, rows, n), row),
        n > 0 ==> p.fetched(io, vram, window, rows, n)[p.cell(
            io,
            vram,
            window,
            n - 1,
        ).slot as int] is Some,
    decreases n,
{
    if n > 0 {
        lemma_fetched(p, io, vram, window, rows, (n - 1) as nat, row);
        let c = p.cell(io, vram, window, n - 1);
        assert(c.row == row);
        assert(Ppu::cell_row(io, vram, c) == slot_row(io[0x40], vram, c.slot as int, row)) by {
            reveal(slot_row);
        }
    }
}

/// Row `row` of the tile in `slot`.
#[verifier::opaque]
spec fn slot_row(lcdc: u8, vram: Vram, slot: int, row: int) -> [u8; 8] {
    Ppu::bg_tile_row(vram, lcdc, (slot % 256) as u8, row, slot / 256)
}

/// The colour of a cell whose tile has the row at hand.
#[verifier::rlimit(60)]
proof fn lemma_cell_color(p: Ppu, lcdc: u8, vram: Vram, map: int, x: int, y: int, flipped: bool)
    requires
        map == 0x1800 || map == 0x1C00,
        0 <= x < 256,
        0 <= y < 256,
        (attributes(p, vram, map_place(map, x, y)) / 64 % 2 == 1) == flipped,
    ensures
        ({
            let place = map_place(map, x, y);
            let attr = attributes(p, vram, place);
            let color = slot_row(
                lcdc,
                vram,
                attr as int / 8 % 2 * 256 + vram[place],
                if flipped {
                    7 - y % 8
                } else {
                    y % 8
                },
            )[if attr / 32 % 2 == 1 {
                7 - x % 8
            } else {
                x % 8
            }];
            color == plane_color(p, lcdc, vram, map, x, y) && color < 4
        }),
{
    let row = if flipped {
        7 - y % 8
    } else {
        y % 8
    };
    let place = map_place(map, x, y);
    let attr = attributes(p, vram, place);
    let bank = attr as int / 8 % 2;
    let slot = bank * 256 + vram[place];
    let col = if attr / 32 % 2 == 1 {
        7 - x % 8
    } else {
        x % 8
    };
    assert(slot % 256 == vram[place] && slot / 256 == bank);
    reveal(plane_color);
    assert(slot_row(lcdc, vram, slot, row) == Ppu::bg_tile_row(vram, lcdc, vram[place], row, bank))
        by {
        reveal(slot_row);
    }
    lemma_bg_row(vram, lcdc, vram[place], row, bank, col);
}

/// What a cell shows, by the colour of its column.
proof fn lemma_shown(
    p: Ppu,
    io: IoRegs,
    vram: Vram,
    map: int,
    x: int,
    y: int,
    c: Cell,
    pixels: [u8; 8],
)
    requires
        c.attr == attributes(p, vram, map_place(map, x, y)),
        pixels[c.col as int] == plane_color(p, io[0x40], vram, map, x, y),
        pixels[c.col as int] < 4,
    ensures
        shows_plane(p, io, vram, map, x, y, p.cell_dot(io, c, pixels)),
{
    reveal(shows_plane);
    lemma_shade(io[0x47], pixels[c.col as int]);
}

/// A cell shows its point of the plane where the row of its tile is at hand.
#[verifier::rlimit(60)]
proof fn lemma_cell_dot(p: Ppu, io: IoRegs, vram: Vram, map: int, x: int, y: int, flipped: bool)
    requires
        map == 0x1800 || map == 0x1C00,
        0 <= x,
        0 <= y,
        level(p, vram, map, y % 256, flipped),
    ensures
        ({
            let c = p.map_cell(vram, map, x, y);
            let row = if flipped {
                7 - y % 8
            } else {
                y % 8
            };
            let dot = p.cell_dot(io, c, slot_row(io[0x40], vram, c.slot as int, row));
            shows_plane(p, io, vram, map, x % 256, y % 256, dot)
        }),
{
    lemma_cell(p, vram, map, x, y, flipped);
    let c = p.map_cell(vram, map, x, y);
    lemma_wrapped(x);
    lemma_wrapped(y);
    lemma_cell_color(p, io[0x40], vram, map, x % 256, y % 256, flipped);
    let row = if flipped {
        7 - y % 8
    } else {
        y % 8
    };
    let pixels = slot_row(io[0x40], vram, c.slot as int, row);
    lemma_shown(p, io, vram, map, x % 256, y % 256, c, pixels);
}

/// A column drawn from a line of one row of tiles shows its point of the plane.
#[verifier::rlimit(60)]
proof fn lemma_drawn(
    p: Ppu,
    io: IoRegs,
    vram: Vram,
    window: bool,
    rows: TileRows,
    i: int,
    map: int,
    left: int,
    y: int,
    flipped: bool,
)
    requires
        map == 0x1800 || map == 0x1C00,
        0 <= i,
        0 <= left,
        0 <= y,
        level(p, vram, map, y % 256, flipped),
        rows_hold(
            io[0x40],
            vram,
            rows,
            if flipped {
                7 - y % 8
            } else {
                y % 8
            },
        ),
        forall|k: int|
            0 <= k ==> #[trigger] p.cell(io, vram, window, k) == p.map_cell(vram, map, k + left, y),
    ensures
        shows_plane(
            p,
            io,
            vram,
            map,
            (i + left) % 256,
            y % 256,
            p.drawn_dot(io, vram, window, rows, i),
        ),
{
    let row = if flipped {
        7 - y % 8
    } else {
        y % 8
    };
    assert forall|k: int| 0 <= k < i + 1 implies (#[trigger] p.cell(io, vram, window, k)).row == row
        && p.cell(io, vram, window, k).slot < 512 by {
        lemma_cell(p, vram, map, k + left, y, flipped);
    }
    lemma_fetched(p, io, vram, window, rows, (i + 1) as nat, row);
    let x = i + left;
    lemma_cell(p, vram, map, x, y, flipped);
    let slot = p.map_cell(vram, map, x, y).slot as int;
    assert(p.cell(io, vram, window, i) == p.map_cell(vram, map, x, y));
    let now = p.fetched(io, vram, window, rows, (i + 1) as nat);
    assert(now[slot] is Some);
    lemma_cell_dot(p, io, vram, map, x, y, flipped);
}

/// The background at screen column `px` of the current line is column
/// `(px + SCX) mod 256` and row `(LY + SCY) mod 256` of its plane of 256 by 256
/// points, whose map LCDC bit 3 selects.
pub proof fn law_background_scrolls(p: Ppu, io: IoRegs, vram: Vram, px: int, flipped: bool)
    requires
        0 <= px < 160,
        level(p, vram, background_map(io), (p.ly + io[0x42]) % 256, flipped),
    ensures
        shows_plane(
            p,
            io,
            vram,
            background_map(io),
            (px + io[0x43]) % 256,
            (p.ly + io[0x42]) % 256,
            p.drawn_dot(io, vram, false, filled(None), px),
        ),
{
    lemma_byte_fields(io[0x40], 0);
    lemma_drawn(
        p,
        io,
        vram,
        false,
        filled(None),
        px,
        Ppu::map_at(io, 0x08),
        io[0x43] as int,
        p.ly + io[0x42],
        flipped,
    );
}

/// Where the background's map is.
pub open spec fn background_map(io: IoRegs) -> int {
    if io[0x40] / 8 % 2 == 1 {
        0x1C00
    } else {
        0x1800
    }
}

/// Where the window's map is.
pub open spec fn window_map(io: IoRegs) -> int {
    if io[0x40] / 32 % 2 == 1 {
        0x1C00
    } else {
        0x1800
    }
}

/// Two settings of the scroll registers show the same plane, moved: what column
/// `px` of the line shows with one, column `qx` of another line shows with the
/// other, wherever both look at the same point modulo 256.
#[verifier::rlimit(60)]
pub proof fn law_scroll_shift(
    p: Ppu,
    q: Ppu,
    io: IoRegs,
    scrolled: IoRegs,
    vram: Vram,
    px: int,
    qx: int,
    flipped: bool,
)
    requires
        0 <= px < 160,
        0 <= qx < 160,
        q.cgb == p.cgb,
        scrolled == put(put(io, 0x43, scrolled[0x43]), 0x42, scrolled[0x42]),
        (px + io[0x43]) % 256 == (qx + scrolled[0x43]) % 256,
        (p.ly + io[0x42]) % 256 == (q.ly + scrolled[0x42]) % 256,
        level(p, vram, background_map(io), (p.ly + io[0x42]) % 256, flipped),
    ensures
        p.drawn_dot(io, vram, false, filled(None), px) == q.drawn_dot(
            scrolled,
            vram,
            false,
            filled(None),
            qx,
        ),
{
    reveal(shows_plane);
    reveal(plane_color);
    let y = (p.ly + io[0x42]) % 256;
    assert(scrolled[0x40] == io[0x40] && scrolled[0x47] == io[0x47]);
    assert(level(q, vram, background_map(io), y, flipped)) by {
        reveal(level);
        assert forall|k: int| 0 <= k < 32 implies (#[trigger] attributes(
            q,
            vram,
            background_map(io) + 32 * (y / 8) + k,
        ) / 64 % 2 == 1) == flipped by {
            assert(attributes(p, vram, background_map(io) + 32 * (y / 8) + k) == attributes(
                q,
                vram,
                background_map(io) + 32 * (y / 8) + k,
            ));
        }
    }
    law_background_scrolls(p, io, vram, px, flipped);
    law_background_scrolls(q, scrolled, vram, qx, flipped);
}

/// Where LCDC bit 6 enables it, the window covers the line from line WY on and
/// the columns from WX - 7 on, and shows the top left of its plane there,
/// unscrolled. The background shows elsewhere if LCDC bit 0 enables it. (This is
/// of a window that fetches its own tiles: the background is off, or looks at
/// the same row of a tile.)
#[verifier::rlimit(60)]
pub proof fn law_window_covers(p: Ppu, io: IoRegs, vram: Vram, px: int, flipped: bool)
    requires
        0 <= px < 160,
        io[0x40] / 64 % 2 == 1,
        p.ly >= io[0x4A],
        px + 7 >= io[0x4B],
        level(p, vram, window_map(io), p.ly - io[0x4A], flipped),
        io[0x40] % 2 == 1 ==> level(
            p,
            vram,
            background_map(io),
            (p.ly + io[0x42]) % 256,
            flipped,
        ) && (p.ly + io[0x42]) % 8 == (p.ly - io[0x4A]) % 8,
    ensures
        shows_plane(
            p,
            io,
            vram,
            window_map(io),
            if io[0x4B] >= 7 {
                px + 7 - io[0x4B]
            } else {
                px
            },
            p.ly - io[0x4A],
            p.layer_dot(io, vram, px),
        ),
{
    reveal(Ppu::layer_dot);
    lemma_byte_fields(io[0x40], 0);
    let y = p.ly - io[0x4A];
    assert(y % 256 == y);
    let row = if flipped {
        7 - y % 8
    } else {
        y % 8
    };
    let left = px - Ppu::window_left(io);
    assert(0 <= left && left % 256 == left);
    if io[0x40] % 2 == 1 {
        lemma_background_rows(p, io, vram, flipped, row);
    }
    lemma_drawn(
        p,
        io,
        vram,
        true,
        p.bg_rows(io, vram),
        px - Ppu::window_left(io),
        window_map(io),
        0,
        y,
        flipped,
    );
}

/// The rows that the background leaves fetched.
proof fn lemma_background_rows(p: Ppu, io: IoRegs, vram: Vram, flipped: bool, row: int)
    requires
        level(p, vram, background_map(io), (p.ly + io[0x42]) % 256, flipped),
        row == if flipped {
            7 - (p.ly + io[0x42]) % 8
        } else {
            (p.ly + io[0x42]) % 8
        },
        io[0x40] % 2 == 1,
    ensures
        rows_hold(io[0x40], vram, p.bg_rows(io, vram), row),
{
    lemma_byte_fields(io[0x40], 0);
    assert forall|i: int| 0 <= i < 160 implies (#[trigger] p.cell(io, vram, false, i)).row == row
        && p.cell(io, vram, false, i).slot < 512 by {
        lemma_cell(
            p,
            vram,
            background_map(io),
            i + io[0x43],
            p.ly + io[0x42],
            flipped,
        );
    }
    lemma_fetched(p, io, vram, false, filled(None), 160, row);
}

/// Left of the window, above it, and where LCDC bit 6 disables it, the
/// background shows where LCDC bit 0 enables it, and colour 0 where not.
pub proof fn law_background_shows(p: Ppu, io: IoRegs, vram: Vram, px: int)
    requires
        io[0x40] / 64 % 2 == 0 || p.ly < io[0x4A] || px + 7 < io[0x4B],
        0 <= px < 160,
    ensures
        io[0x40] % 2 == 1 ==> p.layer_dot(io, vram, px) == p.drawn_dot(
            io,
            vram,
            false,
            filled(None),
            px,
        ),
        io[0x40] % 2 == 0 ==> p.layer_dot(io, vram, px) == (Dot {
            color: 0,
            shade: 0,
            pal: 0,
            prio: 0,
        }),
{
    reveal(Ppu::layer_dot);
    lemma_byte_fields(io[0x40], 0);
}

spec fn built<const N: usize>(s: Seq<u8>, n: nat) -> [u8; N]
    decreases n,
{
    if n == 0 {
        filled(0)
    } else {
        put(built::<N>(s, (n - 1) as nat), n - 1, s[n - 1])
    }
}

proof fn lemma_built<const N: usize>(s: Seq<u8>, n: nat)
    requires
        n <= N,
    ensures
        forall|i: int| 0 <= i < n ==> #[trigger] built::<N>(s, n)[i] == s[i],
    decreases n,
{
    if n > 0 {
        let b = built::<N>(s, (n - 1) as nat);
        lemma_built::<N>(s, (n - 1) as nat);
        assert forall|i: int| 0 <= i < n implies #[trigger] built::<N>(s, n)[i] == s[i] by {
            assert(i < n - 1 ==> b[i] == s[i]);
            assert(put(b, n - 1, s[n - 1])@[i] == b@.update(n - 1, s[n - 1])[i]);
        }
    }
}

/// The array of the elements of `s` holds them.
proof fn lemma_array_of<const N: usize>(s: Seq<u8>)
    requires
        s.len() == N,
    ensures
        forall|i: int| 0 <= i < N ==> #[trigger] to_array::<N>(s)[i] == s[i],
{
    let a = built::<N>(s, N as nat);
    lemma_built::<N>(s, N as nat);
    assert forall|i: int| 0 <= i < N implies a@[i] == s[i] by {
        assert(a@[i] == a[i]);
    }
    assert(a@ =~= s);
    lemma_to_array(a);
}

/// Drawing the current line writes its 160 columns to row LY of the frames, and
/// leaves every other row. Each column of the full-colour frame is the red,
/// green and blue of the column's palette entry.
#[verifier::rlimit(60)]
pub proof fn law_line_drawn(p: Ppu, io: IoRegs, vram: Vram, line: int, px: int)
    requires
        0 <= line < 144,
        0 <= px < 160,
    ensures
        p.after_render(io, vram).frame_buffer[160 * line + px] == if line == p.ly {
            p.column(io, vram, px).0
        } else {
            p.frame_buffer[160 * line + px]
        },
        forall|i: int|
            0 <= i < 3 ==> p.after_render(io, vram).rgb_buffer[#[trigger] (480 * line + 3 * px + i)]
                == if line == p.ly {
                let (shade, pal) = p.column(io, vram, px);
                let color = p.rgb888(pal, shade);
                if i == 0 {
                    color.0
                } else if i == 1 {
                    color.1
                } else {
                    color.2
                }
            } else {
                p.rgb_buffer[480 * line + 3 * px + i]
            },
{
    reveal(Ppu::drawn_frame);
    reveal(Ppu::drawn_rgb);
    let f = Seq::new(23040, |at: int| p.drawn_shade(io, vram, at));
    lemma_array_of::<23040>(f);
    let at = 160 * line + px;
    assert(f[at] == p.drawn_shade(io, vram, at));
    assert(at / 160 == line && at % 160 == px);
    let g = Seq::new(69120, |k: int| p.drawn_byte(io, vram, k));
    lemma_array_of::<69120>(g);
    assert forall|i: int| 0 <= i < 3 implies p.after_render(io, vram).rgb_buffer[#[trigger] (480
        * line + 3 * px + i)] == if line == p.ly {
        let (shade, pal) = p.column(io, vram, px);
        let color = p.rgb888(pal, shade);
        if i == 0 {
            color.0
        } else if i == 1 {
            color.1
        } else {
            color.2
        }
    } else {
        p.rgb_buffer[480 * line + 3 * px + i]
    } by {
        let k = 480 * line + 3 * px + i;
        assert(g[k] == p.drawn_byte(io, vram, k));
        assert(k / 480 == line && k / 3 % 160 == px && k % 3 == i);
    }
}

/// The colour at column `u` and row `v` of a sprite as it appears: attribute
/// bit 5 mirrors it from left to right and bit 6 from top to bottom, over its
/// whole height. A sprite of two tiles has the odd one of their pair below.
pub open spec fn sprite_color(p: Ppu, vram: Vram, s: Sprite, u: int, v: int) -> int {
    let across = if s.attr / 32 % 2 == 1 {
        7 - u
    } else {
        u
    };
    let down = if s.attr / 64 % 2 == 1 {
        s.height - 1 - v
    } else {
        v
    };
    let tile: int = if down >= 8 {
        s.tile / 2 * 2 + 1
    } else {
        s.tile as int
    };
    let bank: int = if p.cgb && s.attr / 8 % 2 == 1 {
        0x2000
    } else {
        0
    };
    tile_dot(vram, 16 * tile + bank, across, down % 8)
}

/// Whether a background dot hides a sprite over it: on a colour machine by the
/// priority of the dot, on a monochrome one, whose background is on, by that
/// of the sprite; colour 0 hides none.
pub open spec fn hidden(p: Ppu, io: IoRegs, dot: Dot, s: Sprite) -> bool {
    dot.color != 0 && if p.cgb {
        dot.prio != 0
    } else {
        io[0x40] % 2 == 1 && s.attr >= 128
    }
}

/// The row of a sprite that lies on the line, counted in the picture it is
/// taken from.
pub open spec fn sprite_down(p: Ppu, s: Sprite) -> int {
    if s.attr / 64 % 2 == 1 {
        s.height - 1 - (p.ly + 16 - s.y)
    } else {
        p.ly + 16 - s.y
    }
}

#[verifier::rlimit(60)]
proof fn lemma_sprite_tile(p: Ppu, s: Sprite)
    requires
        s.height == 8 || s.height == 16,
        s.y - 16 <= p.ly < s.y - 16 + s.height,
    ensures
        p.sprite_tile(s) == if sprite_down(p, s) >= 8 {
            s.tile / 2 * 2 + 1
        } else {
            s.tile as int
        },
{
    lemma_byte_fields(s.attr, 0);
    lemma_byte_fields(s.tile, 0);
}

#[verifier::rlimit(60)]
proof fn lemma_sprite_row(p: Ppu, vram: Vram, s: Sprite, at: int)
    requires
        s.height == 8 || s.height == 16,
        s.y - 16 <= p.ly < s.y - 16 + s.height,
        at == p.sprite_tile(s) * 16 + (if p.cgb && s.attr / 8 % 2 == 1 {
            0x2000int
        } else {
            0
        }) + 2 * (sprite_down(p, s) % 8),
    ensures
        p.sprite_pixels(vram, s) == tile_row_colors(vram[at], vram[at + 1]),
{
    lemma_byte_fields(s.attr, 0);
    let v = p.ly + 16 - s.y;
    assert(p.sprite_row(s) == v);
    if s.attr / 64 % 2 == 1 {
        assert(sprite_down(p, s) % 8 == 7 - v % 8);
    } else {
        assert(sprite_down(p, s) % 8 == v % 8);
    }
}

#[verifier::rlimit(60)]
proof fn lemma_sprite_pixels(p: Ppu, vram: Vram, s: Sprite, u: int)
    requires
        s.height == 8 || s.height == 16,
        s.y - 16 <= p.ly < s.y - 16 + s.height,
        0 <= u < 8,
    ensures
        p.sprite_pixels(vram, s)[if s.attr / 32 % 2 == 1 {
            7 - u
        } else {
            u
        }] == sprite_color(p, vram, s, u, p.ly + 16 - s.y),
        p.sprite_pixels(vram, s)[if s.attr / 32 % 2 == 1 {
            7 - u
        } else {
            u
        }] < 4,
{
    let bank: int = if p.cgb && s.attr / 8 % 2 == 1 {
        0x2000
    } else {
        0
    };
    let at = p.sprite_tile(s) * 16 + bank + 2 * (sprite_down(p, s) % 8);
    lemma_sprite_tile(p, s);
    lemma_sprite_row(p, vram, s, at);
    lemma_tile_row(
        vram[at],
        vram[at + 1],
        if s.attr / 32 % 2 == 1 {
            7 - u
        } else {
            u
        },
    );
}

/// A sprite shows on the eight columns from its own on, mirrored as its
/// attributes say, where its colour is not 0 and the background does not hide
/// it. A monochrome machine shades it by OBP1 where attribute bit 4 is set and
/// by OBP0 where not; a colour machine gives it one of the last eight palettes.
#[verifier::rlimit(60)]
pub proof fn law_sprite_shows(p: Ppu, io: IoRegs, vram: Vram, dot: Dot, s: Sprite, px: int)
    requires
        s.height == 8 || s.height == 16,
        s.y - 16 <= p.ly < s.y - 16 + s.height,
    ensures
        ({
            let color = sprite_color(p, vram, s, px - s.x, p.ly + 16 - s.y);
            let shown = p.sprite_dot(io, vram, dot, s, px);
            if s.x <= px < s.x + 8 && color != 0 && !hidden(p, io, dot, s) {
                &&& shown is Some
                &&& p.cgb ==> (shown->0).0 == color && (shown->0).1 == 8 + s.attr % 8
                &&& !p.cgb && s.attr / 16 % 2 == 1 ==> (shown->0).0 == shade(io[0x49], color)
                    && (shown->0).1 == 9
                &&& !p.cgb && s.attr / 16 % 2 == 0 ==> (shown->0).0 == shade(io[0x48], color)
                    && (shown->0).1 == 8
            } else {
                shown is None
            }
        }),
{
    lemma_byte_fields(s.attr, 0);
    lemma_byte_fields(io[0x40], 0);
    let u = px - s.x;
    if 0 <= u < 8 {
        lemma_sprite_pixels(p, vram, s, u);
        let color = p.sprite_pixels(vram, s)[if s.attr / 32 % 2 == 1 {
            7 - u
        } else {
            u
        }];
        lemma_shade(io[0x48], color);
        lemma_shade(io[0x49], color);
    }
}

/// Of the sprites at a column the first in order that shows is seen; where none
/// shows, or LCDC bit 1 disables them, the background is.
pub proof fn law_first_sprite_wins(
    p: Ppu,
    io: IoRegs,
    vram: Vram,
    dot: Dot,
    sprites: Seq<Sprite>,
    px: int,
)
    ensures
        match p.top_sprite(io, vram, dot, sprites, px) {
            Some(shown) => exists|i: int|
                0 <= i < sprites.len() && p.sprite_dot(io, vram, dot, #[trigger] sprites[i], px)
                    == Some(shown) && forall|j: int|
                    0 <= j < i ==> p.sprite_dot(io, vram, dot, #[trigger] sprites[j], px) is None,
            None => forall|j: int|
                0 <= j < sprites.len() ==> p.sprite_dot(io, vram, dot, #[trigger] sprites[j], px)
                    is None,
        },
    decreases sprites.len(),
{
    if sprites.len() > 0 {
        let rest = sprites.skip(1);
        law_first_sprite_wins(p, io, vram, dot, rest, px);
        assert forall|j: int| 0 < j < sprites.len() implies #[trigger] sprites[j] == rest[j - 1] by {}
        if p.sprite_dot(io, vram, dot, sprites[0], px) is None {
            match p.top_sprite(io, vram, dot, rest, px) {
                Some(shown) => {
                    let i = choose|i: int|
                        0 <= i < rest.len() && p.sprite_dot(
                            io,
                            vram,
                            dot,
                            #[trigger] rest[i],
                            px,
                        ) == Some(shown) && forall|j: int|
                            0 <= j < i ==> p.sprite_dot(io, vram, dot, #[trigger] rest[j], px)
                                is None;
                    assert(sprites[i + 1] == rest[i]);
                },
                None => {},
            }
        }
    }
}

/// Sprites are drawn over the background where LCDC bit 1 enables them.
pub proof fn law_sprites_over_background(p: Ppu, io: IoRegs, vram: Vram, px: int)
    ensures
        ({
            let dot = p.layer_dot(io, vram, px);
            p.column(io, vram, px) == if io[0x40] / 2 % 2 == 1 {
                match p.top_sprite(io, vram, dot, p.sorted_sprites(), px) {
                    Some(shown) => shown,
                    None => (dot.shade, dot.pal),
                }
            } else {
                (dot.shade, dot.pal)
            }
        }),
{
    lemma_byte_fields(io[0x40], 0);
}

/// How many of the first `n` entries of OAM lie on the line.
pub open spec fn on_line(p: Ppu, oam: Oam, height: int, n: nat) -> nat
    decreases n,
{
    if n == 0 {
        0
    } else {
        let i = n - 1;
        on_line(p, oam, height, i as nat) + if oam[4 * i] <= p.ly + 16 < oam[4 * i] + height && 0
            < oam[4 * i + 1] <= 168 {
            1nat
        } else {
            0
        }
    }
}

#[verifier::rlimit(60)]
proof fn lemma_scanned(p: Ppu, oam: Oam, height: u8, n: nat, i: int)
    requires
        height == 8 || height == 16,
        n <= 40,
    ensures
        ({
            let (sprites, count) = p.scanned(oam, height, n);
            let k = on_line(p, oam, height as int, n);
            &&& count == if k < 10 {
                k
            } else {
                10
            }
            &&& 0 <= i < n && on_line(p, oam, height as int, i as nat) < 10 && oam[4 * i] <= p.ly
                + 16 < oam[4 * i] + height && 0 < oam[4 * i + 1] <= 168 ==> {
                &&& on_line(p, oam, height as int, i as nat) < count
                &&& sprites[on_line(p, oam, height as int, i as nat) as int] == (Sprite {
                    x: (oam[4 * i + 1] - 8) as i16,
                    y: oam[4 * i],
                    tile: oam[4 * i + 2],
                    attr: oam[4 * i + 3],
                    height,
                })
            }
        }),
    decreases n,
{
    if n > 0 {
        lemma_scanned(p, oam, height, (n - 1) as nat, i);
    }
}

/// The scan of OAM takes the sprites whose rows, 8 or by LCDC bit 2 16 from line
/// Y - 16 on, hold the current line, and whose column X - 8 can be seen: the
/// first ten of them, in the order of OAM.
pub proof fn law_sprites_on_line(p: Ppu, io: IoRegs, oam: Oam, i: int)
    requires
        0 <= i < 40,
    ensures
        ({
            let height: u8 = if io[0x40] / 4 % 2 == 1 {
                16
            } else {
                8
            };
            let q = p.after_scan(io, oam);
            let all = on_line(p, oam, height as int, 40);
            let before = on_line(p, oam, height as int, i as nat);
            &&& q.line_sprite_count == if all < 10 {
                all
            } else {
                10
            }
            &&& before < 10 && oam[4 * i] <= p.ly + 16 < oam[4 * i] + height && 0 < oam[4 * i + 1]
                <= 168 ==> q.line_sprites[before as int] == (Sprite {
                x: (oam[4 * i + 1] - 8) as i16,
                y: oam[4 * i],
                tile: oam[4 * i + 2],
                attr: oam[4 * i + 3],
                height,
            })
        }),
{
    lemma_byte_fields(io[0x40], 0);
    lemma_scanned(
        p,
        oam,
        if io[0x40] / 4 % 2 == 1 {
            16
        } else {
            8
        },
        40,
        i,
    );
}

#[verifier::rlimit(60)]
proof fn lemma_three_parts(a: int, m: int, e: int, c: int)
    requires
        0 <= m < 32,
        0 <= e < 32,
        c == 1024 * a + 32 * m + e,
    ensures
        c % 32 == e,
        c / 32 == 32 * a + m,
        c / 32 % 32 == m,
        c / 1024 == a,
{
    assert(c / 32 == 32 * a + m);
}

#[verifier::rlimit(60)]
proof fn lemma_fifteen(lo: int, hi: int, c: int)
    requires
        0 <= lo < 256,
        0 <= hi < 256,
        c == hi % 128 * 256 + lo,
    ensures
        c % 32 == lo % 32,
        c / 32 % 32 == lo / 32 + hi % 4 * 8,
        c / 1024 % 32 == hi / 4 % 32,
{
    let (h, q) = (hi % 128, hi / 128);
    let (a, b) = (h / 4, h % 4);
    assert(hi == 128 * q + 4 * a + b);
    assert(hi / 4 == 32 * q + a && hi % 4 == b);
    lemma_three_parts(a, 8 * b + lo / 32, lo % 32, c);
}

#[verifier::rlimit(60)]
proof fn lemma_widened(c: int)
    requires
        0 <= c,
    ensures
        31 * widen5(c) <= 255 * (c % 32) < 31 * (widen5(c) + 1),
{
    let n = c % 32;
    assert(0 <= n * 255 / 31 <= 255);
}

/// The colour of a palette entry: fifteen bits, low byte first, of which red
/// are the lowest five, green the middle and blue the highest. Each is widened
/// so that 0 stays 0 and 31 becomes 255, in even steps.
#[verifier::rlimit(60)]
pub proof fn law_palette_color(p: Ppu, pal: u8, col: u8)
    requires
        pal < 16,
        col < 4,
    ensures
        ({
            let at = pal as int % 8 * 8 + col * 2;
            let (lo, hi) = if pal >= 8 {
                (p.obj_pal[at], p.obj_pal[at + 1])
            } else {
                (p.bg_pal[at], p.bg_pal[at + 1])
            };
            let (red, green, blue) = p.rgb888(pal, col);
            &&& 31 * red <= 255 * (lo % 32) < 31 * (red + 1)
            &&& 31 * green <= 255 * (lo / 32 + hi % 4 * 8) < 31 * (green + 1)
            &&& 31 * blue <= 255 * (hi / 4 % 32) < 31 * (blue + 1)
        }),
{
    let at = pal as int % 8 * 8 + col * 2;
    let (lo, hi) = if pal >= 8 {
        (p.obj_pal[at], p.obj_pal[at + 1])
    } else {
        (p.bg_pal[at], p.bg_pal[at + 1])
    };
    let c = (hi % 128) as int * 256 + lo;
    assert(p.rgb555(pal, col) == c);
    lemma_fifteen(lo as int, hi as int, c);
    lemma_widened(c);
    lemma_widened(c / 32);
    lemma_widened(c / 1024);
}

} // verus!

//! Framebuffer representation.

use vstd::prelude::*;

verus! {

/// The classic green-tinted DMG palette (`[r, g, b, a]` per shade, lightest
/// first), the default frontends use for monochrome frames.
pub const DMG_PALETTE: [[u8; 4]; 4] = [
    [0xE0, 0xF8, 0xD0, 0xFF],
    [0x88, 0xC0, 0x70, 0xFF],
    [0x34, 0x68, 0x56, 0xFF],
    [0x08, 0x18, 0x20, 0xFF],
];

/// A console framebuffer of 2-bit shades (`0..=3`) per pixel, with an optional
/// full-colour buffer.
///
/// The core always emits shades; converting to platform-specific RGBA/palettes
/// is the frontend's job (see e.g. the desktop palettes). Systems that render
/// real colours (GBC, GBA) additionally fill [`Frame::rgb`] with RGB888 data;
/// frontends should prefer `rgb` when it is present.
#[derive(Clone, PartialEq, Eq, Debug)]
pub struct Frame {
    pub width: u16,
    pub height: u16,
    /// Exactly `width * height` bytes, each `0..=3`.
    pub shades: Vec<u8>,
    /// Optional `width * height * 3` bytes of RGB888 pixel data (present for
    /// colour consoles). When `Some`, its length is exactly
    /// `width * height * 3`.
    pub rgb: Option<Vec<u8>>,
}

/// The colours of `shades` through `palette`, three bytes each.
pub open spec fn shaded_rgb(shades: Seq<u8>, palette: Seq<[u8; 4]>) -> Seq<u8> {
    Seq::new(3 * shades.len(), |k: int| palette[(shades[k / 3] % 4) as int][k % 3])
}

impl Frame {
    /// The number of pixels.
    pub open spec fn pixels(self) -> nat {
        (self.width * self.height) as nat
    }

    /// The frame in colour: its colour buffer, or its shades through `palette`.
    pub open spec fn colours(self, palette: Seq<[u8; 4]>) -> Seq<u8> {
        match self.rgb {
            Some(rgb) => rgb@,
            None => shaded_rgb(self.shades@, palette),
        }
    }

    pub fn new(width: u16, height: u16) -> (r: Frame)
        ensures
            r.width == width,
            r.height == height,
            r.shades@ == Seq::new((width * height) as nat, |i: int| 0u8),
            r.rgb is None,
    {
        let pixels: usize = pixel_count(width, height);
        let r = Frame { width, height, shades: vec![0; pixels], rgb: None };
        assert(r.shades@ =~= Seq::new((width * height) as nat, |i: int| 0u8));
        r
    }

    /// Return the RGB888 data if present, otherwise convert `shades` through a
    /// 4-colour palette into RGB888. The palette entries are
    /// `[r, g, b, a]` quads (`alpha` is ignored).
    pub fn to_rgb(&self, palette: &[[u8; 4]]) -> (r: Vec<u8>)
        requires
            self.rgb is None ==> forall|i: int|
                0 <= i < self.shades@.len() ==> (#[trigger] self.shades@[i] % 4) < palette@.len(),
        ensures
            r@ == self.colours(palette@),
    {
        if let Some(rgb) = &self.rgb {
            let mut out: Vec<u8> = Vec::new();
            out.extend_from_slice(rgb.as_slice());
            assert(out@ =~= rgb@);
            return out;
        }
        let mut out: Vec<u8> = Vec::new();
        let mut i: usize = 0;
        while i < self.shades.len()
            invariant
                i <= self.shades@.len(),
                self.rgb is None,
                forall|k: int|
                    0 <= k < self.shades@.len() ==> (#[trigger] self.shades@[k] % 4)
                        < palette@.len(),
                out@ =~= shaded_rgb(self.shades@, palette@).take(3 * i),
            decreases self.shades@.len() - i,
        {
            let shade: u8 = self.shades[i];
            let c: [u8; 4] = palette[(shade % 4) as usize];
            out.push(c[0]);
            out.push(c[1]);
            out.push(c[2]);
            i = i + 1;
        }
        assert(shaded_rgb(self.shades@, palette@).take(3 * i as int) =~= shaded_rgb(
            self.shades@,
            palette@,
        ));
        out
    }

    /// Byte `k` of the RGBA image drawn over `under`: the colour buffer with
    /// an opaque alpha, or the shades through `palette`. Pixels that the frame
    /// lacks stay as they are.
    pub open spec fn rgba_byte(self, palette: [[u8; 4]; 4], under: Seq<u8>, k: int) -> u8 {
        match self.rgb {
            Some(rgb) => if (k / 4) * 3 + 3 <= rgb@.len() {
                if k % 4 == 3 {
                    0xFF
                } else {
                    rgb@[(k / 4) * 3 + k % 4]
                }
            } else {
                under[k]
            },
            None => if k / 4 < self.shades@.len() {
                palette[(self.shades@[k / 4] % 4) as int][k % 4]
            } else {
                under[k]
            },
        }
    }

    /// Write the frame as RGBA8888 into `out`, which must hold exactly
    /// `width * height * 4` bytes. Uses the colour buffer when present,
    /// otherwise maps the shades through `palette`.
    pub fn write_rgba(&self, palette: &[[u8; 4]; 4], out: &mut [u8])
        requires
            old(out)@.len() == self.pixels() * 4,
        ensures
            final(out)@ == Seq::new(
                old(out)@.len(),
                |k: int| self.rgba_byte(*palette, old(out)@, k),
            ),
    {
        let pixels: usize = pixel_count(self.width, self.height);
        let ghost under = out@;
        let total: usize = out.len();
        let mut i: usize = 0;
        while i < pixels
            invariant
                i <= pixels,
                out@.len() == under.len() == pixels * 4 == total,
                forall|k: int|
                    0 <= k < i * 4 ==> #[trigger] out@[k] == self.rgba_byte(*palette, under, k),
                forall|k: int| i * 4 <= k < total ==> #[trigger] out@[k] == under[k],
            decreases pixels - i,
        {
            match &self.rgb {
                Some(rgb) => {
                    if i < rgb.len() / 3 {
                        out[i * 4] = rgb[i * 3];
                        out[i * 4 + 1] = rgb[i * 3 + 1];
                        out[i * 4 + 2] = rgb[i * 3 + 2];
                        out[i * 4 + 3] = 0xFF;
                    }
                },
                None => {
                    if i < self.shades.len() {
                        let shade: u8 = self.shades[i];
                        let c: [u8; 4] = palette[(shade % 4) as usize];
                        out[i * 4] = c[0];
                        out[i * 4 + 1] = c[1];
                        out[i * 4 + 2] = c[2];
                        out[i * 4 + 3] = c[3];
                    }
                },
            }
            i = i + 1;
        }
        assert(out@ =~= Seq::new(under.len(), |k: int| self.rgba_byte(*palette, under, k)));
    }

    /// The frame as a new RGBA8888 buffer (see [`Frame::write_rgba`]).
    pub fn to_rgba(&self, palette: &[[u8; 4]; 4]) -> (r: Vec<u8>)
        requires
            self.pixels() * 4 <= usize::MAX,
        ensures
            r@.len() == self.pixels() * 4,
            forall|k: int|
                0 <= k < r@.len() ==> #[trigger] r@[k] == self.rgba_byte(
                    *palette,
                    Seq::new(r@.len(), |i: int| 0u8),
                    k,
                ),
    {
        let pixels: usize = pixel_count(self.width, self.height);
        let mut out: Vec<u8> = vec![0; pixels * 4];
        assert(out@ =~= Seq::new((pixels * 4) as nat, |i: int| 0u8));
        self.write_rgba(palette, out.as_mut_slice());
        out
    }

    /// Fill every pixel with a shade.
    pub fn fill(&mut self, shade: u8)
        ensures
            final(self).shades@ == Seq::new(old(self).shades@.len(), |i: int| shade % 4),
            final(self).width == old(self).width,
            final(self).height == old(self).height,
            final(self).rgb == old(self).rgb,
    {
        let n: usize = self.shades.len();
        let mut i: usize = 0;
        while i < n
            invariant
                i <= n,
                n == old(self).shades@.len(),
                self.shades@.len() == n,
                forall|k: int| 0 <= k < i ==> self.shades@[k] == shade % 4,
                self.width == old(self).width,
                self.height == old(self).height,
                self.rgb == old(self).rgb,
            decreases n - i,
        {
            self.shades[i] = shade % 4;
            i = i + 1;
        }
        assert(self.shades@ =~= Seq::new(old(self).shades@.len(), |i: int| shade % 4));
    }

    /// The number of pixels `set_row` copies: what `row` holds, a line at most.
    pub open spec fn row_len(self, row: Seq<u8>) -> int {
        if row.len() < self.width {
            row.len() as int
        } else {
            self.width as int
        }
    }

    /// Blit a single row of shades at `y`.
    pub fn set_row(&mut self, y: u16, row: &[u8])
        requires
            y * old(self).width + old(self).row_len(row@) <= old(self).shades@.len(),
        ensures
            final(self).shades@ == Seq::new(
                old(self).shades@.len(),
                |i: int|
                    if y * old(self).width <= i < y * old(self).width + old(self).row_len(row@) {
                        row@[i - y * old(self).width]
                    } else {
                        old(self).shades@[i]
                    },
            ),
            final(self).width == old(self).width,
            final(self).height == old(self).height,
            final(self).rgb == old(self).rgb,
    {
        let w: usize = self.width as usize;
        let size: usize = self.shades.len();
        assert(0 <= y * self.width) by (nonlinear_arith)
            requires
                0 <= y,
                0 <= self.width,
        ;
        let start: usize = y as usize * w;
        let n: usize = if row.len() < w {
            row.len()
        } else {
            w
        };
        let mut i: usize = 0;
        while i < n
            invariant
                i <= n <= row@.len(),
                start + n <= size,
                size == old(self).shades@.len(),
                self.shades@ =~= Seq::new(
                    old(self).shades@.len(),
                    |k: int|
                        if start <= k < start + i {
                            row@[k - start]
                        } else {
                            old(self).shades@[k]
                        },
                ),
                self.width == old(self).width,
                self.height == old(self).height,
                self.rgb == old(self).rgb,
            decreases n - i,
        {
            self.shades[start + i] = row[i];
            i = i + 1;
        }
    }
}

/// `width * height`, in range whatever the two are.
pub(crate) fn pixel_count(width: u16, height: u16) -> (r: usize)
    ensures
        r == width * height,
{
    assert(width * height <= 0xFFFF * 0xFFFF) by (nonlinear_arith)
        requires
            width <= 0xFFFF,
            height <= 0xFFFF,
    ;
    width as usize * height as usize
}

} // verus!

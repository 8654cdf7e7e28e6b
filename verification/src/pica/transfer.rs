//! The transfer engine ("PPF"): display transfers and texture copies.
//!
//! Both work on plain byte slices. The caller snapshots the input, so an
//! input and an output that overlap in memory behave as a copy through a
//! buffer; what the hardware does with overlapping buffers is not known.
//!
//! Register semantics follow 3dbrew, "GPU/External Registers", section
//! "Transfer Engine". The tiling modes (flags bits 1, 5 and 16) rearrange
//! pixels in 8x8 or 32x32 blocks and are not modelled: data is taken as rows.

use vstd::prelude::*;

verus! {

/// A framebuffer colour format, by its three-bit register value.
#[derive(Clone, Copy, PartialEq, Eq, Structural, Debug)]
pub enum Format {
    Rgba8,
    Rgb8,
    Rgb565,
    Rgb5a1,
    Rgba4,
}

/// A channel of five bits as eight: the top bits are repeated.
pub open spec fn wide5(v: int) -> u8 {
    (v * 8 + v / 4) as u8
}

pub open spec fn wide6(v: int) -> u8 {
    (v * 4 + v / 16) as u8
}

pub open spec fn wide4(v: int) -> u8 {
    (v * 16 + v) as u8
}

fn expand5(v: u16) -> (r: u8)
    requires
        v < 32,
    ensures
        r == wide5(v as int),
{
    (v * 8 + v / 4) as u8
}

fn expand6(v: u16) -> (r: u8)
    requires
        v < 64,
    ensures
        r == wide6(v as int),
{
    (v * 4 + v / 16) as u8
}

fn expand4(v: u16) -> (r: u8)
    requires
        v < 16,
    ensures
        r == wide4(v as int),
{
    (v * 16 + v) as u8
}

impl Format {
    /// The format with the register value `bits`.
    pub open spec fn with_bits(bits: u32) -> Option<Format> {
        let v = bits % 8;
        if v == 0 {
            Some(Format::Rgba8)
        } else if v == 1 {
            Some(Format::Rgb8)
        } else if v == 2 {
            Some(Format::Rgb565)
        } else if v == 3 {
            Some(Format::Rgb5a1)
        } else if v == 4 {
            Some(Format::Rgba4)
        } else {
            None
        }
    }

    /// Values 5 to 7 are not formats.
    pub fn from_bits(bits: u32) -> (r: Option<Format>)
        ensures
            r == Format::with_bits(bits),
    {
        match bits % 8 {
            0 => Some(Format::Rgba8),
            1 => Some(Format::Rgb8),
            2 => Some(Format::Rgb565),
            3 => Some(Format::Rgb5a1),
            4 => Some(Format::Rgba4),
            _ => None,
        }
    }

    /// The bytes of one pixel.
    pub open spec fn size(self) -> int {
        match self {
            Format::Rgba8 => 4,
            Format::Rgb8 => 3,
            _ => 2,
        }
    }

    pub fn bytes(self) -> (r: usize)
        ensures
            r == self.size(),
    {
        match self {
            Format::Rgba8 => 4,
            Format::Rgb8 => 3,
            _ => 2,
        }
    }

    /// The pixel in the bytes `p` as red, green, blue, alpha.
    pub open spec fn decoded(self, p: Seq<u8>) -> [u8; 4] {
        let v = p[0] + p[1] * 256;
        match self {
            // Alpha first in memory, then blue, green, red.
            Format::Rgba8 => [p[3], p[2], p[1], p[0]],
            Format::Rgb8 => [p[2], p[1], p[0], 0xFF],
            Format::Rgb565 => [wide5(v / 0x800), wide6(v / 32 % 64), wide5(v % 32), 0xFF],
            Format::Rgb5a1 => [
                wide5(v / 0x800),
                wide5(v / 64 % 32),
                wide5(v / 2 % 32),
                if v % 2 == 1 {
                    0xFF
                } else {
                    0
                },
            ],
            Format::Rgba4 => [
                wide4(v / 0x1000),
                wide4(v / 256 % 16),
                wide4(v / 16 % 16),
                wide4(v % 16),
            ],
        }
    }

    /// One pixel as red, green, blue, alpha. Narrow channels widen by
    /// repeating their top bits; a format without alpha is opaque.
    pub fn decode(self, p: &[u8]) -> (r: [u8; 4])
        requires
            p@.len() >= self.size(),
        ensures
            r == self.decoded(p@),
    {
        self.decode_at(p, 0)
    }

    fn decode_at(self, p: &[u8], at: usize) -> (r: [u8; 4])
        requires
            at + self.size() <= p@.len(),
        ensures
            r == self.decoded(p@.skip(at as int)),
    {
        let total: usize = p.len();
        let ghost q = p@.skip(at as int);
        let v: u16 = p[at] as u16 + p[at + 1] as u16 * 256;
        let r: [u8; 4] = match self {
            Format::Rgba8 => [p[at + 3], p[at + 2], p[at + 1], p[at]],
            Format::Rgb8 => [p[at + 2], p[at + 1], p[at], 0xFF],
            Format::Rgb565 => [expand5(v / 0x800), expand6(v / 32 % 64), expand5(v % 32), 0xFF],
            Format::Rgb5a1 => [
                expand5(v / 0x800),
                expand5(v / 64 % 32),
                expand5(v / 2 % 32),
                if v % 2 == 1 {
                    0xFF
                } else {
                    0
                },
            ],
            Format::Rgba4 => [
                expand4(v / 0x1000),
                expand4(v / 256 % 16),
                expand4(v / 16 % 16),
                expand4(v % 16),
            ],
        };
        assert(r =~= self.decoded(q));
        r
    }

    /// The bytes of a pixel. Channels narrow by dropping their low bits.
    pub open spec fn encoded(self, c: [u8; 4]) -> Seq<u8> {
        let (r, g, b, a) = (c[0] as int, c[1] as int, c[2] as int, c[3] as int);
        match self {
            Format::Rgba8 => seq![c[3], c[2], c[1], c[0]],
            Format::Rgb8 => seq![c[2], c[1], c[0]],
            Format::Rgb565 => halves(r / 8 * 0x800 + g / 4 * 32 + b / 8),
            Format::Rgb5a1 => halves(r / 8 * 0x800 + g / 8 * 64 + b / 8 * 2 + a / 128),
            Format::Rgba4 => halves(r / 16 * 0x1000 + g / 16 * 256 + b / 16 * 16 + a / 16),
        }
    }

    /// `out` with the pixel `c` stored at `at`.
    pub open spec fn stored(self, out: Seq<u8>, at: int, c: [u8; 4]) -> Seq<u8> {
        Seq::new(
            out.len(),
            |k: int|
                if at <= k < at + self.size() {
                    self.encoded(c)[k - at]
                } else {
                    out[k]
                },
        )
    }

    /// Store one pixel. Channels narrow by dropping their low bits; whether
    /// the hardware rounds instead is not known.
    pub fn encode(self, c: [u8; 4], out: &mut [u8])
        requires
            old(out)@.len() >= self.size(),
        ensures
            final(out)@ == self.stored(old(out)@, 0, c),
    {
        self.encode_at(c, out, 0)
    }

    /// The halfword of a pixel in a format of two bytes.
    fn packed(self, c: [u8; 4]) -> (v: u16)
        requires
            self.size() == 2,
        ensures
            self.encoded(c) == halves(v as int),
    {
        let (r, g, b, a) = (c[0] as u16, c[1] as u16, c[2] as u16, c[3] as u16);
        match self {
            Format::Rgb565 => r / 8 * 0x800 + g / 4 * 32 + b / 8,
            Format::Rgb5a1 => r / 8 * 0x800 + g / 8 * 64 + b / 8 * 2 + a / 128,
            _ => r / 16 * 0x1000 + g / 16 * 256 + b / 16 * 16 + a / 16,
        }
    }

    fn encode_at(self, c: [u8; 4], out: &mut [u8], at: usize)
        requires
            at + self.size() <= old(out)@.len(),
        ensures
            final(out)@ == self.stored(old(out)@, at as int, c),
    {
        let total: usize = out.len();
        match self {
            Format::Rgba8 => {
                out[at] = c[3];
                out[at + 1] = c[2];
                out[at + 2] = c[1];
                out[at + 3] = c[0];
            },
            Format::Rgb8 => {
                out[at] = c[2];
                out[at + 1] = c[1];
                out[at + 2] = c[0];
            },
            _ => {
                let half: u16 = self.packed(c);
                out[at] = (half % 256) as u8;
                out[at + 1] = (half / 256) as u8;
            },
        }
        assert(out@ =~= self.stored(old(out)@, at as int, c));
    }
}

/// The two bytes of a halfword, low one first.
pub open spec fn halves(v: int) -> Seq<u8> {
    seq![(v % 256) as u8, (v / 256) as u8]
}

/// Every format keeps its own pixels: what was decoded encodes to the same
/// bytes.
pub proof fn law_pixels_round_trip(fmt: Format, p: Seq<u8>)
    requires
        p.len() == fmt.size(),
    ensures
        fmt.encoded(fmt.decoded(p)) == p,
{
    match fmt {
        Format::Rgb565 => lemma_rgb565(p),
        Format::Rgb5a1 => lemma_rgb5a1(p),
        Format::Rgba4 => lemma_rgba4(p),
        _ => {},
    }
    assert(fmt.encoded(fmt.decoded(p)) =~= p);
}

proof fn lemma_rgb565(p: Seq<u8>)
    requires
        p.len() == 2,
    ensures
        Format::Rgb565.encoded(Format::Rgb565.decoded(p)) == p,
{
    let v = p[0] + p[1] * 256;
    let c = Format::Rgb565.decoded(p);
    let (r, g, b) = (v / 0x800, v / 32 % 64, v % 32);
    lemma_wide(r, g, b);
    assert(c[0] == wide5(r) && c[1] == wide6(g) && c[2] == wide5(b));
    lemma_rgb565_parts(v);
    assert(Format::Rgb565.encoded(c) == halves(r * 0x800 + g * 32 + b));
    assert(halves(v) =~= p);
}

proof fn lemma_rgb565_parts(v: int)
    requires
        0 <= v < 0x1_0000,
    ensures
        v / 0x800 * 0x800 + v / 32 % 64 * 32 + v % 32 == v,
        0 <= v / 0x800 < 32,
{
    let q = v / 32;
    assert(v / 0x800 == q / 64);
}

proof fn lemma_rgb5a1(p: Seq<u8>)
    requires
        p.len() == 2,
    ensures
        Format::Rgb5a1.encoded(Format::Rgb5a1.decoded(p)) == p,
{
    let v = p[0] + p[1] * 256;
    let c = Format::Rgb5a1.decoded(p);
    let (r, g, b, a) = (v / 0x800, v / 64 % 32, v / 2 % 32, v % 2);
    lemma_wide(r, 0, g);
    lemma_wide(b, 0, 0);
    assert(c[0] == wide5(r) && c[1] == wide5(g) && c[2] == wide5(b));
    assert(c[3] as int / 128 == a);
    lemma_rgb5a1_parts(v);
    assert(Format::Rgb5a1.encoded(c) == halves(r * 0x800 + g * 64 + b * 2 + a));
    assert(halves(v) =~= p);
}

proof fn lemma_rgb5a1_parts(v: int)
    requires
        0 <= v < 0x1_0000,
    ensures
        v / 0x800 * 0x800 + v / 64 % 32 * 64 + v / 2 % 32 * 2 + v % 2 == v,
        0 <= v / 0x800 < 32,
{
    let q = v / 2;
    let h = q / 32;
    assert(v / 64 == h);
    assert(v / 0x800 == h / 32);
}

proof fn lemma_rgba4(p: Seq<u8>)
    requires
        p.len() == 2,
    ensures
        Format::Rgba4.encoded(Format::Rgba4.decoded(p)) == p,
{
    let v = p[0] + p[1] * 256;
    let c = Format::Rgba4.decoded(p);
    assert(c[0] as int / 16 == v / 0x1000);
    assert(c[1] as int / 16 == v / 256 % 16);
    assert(c[2] as int / 16 == v / 16 % 16);
    assert(c[3] as int / 16 == v % 16);
    assert(v / 0x1000 * 0x1000 + v / 256 % 16 * 256 + v / 16 % 16 * 16 + v % 16 == v);
    assert(Format::Rgba4.encoded(c) == halves(v));
    assert(halves(v) =~= p);
}

/// A widened channel narrows to what it was.
proof fn lemma_wide(a: int, b: int, c: int)
    requires
        0 <= a < 32,
        0 <= b < 64,
        0 <= c < 32,
    ensures
        wide5(a) as int / 8 == a,
        wide6(b) as int / 4 == b,
        wide5(c) as int / 8 == c,
{
}

/// A display transfer: a format conversion of a picture, optionally flipped
/// and halved in width or in both directions with a box filter.
#[derive(Clone, Copy, PartialEq, Eq, Structural, Debug)]
pub struct DisplayTransfer {
    pub input_width: usize,
    pub input_height: usize,
    pub output_width: usize,
    pub output_height: usize,
    pub input_format: Format,
    pub output_format: Format,
    pub flip: bool,
    pub halve_width: bool,
    pub halve_height: bool,
}

/// The sums of the channels of some pixels, and their number.
pub struct Sums {
    pub channels: (int, int, int, int),
    pub count: int,
}

impl Sums {
    pub open spec fn none() -> Sums {
        Sums { channels: (0, 0, 0, 0), count: 0 }
    }

    pub open spec fn with(self, pixel: Option<[u8; 4]>) -> Sums {
        match pixel {
            Some(c) => Sums {
                channels: (
                    self.channels.0 + c[0],
                    self.channels.1 + c[1],
                    self.channels.2 + c[2],
                    self.channels.3 + c[3],
                ),
                count: self.count + 1,
            },
            None => self,
        }
    }

    pub open spec fn average(self) -> [u8; 4] {
        [
            (self.channels.0 / self.count) as u8,
            (self.channels.1 / self.count) as u8,
            (self.channels.2 / self.count) as u8,
            (self.channels.3 / self.count) as u8,
        ]
    }
}

/// The sums of up to four pixels.
struct Totals {
    r: u32,
    g: u32,
    b: u32,
    a: u32,
    count: u32,
}

impl Totals {
    spec fn sums(self) -> Sums {
        Sums {
            channels: (self.r as int, self.g as int, self.b as int, self.a as int),
            count: self.count as int,
        }
    }

    spec fn wf(self) -> bool {
        self.count <= 4 && self.r <= 255 * self.count && self.g <= 255 * self.count && self.b <= 255
            * self.count && self.a <= 255 * self.count
    }

    fn add_pixel(&mut self, pixel: Option<[u8; 4]>)
        requires
            old(self).wf(),
            old(self).count < 4,
        ensures
            final(self).wf(),
            final(self).sums() == old(self).sums().with(pixel),
            final(self).count <= old(self).count + 1,
    {
        if let Some(c) = pixel {
            self.r = self.r + c[0] as u32;
            self.g = self.g + c[1] as u32;
            self.b = self.b + c[2] as u32;
            self.a = self.a + c[3] as u32;
            self.count = self.count + 1;
        }
    }

    fn mean(&self) -> (r: [u8; 4])
        requires
            self.wf(),
            self.count > 0,
        ensures
            r == self.sums().average(),
    {
        let n: u32 = self.count;
        let r: [u8; 4] = [
            channel_mean(self.r, n),
            channel_mean(self.g, n),
            channel_mean(self.b, n),
            channel_mean(self.a, n),
        ];
        assert(r =~= self.sums().average());
        r
    }
}

fn channel_mean(sum: u32, n: u32) -> (r: u8)
    requires
        0 < n <= 4,
        sum <= 255 * n,
    ensures
        r == (sum as int / n as int) as u8,
{
    assert(sum / n <= 255) by (nonlinear_arith)
        requires
            sum <= 255 * n,
            n > 0,
    ;
    (sum / n) as u8
}

impl DisplayTransfer {
    /// The transfer that the registers describe.
    pub open spec fn with_registers(output_dim: u32, input_dim: u32, flags: u32) -> Option<
        DisplayTransfer,
    > {
        let scale = flags / 0x100_0000 % 4;
        let from = Format::with_bits((flags / 0x100) as u32);
        let to = Format::with_bits((flags / 0x1000) as u32);
        if scale == 3 || from is None || to is None {
            None
        } else {
            Some(
                DisplayTransfer {
                    input_width: (input_dim % 0x1_0000) as usize,
                    input_height: (input_dim / 0x1_0000) as usize,
                    output_width: (output_dim % 0x1_0000) as usize,
                    output_height: (output_dim / 0x1_0000) as usize,
                    input_format: from->0,
                    output_format: to->0,
                    flip: flags % 2 == 1,
                    halve_width: scale != 0,
                    halve_height: scale == 2,
                },
            )
        }
    }

    /// Decode the dimension registers (width in bits 0-15, height above) and
    /// the flags. `None` for a colour format or a scale that does not exist.
    pub fn from_registers(output_dim: u32, input_dim: u32, flags: u32) -> (r: Option<
        DisplayTransfer,
    >)
        ensures
            r == DisplayTransfer::with_registers(output_dim, input_dim, flags),
            r is Some ==> (r->0).fits(),
    {
        let scale: u32 = flags / 0x100_0000 % 4;
        if scale == 3 {
            return None;
        }
        let input_format: Format = match Format::from_bits(flags / 0x100) {
            Some(f) => f,
            None => return None,
        };
        let output_format: Format = match Format::from_bits(flags / 0x1000) {
            Some(f) => f,
            None => return None,
        };
        Some(
            DisplayTransfer {
                input_width: (input_dim % 0x1_0000) as usize,
                input_height: (input_dim / 0x1_0000) as usize,
                output_width: (output_dim % 0x1_0000) as usize,
                output_height: (output_dim / 0x1_0000) as usize,
                input_format,
                output_format,
                flip: flags % 2 == 1,
                halve_width: scale != 0,
                halve_height: scale == 2,
            },
        )
    }

    /// Whether the dimensions are such that offsets into the pictures can be
    /// computed.
    pub open spec fn fits(self) -> bool {
        &&& self.input_width <= 0xFFFF_FFFF
        &&& self.input_height <= 0xFFFF_FFFF
        &&& self.output_width <= 0xFFFF_FFFF
        &&& self.output_height <= 0xFFFF_FFFF
    }

    /// The width of the picture written, after scaling.
    pub open spec fn width(self) -> int {
        if self.halve_width {
            self.output_width as int / 2
        } else {
            self.output_width as int
        }
    }

    /// The height of the picture written, after scaling.
    pub open spec fn height(self) -> int {
        if self.halve_height {
            self.output_height as int / 2
        } else {
            self.output_height as int
        }
    }

    /// The size of the picture written, after scaling.
    fn written(&self) -> (r: (usize, usize))
        ensures
            r.0 == self.width(),
            r.1 == self.height(),
    {
        (
            if self.halve_width {
                self.output_width / 2
            } else {
                self.output_width
            },
            if self.halve_height {
                self.output_height / 2
            } else {
                self.output_height
            },
        )
    }

    /// The bytes of the input picture.
    pub fn input_len(&self) -> (r: usize)
        requires
            self.input_width * self.input_height * self.input_format.size() <= usize::MAX,
        ensures
            r == self.input_width * self.input_height * self.input_format.size(),
    {
        let (w, h) = (self.input_width, self.input_height);
        assert(0 <= w * h);
        let n: usize = w * h;
        match self.input_format {
            Format::Rgba8 => n * 4,
            Format::Rgb8 => n * 3,
            _ => n * 2,
        }
    }

    /// The bytes of the picture written.
    pub fn output_len(&self) -> (r: usize)
        requires
            self.width() * self.height() * self.output_format.size() <= usize::MAX,
        ensures
            r == self.width() * self.height() * self.output_format.size(),
    {
        let (w, h) = self.written();
        assert(0 <= w * h);
        let n: usize = w * h;
        match self.output_format {
            Format::Rgba8 => n * 4,
            Format::Rgb8 => n * 3,
            _ => n * 2,
        }
    }

    /// The pixel of the input at (`sx`, `sy`), where there is one.
    pub open spec fn sample(self, input: Seq<u8>, sx: int, sy: int) -> Option<[u8; 4]> {
        let at = (sy * self.input_width + sx) * self.input_format.size();
        if sx < self.input_width && at + self.input_format.size() <= input.len() {
            Some(self.input_format.decoded(input.skip(at)))
        } else {
            None
        }
    }

    fn get_sample(&self, input: &[u8], sx: u64, sy: u64) -> (r: Option<[u8; 4]>)
        requires
            self.fits(),
            sx <= 0x2_0000_0000,
            sy <= 0x2_0000_0000,
        ensures
            r == self.sample(input@, sx as int, sy as int),
    {
        if sx >= self.input_width as u64 {
            return None;
        }
        let w: u128 = self.input_width as u128;
        let row: u128 = sy as u128;
        assert(0 <= row * w <= 0x2_0000_0000 * 0xFFFF_FFFF) by (nonlinear_arith)
            requires
                0 <= row <= 0x2_0000_0000,
                0 <= w <= 0xFFFF_FFFF,
        ;
        let pixel: u128 = row * w + sx as u128;
        let n: u128 = self.input_format.bytes() as u128;
        let at: u128 = match self.input_format {
            Format::Rgba8 => pixel * 4,
            Format::Rgb8 => pixel * 3,
            _ => pixel * 2,
        };
        assert(at == pixel * self.input_format.size());
        if at + n > input.len() as u128 {
            return None;
        }
        Some(self.input_format.decode_at(input, at as usize))
    }

    /// The box that the pixel at (`x`, `y`) of the written picture is made of:
    /// one pixel, two side by side, or two by two.
    pub open spec fn boxed(self, input: Seq<u8>, x: int, y: int) -> Sums {
        let sx = if self.halve_width {
            x * 2
        } else {
            x
        };
        let sy = if self.halve_height {
            y * 2
        } else {
            y
        };
        let s0 = Sums::none().with(self.sample(input, sx, sy));
        let s1 = if self.halve_width {
            s0.with(self.sample(input, sx + 1, sy))
        } else {
            s0
        };
        let s2 = if self.halve_height {
            s1.with(self.sample(input, sx, sy + 1))
        } else {
            s1
        };
        if self.halve_width && self.halve_height {
            s2.with(self.sample(input, sx + 1, sy + 1))
        } else {
            s2
        }
    }

    fn get_box(&self, input: &[u8], x: u64, y: u64) -> (r: Totals)
        requires
            self.fits(),
            x < 0xFFFF_FFFF,
            y < 0xFFFF_FFFF,
        ensures
            r.wf(),
            r.sums() == self.boxed(input@, x as int, y as int),
    {
        let sx: u64 = if self.halve_width {
            x * 2
        } else {
            x
        };
        let sy: u64 = if self.halve_height {
            y * 2
        } else {
            y
        };
        let mut t = Totals { r: 0, g: 0, b: 0, a: 0, count: 0 };
        t.add_pixel(self.get_sample(input, sx, sy));
        if self.halve_width {
            t.add_pixel(self.get_sample(input, sx + 1, sy));
        }
        if self.halve_height {
            t.add_pixel(self.get_sample(input, sx, sy + 1));
        }
        if self.halve_width && self.halve_height {
            t.add_pixel(self.get_sample(input, sx + 1, sy + 1));
        }
        t
    }

    /// What pixel `p` of the written picture is made of, counted row by row.
    pub open spec fn pixel_sums(self, input: Seq<u8>, p: int) -> Sums {
        let row = p / self.width();
        self.boxed(
            input,
            p % self.width(),
            if self.flip {
                self.height() - 1 - row
            } else {
                row
            },
        )
    }

    /// Byte `k` of the output after the first `n` pixels were written. Pixels
    /// whose source or destination falls outside the slices are skipped.
    pub open spec fn byte_after(self, input: Seq<u8>, output: Seq<u8>, n: int, k: int) -> u8 {
        let size = self.output_format.size();
        let p = k / size;
        let sums = self.pixel_sums(input, p);
        if p < n && (p + 1) * size <= output.len() && sums.count > 0 {
            self.output_format.encoded(sums.average())[k % size]
        } else {
            output[k]
        }
    }

    /// The output after the whole picture was written.
    pub open spec fn transferred(self, input: Seq<u8>, output: Seq<u8>) -> Seq<u8> {
        Seq::new(
            output.len(),
            |k: int| self.byte_after(input, output, self.width() * self.height(), k),
        )
    }

    /// Convert `input` into `output`. Pixels whose source or destination
    /// falls outside the slices are skipped.
    pub fn run(&self, input: &[u8], output: &mut [u8])
        requires
            self.fits(),
        ensures
            final(output)@ == self.transferred(input@, old(output)@),
    {
        let (width, height) = self.written();
        let size: usize = self.output_format.bytes();
        let total: usize = output.len();
        assert(0 <= width * height <= 0xFFFF_FFFF * 0xFFFF_FFFF) by (nonlinear_arith)
            requires
                0 <= width <= 0xFFFF_FFFF,
                0 <= height <= 0xFFFF_FFFF,
        ;
        let all: u128 = width as u128 * height as u128;
        let room: usize = total / size;
        let count: usize = if all < room as u128 {
            all as usize
        } else {
            room
        };
        let mut p: usize = 0;
        while p < count
            invariant
                self.fits(),
                p <= count,
                count <= all,
                count <= room,
                all == width * height,
                all == self.width() * self.height(),
                width == self.width(),
                height == self.height(),
                size == self.output_format.size(),
                2 <= size <= 4,
                room == total / size,
                total == output@.len(),
                output@.len() == old(output)@.len(),
                forall|k: int|
                    0 <= k < total ==> (#[trigger] output@[k]) == self.byte_after(
                        input@,
                        old(output)@,
                        p as int,
                        k,
                    ),
            decreases count - p,
        {
            assert(width > 0 && height > 0) by (nonlinear_arith)
                requires
                    (p as int) < width * height,
                    p >= 0,
                    width >= 0,
                    height >= 0,
            ;
            let row: usize = p / width;
            let x: usize = p % width;
            assert(row < height) by (nonlinear_arith)
                requires
                    row as int == p as int / width as int,
                    (p as int) < width * height,
                    width > 0,
            ;
            let y: usize = if self.flip {
                height - 1 - row
            } else {
                row
            };
            let t: Totals = self.get_box(input, x as u64, y as u64);
            assert(t.sums() == self.pixel_sums(input@, p as int));
            assert((p + 1) * size <= room * size && room * size <= total) by (nonlinear_arith)
                requires
                    p + 1 <= room,
                    room as int == total as int / size as int,
                    size > 0,
            ;
            assert((p + 1) * size == p * size + size) by (nonlinear_arith);
            let at: usize = p * size;
            let ghost before = output@;
            if t.count > 0 {
                self.output_format.encode_at(t.mean(), output, at);
            }
            p = p + 1;
            proof {
                let done = p - 1;
                assert forall|k: int| 0 <= k < total implies (#[trigger] output@[k])
                    == self.byte_after(input@, old(output)@, p as int, k) by {
                    assert(before[k] == self.byte_after(input@, old(output)@, done, k));
                    lemma_pixel_of(k, size as int, done);
                }
            }
        }
        proof {
            let goal = self.transferred(input@, old(output)@);
            assert forall|k: int| 0 <= k < total implies output@[k] == goal[k] by {
                let q = k / size as int;
                if q >= count {
                    // A pixel that does not fit, or is none of the picture.
                    if q < all {
                        assert((q + 1) * size > total) by (nonlinear_arith)
                            requires
                                q >= room,
                                room as int == total as int / size as int,
                                size > 0,
                        ;
                    }
                }
            }
            assert(output@ =~= goal);
        }
    }
}

/// The bytes of pixel `p` are those from `p * size` on.
proof fn lemma_pixel_of(k: int, size: int, p: int)
    requires
        size > 0,
        k >= 0,
        p >= 0,
    ensures
        k / size == p <==> p * size <= k < p * size + size,
        k / size == p ==> k % size == k - p * size,
        k / size < p + 1 <==> k / size < p || k / size == p,
{
    vstd::arithmetic::div_mod::lemma_fundamental_div_mod(k, size);
    vstd::arithmetic::div_mod::lemma_mod_bound(k, size);
    let q = k / size;
    assert(size * q == q * size) by (nonlinear_arith);
    if q < p {
        assert(q * size + size <= p * size) by (nonlinear_arith)
            requires
                q + 1 <= p,
                size > 0,
        ;
    } else if q > p {
        assert(p * size + size <= q * size) by (nonlinear_arith)
            requires
                p + 1 <= q,
                size > 0,
        ;
    }
}

/// A texture copy: bytes moved from lines of one width and gap to lines of
/// another. All quantities are in bytes.
#[derive(Clone, Copy, PartialEq, Eq, Structural, Debug)]
pub struct TextureCopy {
    pub size: usize,
    pub input_width: usize,
    pub input_gap: usize,
    pub output_width: usize,
    pub output_gap: usize,
}

/// The width and the gap of the lines that a register describes; without a gap
/// there is one unbroken run.
pub open spec fn line(register: u32, size: int) -> (int, int) {
    let gap = register / 0x1_0000 * 16;
    if gap == 0 {
        (size, 0)
    } else {
        (register % 0x1_0000 * 16, gap)
    }
}

/// Where byte `i` of the data lies among lines of `width` bytes with gaps
/// between them.
pub open spec fn place(i: int, width: int, gap: int) -> int {
    i + i / width * gap
}

impl TextureCopy {
    fn line_of(register: u32, size: usize) -> (r: (usize, usize))
        ensures
            (r.0 as int, r.1 as int) == line(register, size as int),
            r.1 <= 0xF_FFF0,
    {
        let gap: usize = (register / 0x1_0000) as usize * 16;
        if gap == 0 {
            (size, 0)
        } else {
            ((register % 0x1_0000) as usize * 16, gap)
        }
    }

    /// Decode the size register and the two line registers (width in bits
    /// 0-15, gap above, both in units of 16 bytes). The size rounds down to
    /// 16 bytes. A line register with no gap means one unbroken run.
    pub fn from_registers(size: u32, input: u32, output: u32) -> (r: TextureCopy)
        ensures
            r.size == size / 16 * 16,
            (r.input_width as int, r.input_gap as int) == line(input, r.size as int),
            (r.output_width as int, r.output_gap as int) == line(output, r.size as int),
            r.fits(),
    {
        let size: usize = (size / 16 * 16) as usize;
        let (input_width, input_gap) = TextureCopy::line_of(input, size);
        let (output_width, output_gap) = TextureCopy::line_of(output, size);
        TextureCopy { size, input_width, input_gap, output_width, output_gap }
    }

    /// Whether the quantities are such that offsets can be computed.
    pub open spec fn fits(self) -> bool {
        self.size <= 0xFFFF_FFFF && self.input_gap <= 0xFFFF_FFFF && self.output_gap <= 0xFFFF_FFFF
    }

    /// The bytes from the start of the lines to the end of the last byte.
    pub open spec fn extent(self, width: int, gap: int) -> int {
        if self.size == 0 || width == 0 {
            0
        } else {
            place(self.size - 1, width, gap) + 1
        }
    }

    fn span(&self, width: usize, gap: usize) -> (r: usize)
        requires
            self.extent(width as int, gap as int) <= usize::MAX,
        ensures
            r == self.extent(width as int, gap as int),
    {
        if self.size == 0 || width == 0 {
            return 0;
        }
        let last: usize = self.size - 1;
        let lines: usize = last / width;
        assert(0 <= lines * gap);
        last + lines * gap + 1
    }

    /// Bytes from the input address to the end of the last byte read.
    pub fn input_len(&self) -> (r: usize)
        requires
            self.extent(self.input_width as int, self.input_gap as int) <= usize::MAX,
        ensures
            r == self.extent(self.input_width as int, self.input_gap as int),
    {
        self.span(self.input_width, self.input_gap)
    }

    /// Bytes from the output address to the end of the last byte written.
    pub fn output_len(&self) -> (r: usize)
        requires
            self.extent(self.output_width as int, self.output_gap as int) <= usize::MAX,
        ensures
            r == self.extent(self.output_width as int, self.output_gap as int),
    {
        self.span(self.output_width, self.output_gap)
    }

    /// Where byte `i` is read.
    pub open spec fn source(self, i: int) -> int {
        place(i, self.input_width as int, self.input_gap as int)
    }

    /// Where byte `i` is written.
    pub open spec fn target(self, i: int) -> int {
        place(i, self.output_width as int, self.output_gap as int)
    }

    /// The output after the first `n` bytes; those outside the slices are
    /// skipped.
    pub open spec fn copied(self, input: Seq<u8>, output: Seq<u8>, n: nat) -> Seq<u8>
        decreases n,
    {
        if n == 0 {
            output
        } else {
            let before = self.copied(input, output, (n - 1) as nat);
            let s = self.source(n - 1);
            let d = self.target(n - 1);
            if 0 <= s < input.len() && 0 <= d < before.len() {
                before.update(d, input[s])
            } else {
                before
            }
        }
    }

    /// Copy. A gap with no line width is not a valid setting and copies
    /// nothing; bytes outside the slices are skipped.
    pub fn run(&self, input: &[u8], output: &mut [u8])
        requires
            self.fits(),
        ensures
            final(output)@ == if self.input_width == 0 || self.output_width == 0 {
                old(output)@
            } else {
                self.copied(input@, old(output)@, self.size as nat)
            },
    {
        if self.input_width == 0 || self.output_width == 0 {
            return;
        }
        let from: usize = input.len();
        let to: usize = output.len();
        let mut src: u128 = 0;
        let mut dst: u128 = 0;
        let mut in_left: usize = self.input_width;
        let mut out_left: usize = self.output_width;
        let mut i: usize = 0;
        proof {
            lemma_place_start(self.input_width as int);
            lemma_place_start(self.output_width as int);
        }
        while i < self.size
            invariant
                self.fits(),
                self.input_width > 0,
                self.output_width > 0,
                i <= self.size,
                from == input@.len(),
                to == output@.len(),
                src == self.source(i as int),
                dst == self.target(i as int),
                in_left == self.input_width - i as int % self.input_width as int,
                out_left == self.output_width - i as int % self.output_width as int,
                output@ == self.copied(input@, old(output)@, i as nat),
            decreases self.size - i,
        {
            if src < from as u128 && dst < to as u128 {
                output[dst as usize] = input[src as usize];
            }
            proof {
                lemma_next_place(i as int, self.input_width as int, self.input_gap as int);
                lemma_next_place(i as int, self.output_width as int, self.output_gap as int);
            }
            i = i + 1;
            src = src + 1;
            dst = dst + 1;
            in_left = in_left - 1;
            out_left = out_left - 1;
            if in_left == 0 {
                src = src + self.input_gap as u128;
                in_left = self.input_width;
            }
            if out_left == 0 {
                dst = dst + self.output_gap as u128;
                out_left = self.output_width;
            }
        }
    }
}

proof fn lemma_place_start(width: int)
    requires
        width > 0,
    ensures
        0int / width == 0,
        0int % width == 0,
{
    vstd::arithmetic::div_mod::lemma_small_mod(0, width as nat);
    vstd::arithmetic::div_mod::lemma_div_basics(width);
}

/// From one byte to the next: a gap lies between them where a line is full.
proof fn lemma_next_place(i: int, width: int, gap: int)
    requires
        width > 0,
        0 <= i <= 0xFFFF_FFFF,
        0 <= gap <= 0xFFFF_FFFF,
    ensures
        i % width + 1 == width ==> (i + 1) % width == 0 && place(i + 1, width, gap) == place(
            i,
            width,
            gap,
        ) + 1 + gap,
        i % width + 1 < width ==> (i + 1) % width == i % width + 1 && place(i + 1, width, gap)
            == place(i, width, gap) + 1,
        0 <= i % width < width,
        0 <= place(i, width, gap) <= 0xFFFF_FFFF + 0xFFFF_FFFF * 0xFFFF_FFFF,
{
    vstd::arithmetic::div_mod::lemma_fundamental_div_mod(i, width);
    vstd::arithmetic::div_mod::lemma_mod_bound(i, width);
    let q = i / width;
    let r = i % width;
    if r + 1 == width {
        assert(i + 1 == width * (q + 1) + 0) by (nonlinear_arith)
            requires
                i == width * q + r,
                r + 1 == width,
        ;
        assert(width * (q + 1) == (q + 1) * width) by (nonlinear_arith);
        vstd::arithmetic::div_mod::lemma_fundamental_div_mod_converse(i + 1, width, q + 1, 0);
        assert((q + 1) * gap == q * gap + gap) by (nonlinear_arith);
    } else {
        assert(width * q == q * width) by (nonlinear_arith);
        assert(i + 1 == q * width + (r + 1));
        vstd::arithmetic::div_mod::lemma_fundamental_div_mod_converse(i + 1, width, q, r + 1);
    }
    assert(0 <= q <= i) by (nonlinear_arith)
        requires
            q == i / width,
            i >= 0,
            width > 0,
    ;
    assert(0 <= q * gap <= 0xFFFF_FFFF * 0xFFFF_FFFF) by (nonlinear_arith)
        requires
            0 <= q <= 0xFFFF_FFFF,
            0 <= gap <= 0xFFFF_FFFF,
    ;
}

/// Later bytes lie further on.
proof fn lemma_place_grows(i: int, j: int, width: int, gap: int)
    requires
        width > 0,
        gap >= 0,
        0 <= i < j,
    ensures
        place(i, width, gap) < place(j, width, gap),
{
    let a = i / width;
    let b = j / width;
    assert(a <= b) by {
        vstd::arithmetic::div_mod::lemma_div_is_ordered(i, j, width);
    }
    assert(a * gap <= b * gap) by (nonlinear_arith)
        requires
            a <= b,
            gap >= 0,
    ;
}

/// Every byte whose two places lie inside the slices is copied.
pub proof fn law_texture_copy(t: TextureCopy, input: Seq<u8>, output: Seq<u8>, n: nat, i: int)
    requires
        t.input_width > 0,
        t.output_width > 0,
        0 <= i < n,
        t.source(i) < input.len(),
        t.target(i) < output.len(),
    ensures
        t.copied(input, output, n)[t.target(i)] == input[t.source(i)],
        t.copied(input, output, n).len() == output.len(),
    decreases n,
{
    lemma_copied_len(t, input, output, n);
    lemma_copied_len(t, input, output, (n - 1) as nat);
    assert(0 <= t.target(i)) by (nonlinear_arith)
        requires
            t.target(i) == i + (i / t.output_width as int) * t.output_gap,
            i >= 0,
            t.output_width > 0,
            t.output_gap >= 0,
    ;
    assert(0 <= t.source(i)) by (nonlinear_arith)
        requires
            t.source(i) == i + (i / t.input_width as int) * t.input_gap,
            i >= 0,
            t.input_width > 0,
            t.input_gap >= 0,
    ;
    if i < n - 1 {
        law_texture_copy(t, input, output, (n - 1) as nat, i);
        lemma_place_grows(i, n - 1, t.output_width as int, t.output_gap as int);
    }
}

/// A place of the output that no byte is meant for keeps what it held.
pub proof fn law_texture_copy_keeps_the_rest(
    t: TextureCopy,
    input: Seq<u8>,
    output: Seq<u8>,
    n: nat,
    p: int,
)
    requires
        0 <= p < output.len(),
        forall|i: int| 0 <= i < n ==> #[trigger] t.target(i) != p,
    ensures
        t.copied(input, output, n)[p] == output[p],
    decreases n,
{
    if n > 0 {
        lemma_copied_len(t, input, output, (n - 1) as nat);
        law_texture_copy_keeps_the_rest(t, input, output, (n - 1) as nat, p);
        assert(t.target(n - 1) != p);
    }
}

proof fn lemma_copied_len(t: TextureCopy, input: Seq<u8>, output: Seq<u8>, n: nat)
    ensures
        t.copied(input, output, n).len() == output.len(),
    decreases n,
{
    if n > 0 {
        lemma_copied_len(t, input, output, (n - 1) as nat);
    }
}

} // verus!

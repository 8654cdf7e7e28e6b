//! Arranging a console's displays into one image.
//!
//! Frontends draw a single picture. A console with several displays (the 3DS)
//! has them stacked top to bottom, each centred horizontally, which is how
//! the hardware is built; a console with one display is laid out as itself.

use crate::emu::video::{pixel_count, Frame};
use crate::emu::Screen;
use vstd::prelude::*;

verus! {

/// Where each display of a system sits in the composed image.
#[derive(Clone, Debug)]
pub struct Layout {
    pub width: u16,
    pub height: u16,
    pub screens: Vec<Screen>,
    pub origins: Vec<(u16, u16)>,
}

/// The width of the widest screen.
pub open spec fn widest(screens: Seq<Screen>) -> int
    decreases screens.len(),
{
    if screens.len() == 0 {
        0
    } else {
        let rest = widest(screens.drop_last());
        if screens.last().width > rest {
            screens.last().width as int
        } else {
            rest
        }
    }
}

/// The height of the screens on top of one another.
pub open spec fn stacked_height(screens: Seq<Screen>) -> int
    decreases screens.len(),
{
    if screens.len() == 0 {
        0
    } else {
        stacked_height(screens.drop_last()) + screens.last().height
    }
}

/// The top-left corner of screen `i`: centred, below the screens before it.
pub open spec fn stacked_origin(screens: Seq<Screen>, i: int) -> (int, int) {
    ((widest(screens) - screens[i].width) / 2, stacked_height(screens.take(i)))
}

proof fn lemma_widest(screens: Seq<Screen>)
    ensures
        0 <= widest(screens) <= u16::MAX,
        forall|i: int| 0 <= i < screens.len() ==> (#[trigger] screens[i]).width <= widest(screens),
    decreases screens.len(),
{
    if screens.len() > 0 {
        lemma_widest(screens.drop_last());
        assert forall|i: int| 0 <= i < screens.len() implies (#[trigger] screens[i]).width
            <= widest(screens) by {
            if i < screens.len() - 1 {
                assert(screens.drop_last()[i] == screens[i]);
            }
        }
    }
}

proof fn lemma_height_monotonic(screens: Seq<Screen>, i: int, j: int)
    requires
        0 <= i <= j <= screens.len(),
    ensures
        0 <= stacked_height(screens.take(i)) <= stacked_height(screens.take(j)),
        i < j ==> stacked_height(screens.take(i)) + screens[i].height <= stacked_height(
            screens.take(j),
        ),
    decreases j,
{
    if i < j {
        assert(screens.take(j).drop_last() =~= screens.take(j - 1));
        lemma_height_monotonic(screens, i, j - 1);
    } else if j > 0 {
        assert(screens.take(j).drop_last() =~= screens.take(j - 1));
        lemma_height_monotonic(screens, j - 1, j - 1);
    }
}

impl Layout {
    /// The layout that stacks its screens.
    pub open spec fn wf(self) -> bool {
        &&& self.width == widest(self.screens@)
        &&& self.height == stacked_height(self.screens@)
        &&& self.origins@.len() == self.screens@.len()
        &&& forall|i: int|
            0 <= i < self.origins@.len() ==> (
                (#[trigger] self.origins@[i]).0 as int,
                self.origins@[i].1 as int,
            ) == stacked_origin(self.screens@, i)
    }

    /// Stack `screens` vertically in order, centring each one.
    pub fn stacked(screens: &[Screen]) -> (r: Layout)
        requires
            stacked_height(screens@) <= u16::MAX,
        ensures
            r.screens@ == screens@,
            r.wf(),
    {
        let mut width: u16 = 0;
        let mut i: usize = 0;
        while i < screens.len()
            invariant
                i <= screens@.len(),
                width == widest(screens@.take(i as int)),
            decreases screens@.len() - i,
        {
            assert(screens@.take(i + 1).drop_last() =~= screens@.take(i as int));
            if screens[i].width > width {
                width = screens[i].width;
            }
            i = i + 1;
        }
        assert(screens@.take(i as int) =~= screens@);
        proof {
            lemma_widest(screens@);
        }
        let mut y: u16 = 0;
        let mut kept: Vec<Screen> = Vec::new();
        let mut origins: Vec<(u16, u16)> = Vec::new();
        i = 0;
        while i < screens.len()
            invariant
                i <= screens@.len(),
                width == widest(screens@),
                stacked_height(screens@) <= u16::MAX,
                forall|k: int|
                    0 <= k < screens@.len() ==> (#[trigger] screens@[k]).width <= width,
                y == stacked_height(screens@.take(i as int)),
                kept@ =~= screens@.take(i as int),
                origins@.len() == i,
                forall|k: int|
                    0 <= k < i ==> (
                        (#[trigger] origins@[k]).0 as int,
                        origins@[k].1 as int,
                    ) == stacked_origin(screens@, k),
            decreases screens@.len() - i,
        {
            proof {
                assert(screens@.take(i + 1).drop_last() =~= screens@.take(i as int));
                lemma_height_monotonic(screens@, i + 1, screens@.len() as int);
                assert(screens@.take(screens@.len() as int) =~= screens@);
            }
            let s: Screen = screens[i];
            assert(s == screens@[i as int]);
            origins.push(((width - s.width) / 2, y));
            kept.push(s);
            y = y + s.height;
            i = i + 1;
        }
        assert(screens@.take(i as int) =~= screens@);
        Layout { width, height: y, screens: kept, origins }
    }

    /// The top-left corner of display `index` in the composed image.
    pub fn origin(&self, index: usize) -> (r: Option<(u16, u16)>)
        ensures
            r == if index < self.origins@.len() {
                Some(self.origins@[index as int])
            } else {
                None
            },
    {
        if index < self.origins.len() {
            Some(self.origins[index])
        } else {
            None
        }
    }

    /// Whether the point lies on display `i`.
    pub open spec fn covers(self, i: int, x: u16, y: u16) -> bool {
        let o = self.origins@[i];
        let s = self.screens@[i];
        o.0 <= x < o.0 + s.width && o.1 <= y < o.1 + s.height
    }

    /// The display under the composed-image point `(x, y)`, with the point in
    /// that display's own coordinates.
    pub fn locate(&self, x: u16, y: u16) -> (r: Option<(usize, u16, u16)>)
        requires
            self.origins@.len() == self.screens@.len(),
        ensures
            match r {
                Some((i, sx, sy)) => {
                    &&& i < self.screens@.len()
                    &&& self.covers(i as int, x, y)
                    &&& forall|k: int| 0 <= k < i ==> !#[trigger] self.covers(k, x, y)
                    &&& sx == x - self.origins@[i as int].0
                    &&& sy == y - self.origins@[i as int].1
                },
                None => forall|k: int|
                    0 <= k < self.screens@.len() ==> !#[trigger] self.covers(k, x, y),
            },
    {
        let mut i: usize = 0;
        while i < self.screens.len()
            invariant
                i <= self.screens@.len(),
                self.origins@.len() == self.screens@.len(),
                forall|k: int| 0 <= k < i ==> !#[trigger] self.covers(k, x, y),
            decreases self.screens@.len() - i,
        {
            let (ox, oy): (u16, u16) = self.origins[i];
            let s: Screen = self.screens[i];
            if x >= ox && x - ox < s.width && y >= oy && y - oy < s.height {
                assert(self.covers(i as int, x, y));
                return Some((i, x - ox, y - oy));
            }
            i = i + 1;
        }
        None
    }

    /// The first display from number `i` on that holds a point.
    pub open spec fn first_from(self, x: u16, y: u16, i: int) -> Option<int>
        decreases self.screens@.len() - i,
    {
        if i >= self.screens@.len() {
            None
        } else if self.covers(i, x, y) {
            Some(i)
        } else {
            self.first_from(x, y, i + 1)
        }
    }

    /// The pixels of the composed image.
    pub open spec fn pixels(self) -> int {
        self.width * self.height
    }

    /// Byte `k` of the composed image: that of the display under its pixel, in
    /// the pictures `sources`, or black.
    pub open spec fn composed_byte(self, sources: Seq<Seq<u8>>, k: int) -> u8 {
        let x = k / 3 % self.width as int;
        let y = k / 3 / self.width as int;
        match self.first_from(x as u16, y as u16, 0) {
            Some(i) => {
                let (ox, oy) = self.origins@[i];
                sources[i][((y - oy) * self.screens@[i].width + (x - ox)) * 3 + k % 3]
            },
            None => 0,
        }
    }

    proof fn lemma_first(self, x: u16, y: u16, i: int, found: int)
        requires
            0 <= i <= found <= self.screens@.len(),
            forall|k: int| i <= k < found ==> !#[trigger] self.covers(k, x, y),
        ensures
            self.first_from(x, y, i) == self.first_from(x, y, found),
        decreases found - i,
    {
        if i < found {
            assert(!self.covers(i, x, y));
            self.lemma_first(x, y, i + 1, found);
        }
    }

    /// The colours of the pixel at (`x`, `y`) of the composed image.
    fn pixel(&self, sources: &Vec<Vec<u8>>, x: u16, y: u16, p: Ghost<int>) -> (r: (u8, u8, u8))
        requires
            self.origins@.len() == self.screens@.len(),
            sources@.len() == self.screens@.len(),
            forall|i: int|
                0 <= i < sources@.len() ==> (#[trigger] sources@[i])@.len() == self.screens@[i].width
                    * self.screens@[i].height * 3,
            x == p@ % self.width as int,
            y == p@ / self.width as int,
            p@ >= 0,
        ensures
            ({
                let views = sources@.map_values(|v: Vec<u8>| v@);
                &&& r.0 == self.composed_byte(views, p@ * 3)
                &&& r.1 == self.composed_byte(views, p@ * 3 + 1)
                &&& r.2 == self.composed_byte(views, p@ * 3 + 2)
            }),
    {
        assert(p@ * 3 / 3 == p@ && (p@ * 3 + 1) / 3 == p@ && (p@ * 3 + 2) / 3 == p@);
        match self.locate(x, y) {
            Some((i, sx, sy)) => {
                proof {
                    self.lemma_first(x, y, 0, i as int);
                }
                let source: &Vec<u8> = &sources[i];
                let w: usize = self.screens[i].width as usize;
                let n: usize = source.len();
                proof {
                    let h = self.screens@[i as int].height as int;
                    assert(source@.len() == w * h * 3);
                    assert(sy * w + w <= w * h) by (nonlinear_arith)
                        requires
                            sy + 1 <= h,
                            w >= 0,
                    ;
                    assert(0 <= sy * w) by (nonlinear_arith)
                        requires
                            sy >= 0,
                            w >= 0,
                    ;
                }
                let at: usize = (sy as usize * w + sx as usize) * 3;
                (source[at], source[at + 1], source[at + 2])
            },
            None => {
                proof {
                    self.lemma_first(x, y, 0, self.screens@.len() as int);
                }
                (0, 0, 0)
            },
        }
    }

    /// Every display in one frame, given the frames of the displays in order.
    /// A single display is returned untouched (shades included); several are
    /// composed in colour over black, with monochrome frames mapped through
    /// `palette`.
    pub fn compose(&self, frames: Vec<Frame>, palette: &[[u8; 4]]) -> (r: Frame)
        requires
            self.origins@.len() == self.screens@.len(),
            self.screens@.len() <= 1 ==> frames@.len() >= 1,
            self.screens@.len() > 1 ==> {
                &&& frames@.len() == self.screens@.len()
                &&& self.pixels() * 3 <= usize::MAX
                &&& forall|i: int|
                    0 <= i < frames@.len() ==> (#[trigger] frames@[i]).colours(palette@).len()
                        == self.screens@[i].width * self.screens@[i].height * 3
                &&& forall|i: int, k: int|
                    0 <= i < frames@.len() && (#[trigger] frames@[i]).rgb is None && 0 <= k
                        < frames@[i].shades@.len() ==> (#[trigger] frames@[i].shades@[k] % 4)
                        < palette@.len()
            },
        ensures
            self.screens@.len() <= 1 ==> r == frames@[0],
            self.screens@.len() > 1 ==> {
                &&& r.width == self.width
                &&& r.height == self.height
                &&& r.shades@ == Seq::new(self.pixels() as nat, |i: int| 0u8)
                &&& r.rgb is Some
                &&& r.rgb->0@ == Seq::new(
                    (self.pixels() * 3) as nat,
                    |k: int|
                        self.composed_byte(
                            frames@.map_values(|f: Frame| f.colours(palette@)),
                            k,
                        ),
                )
            },
    {
        if self.screens.len() <= 1 {
            let mut frames = frames;
            return frames.swap_remove(0);
        }
        let mut sources: Vec<Vec<u8>> = Vec::new();
        let mut i: usize = 0;
        while i < frames.len()
            invariant
                i <= frames@.len(),
                sources@.len() == i,
                forall|k: int|
                    0 <= k < i ==> (#[trigger] sources@[k])@ == frames@[k].colours(palette@),
                forall|i: int, k: int|
                    0 <= i < frames@.len() && (#[trigger] frames@[i]).rgb is None && 0 <= k
                        < frames@[i].shades@.len() ==> (#[trigger] frames@[i].shades@[k] % 4)
                        < palette@.len(),
            decreases frames@.len() - i,
        {
            sources.push(frames[i].to_rgb(palette));
            i = i + 1;
        }
        let ghost views = sources@.map_values(|v: Vec<u8>| v@);
        assert(views =~= frames@.map_values(|f: Frame| f.colours(palette@)));
        let total: usize = pixel_count(self.width, self.height);
        let mut rgb: Vec<u8> = Vec::new();
        let mut x: u16 = 0;
        let mut y: u16 = 0;
        let mut p: usize = 0;
        while p < total
            invariant
                self.origins@.len() == self.screens@.len(),
                sources@.len() == self.screens@.len(),
                forall|i: int|
                    0 <= i < sources@.len() ==> (#[trigger] sources@[i])@.len()
                        == self.screens@[i].width * self.screens@[i].height * 3,
                views == sources@.map_values(|v: Vec<u8>| v@),
                p <= total,
                total == self.width * self.height,
                self.width > 0 ==> x < self.width && p == y * self.width + x,
                self.width > 0 ==> x == p as int % self.width as int && y == p as int
                    / self.width as int,
                rgb@.len() == p * 3,
                forall|k: int| 0 <= k < p * 3 ==> (#[trigger] rgb@[k]) == self.composed_byte(views, k),
            decreases total - p,
        {
            assert(self.width > 0) by (nonlinear_arith)
                requires
                    (p as int) < self.width * self.height,
                    p >= 0,
                    self.width >= 0,
                    self.height >= 0,
            ;
            let (r, g, b) = self.pixel(&sources, x, y, Ghost(p as int));
            rgb.push(r);
            rgb.push(g);
            rgb.push(b);
            proof {
                lemma_next_pixel(p as int, self.width as int);
                assert(y < self.height) by (nonlinear_arith)
                    requires
                        p == y * self.width + x,
                        (p as int) < self.width * self.height,
                        x >= 0,
                        self.width > 0,
                ;
            }
            p = p + 1;
            if x + 1 == self.width {
                assert((y + 1) * self.width == y * self.width + self.width) by (nonlinear_arith);
                x = 0;
                y = y + 1;
            } else {
                x = x + 1;
            }
        }
        let mut out = Frame::new(self.width, self.height);
        assert(rgb@ =~= Seq::new(
            (self.pixels() * 3) as nat,
            |k: int| self.composed_byte(views, k),
        ));
        out.rgb = Some(rgb);
        out
    }
}

/// From one pixel to the next, row by row.
proof fn lemma_next_pixel(p: int, width: int)
    requires
        width > 0,
        p >= 0,
    ensures
        p % width + 1 == width ==> (p + 1) % width == 0 && (p + 1) / width == p / width + 1,
        p % width + 1 < width ==> (p + 1) % width == p % width + 1 && (p + 1) / width == p / width,
{
    vstd::arithmetic::div_mod::lemma_fundamental_div_mod(p, width);
    vstd::arithmetic::div_mod::lemma_mod_bound(p, width);
    let q = p / width;
    let r = p % width;
    assert(width * q == q * width && width * (q + 1) == (q + 1) * width && (q + 1) * width == q
        * width + width) by (nonlinear_arith);
    if r + 1 == width {
        vstd::arithmetic::div_mod::lemma_fundamental_div_mod_converse(p + 1, width, q + 1, 0);
    } else {
        vstd::arithmetic::div_mod::lemma_fundamental_div_mod_converse(p + 1, width, q, r + 1);
    }
}

/// Every display keeps its place: the corner of a stacked display and each
/// point on it are located on that display and no other.
pub proof fn law_locate_inverts_origin(layout: Layout, i: int, sx: int, sy: int)
    requires
        layout.wf(),
        0 <= i < layout.screens@.len(),
        0 <= sx < layout.screens@[i].width,
        0 <= sy < layout.screens@[i].height,
    ensures
        ({
            let x = layout.origins@[i].0 + sx;
            let y = layout.origins@[i].1 + sy;
            &&& x < layout.width
            &&& y < layout.height
            &&& layout.covers(i, x as u16, y as u16)
            &&& forall|k: int|
                0 <= k < layout.screens@.len() && k != i ==> !#[trigger] layout.covers(
                    k,
                    x as u16,
                    y as u16,
                )
        }),
{
    let screens = layout.screens@;
    lemma_widest(screens);
    lemma_height_monotonic(screens, i, screens.len() as int);
    assert(screens.take(screens.len() as int) =~= screens);
    let o = layout.origins@[i];
    assert((o.0 as int, o.1 as int) == stacked_origin(screens, i));
    assert(screens[i].width <= widest(screens));
    assert forall|k: int| 0 <= k < screens.len() && k != i implies !#[trigger] layout.covers(
        k,
        (o.0 + sx) as u16,
        (o.1 + sy) as u16,
    ) by {
        let p = layout.origins@[k];
        assert((p.0 as int, p.1 as int) == stacked_origin(screens, k));
        if k < i {
            lemma_height_monotonic(screens, k, i);
        } else {
            lemma_height_monotonic(screens, i, k);
        }
    }
}

} // verus!

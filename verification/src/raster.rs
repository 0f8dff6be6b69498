//! Rectangular pixel buffers.

use vstd::prelude::*;
use crate::pixel::{Layout, Pixel};

verus! {

/// Position of pixel `(x, y)` in a row-major buffer of rows `width` long.
pub open spec fn offset(width: nat, x: int, y: int) -> int {
    y * width + x
}

/// A pixel inside a `width` by `height` grid has its offset inside the
/// buffer of `width * height` pixels.
pub proof fn lemma_offset_in_range(width: nat, height: nat, x: int, y: int)
    requires
        0 <= x < width,
        0 <= y < height,
    ensures
        0 <= offset(width, x, y) < width * height,
{
    assert(y * width + x < width * height) by (nonlinear_arith)
        requires
            0 <= x < width,
            0 <= y < height,
    ;
}

/// Two pixels of one grid that share an offset are the same pixel.
pub proof fn lemma_offset_injective(width: nat, x1: int, y1: int, x2: int, y2: int)
    requires
        0 <= x1 < width,
        0 <= x2 < width,
        offset(width, x1, y1) == offset(width, x2, y2),
    ensures
        x1 == x2,
        y1 == y2,
{
    assert(y1 == y2) by (nonlinear_arith)
        requires
            0 <= x1 < width,
            0 <= x2 < width,
            y1 * width + x1 == y2 * width + x2,
    ;
}

/// Every offset below `width * height` belongs to exactly one pixel of the
/// grid, the one in column `i % width` of row `i / width`.
pub proof fn lemma_offset_split(width: nat, height: nat, i: int)
    requires
        0 <= i < width * height,
    ensures
        0 <= i % (width as int) < width,
        0 <= i / (width as int) < height,
        offset(width, i % (width as int), i / (width as int)) == i,
{
    let w = width as int;
    vstd::arithmetic::div_mod::lemma_fundamental_div_mod(i, w);
    vstd::arithmetic::div_mod::lemma_mod_bound(i, w);
    let q = i / w;
    assert(0 <= q < height) by (nonlinear_arith)
        requires
            0 <= i < w * height,
            w > 0,
            i == q * w + i % w,
            0 <= i % w < w,
    ;
}

/// The mathematical content of a [`Raster`]: its extent, its layout and its
/// pixels row by row.
pub struct RasterView {
    pub width: nat,
    pub height: nat,
    pub layout: Layout,
    pub pixels: Seq<Pixel>,
}

impl RasterView {
    /// Whether `(x, y)` addresses a pixel of the raster.
    pub open spec fn contains(self, x: int, y: int) -> bool {
        0 <= x < self.width && 0 <= y < self.height
    }

    /// The pixel at `(x, y)`.
    pub open spec fn at(self, x: int, y: int) -> Pixel {
        self.pixels[offset(self.width, x, y)]
    }

    /// The invariant of every raster: there is one pixel per position, the
    /// buffer is addressable, and each pixel is one that the layout can keep.
    pub open spec fn wf(self) -> bool {
        &&& self.width <= u32::MAX
        &&& self.height <= u32::MAX
        &&& self.width * self.height <= usize::MAX
        &&& self.pixels.len() == self.width * self.height
        &&& forall|i: int|
            0 <= i < self.pixels.len() ==> self.layout.stored(#[trigger] self.pixels[i])
                == self.pixels[i]
    }
}

/// Rasters of one extent and layout that agree at every position are equal.
pub proof fn lemma_same_pixels(a: RasterView, b: RasterView)
    requires
        a.wf(),
        b.wf(),
        a.width == b.width,
        a.height == b.height,
        a.layout == b.layout,
        forall|x: int, y: int| a.contains(x, y) ==> a.at(x, y) == b.at(x, y),
    ensures
        a == b,
{
    assert forall|i: int| 0 <= i < a.pixels.len() implies a.pixels[i] == b.pixels[i] by {
        lemma_offset_split(a.width, a.height, i);
        let x = i % (a.width as int);
        let y = i / (a.width as int);
        assert(a.at(x, y) == b.at(x, y));
    }
    assert(a.pixels =~= b.pixels);
}

/// A rectangular buffer of pixels, addressed by column `x` and row `y` from
/// the top left corner.
#[derive(Debug, PartialEq, Eq)]
pub struct Raster {
    width: u32,
    height: u32,
    layout: Layout,
    pixels: Vec<Pixel>,
}

impl View for Raster {
    type V = RasterView;

    closed spec fn view(&self) -> RasterView {
        RasterView {
            width: self.width as nat,
            height: self.height as nat,
            layout: self.layout,
            pixels: self.pixels@,
        }
    }
}

impl Raster {
    /// The invariant that every function of this library establishes and
    /// preserves.
    pub open spec fn wf(&self) -> bool {
        self@.wf()
    }

    /// A raster of the given extent in which every pixel is `fill`, as the
    /// layout keeps it.
    pub fn from_pixel(width: u32, height: u32, layout: Layout, fill: Pixel) -> (img: Raster)
        requires
            width * height <= usize::MAX,
        ensures
            img.wf(),
            img@.width == width,
            img@.height == height,
            img@.layout == layout,
            forall|x: int, y: int| img@.contains(x, y) ==> #[trigger] img@.at(x, y) == layout.stored(fill),
    {
        let p = layout.store(fill);
        let n: usize = (width as usize) * (height as usize);
        let mut pixels: Vec<Pixel> = Vec::new();
        let mut i: usize = 0;
        while i < n
            invariant
                i <= n,
                pixels@.len() == i,
                forall|k: int| 0 <= k < i ==> pixels@[k] == p,
            decreases n - i,
        {
            pixels.push(p);
            i = i + 1;
        }
        let img = Raster { width, height, layout, pixels };
        proof {
            assert forall|x: int, y: int| img@.contains(x, y) implies #[trigger] img@.at(x, y)
                == layout.stored(fill) by {
                lemma_offset_in_range(width as nat, height as nat, x, y);
            }
        }
        img
    }

    /// Number of columns.
    pub fn width(&self) -> (w: u32)
        ensures
            w == self@.width,
    {
        self.width
    }

    /// Number of rows.
    pub fn height(&self) -> (h: u32)
        ensures
            h == self@.height,
    {
        self.height
    }

    /// Number of columns and of rows.
    pub fn dimensions(&self) -> (d: (u32, u32))
        ensures
            d.0 == self@.width,
            d.1 == self@.height,
    {
        (self.width, self.height)
    }

    /// The channel layout.
    pub fn layout(&self) -> (l: Layout)
        ensures
            l == self@.layout,
    {
        self.layout
    }

    /// The pixel at `(x, y)`.
    pub fn get_pixel(&self, x: u32, y: u32) -> (p: Pixel)
        requires
            self.wf(),
            self@.contains(x as int, y as int),
        ensures
            p == self@.at(x as int, y as int),
            p == self@.layout.stored(p),
    {
        proof {
            lemma_offset_in_range(self.width as nat, self.height as nat, x as int, y as int);
        }
        let i: usize = (y as usize) * (self.width as usize) + (x as usize);
        self.pixels[i]
    }

    /// Writes `p` at `(x, y)`, as the layout keeps it; every other pixel
    /// stays as it was.
    pub fn put_pixel(&mut self, x: u32, y: u32, p: Pixel)
        requires
            old(self).wf(),
            old(self)@.contains(x as int, y as int),
        ensures
            final(self).wf(),
            final(self)@.width == old(self)@.width,
            final(self)@.height == old(self)@.height,
            final(self)@.layout == old(self)@.layout,
            final(self)@.at(x as int, y as int) == old(self)@.layout.stored(p),
            forall|u: int, v: int|
                old(self)@.contains(u, v) && (u != x || v != y) ==> #[trigger] final(self)@.at(u, v)
                    == old(self)@.at(u, v),
    {
        proof {
            lemma_offset_in_range(self.width as nat, self.height as nat, x as int, y as int);
        }
        let i: usize = (y as usize) * (self.width as usize) + (x as usize);
        let q = self.layout.store(p);
        self.pixels.set(i, q);
        proof {
            assert forall|u: int, v: int|
                old(self)@.contains(u, v) && (u != x || v != y) implies #[trigger] self@.at(u, v)
                == old(self)@.at(u, v) by {
                lemma_offset_in_range(self.width as nat, self.height as nat, u, v);
                if offset(self.width as nat, u, v) == offset(self.width as nat, x as int, y as int) {
                    lemma_offset_injective(self.width as nat, u, v, x as int, y as int);
                }
            }
        }
    }

    /// A copy of this raster.
    pub fn duplicate(&self) -> (img: Raster)
        requires
            self.wf(),
        ensures
            img@ == self@,
    {
        let pixels = self.pixels.clone();
        Raster { width: self.width, height: self.height, layout: self.layout, pixels }
    }

    /// This raster in another layout: every pixel as that layout keeps it.
    /// Going to a layout without alpha makes every pixel opaque.
    pub fn with_layout(self, layout: Layout) -> (img: Raster)
        requires
            self.wf(),
        ensures
            img.wf(),
            img@.width == self@.width,
            img@.height == self@.height,
            img@.layout == layout,
            img@.pixels.len() == self@.pixels.len(),
            forall|i: int|
                0 <= i < self@.pixels.len() ==> #[trigger] img@.pixels[i] == layout.stored(
                    self@.pixels[i],
                ),
            forall|x: int, y: int|
                self@.contains(x, y) ==> #[trigger] img@.at(x, y) == layout.stored(self@.at(x, y)),
    {
        let mut img = self;
        let n = img.pixels.len();
        let mut i: usize = 0;
        while i < n
            invariant
                i <= n,
                n == self.pixels@.len(),
                img.pixels@.len() == n,
                img.width == self.width,
                img.height == self.height,
                forall|k: int| 0 <= k < i ==> #[trigger] img.pixels@[k] == layout.stored(self.pixels@[k]),
                forall|k: int| i <= k < n ==> #[trigger] img.pixels@[k] == self.pixels@[k],
            decreases n - i,
        {
            let p = img.pixels[i];
            img.pixels.set(i, layout.store(p));
            i = i + 1;
        }
        img.layout = layout;
        proof {
            assert forall|x: int, y: int| self@.contains(x, y) implies #[trigger] img@.at(x, y)
                == layout.stored(self@.at(x, y)) by {
                lemma_offset_in_range(self.width as nat, self.height as nat, x, y);
            }
        }
        img
    }

    /// The pixels as bytes, four per pixel in the order red, green, blue,
    /// alpha, row by row.
    pub fn to_raw(&self) -> (bytes: Vec<u8>)
        requires
            self.wf(),
            4 * (self@.width * self@.height) <= usize::MAX,
        ensures
            bytes@ == raw_bytes(self@.pixels),
    {
        let n = self.pixels.len();
        let mut bytes: Vec<u8> = Vec::new();
        let mut i: usize = 0;
        while i < n
            invariant
                i <= n,
                n == self.pixels@.len(),
                4 * n <= usize::MAX,
                bytes@.len() == 4 * i,
                forall|k: int| 0 <= k < 4 * i ==> bytes@[k] == #[trigger] raw_bytes(self.pixels@)[k],
            decreases n - i,
        {
            let p = self.pixels[i];
            bytes.push(p.r);
            bytes.push(p.g);
            bytes.push(p.b);
            bytes.push(p.a);
            i = i + 1;
        }
        bytes
    }

    /// The raster of the given extent whose pixels are read from `bytes`,
    /// four bytes per pixel in the order red, green, blue, alpha, row by row.
    /// `None` when `bytes` does not hold exactly one pixel per position.
    pub fn from_raw(width: u32, height: u32, layout: Layout, bytes: &Vec<u8>) -> (res: Option<
        Raster,
    >)
        ensures
            res is Some <==> bytes@.len() == 4 * (width * height),
            res matches Some(img) ==> {
                &&& img.wf()
                &&& img@.width == width
                &&& img@.height == height
                &&& img@.layout == layout
                &&& img@.pixels == pixels_of(layout, bytes@)
            },
    {
        assert(width * height <= 0xffff_ffff * 0xffff_ffff) by (nonlinear_arith)
            requires
                0 <= width <= 0xffff_ffff,
                0 <= height <= 0xffff_ffff,
        ;
        let count: u64 = (width as u64) * (height as u64);
        if bytes.len() % 4 != 0 || (bytes.len() / 4) as u64 != count {
            return None;
        }
        let n: usize = bytes.len() / 4;
        let mut pixels: Vec<Pixel> = Vec::new();
        let mut i: usize = 0;
        while i < n
            invariant
                i <= n,
                bytes@.len() == 4 * n,
                4 * n <= usize::MAX,
                pixels@.len() == i,
                forall|k: int| 0 <= k < i ==> pixels@[k] == #[trigger] pixels_of(layout, bytes@)[k],
            decreases n - i,
        {
            let p = Pixel {
                r: bytes[4 * i],
                g: bytes[4 * i + 1],
                b: bytes[4 * i + 2],
                a: bytes[4 * i + 3],
            };
            pixels.push(layout.store(p));
            i = i + 1;
        }
        assert(pixels@ =~= pixels_of(layout, bytes@));
        Some(Raster { width, height, layout, pixels })
    }
}

/// The pixel-query contract shared by rasters and by read-only views of
/// them.
pub trait ImageView {
    /// Whether the value is in a state in which it may be queried.
    spec fn view_wf(&self) -> bool;

    /// Number of columns shown.
    spec fn view_width(&self) -> nat;

    /// Number of rows shown.
    spec fn view_height(&self) -> nat;

    /// The pixel shown at `(x, y)`.
    spec fn view_at(&self, x: int, y: int) -> Pixel;

    /// Number of columns.
    fn width(&self) -> (w: u32)
        requires
            self.view_wf(),
        ensures
            w == self.view_width(),
    ;

    /// Number of rows.
    fn height(&self) -> (h: u32)
        requires
            self.view_wf(),
        ensures
            h == self.view_height(),
    ;

    /// The pixel at `(x, y)`.
    fn get_pixel(&self, x: u32, y: u32) -> (p: Pixel)
        requires
            self.view_wf(),
            x < self.view_width(),
            y < self.view_height(),
        ensures
            p == self.view_at(x as int, y as int),
    ;
}

impl ImageView for Raster {
    open spec fn view_wf(&self) -> bool {
        self.wf()
    }

    open spec fn view_width(&self) -> nat {
        self@.width
    }

    open spec fn view_height(&self) -> nat {
        self@.height
    }

    open spec fn view_at(&self, x: int, y: int) -> Pixel {
        self@.at(x, y)
    }

    fn width(&self) -> (w: u32) {
        self.width
    }

    fn height(&self) -> (h: u32) {
        self.height
    }

    fn get_pixel(&self, x: u32, y: u32) -> (p: Pixel) {
        Raster::get_pixel(self, x, y)
    }
}

/// The bytes of a row of pixels: four per pixel, in the order red, green,
/// blue, alpha.
pub open spec fn raw_bytes(pixels: Seq<Pixel>) -> Seq<u8> {
    Seq::new(
        4 * pixels.len(),
        |k: int|
            {
                let p = pixels[k / 4];
                if k % 4 == 0 {
                    p.r
                } else if k % 4 == 1 {
                    p.g
                } else if k % 4 == 2 {
                    p.b
                } else {
                    p.a
                }
            },
    )
}

/// The pixels that a raster of the given layout reads from bytes laid out as
/// by [`raw_bytes`].
pub open spec fn pixels_of(layout: Layout, bytes: Seq<u8>) -> Seq<Pixel> {
    Seq::new(
        bytes.len() / 4,
        |i: int|
            layout.stored(
                Pixel { r: bytes[4 * i], g: bytes[4 * i + 1], b: bytes[4 * i + 2], a: bytes[4 * i + 3] },
            ),
    )
}

/// Writing a raster out as bytes and reading it back gives the same raster.
pub proof fn lemma_raw_round_trip(img: RasterView)
    requires
        img.wf(),
    ensures
        pixels_of(img.layout, raw_bytes(img.pixels)) == img.pixels,
{
}

} // verus!

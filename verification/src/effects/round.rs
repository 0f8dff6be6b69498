//! Rounded-rectangle masking.

use vstd::prelude::*;
use crate::error::InvalidConfiguration;
use crate::pixel::{Layout, Pixel};
use crate::raster::{ImageView, Raster};

verus! {

/// Squared Euclidean distance between two points.
pub open spec fn sq_dist(ax: int, ay: int, bx: int, by: int) -> int {
    (ax - bx) * (ax - bx) + (ay - by) * (ay - by)
}

/// Whether `(x, y)` lies on or within the circle of the given radius around
/// `(cx, cy)`.
pub open spec fn in_circle(cx: int, cy: int, radius: int, x: int, y: int) -> bool {
    sq_dist(cx, cy, x, y) <= radius * radius
}

/// Whether a rounded rectangle of the given extent and corner radius holds
/// `(x, y)`.
///
/// Everything is inside but for the four corner squares of side `radius`;
/// in a corner square a point is inside when it is no further than `radius`
/// from the centre of that corner's circle, the boundary included.
pub open spec fn rounded_contains(width: int, height: int, radius: int, x: int, y: int) -> bool {
    if radius <= x <= width - radius || radius <= y <= height - radius {
        true
    } else {
        let cx = if x < radius {
            radius
        } else {
            width - radius
        };
        let cy = if y < radius {
            radius
        } else {
            height - radius
        };
        in_circle(cx, cy, radius, x, y)
    }
}

/// Whether `(x, y)` is within `radius` of any of the four circle centres.
pub open spec fn near_any_centre(width: int, height: int, radius: int, x: int, y: int) -> bool {
    ||| in_circle(radius, radius, radius, x, y)
    ||| in_circle(width - radius, radius, radius, x, y)
    ||| in_circle(radius, height - radius, radius, x, y)
    ||| in_circle(width - radius, height - radius, radius, x, y)
}

proof fn lemma_square_monotone(a: int, b: int)
    requires
        0 <= a <= b,
    ensures
        a * a <= b * b,
{
    assert(a * a <= b * b) by (nonlinear_arith)
        requires
            0 <= a <= b,
    ;
}

proof fn lemma_square_even(a: int)
    ensures
        (-a) * (-a) == a * a,
{
    assert((-a) * (-a) == a * a) by (nonlinear_arith);
}

/// Outside the two bands, the centre of a point's own corner is the nearest
/// of the four, so testing all four centres is testing that one.
pub proof fn lemma_own_corner_is_nearest(width: int, height: int, radius: int, x: int, y: int)
    requires
        0 <= radius,
        2 * radius <= width,
        2 * radius <= height,
        !(radius <= x <= width - radius),
        !(radius <= y <= height - radius),
    ensures
        near_any_centre(width, height, radius, x, y) == rounded_contains(
            width,
            height,
            radius,
            x,
            y,
        ),
{
    let cx = if x < radius {
        radius
    } else {
        width - radius
    };
    let cy = if y < radius {
        radius
    } else {
        height - radius
    };
    let ox = if x < radius {
        width - radius
    } else {
        radius
    };
    let oy = if y < radius {
        height - radius
    } else {
        radius
    };
    // Distances along each axis to the own centre and to the other one.
    let dx = if x < radius {
        cx - x
    } else {
        x - cx
    };
    let dy = if y < radius {
        cy - y
    } else {
        y - cy
    };
    let ex = if x < radius {
        ox - x
    } else {
        x - ox
    };
    let ey = if y < radius {
        oy - y
    } else {
        y - oy
    };
    lemma_square_monotone(dx, ex);
    lemma_square_monotone(dy, ey);
    lemma_square_even(cx - x);
    lemma_square_even(cy - y);
    lemma_square_even(ox - x);
    lemma_square_even(oy - y);
}

/// A rounded rectangle is its own mirror image across both centre lines of
/// the `width` by `height` rectangle: reflecting a point into any of the
/// other three corners does not change whether it is inside.
pub proof fn lemma_rounded_symmetric(width: int, height: int, radius: int, x: int, y: int)
    requires
        0 <= radius,
        2 * radius <= width,
        2 * radius <= height,
    ensures
        rounded_contains(width, height, radius, width - x, y) == rounded_contains(
            width,
            height,
            radius,
            x,
            y,
        ),
        rounded_contains(width, height, radius, x, height - y) == rounded_contains(
            width,
            height,
            radius,
            x,
            y,
        ),
        rounded_contains(width, height, radius, width - x, height - y) == rounded_contains(
            width,
            height,
            radius,
            x,
            y,
        ),
{
    // The centre of the mirrored point's corner is the mirror of the centre,
    // so both are equally far from their centres.
    let cx = if x < radius {
        radius
    } else {
        width - radius
    };
    let cy = if y < radius {
        radius
    } else {
        height - radius
    };
    lemma_square_even(cx - x);
    lemma_square_even(cy - y);
}

/// Shape parameters of a rounded rectangle: its extent and the radius of its
/// four corner circles.
#[derive(Clone, Copy, Debug)]
pub struct Checker {
    pub width: u32,
    pub height: u32,
    pub radius: u32,
}

/// Squared distance between `from` and `to`, wide enough never to overflow.
fn dist(from: (u32, u32), to: (u32, u32)) -> (d: u128)
    ensures
        d == sq_dist(from.0 as int, from.1 as int, to.0 as int, to.1 as int),
{
    let a: u128 = if from.0 > to.0 {
        (from.0 - to.0) as u128
    } else {
        (to.0 - from.0) as u128
    };
    let b: u128 = if from.1 > to.1 {
        (from.1 - to.1) as u128
    } else {
        (to.1 - from.1) as u128
    };
    assert(a * a <= 0xffff_ffff * 0xffff_ffff) by (nonlinear_arith)
        requires
            a <= 0xffff_ffff,
    ;
    assert(b * b <= 0xffff_ffff * 0xffff_ffff) by (nonlinear_arith)
        requires
            b <= 0xffff_ffff,
    ;
    assert(a * a == (from.0 - to.0) * (from.0 - to.0)) by (nonlinear_arith)
        requires
            a == from.0 - to.0 || a == to.0 - from.0,
    ;
    assert(b * b == (from.1 - to.1) * (from.1 - to.1)) by (nonlinear_arith)
        requires
            b == from.1 - to.1 || b == to.1 - from.1,
    ;
    a * a + b * b
}

impl Checker {
    /// Whether the radius is at most half the smaller dimension.
    pub open spec fn valid(&self) -> bool {
        2 * self.radius <= self.width && 2 * self.radius <= self.height
    }

    /// Whether the shape holds `(x, y)`.
    pub open spec fn inside(&self, x: int, y: int) -> bool {
        rounded_contains(self.width as int, self.height as int, self.radius as int, x, y)
    }

    /// The shape of the given extent and corner radius, or
    /// [`InvalidConfiguration::Radius`] when the radius is larger than half
    /// the smaller dimension.
    pub fn new(width: u32, height: u32, radius: u32) -> (res: Result<
        Checker,
        InvalidConfiguration,
    >)
        ensures
            res is Ok <==> 2 * radius <= width && 2 * radius <= height,
            res matches Ok(c) ==> c.width == width && c.height == height && c.radius == radius
                && c.valid(),
            res matches Err(e) ==> e == InvalidConfiguration::Radius,
    {
        if radius > width / 2 || radius > height / 2 {
            Err(InvalidConfiguration::Radius)
        } else {
            Ok(Checker { width, height, radius })
        }
    }

    /// Whether the shape holds `(x, y)`.
    pub fn contains(&self, x: u32, y: u32) -> (b: bool)
        requires
            self.valid(),
        ensures
            b == self.inside(x as int, y as int),
    {
        let radius = self.radius;
        let w = self.width;
        let h = self.height;
        if x >= radius && x <= w - radius {
            return true;
        }
        if y >= radius && y <= h - radius {
            return true;
        }
        assert(radius * radius <= 0xffff_ffff * 0xffff_ffff) by (nonlinear_arith)
            requires
                0 <= radius <= 0xffff_ffff,
        ;
        let square: u128 = (radius as u128) * (radius as u128);
        let positions: [(u32, u32); 4] = [
            (radius, radius),
            (w - radius, radius),
            (radius, h - radius),
            (w - radius, h - radius),
        ];
        proof {
            lemma_own_corner_is_nearest(w as int, h as int, radius as int, x as int, y as int);
        }
        let mut i: usize = 0;
        while i < 4
            invariant
                i <= 4,
                square == radius * radius,
                positions[0] == (radius, radius),
                positions[1] == ((w - radius) as u32, radius),
                positions[2] == (radius, (h - radius) as u32),
                positions[3] == ((w - radius) as u32, (h - radius) as u32),
                forall|k: int|
                    0 <= k < i ==> !in_circle(
                        (#[trigger] positions[k]).0 as int,
                        positions[k].1 as int,
                        radius as int,
                        x as int,
                        y as int,
                    ),
                near_any_centre(w as int, h as int, radius as int, x as int, y as int)
                    == self.inside(x as int, y as int),
                radius <= w,
                radius <= h,
            decreases 4 - i,
        {
            if dist(positions[i], (x, y)) <= square {
                return true;
            }
            i = i + 1;
        }
        false
    }
}

/// Whether `(u, v)` comes before `(x, y)` when a raster is walked row by row.
spec fn walked(u: int, v: int, x: int, y: int) -> bool {
    v < y || (v == y && u < x)
}

/// What a rounded rectangle of the extent of `img` shows at `(x, y)`: the
/// pixel of `img` inside the shape, `fill` outside it.
pub open spec fn masked_at(
    img: crate::raster::RasterView,
    radius: int,
    fill: Pixel,
    x: int,
    y: int,
) -> Pixel {
    if rounded_contains(img.width as int, img.height as int, radius, x, y) {
        img.at(x, y)
    } else {
        fill
    }
}

/// Rounds the corners of `img` in place: every pixel outside the rounded
/// rectangle of the given radius becomes the blank pixel of the layout
/// (transparent, or white where there is no alpha channel).
///
/// A radius larger than half the smaller dimension is rejected and `img` is
/// left as it was.
pub fn apply(img: &mut Raster, radius: u32) -> (res: Result<(), InvalidConfiguration>)
    requires
        old(img).wf(),
    ensures
        final(img).wf(),
        res is Ok <==> 2 * radius <= old(img)@.width && 2 * radius <= old(img)@.height,
        res matches Err(e) ==> e == InvalidConfiguration::Radius && final(img)@ == old(img)@,
        res is Ok ==> {
            &&& final(img)@.width == old(img)@.width
            &&& final(img)@.height == old(img)@.height
            &&& final(img)@.layout == old(img)@.layout
            &&& forall|x: int, y: int|
                old(img)@.contains(x, y) ==> #[trigger] final(img)@.at(x, y) == masked_at(
                    old(img)@,
                    radius as int,
                    old(img)@.layout.blank(),
                    x,
                    y,
                )
        },
{
    let w = img.width();
    let h = img.height();
    let checker = match Checker::new(w, h, radius) {
        Ok(c) => c,
        Err(e) => {
            return Err(e);
        },
    };
    let fill = img.layout().blank_pixel();
    let mut y: u32 = 0;
    while y < h
        invariant
            y <= h,
            img.wf(),
            checker.valid(),
            checker.width == w,
            checker.height == h,
            checker.radius == radius,
            fill == old(img)@.layout.blank(),
            img@.width == old(img)@.width == w,
            img@.height == old(img)@.height == h,
            img@.layout == old(img)@.layout,
            forall|u: int, v: int|
                old(img)@.contains(u, v) ==> #[trigger] img@.at(u, v) == (if v < y {
                    masked_at(old(img)@, radius as int, fill, u, v)
                } else {
                    old(img)@.at(u, v)
                }),
        decreases h - y,
    {
        let mut x: u32 = 0;
        while x < w
            invariant
                x <= w,
                y < h,
                img.wf(),
                checker.valid(),
                checker.width == w,
                checker.height == h,
                checker.radius == radius,
                fill == old(img)@.layout.blank(),
                img@.width == old(img)@.width == w,
                img@.height == old(img)@.height == h,
                img@.layout == old(img)@.layout,
                forall|u: int, v: int|
                    old(img)@.contains(u, v) ==> #[trigger] img@.at(u, v) == (if walked(
                        u,
                        v,
                        x as int,
                        y as int,
                    ) {
                        masked_at(old(img)@, radius as int, fill, u, v)
                    } else {
                        old(img)@.at(u, v)
                    }),
            decreases w - x,
        {
            if !checker.contains(x, y) {
                img.put_pixel(x, y, fill);
            }
            x = x + 1;
        }
        y = y + 1;
    }
    Ok(())
}

/// A read-only view of a raster through a rounded rectangle: inside the
/// shape it shows the raster, outside it shows transparent black. The raster
/// itself is not touched and can serve other effects.
pub struct Rounded<'a> {
    origin: &'a Raster,
    checker: Checker,
}

impl<'a> Rounded<'a> {
    /// The raster behind the view.
    pub closed spec fn source(&self) -> crate::raster::RasterView {
        self.origin@
    }

    /// The corner radius of the view.
    pub closed spec fn radius(&self) -> nat {
        self.checker.radius as nat
    }

    /// The invariant of a view: its shape has the extent of its raster and a
    /// radius of at most half the smaller dimension.
    pub closed spec fn wf(&self) -> bool {
        &&& self.origin.wf()
        &&& self.checker.valid()
        &&& self.checker.width == self.origin@.width
        &&& self.checker.height == self.origin@.height
    }

    /// What a valid view knows of its parts.
    pub proof fn lemma_wf(&self)
        requires
            self.wf(),
        ensures
            self.source().wf(),
            2 * self.radius() <= self.source().width,
            2 * self.radius() <= self.source().height,
    {
    }

    /// The view of `img` through a rounded rectangle of the given radius, or
    /// [`InvalidConfiguration::Radius`] when the radius is larger than half
    /// the smaller dimension of `img`.
    pub fn new(img: &'a Raster, radius: u32) -> (res: Result<Rounded<'a>, InvalidConfiguration>)
        requires
            img.wf(),
        ensures
            res is Ok <==> 2 * radius <= img@.width && 2 * radius <= img@.height,
            res matches Ok(view) ==> view.wf() && view.source() == img@ && view.radius()
                == radius,
            res matches Err(e) ==> e == InvalidConfiguration::Radius,
    {
        match Checker::new(img.width(), img.height(), radius) {
            Ok(checker) => Ok(Rounded { origin: img, checker }),
            Err(e) => Err(e),
        }
    }

    /// Number of columns and of rows.
    pub fn dimensions(&self) -> (d: (u32, u32))
        requires
            self.wf(),
        ensures
            d.0 == self.source().width,
            d.1 == self.source().height,
    {
        self.origin.dimensions()
    }

    /// The rectangle that the view covers: left, top, width and height.
    pub fn bounds(&self) -> (b: (u32, u32, u32, u32))
        requires
            self.wf(),
        ensures
            b.0 == 0,
            b.1 == 0,
            b.2 == self.source().width,
            b.3 == self.source().height,
    {
        (0, 0, self.origin.width(), self.origin.height())
    }
}

impl<'a> ImageView for Rounded<'a> {
    open spec fn view_wf(&self) -> bool {
        self.wf()
    }

    open spec fn view_width(&self) -> nat {
        self.source().width
    }

    open spec fn view_height(&self) -> nat {
        self.source().height
    }

    open spec fn view_at(&self, x: int, y: int) -> Pixel {
        masked_at(self.source(), self.radius() as int, Layout::Rgba.blank(), x, y)
    }

    fn width(&self) -> (w: u32) {
        self.origin.width()
    }

    fn height(&self) -> (h: u32) {
        self.origin.height()
    }

    fn get_pixel(&self, x: u32, y: u32) -> (p: Pixel) {
        if self.checker.contains(x, y) {
            self.origin.get_pixel(x, y)
        } else {
            Layout::Rgba.blank_pixel()
        }
    }
}

} // verus!

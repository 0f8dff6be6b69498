//! Bringing a decoded photo upright, as its orientation tag asks.

use vstd::prelude::*;
use crate::pixel::Pixel;
use crate::raster::{Raster, RasterView};

verus! {

/// How a stored image has to be transformed to be seen upright. The eight
/// cases are those of the EXIF orientation tag, codes 1 to 8 in this order.
#[derive(Clone, Copy, Debug, PartialEq, Eq, Structural)]
pub enum Orientation {
    /// 1: stored upright.
    Upright,
    /// 2: mirror left to right.
    FlipHorizontal,
    /// 3: turn by 180 degrees.
    Rotate180,
    /// 4: mirror top to bottom.
    FlipVertical,
    /// 5: turn by 90 degrees clockwise, then mirror left to right.
    Rotate90FlipHorizontal,
    /// 6: turn by 90 degrees clockwise.
    Rotate90,
    /// 7: mirror top to bottom, then turn by 270 degrees clockwise.
    FlipVerticalRotate270,
    /// 8: turn by 270 degrees clockwise.
    Rotate270,
}

impl Orientation {
    /// The orientation that a tag value stands for; none for a value outside
    /// 1 to 8.
    pub open spec fn of_code(code: int) -> Option<Orientation> {
        if code == 1 {
            Some(Orientation::Upright)
        } else if code == 2 {
            Some(Orientation::FlipHorizontal)
        } else if code == 3 {
            Some(Orientation::Rotate180)
        } else if code == 4 {
            Some(Orientation::FlipVertical)
        } else if code == 5 {
            Some(Orientation::Rotate90FlipHorizontal)
        } else if code == 6 {
            Some(Orientation::Rotate90)
        } else if code == 7 {
            Some(Orientation::FlipVerticalRotate270)
        } else if code == 8 {
            Some(Orientation::Rotate270)
        } else {
            None
        }
    }

    /// Whether the transform exchanges width and height.
    pub open spec fn turns(self) -> bool {
        match self {
            Orientation::Upright => false,
            Orientation::FlipHorizontal => false,
            Orientation::Rotate180 => false,
            Orientation::FlipVertical => false,
            _ => true,
        }
    }

    /// Where in a stored image of `width` by `height` the pixel comes from
    /// that the upright image shows at `(x, y)`.
    pub open spec fn source(self, width: int, height: int, x: int, y: int) -> (int, int) {
        match self {
            Orientation::Upright => (x, y),
            Orientation::FlipHorizontal => (width - 1 - x, y),
            Orientation::Rotate180 => (width - 1 - x, height - 1 - y),
            Orientation::FlipVertical => (x, height - 1 - y),
            Orientation::Rotate90FlipHorizontal => (y, x),
            Orientation::Rotate90 => (y, height - 1 - x),
            Orientation::FlipVerticalRotate270 => (width - 1 - y, height - 1 - x),
            Orientation::Rotate270 => (width - 1 - y, x),
        }
    }

    /// Width of the upright image of a stored image of `width` by `height`.
    pub open spec fn upright_width(self, width: int, height: int) -> int {
        if self.turns() {
            height
        } else {
            width
        }
    }

    /// Height of the upright image of a stored image of `width` by `height`.
    pub open spec fn upright_height(self, width: int, height: int) -> int {
        if self.turns() {
            width
        } else {
            height
        }
    }

    /// Computes [`Orientation::of_code`].
    pub fn from_code(code: u32) -> (res: Option<Orientation>)
        ensures
            res == Orientation::of_code(code as int),
            res is Some <==> 1 <= code <= 8,
    {
        match code {
            1 => Some(Orientation::Upright),
            2 => Some(Orientation::FlipHorizontal),
            3 => Some(Orientation::Rotate180),
            4 => Some(Orientation::FlipVertical),
            5 => Some(Orientation::Rotate90FlipHorizontal),
            6 => Some(Orientation::Rotate90),
            7 => Some(Orientation::FlipVerticalRotate270),
            8 => Some(Orientation::Rotate270),
            _ => None,
        }
    }
}

/// Every pixel of the upright image comes from inside the stored image.
pub proof fn lemma_source_inside(o: Orientation, width: int, height: int, x: int, y: int)
    requires
        0 <= x < o.upright_width(width, height),
        0 <= y < o.upright_height(width, height),
    ensures
        0 <= o.source(width, height, x, y).0 < width,
        0 <= o.source(width, height, x, y).1 < height,
{
}

/// The two orientations that are described as one transform after another
/// take each pixel from where the two transforms together take it.
pub proof fn lemma_source_composed(width: int, height: int, x: int, y: int)
    ensures
        Orientation::Rotate90FlipHorizontal.source(width, height, x, y) == ({
            // Mirror the turned image, which is `height` wide.
            let m = Orientation::FlipHorizontal.source(height, width, x, y);
            Orientation::Rotate90.source(width, height, m.0, m.1)
        }),
        Orientation::FlipVerticalRotate270.source(width, height, x, y) == ({
            let t = Orientation::Rotate270.source(width, height, x, y);
            Orientation::FlipVertical.source(width, height, t.0, t.1)
        }),
{
}

/// The orientation tag as read from a file's metadata, if it is one of the
/// eight valid codes; none when the tag is missing or holds anything else.
pub fn get_orientation(tag: Option<u32>) -> (res: Option<u32>)
    ensures
        res is Some <==> tag is Some && 1 <= tag->Some_0 <= 8,
        res is Some ==> res == tag,
{
    match tag {
        Some(v) => if 1 <= v && v <= 8 {
            Some(v)
        } else {
            None
        },
        None => None,
    }
}

impl Raster {
    /// The upright image of this stored image.
    pub fn oriented(&self, o: Orientation) -> (img: Raster)
        requires
            self.wf(),
        ensures
            img.wf(),
            img@.width == o.upright_width(self@.width as int, self@.height as int),
            img@.height == o.upright_height(self@.width as int, self@.height as int),
            img@.layout == self@.layout,
            forall|x: int, y: int|
                img@.contains(x, y) ==> #[trigger] img@.at(x, y) == self@.at(
                    o.source(self@.width as int, self@.height as int, x, y).0,
                    o.source(self@.width as int, self@.height as int, x, y).1,
                ),
    {
        let w = self.width();
        let h = self.height();
        let turns = match o {
            Orientation::Upright => false,
            Orientation::FlipHorizontal => false,
            Orientation::Rotate180 => false,
            Orientation::FlipVertical => false,
            _ => true,
        };
        let (ow, oh) = if turns {
            (h, w)
        } else {
            (w, h)
        };
        let mut img = Raster::from_pixel(ow, oh, self.layout(), self.layout().blank_pixel());
        let mut y: u32 = 0;
        while y < oh
            invariant
                y <= oh,
                self.wf(),
                img.wf(),
                w == self@.width,
                h == self@.height,
                ow == o.upright_width(w as int, h as int),
                oh == o.upright_height(w as int, h as int),
                img@.width == ow,
                img@.height == oh,
                img@.layout == self@.layout,
                forall|u: int, v: int|
                    img@.contains(u, v) && v < y ==> #[trigger] img@.at(u, v) == self@.at(
                        o.source(w as int, h as int, u, v).0,
                        o.source(w as int, h as int, u, v).1,
                    ),
            decreases oh - y,
        {
            let mut x: u32 = 0;
            while x < ow
                invariant
                    x <= ow,
                    y < oh,
                    self.wf(),
                    img.wf(),
                    w == self@.width,
                    h == self@.height,
                    ow == o.upright_width(w as int, h as int),
                    oh == o.upright_height(w as int, h as int),
                    img@.width == ow,
                    img@.height == oh,
                    img@.layout == self@.layout,
                    forall|u: int, v: int|
                        img@.contains(u, v) && (v < y || (v == y && u < x)) ==> #[trigger] img@.at(
                            u,
                            v,
                        ) == self@.at(
                            o.source(w as int, h as int, u, v).0,
                            o.source(w as int, h as int, u, v).1,
                        ),
                decreases ow - x,
            {
                let (sx, sy) = match o {
                    Orientation::Upright => (x, y),
                    Orientation::FlipHorizontal => (w - 1 - x, y),
                    Orientation::Rotate180 => (w - 1 - x, h - 1 - y),
                    Orientation::FlipVertical => (x, h - 1 - y),
                    Orientation::Rotate90FlipHorizontal => (y, x),
                    Orientation::Rotate90 => (y, h - 1 - x),
                    Orientation::FlipVerticalRotate270 => (w - 1 - y, h - 1 - x),
                    Orientation::Rotate270 => (w - 1 - y, x),
                };
                img.put_pixel(x, y, self.get_pixel(sx, sy));
                x = x + 1;
            }
            y = y + 1;
        }
        img
    }
}

/// What a decoded photo shows at `(x, y)` once it has been brought upright
/// according to its orientation tag. A missing or invalid tag changes
/// nothing.
pub open spec fn upright_at(img: RasterView, tag: Option<u32>, x: int, y: int) -> Pixel {
    match tag {
        Some(code) => match Orientation::of_code(code as int) {
            Some(o) => img.at(
                o.source(img.width as int, img.height as int, x, y).0,
                o.source(img.width as int, img.height as int, x, y).1,
            ),
            None => img.at(x, y),
        },
        None => img.at(x, y),
    }
}

/// Whether the orientation tag asks for width and height to be exchanged.
pub open spec fn tag_turns(tag: Option<u32>) -> bool {
    tag matches Some(code) && 5 <= code <= 8
}

/// Brings a decoded photo upright according to its orientation tag, so that
/// all later stages can take its pixels as they are.
///
/// A missing tag, or a value outside 1 to 8, is not an error: the photo is
/// taken to be upright.
pub fn open_img(img: Raster, tag: Option<u32>) -> (out: Raster)
    requires
        img.wf(),
    ensures
        out.wf(),
        out@.layout == img@.layout,
        out@.width == (if tag_turns(tag) {
            img@.height
        } else {
            img@.width
        }),
        out@.height == (if tag_turns(tag) {
            img@.width
        } else {
            img@.height
        }),
        forall|x: int, y: int| out@.contains(x, y) ==> #[trigger] out@.at(x, y) == upright_at(img@, tag, x, y),
        !(tag matches Some(code) && 2 <= code <= 8) ==> out@ == img@,
{
    match get_orientation(tag) {
        Some(code) => match Orientation::from_code(code) {
            Some(Orientation::Upright) => img,
            Some(o) => img.oriented(o),
            None => img,
        },
        None => img,
    }
}

} // verus!

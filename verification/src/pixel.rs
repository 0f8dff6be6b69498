//! Pixels, channel layouts and the blend of one pixel over another.

use vstd::prelude::*;

verus! {

/// One pixel: red, green, blue and alpha, eight bits each.
#[derive(Clone, Copy, Debug, PartialEq, Eq, Structural)]
pub struct Pixel {
    pub r: u8,
    pub g: u8,
    pub b: u8,
    pub a: u8,
}

/// Which channels a raster stores.
#[derive(Clone, Copy, Debug, PartialEq, Eq, Structural)]
pub enum Layout {
    /// Colour only: every pixel is opaque.
    Rgb,
    /// Colour and alpha.
    Rgba,
}

impl Layout {
    /// The pixel that a raster of this layout keeps when `p` is written to
    /// it: without an alpha channel the alpha of `p` is dropped and the
    /// pixel reads back as opaque.
    pub open spec fn stored(self, p: Pixel) -> Pixel {
        match self {
            Layout::Rgb => Pixel { r: p.r, g: p.g, b: p.b, a: 255 },
            Layout::Rgba => p,
        }
    }

    /// The pixel that marks "nothing here" in this layout: transparent black
    /// where there is an alpha channel, white where there is none.
    pub open spec fn blank(self) -> Pixel {
        match self {
            Layout::Rgb => Pixel { r: 255, g: 255, b: 255, a: 255 },
            Layout::Rgba => Pixel { r: 0, g: 0, b: 0, a: 0 },
        }
    }

    /// Computes [`Layout::stored`].
    pub fn store(self, p: Pixel) -> (q: Pixel)
        ensures
            q == self.stored(p),
    {
        match self {
            Layout::Rgb => Pixel { r: p.r, g: p.g, b: p.b, a: 255 },
            Layout::Rgba => p,
        }
    }

    /// Computes [`Layout::blank`].
    pub fn blank_pixel(self) -> (q: Pixel)
        ensures
            q == self.blank(),
            q == self.stored(q),
    {
        match self {
            Layout::Rgb => Pixel { r: 255, g: 255, b: 255, a: 255 },
            Layout::Rgba => Pixel { r: 0, g: 0, b: 0, a: 0 },
        }
    }
}

/// The pixel that `image` computes for a translucent `top` (alpha strictly
/// between 0 and 255) blended over `bottom`.
pub uninterp spec fn blended(bottom: Pixel, top: Pixel) -> Pixel;

/// Source-over compositing of `top` onto `bottom`: a transparent `top` leaves
/// `bottom` as it is, an opaque `top` replaces it, and anything between is
/// mixed.
pub open spec fn source_over(bottom: Pixel, top: Pixel) -> Pixel {
    if top.a == 0 {
        bottom
    } else if top.a == 255 {
        top
    } else {
        blended(bottom, top)
    }
}

/// Calls `image::Pixel::blend` on `image::Rgba<u8>`.
///
/// Trusted: a `top` with alpha 0 leaves `bottom` unchanged and a `top` with
/// alpha 255 replaces it (the two early returns of the implementation); for
/// any other alpha the result is the floating-point mix that the crate
/// computes, which depends on the two pixels alone and is named [`blended`].
#[verifier::external_body]
fn blend_rgba(bottom: Pixel, top: Pixel) -> (out: Pixel)
    ensures
        top.a == 0 ==> out == bottom,
        top.a == 255 ==> out == top,
        0 < top.a < 255 ==> out == blended(bottom, top),
{
    let mut px = image::Rgba([bottom.r, bottom.g, bottom.b, bottom.a]);
    image::Pixel::blend(&mut px, &image::Rgba([top.r, top.g, top.b, top.a]));
    Pixel { r: px.0[0], g: px.0[1], b: px.0[2], a: px.0[3] }
}

impl Pixel {
    /// Fully opaque white.
    pub fn white() -> (p: Pixel)
        ensures
            p == (Pixel { r: 255, g: 255, b: 255, a: 255 }),
    {
        Pixel { r: 255, g: 255, b: 255, a: 255 }
    }

    /// Builds a pixel from its four channels in the order red, green, blue,
    /// alpha.
    pub fn from_rgba(rgba: [u8; 4]) -> (p: Pixel)
        ensures
            p == (Pixel { r: rgba[0], g: rgba[1], b: rgba[2], a: rgba[3] }),
    {
        Pixel { r: rgba[0], g: rgba[1], b: rgba[2], a: rgba[3] }
    }

    /// The pixel with the colour of `self` and the given alpha.
    pub fn with_alpha(self, a: u8) -> (p: Pixel)
        ensures
            p == (Pixel { a: a, ..self }),
    {
        Pixel { r: self.r, g: self.g, b: self.b, a }
    }

    /// Blends `top` over `self`.
    pub fn blend(self, top: Pixel) -> (out: Pixel)
        ensures
            out == source_over(self, top),
    {
        blend_rgba(self, top)
    }
}

} // verus!

//! Nearest-neighbour resampling, done by the `image` crate.

use vstd::prelude::*;
use crate::error::InvalidConfiguration;
use crate::raster::{pixels_of, raw_bytes, Raster, RasterView};

verus! {

/// The bytes of the image that `image` produces when the `width` by `height`
/// image in `data` is scaled, keeping its proportions, until it covers
/// `nwidth` by `nheight`, and is then cropped about its centre to that size.
pub uninterp spec fn fill_resized(
    data: Seq<u8>,
    width: nat,
    height: nat,
    nwidth: nat,
    nheight: nat,
) -> Seq<u8>;

/// The bytes, width and height of the image that `image` produces when the
/// `width` by `height` image in `data` is scaled, keeping its proportions,
/// to the largest size that fits in `nwidth` by `nheight`.
pub uninterp spec fn fit_resized(
    data: Seq<u8>,
    width: nat,
    height: nat,
    nwidth: nat,
    nheight: nat,
) -> (Seq<u8>, nat, nat);

/// An upper bound on the sides of the scaled image from which the crop to
/// `nwidth` by `nheight` is taken: along the axis that decides the scale it
/// is the target side; along the other it is the source side times that
/// scale, with one pixel for rounding.
pub open spec fn cover_extent(width: int, height: int, nwidth: int, nheight: int) -> (int, int) {
    if nwidth * height >= nheight * width {
        (nwidth, (height * nwidth) / width + 1)
    } else {
        ((width * nheight) / height + 1, nheight)
    }
}

/// Whether the scaled image, and the buffer in which it is built one axis
/// after the other, can be addressed.
pub open spec fn cover_addressable(width: int, height: int, nwidth: int, nheight: int) -> bool {
    let (cw, ch) = cover_extent(width, height, nwidth, nheight);
    &&& cw <= u32::MAX
    &&& ch <= u32::MAX
    &&& 4 * (cw * ch) <= usize::MAX
    &&& 4 * (width * ch) <= usize::MAX
}

/// Whether an image that fits in `nwidth` by `nheight`, and the buffer in
/// which it is built one axis after the other, can be addressed.
pub open spec fn fit_addressable(width: int, nwidth: int, nheight: int) -> bool {
    let bw = if nwidth < 1 {
        1
    } else {
        nwidth
    };
    let bh = if nheight < 1 {
        1
    } else {
        nheight
    };
    &&& 4 * (bw * bh) <= usize::MAX
    &&& 4 * (width * bh) <= usize::MAX
}

/// Calls `image::DynamicImage::resize_to_fill` with the nearest-neighbour
/// filter on an RGBA image.
///
/// Trusted: for a non-empty source and target within the stated size
/// limits, the result has exactly the target size, and its bytes depend on
/// the arguments alone; they are named [`fill_resized`].
#[verifier::external_body]
fn resize_to_fill_rgba(data: Vec<u8>, width: u32, height: u32, nwidth: u32, nheight: u32) -> (out:
    Vec<u8>)
    requires
        width >= 1,
        height >= 1,
        nwidth >= 1,
        nheight >= 1,
        data@.len() == 4 * (width * height),
        cover_addressable(width as int, height as int, nwidth as int, nheight as int),
    ensures
        out@ == fill_resized(data@, width as nat, height as nat, nwidth as nat, nheight as nat),
        out@.len() == 4 * (nwidth * nheight),
{
    let img = image::DynamicImage::ImageRgba8(
        image::RgbaImage::from_raw(width, height, data).unwrap(),
    );
    img.resize_to_fill(nwidth, nheight, image::imageops::FilterType::Nearest).into_rgba8().into_raw()
}

/// Calls `image::DynamicImage::resize` with the nearest-neighbour filter on
/// an RGBA image.
///
/// Trusted: for a non-empty source and a target within the stated size
/// limits, the result is at least one pixel wide and high and fits in the
/// target (taken as at least one pixel wide and high); its size and bytes
/// depend on the arguments alone and are named [`fit_resized`].
#[verifier::external_body]
fn resize_rgba(data: Vec<u8>, width: u32, height: u32, nwidth: u32, nheight: u32) -> (out: (
    Vec<u8>,
    u32,
    u32,
))
    requires
        width >= 1,
        height >= 1,
        data@.len() == 4 * (width * height),
        fit_addressable(width as int, nwidth as int, nheight as int),
    ensures
        (out.0@, out.1 as nat, out.2 as nat) == fit_resized(
            data@,
            width as nat,
            height as nat,
            nwidth as nat,
            nheight as nat,
        ),
        out.0@.len() == 4 * (out.1 * out.2),
        1 <= out.1,
        1 <= out.2,
        out.1 <= nwidth || out.1 == 1,
        out.2 <= nheight || out.2 == 1,
{
    let img = image::DynamicImage::ImageRgba8(
        image::RgbaImage::from_raw(width, height, data).unwrap(),
    );
    let out = img.resize(nwidth, nheight, image::imageops::FilterType::Nearest).into_rgba8();
    let (w, h) = out.dimensions();
    (out.into_raw(), w, h)
}

/// Why `img` cannot be scaled to cover `nwidth` by `nheight`, if it cannot:
/// an empty source or target, or an image too large to address.
pub open spec fn fill_error(img: RasterView, nwidth: int, nheight: int) -> Option<
    InvalidConfiguration,
> {
    if img.width == 0 || img.height == 0 || nwidth == 0 || nheight == 0 {
        Some(InvalidConfiguration::ZeroDimension)
    } else if 4 * (img.width * img.height) > usize::MAX || !cover_addressable(
        img.width as int,
        img.height as int,
        nwidth,
        nheight,
    ) {
        Some(InvalidConfiguration::TooLarge)
    } else {
        None
    }
}

/// Why `img` cannot be scaled to fit in `nwidth` by `nheight`, if it cannot:
/// an empty source, or an image too large to address.
pub open spec fn fit_error(img: RasterView, nwidth: int, nheight: int) -> Option<
    InvalidConfiguration,
> {
    if img.width == 0 || img.height == 0 {
        Some(InvalidConfiguration::ZeroDimension)
    } else if 4 * (img.width * img.height) > usize::MAX || !fit_addressable(
        img.width as int,
        nwidth,
        nheight,
    ) {
        Some(InvalidConfiguration::TooLarge)
    } else {
        None
    }
}

/// The pixels, width and height of `img` scaled to fit in `nwidth` by
/// `nheight`.
pub open spec fn fit_of(img: RasterView, nwidth: nat, nheight: nat) -> (Seq<crate::pixel::Pixel>, nat, nat) {
    let out = fit_resized(raw_bytes(img.pixels), img.width, img.height, nwidth, nheight);
    (pixels_of(img.layout, out.0), out.1, out.2)
}

/// `4 * (a * b)` where it fits in `usize`.
fn quad_area(a: u32, b: u32) -> (res: Option<usize>)
    ensures
        res is Some <==> 4 * (a * b) <= usize::MAX,
        res matches Some(n) ==> n == 4 * (a * b),
{
    assert(a * b <= 0xffff_ffff * 0xffff_ffff) by (nonlinear_arith)
        requires
            0 <= a <= 0xffff_ffff,
            0 <= b <= 0xffff_ffff,
    ;
    let n: u128 = 4 * ((a as u128) * (b as u128));
    if n <= usize::MAX as u128 {
        Some(n as usize)
    } else {
        None
    }
}

/// Computes [`cover_addressable`].
fn check_cover(width: u32, height: u32, nwidth: u32, nheight: u32) -> (b: bool)
    requires
        width >= 1,
        height >= 1,
    ensures
        b == cover_addressable(width as int, height as int, nwidth as int, nheight as int),
{
    assert(nwidth * height <= 0xffff_ffff * 0xffff_ffff) by (nonlinear_arith)
        requires
            0 <= nwidth <= 0xffff_ffff,
            0 <= height <= 0xffff_ffff,
    ;
    assert(nheight * width <= 0xffff_ffff * 0xffff_ffff) by (nonlinear_arith)
        requires
            0 <= nheight <= 0xffff_ffff,
            0 <= width <= 0xffff_ffff,
    ;
    assert(width * nheight == nheight * width) by (nonlinear_arith);
    let a: u64 = (nwidth as u64) * (height as u64);
    let b: u64 = (nheight as u64) * (width as u64);
    let (cw, ch): (u64, u64) = if a >= b {
        (nwidth as u64, a / (width as u64) + 1)
    } else {
        (b / (height as u64) + 1, nheight as u64)
    };
    if cw > u32::MAX as u64 || ch > u32::MAX as u64 {
        return false;
    }
    quad_area(cw as u32, ch as u32).is_some() && quad_area(width, ch as u32).is_some()
}

/// Computes [`fit_addressable`].
fn check_fit(width: u32, nwidth: u32, nheight: u32) -> (b: bool)
    ensures
        b == fit_addressable(width as int, nwidth as int, nheight as int),
{
    let bw: u32 = if nwidth < 1 {
        1
    } else {
        nwidth
    };
    let bh: u32 = if nheight < 1 {
        1
    } else {
        nheight
    };
    quad_area(bw, bh).is_some() && quad_area(width, bh).is_some()
}

impl Raster {
    /// This raster scaled, keeping its proportions, until it covers
    /// `nwidth` by `nheight`, and cropped about its centre to exactly that
    /// size. Pixels are picked, not mixed.
    pub fn resize_to_fill(&self, nwidth: u32, nheight: u32) -> (res: Result<
        Raster,
        InvalidConfiguration,
    >)
        requires
            self.wf(),
        ensures
            match res {
                Ok(img) => {
                    &&& fill_error(self@, nwidth as int, nheight as int) is None
                    &&& img.wf()
                    &&& img@.width == nwidth
                    &&& img@.height == nheight
                    &&& img@.layout == self@.layout
                    &&& img@.pixels == pixels_of(
                        self@.layout,
                        fill_resized(
                            raw_bytes(self@.pixels),
                            self@.width,
                            self@.height,
                            nwidth as nat,
                            nheight as nat,
                        ),
                    )
                },
                Err(e) => fill_error(self@, nwidth as int, nheight as int) == Some(e),
            },
    {
        let w = self.width();
        let h = self.height();
        if w == 0 || h == 0 || nwidth == 0 || nheight == 0 {
            return Err(InvalidConfiguration::ZeroDimension);
        }
        if quad_area(w, h).is_none() || !check_cover(w, h, nwidth, nheight) {
            return Err(InvalidConfiguration::TooLarge);
        }
        let out = resize_to_fill_rgba(self.to_raw(), w, h, nwidth, nheight);
        Ok(Raster::from_raw(nwidth, nheight, self.layout(), &out).unwrap())
    }

    /// This raster scaled, keeping its proportions, to the largest size that
    /// fits in `nwidth` by `nheight`, but to no less than one pixel each
    /// way. Pixels are picked, not mixed.
    pub fn resize(&self, nwidth: u32, nheight: u32) -> (res: Result<Raster, InvalidConfiguration>)
        requires
            self.wf(),
        ensures
            match res {
                Ok(img) => {
                    &&& fit_error(self@, nwidth as int, nheight as int) is None
                    &&& img.wf()
                    &&& img@.layout == self@.layout
                    &&& (img@.pixels, img@.width, img@.height) == fit_of(
                        self@,
                        nwidth as nat,
                        nheight as nat,
                    )
                    &&& 1 <= img@.width
                    &&& 1 <= img@.height
                    &&& img@.width <= nwidth || img@.width == 1
                    &&& img@.height <= nheight || img@.height == 1
                },
                Err(e) => fit_error(self@, nwidth as int, nheight as int) == Some(e),
            },
    {
        let w = self.width();
        let h = self.height();
        if w == 0 || h == 0 {
            return Err(InvalidConfiguration::ZeroDimension);
        }
        if quad_area(w, h).is_none() || !check_fit(w, nwidth, nheight) {
            return Err(InvalidConfiguration::TooLarge);
        }
        let (out, ow, oh) = resize_rgba(self.to_raw(), w, h, nwidth, nheight);
        Ok(Raster::from_raw(ow, oh, self.layout(), &out).unwrap())
    }
}

} // verus!

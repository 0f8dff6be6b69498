//! Layered source-over compositing of one image onto another.

use vstd::prelude::*;
use crate::blur::blur_ok;
use crate::config::Size;
use crate::effects::shadow::{Shadow, ShadowView};
use crate::error::InvalidConfiguration;
use crate::pixel::{source_over, Layout, Pixel};
use crate::raster::{pixels_of, raw_bytes, ImageView, Raster, RasterView};
use crate::resize::{fill_error, fill_resized, fit_error, fit_of};

verus! {

/// What a background shows at `(x, y)` once `top` has been blended onto it
/// with its top left corner at `(left, upper)`.
///
/// Where `top` covers the position, its pixel is blended over the
/// background's and kept as the background's layout keeps it; elsewhere the
/// background is as before. Parts of `top` that fall outside the background
/// are dropped.
pub open spec fn composite_at<T: ImageView>(
    bg: RasterView,
    top: &T,
    left: int,
    upper: int,
    x: int,
    y: int,
) -> Pixel {
    if 0 <= x - left < top.view_width() && 0 <= y - upper < top.view_height() {
        bg.layout.stored(source_over(bg.at(x, y), top.view_at(x - left, y - upper)))
    } else {
        bg.at(x, y)
    }
}

/// Blending a layer that is transparent wherever it covers the background
/// leaves the background as it is.
pub proof fn lemma_transparent_layer<T: ImageView>(
    bg: RasterView,
    top: &T,
    left: int,
    upper: int,
    x: int,
    y: int,
)
    requires
        bg.wf(),
        bg.contains(x, y),
        forall|u: int, v: int|
            0 <= u < top.view_width() && 0 <= v < top.view_height() ==> (#[trigger] top.view_at(
                u,
                v,
            )).a == 0,
    ensures
        composite_at(bg, top, left, upper, x, y) == bg.at(x, y),
{
    crate::raster::lemma_offset_in_range(bg.width, bg.height, x, y);
}

/// Where an opaque pixel of the layer covers the background, the result is
/// that pixel.
pub proof fn lemma_opaque_layer<T: ImageView>(
    bg: RasterView,
    top: &T,
    left: int,
    upper: int,
    x: int,
    y: int,
)
    requires
        0 <= x - left < top.view_width(),
        0 <= y - upper < top.view_height(),
        top.view_at(x - left, y - upper).a == 255,
    ensures
        composite_at(bg, top, left, upper, x, y) == top.view_at(x - left, y - upper),
{
}

/// Blends `top` onto `bg` with its top left corner at `(left, upper)`, which
/// may lie outside `bg`: what falls outside is clipped.
pub fn composite<T: ImageView>(bg: &mut Raster, top: &T, left: i64, upper: i64)
    requires
        old(bg).wf(),
        top.view_wf(),
    ensures
        final(bg).wf(),
        final(bg)@.width == old(bg)@.width,
        final(bg)@.height == old(bg)@.height,
        final(bg)@.layout == old(bg)@.layout,
        forall|x: int, y: int|
            old(bg)@.contains(x, y) ==> #[trigger] final(bg)@.at(x, y) == composite_at(
                old(bg)@,
                top,
                left as int,
                upper as int,
                x,
                y,
            ),
{
    let tw = top.width();
    let th = top.height();
    let bw = bg.width();
    let bh = bg.height();
    let mut y: u32 = 0;
    while y < th
        invariant
            y <= th,
            bg.wf(),
            top.view_wf(),
            tw == top.view_width(),
            th == top.view_height(),
            bg@.width == old(bg)@.width == bw,
            bg@.height == old(bg)@.height == bh,
            bg@.layout == old(bg)@.layout,
            forall|u: int, v: int|
                old(bg)@.contains(u, v) ==> #[trigger] bg@.at(u, v) == (if v - upper < y {
                    composite_at(old(bg)@, top, left as int, upper as int, u, v)
                } else {
                    old(bg)@.at(u, v)
                }),
        decreases th - y,
    {
        let ty: i128 = y as i128 + upper as i128;
        if 0 <= ty && ty < bh as i128 {
            let mut x: u32 = 0;
            while x < tw
                invariant
                    x <= tw,
                    y < th,
                    ty == y + upper,
                    0 <= ty < bh,
                    bg.wf(),
                    top.view_wf(),
                    tw == top.view_width(),
                    th == top.view_height(),
                    bg@.width == old(bg)@.width == bw,
                    bg@.height == old(bg)@.height == bh,
                    bg@.layout == old(bg)@.layout,
                    forall|u: int, v: int|
                        old(bg)@.contains(u, v) ==> #[trigger] bg@.at(u, v) == (if v - upper < y
                            || (v - upper == y && u - left < x) {
                            composite_at(old(bg)@, top, left as int, upper as int, u, v)
                        } else {
                            old(bg)@.at(u, v)
                        }),
                decreases tw - x,
            {
                let tx: i128 = x as i128 + left as i128;
                if 0 <= tx && tx < bw as i128 {
                    let p = top.get_pixel(x, y);
                    let b = bg.get_pixel(tx as u32, ty as u32);
                    bg.put_pixel(tx as u32, ty as u32, b.blend(p));
                }
                x = x + 1;
            }
        }
        y = y + 1;
    }
}

/// Whether `out` is `bg` with `top` blended onto it at `(left, upper)`.
pub open spec fn is_composite<T: ImageView>(
    out: RasterView,
    bg: RasterView,
    top: &T,
    left: int,
    upper: int,
) -> bool {
    &&& out.wf()
    &&& out.width == bg.width
    &&& out.height == bg.height
    &&& out.layout == bg.layout
    &&& forall|x: int, y: int|
        bg.contains(x, y) ==> #[trigger] out.at(x, y) == composite_at(bg, top, left, upper, x, y)
}

/// Blending a fully transparent layer onto a background, wherever it is
/// placed, gives the background back.
pub proof fn lemma_transparent_composite<T: ImageView>(
    out: RasterView,
    bg: RasterView,
    top: &T,
    left: int,
    upper: int,
)
    requires
        bg.wf(),
        is_composite(out, bg, top, left, upper),
        forall|u: int, v: int|
            0 <= u < top.view_width() && 0 <= v < top.view_height() ==> (#[trigger] top.view_at(
                u,
                v,
            )).a == 0,
    ensures
        out == bg,
{
    assert forall|x: int, y: int| out.contains(x, y) implies out.at(x, y) == bg.at(x, y) by {
        lemma_transparent_layer(bg, top, left, upper, x, y);
    }
    crate::raster::lemma_same_pixels(out, bg);
}

/// Blending the same layer onto the same background at the same place gives
/// the same raster, pixel for pixel.
pub proof fn lemma_composite_unique<T: ImageView>(
    a: RasterView,
    b: RasterView,
    bg: RasterView,
    top: &T,
    left: int,
    upper: int,
)
    requires
        is_composite(a, bg, top, left, upper),
        is_composite(b, bg, top, left, upper),
    ensures
        a == b,
{
    crate::raster::lemma_same_pixels(a, b);
}

/// Why no background of `width` by `height` can be made from `source`, if
/// none can.
pub open spec fn background_error(source: RasterView, white_bg: bool, width: int, height: int) -> Option<
    InvalidConfiguration,
> {
    if white_bg {
        if width * height > usize::MAX {
            Some(InvalidConfiguration::TooLarge)
        } else {
            None
        }
    } else {
        fill_error(source, width, height)
    }
}

/// Whether `bg` is the unblurred background of `width` by `height` made
/// from `source`: an opaque raster, white or `source` scaled to cover it.
pub open spec fn is_background(
    bg: RasterView,
    source: RasterView,
    white_bg: bool,
    width: int,
    height: int,
) -> bool {
    &&& bg.wf()
    &&& bg.width == width
    &&& bg.height == height
    &&& bg.layout == Layout::Rgb
    &&& white_bg ==> forall|x: int, y: int|
        bg.contains(x, y) ==> #[trigger] bg.at(x, y) == (Pixel { r: 255, g: 255, b: 255, a: 255 })
    &&& !white_bg ==> bg.pixels == pixels_of(
        Layout::Rgb,
        fill_resized(
            raw_bytes(source.pixels),
            source.width,
            source.height,
            width as nat,
            height as nat,
        ),
    )
}

/// The unblurred background of a poster: solid white, or `source` scaled
/// and cropped to cover the canvas. Either way it has no alpha channel.
pub fn background(source: &Raster, white_bg: bool, width: u32, height: u32) -> (res: Result<
    Raster,
    InvalidConfiguration,
>)
    requires
        source.wf(),
    ensures
        match res {
            Ok(bg) => {
                &&& background_error(source@, white_bg, width as int, height as int) is None
                &&& is_background(bg@, source@, white_bg, width as int, height as int)
            },
            Err(e) => background_error(source@, white_bg, width as int, height as int) == Some(e),
        },
{
    if white_bg {
        assert(width * height <= 0xffff_ffff * 0xffff_ffff) by (nonlinear_arith)
            requires
                0 <= width <= 0xffff_ffff,
                0 <= height <= 0xffff_ffff,
        ;
        if (width as u64) * (height as u64) > usize::MAX as u64 {
            return Err(InvalidConfiguration::TooLarge);
        }
        Ok(Raster::from_pixel(width, height, Layout::Rgb, Pixel::white()))
    } else {
        match source.resize_to_fill(width, height) {
            Ok(scaled) => {
                let bg = scaled.with_layout(Layout::Rgb);
                assert(bg@.pixels =~= pixels_of(
                    Layout::Rgb,
                    fill_resized(
                        raw_bytes(source@.pixels),
                        source@.width,
                        source@.height,
                        width as nat,
                        height as nat,
                    ),
                ));
                Ok(bg)
            },
            Err(e) => Err(e),
        }
    }
}

/// Why no foreground can be made from `source` for a canvas of `width` by
/// `height`, if none can.
pub open spec fn foreground_error(source: RasterView, size: Size, width: int, height: int) -> Option<
    InvalidConfiguration,
> {
    if size.aspect_ratio {
        None
    } else {
        fit_error(source, size.padding.shrunk(width), size.padding.shrunk(height))
    }
}

/// Pixels, width and height of the foreground made from `source` for a
/// canvas of `width` by `height`.
pub open spec fn foreground_of(source: RasterView, size: Size, width: int, height: int) -> (
    Seq<Pixel>,
    nat,
    nat,
) {
    if size.aspect_ratio {
        (source.pixels, source.width, source.height)
    } else {
        fit_of(
            source,
            size.padding.shrunk(width) as nat,
            size.padding.shrunk(height) as nat,
        )
    }
}

/// The foreground of a poster. On a canvas of fixed size it is `source`
/// scaled to fit in the canvas less its padding; on a canvas laid out by
/// aspect ratio it is `source` as it is.
pub fn foreground(source: &Raster, size: &Size, width: u32, height: u32) -> (res: Result<
    Raster,
    InvalidConfiguration,
>)
    requires
        source.wf(),
        size.padding.valid(),
    ensures
        match res {
            Ok(img) => {
                &&& foreground_error(source@, *size, width as int, height as int) is None
                &&& img.wf()
                &&& img@.layout == source@.layout
                &&& (img@.pixels, img@.width, img@.height) == foreground_of(
                    source@,
                    *size,
                    width as int,
                    height as int,
                )
                &&& !size.aspect_ratio ==> {
                    &&& 1 <= img@.width
                    &&& 1 <= img@.height
                    &&& img@.width <= size.padding.shrunk(width as int) || img@.width == 1
                    &&& img@.height <= size.padding.shrunk(height as int) || img@.height == 1
                    &&& img@.width <= width || img@.width == 1
                    &&& img@.height <= height || img@.height == 1
                }
            },
            Err(e) => foreground_error(source@, *size, width as int, height as int) == Some(e),
        },
{
    if size.aspect_ratio {
        Ok(source.duplicate())
    } else {
        let b = size.content_box(width, height);
        source.resize(b.0, b.1)
    }
}

/// Whether `out` is `bg` with the shadow of `content` and then `content`
/// itself drawn onto it, the top left corner of `content` at
/// `(dist_h, dist_v)`. With a shadow that cannot be seen, `out` is `bg` with
/// `content` alone drawn onto it.
pub open spec fn is_drawn<T: ImageView, F: Fn(Raster, u64) -> Raster>(
    out: RasterView,
    bg: RasterView,
    content: &T,
    shadow: ShadowView,
    dist_h: int,
    dist_v: int,
    blur: &F,
) -> bool {
    &&& exists|layer: Raster, mid: RasterView|
        {
            &&& shadow.is_layer(layer@, content, blur)
            &&& is_composite(mid, bg, &layer, dist_h - shadow.origin_x(), dist_v - shadow.origin_y())
            &&& is_composite(out, mid, content, dist_h, dist_v)
        }
    &&& shadow.nop() ==> is_composite(out, bg, content, dist_h, dist_v)
}

/// Drawing with a shadow that cannot be seen gives, pixel for pixel, what
/// drawing the content alone gives.
pub proof fn lemma_invisible_shadow<T: ImageView, F: Fn(Raster, u64) -> Raster>(
    out: RasterView,
    plain: RasterView,
    bg: RasterView,
    content: &T,
    shadow: ShadowView,
    dist_h: int,
    dist_v: int,
    blur: &F,
)
    requires
        shadow.nop(),
        is_drawn(out, bg, content, shadow, dist_h, dist_v, blur),
        is_composite(plain, bg, content, dist_h, dist_v),
    ensures
        out == plain,
{
    lemma_composite_unique(out, plain, bg, content, dist_h, dist_v);
}

/// Draws `content` and its shadow onto `bg`, the top left corner of
/// `content` at column `dist_h` and row `dist_v`.
///
/// First the shadow layer is blended on, placed so that the content's
/// corner in it comes to lie at `(dist_h, dist_v)`; what falls outside `bg`
/// is clipped. Then `content` itself is blended on. A shadow that cannot be
/// seen changes nothing: the result is as if only `content` were drawn.
pub fn draw<T: ImageView, F: Fn(Raster, u64) -> Raster>(
    bg: Raster,
    content: &T,
    shadow: &Shadow,
    dist_h: u32,
    dist_v: u32,
    blur: &F,
) -> (res: Result<Raster, InvalidConfiguration>)
    requires
        bg.wf(),
        content.view_wf(),
        blur_ok(blur),
    ensures
        res is Ok <==> shadow@.fits(content.view_width() as int, content.view_height() as int),
        res matches Err(e) ==> e == InvalidConfiguration::TooLarge,
        res matches Ok(out) ==> is_drawn(
            out@,
            bg@,
            content,
            shadow@,
            dist_h as int,
            dist_v as int,
            blur,
        ),
{
    let (layer, ox, oy) = match shadow.gen_bg(content, blur) {
        Ok(out) => out,
        Err(e) => {
            return Err(e);
        },
    };
    let mut out = bg;
    composite(&mut out, &layer, dist_h as i64 - ox as i64, dist_v as i64 - oy as i64);
    let ghost mid = out@;
    composite(&mut out, content, dist_h as i64, dist_v as i64);
    proof {
        assert(is_composite(out@, mid, content, dist_h as int, dist_v as int));
        if shadow@.nop() {
            assert forall|x: int, y: int| bg@.contains(x, y) implies mid.at(x, y) == bg@.at(x, y) by {
                lemma_transparent_layer(
                    bg@,
                    &layer,
                    dist_h - shadow@.origin_x(),
                    dist_v - shadow@.origin_y(),
                    x,
                    y,
                );
            }
        }
    }
    Ok(out)
}

} // verus!

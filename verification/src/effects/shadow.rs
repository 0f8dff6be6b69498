//! Drop shadows with the geometry of a CSS `box-shadow` (without spread and
//! inset).

use vstd::prelude::*;
use crate::blur::{blur_ok, soften};
use crate::compose::{composite, is_composite};
use crate::error::InvalidConfiguration;
use crate::pixel::{Layout, Pixel};
use crate::raster::{ImageView, Raster, RasterView};

verus! {

/// Extent, along one axis, of the layer that holds the shadow of content
/// `content` long: the content stretched by the blur on both sides and moved
/// by `offset`, together with the content where it lies.
pub open spec fn axis_size(content: int, offset: int, blur: int) -> int {
    let far = if content + offset + blur > content {
        content + offset + blur
    } else {
        content
    };
    let near = if offset - blur < 0 {
        offset - blur
    } else {
        0
    };
    far - near
}

/// Where, along one axis, the content's first pixel lies in that layer.
pub open spec fn axis_origin(offset: int, blur: int) -> int {
    if offset < 0 {
        -offset + blur
    } else if offset - blur < 0 {
        -(offset - blur)
    } else {
        0
    }
}

/// Size of a shadow layer and the place of the content in it.
#[derive(Clone, Copy, Debug, PartialEq, Eq, Structural)]
pub struct ShadowBounds {
    pub bg_width: u32,
    pub bg_height: u32,
    pub combine_offset_x: u32,
    pub combine_offset_y: u32,
}

/// The layer never is smaller than the content, the origin never negative,
/// and both the content and its shifted silhouette lie inside the layer.
pub proof fn lemma_axis_bounds(content: int, offset: int, blur: int, x: int)
    requires
        0 <= blur,
        0 <= x < content,
    ensures
        axis_size(content, offset, blur) >= content,
        axis_origin(offset, blur) >= 0,
        0 <= x + axis_origin(offset, blur) < axis_size(content, offset, blur),
        0 <= x + axis_origin(offset, blur) + offset < axis_size(content, offset, blur),
{
}

/// Without offset and blur the layer is the content itself.
pub proof fn lemma_axis_identity(content: int)
    ensures
        axis_size(content, 0, 0) == content,
        axis_origin(0, 0) == 0,
{
}

/// Size and origin of one axis; `None` when either does not fit in 32 bits.
fn axis_bounds(content: u32, offset: i32, blur: u32) -> (res: Option<(u32, u32)>)
    ensures
        res is Some <==> axis_size(content as int, offset as int, blur as int) <= u32::MAX
            && axis_origin(offset as int, blur as int) <= u32::MAX,
        res matches Some(b) ==> b.0 == axis_size(content as int, offset as int, blur as int)
            && b.1 == axis_origin(offset as int, blur as int),
{
    let c = content as i64;
    let o = offset as i64;
    let b = blur as i64;
    let far = if c + o + b > c {
        c + o + b
    } else {
        c
    };
    let near = if o - b < 0 {
        o - b
    } else {
        0
    };
    let size = far - near;
    let origin = if o < 0 {
        -o + b
    } else if o - b < 0 {
        -(o - b)
    } else {
        0
    };
    if size > u32::MAX as i64 || origin > u32::MAX as i64 {
        None
    } else {
        Some((size as u32, origin as u32))
    }
}

/// Size of the layer that holds the shadow of content of the given size, and
/// where the content's top left corner lies in it.
///
/// [`InvalidConfiguration::TooLarge`] when a size or an origin does not fit
/// in 32 bits.
pub fn shadow_bounds(
    content_w: u32,
    content_h: u32,
    offset_x: i32,
    offset_y: i32,
    blur_radius: u32,
) -> (res: Result<ShadowBounds, InvalidConfiguration>)
    ensures
        res is Ok <==> {
            &&& axis_size(content_w as int, offset_x as int, blur_radius as int) <= u32::MAX
            &&& axis_size(content_h as int, offset_y as int, blur_radius as int) <= u32::MAX
            &&& axis_origin(offset_x as int, blur_radius as int) <= u32::MAX
            &&& axis_origin(offset_y as int, blur_radius as int) <= u32::MAX
        },
        res matches Ok(b) ==> {
            &&& b.bg_width == axis_size(content_w as int, offset_x as int, blur_radius as int)
            &&& b.bg_height == axis_size(content_h as int, offset_y as int, blur_radius as int)
            &&& b.combine_offset_x == axis_origin(offset_x as int, blur_radius as int)
            &&& b.combine_offset_y == axis_origin(offset_y as int, blur_radius as int)
        },
        res matches Err(e) ==> e == InvalidConfiguration::TooLarge,
{
    match (axis_bounds(content_w, offset_x, blur_radius), axis_bounds(content_h, offset_y, blur_radius)) {
        (Some(h), Some(v)) => Ok(
            ShadowBounds {
                bg_width: h.0,
                bg_height: v.0,
                combine_offset_x: h.1,
                combine_offset_y: v.1,
            },
        ),
        _ => Err(InvalidConfiguration::TooLarge),
    }
}

/// `alpha` scaled by `opacity / 255`, rounded up.
pub open spec fn scaled_alpha(alpha: int, opacity: int) -> int {
    (alpha * opacity + 254) / 255
}

/// Full opacity keeps every alpha, and no alpha or no opacity gives none.
pub proof fn lemma_scaled_alpha_ends(alpha: int)
    requires
        0 <= alpha <= 255,
    ensures
        scaled_alpha(alpha, 255) == alpha,
        scaled_alpha(alpha, 0) == 0,
        scaled_alpha(0, alpha) == 0,
{
}

/// The parameters of a drop shadow, as mathematical values.
pub struct ShadowView {
    pub offset_x: int,
    pub offset_y: int,
    pub blur_radius: nat,
    pub color: Pixel,
}

impl ShadowView {
    /// Whether the shadow cannot be seen: its colour is fully transparent,
    /// or it lies exactly under the content, unblurred.
    pub open spec fn nop(self) -> bool {
        self.color.a == 0 || (self.blur_radius == 0 && self.offset_x == 0 && self.offset_y == 0)
    }

    /// Width of the shadow layer for content `width` wide.
    pub open spec fn layer_width(self, width: int) -> int {
        axis_size(width, self.offset_x, self.blur_radius as int)
    }

    /// Height of the shadow layer for content `height` high.
    pub open spec fn layer_height(self, height: int) -> int {
        axis_size(height, self.offset_y, self.blur_radius as int)
    }

    /// Column of the content's left edge in the layer.
    pub open spec fn origin_x(self) -> int {
        axis_origin(self.offset_x, self.blur_radius as int)
    }

    /// Row of the content's top edge in the layer.
    pub open spec fn origin_y(self) -> int {
        axis_origin(self.offset_y, self.blur_radius as int)
    }

    /// Whether a layer for content of the given size can be addressed.
    pub open spec fn fits(self, width: int, height: int) -> bool {
        &&& self.layer_width(width) <= u32::MAX
        &&& self.layer_height(height) <= u32::MAX
        &&& self.origin_x() <= u32::MAX
        &&& self.origin_y() <= u32::MAX
        &&& self.layer_width(width) * self.layer_height(height) <= usize::MAX
    }

    /// The pixel at `(x, y)` of the unblurred shadow layer of `img`: the
    /// shadow colour everywhere, with the alpha of the content's pixel that
    /// is shifted there, and transparent where none is or where the shadow
    /// cannot be seen.
    pub open spec fn silhouette_at<T: ImageView>(self, img: &T, x: int, y: int) -> Pixel {
        let sx = x - self.origin_x() - self.offset_x;
        let sy = y - self.origin_y() - self.offset_y;
        let alpha = if !self.nop() && 0 <= sx < img.view_width() && 0 <= sy < img.view_height() {
            img.view_at(sx, sy).a
        } else {
            0
        };
        Pixel { r: self.color.r, g: self.color.g, b: self.color.b, a: alpha }
    }

    /// The pixel `p` of a blurred layer with the shadow's own opacity
    /// applied to it.
    pub open spec fn tinted(self, p: Pixel) -> Pixel {
        Pixel { r: p.r, g: p.g, b: p.b, a: scaled_alpha(p.a as int, self.color.a as int) as u8 }
    }

    /// Whether `layer` is the unblurred shadow layer of `img`.
    pub open spec fn is_silhouette<T: ImageView>(self, layer: RasterView, img: &T) -> bool {
        &&& layer.wf()
        &&& layer.width == self.layer_width(img.view_width() as int)
        &&& layer.height == self.layer_height(img.view_height() as int)
        &&& layer.layout == Layout::Rgba
        &&& forall|x: int, y: int|
            layer.contains(x, y) ==> #[trigger] layer.at(x, y) == self.silhouette_at(img, x, y)
    }

    /// Whether `layer` is `soft` with the shadow's opacity applied to it.
    pub open spec fn is_tinted(self, layer: RasterView, soft: RasterView) -> bool {
        &&& layer.wf()
        &&& layer.width == soft.width
        &&& layer.height == soft.height
        &&& layer.layout == soft.layout
        &&& forall|x: int, y: int|
            soft.contains(x, y) ==> #[trigger] layer.at(x, y) == soft.layout.stored(
                self.tinted(soft.at(x, y)),
            )
    }

    /// Whether `layer` is a shadow layer of `img` as `blur` may produce it:
    /// fully transparent when the shadow cannot be seen, and otherwise the
    /// silhouette of `img`, blurred by `blur` with the shadow's blur radius
    /// in half pixels (or left unblurred for a radius of 0), and tinted.
    pub open spec fn is_layer<T: ImageView, F: Fn(Raster, u64) -> Raster>(
        self,
        layer: RasterView,
        img: &T,
        blur: &F,
    ) -> bool {
        &&& layer.wf()
        &&& layer.width == self.layer_width(img.view_width() as int)
        &&& layer.height == self.layer_height(img.view_height() as int)
        &&& layer.layout == Layout::Rgba
        &&& self.nop() ==> forall|x: int, y: int|
            layer.contains(x, y) ==> #[trigger] layer.at(x, y) == (Pixel { a: 0, ..self.color })
        &&& !self.nop() ==> exists|flat: Raster, soft: Raster|
            {
                &&& self.is_silhouette(flat@, img)
                &&& self.blur_radius == 0 ==> soft@ == flat@
                &&& self.blur_radius != 0 ==> blur.ensures((flat, self.blur_radius as u64), soft)
                &&& self.is_tinted(layer, soft@)
            }
    }
}

/// A drop shadow: how far it is moved, how much it is blurred and what
/// colour and opacity it has.
#[derive(Debug, Clone, Copy)]
pub struct Shadow {
    offset_x: i32,
    offset_y: i32,
    blur_radius: u32,
    color: Pixel,
}

impl View for Shadow {
    type V = ShadowView;

    closed spec fn view(&self) -> ShadowView {
        ShadowView {
            offset_x: self.offset_x as int,
            offset_y: self.offset_y as int,
            blur_radius: self.blur_radius as nat,
            color: self.color,
        }
    }
}

impl Default for Shadow {
    fn default() -> (shadow: Shadow)
        ensures
            shadow@ == (ShadowView {
                offset_x: 10,
                offset_y: 10,
                blur_radius: 5,
                color: Pixel { r: 0, g: 0, b: 0, a: 255 },
            }),
    {
        Shadow { offset_x: 10, offset_y: 10, blur_radius: 5, color: Pixel { r: 0, g: 0, b: 0, a: 255 } }
    }
}

impl Shadow {
    /// Whether the shadow cannot be seen.
    pub fn nop(&self) -> (b: bool)
        ensures
            b == self@.nop(),
    {
        self.color.a == 0 || (self.blur_radius == 0 && self.offset_x == 0 && self.offset_y == 0)
    }

    /// Size of the shadow layer for content of the given size, and the
    /// place of the content in it.
    pub fn bounds(&self, width: u32, height: u32) -> (res: Result<
        ShadowBounds,
        InvalidConfiguration,
    >)
        ensures
            res is Ok <==> {
                &&& self@.layer_width(width as int) <= u32::MAX
                &&& self@.layer_height(height as int) <= u32::MAX
                &&& self@.origin_x() <= u32::MAX
                &&& self@.origin_y() <= u32::MAX
            },
            res matches Ok(b) ==> {
                &&& b.bg_width == self@.layer_width(width as int)
                &&& b.bg_height == self@.layer_height(height as int)
                &&& b.combine_offset_x == self@.origin_x()
                &&& b.combine_offset_y == self@.origin_y()
            },
            res matches Err(e) ==> e == InvalidConfiguration::TooLarge,
    {
        shadow_bounds(width, height, self.offset_x, self.offset_y, self.blur_radius)
    }

    /// Whether the shadow layer for content of the given size can be
    /// addressed.
    pub fn fits(&self, width: u32, height: u32) -> (b: bool)
        ensures
            b == self@.fits(width as int, height as int),
    {
        match self.bounds(width, height) {
            Ok(b) => {
                assert(b.bg_width * b.bg_height <= 0xffff_ffff * 0xffff_ffff) by (nonlinear_arith)
                    requires
                        0 <= b.bg_width <= 0xffff_ffff,
                        0 <= b.bg_height <= 0xffff_ffff,
                ;
                (b.bg_width as u64) * (b.bg_height as u64) <= usize::MAX as u64
            },
            Err(_) => false,
        }
    }

    /// The unblurred shadow layer of `img`, and the column and row of the
    /// top left corner of `img` in it.
    ///
    /// The layer has the shadow's colour everywhere. Its alpha is that of
    /// `img`, moved by the shadow's offset; where no pixel of `img` lands,
    /// and everywhere when the shadow cannot be seen, it is 0.
    pub fn silhouette<T: ImageView>(&self, img: &T) -> (res: Result<
        (Raster, u32, u32),
        InvalidConfiguration,
    >)
        requires
            img.view_wf(),
        ensures
            res is Ok <==> self@.fits(img.view_width() as int, img.view_height() as int),
            res matches Err(e) ==> e == InvalidConfiguration::TooLarge,
            res matches Ok(out) ==> {
                &&& out.0.wf()
                &&& out.0@.width == self@.layer_width(img.view_width() as int)
                &&& out.0@.height == self@.layer_height(img.view_height() as int)
                &&& out.0@.layout == Layout::Rgba
                &&& out.1 == self@.origin_x()
                &&& out.2 == self@.origin_y()
                &&& forall|x: int, y: int|
                    out.0@.contains(x, y) ==> #[trigger] out.0@.at(x, y) == self@.silhouette_at(
                        img,
                        x,
                        y,
                    )
            },
    {
        let w = img.width();
        let h = img.height();
        if !self.fits(w, h) {
            return Err(InvalidConfiguration::TooLarge);
        }
        let b = self.bounds(w, h).unwrap();
        let clear = self.color.with_alpha(0);
        let mut layer = Raster::from_pixel(b.bg_width, b.bg_height, Layout::Rgba, clear);
        if self.nop() {
            return Ok((layer, b.combine_offset_x, b.combine_offset_y));
        }
        let dx: i64 = b.combine_offset_x as i64 + self.offset_x as i64;
        let dy: i64 = b.combine_offset_y as i64 + self.offset_y as i64;
        let mut y: u32 = 0;
        while y < h
            invariant
                y <= h,
                img.view_wf(),
                w == img.view_width(),
                h == img.view_height(),
                layer.wf(),
                layer@.width == self@.layer_width(w as int),
                layer@.height == self@.layer_height(h as int),
                layer@.layout == Layout::Rgba,
                dx == self@.origin_x() + self@.offset_x,
                dy == self@.origin_y() + self@.offset_y,
                !self@.nop(),
                clear == (Pixel { a: 0, ..self@.color }),
                forall|u: int, v: int|
                    layer@.contains(u, v) ==> #[trigger] layer@.at(u, v) == (if v - dy < y {
                        self@.silhouette_at(img, u, v)
                    } else {
                        clear
                    }),
            decreases h - y,
        {
            let mut x: u32 = 0;
            while x < w
                invariant
                    x <= w,
                    y < h,
                    img.view_wf(),
                    w == img.view_width(),
                    h == img.view_height(),
                    layer.wf(),
                    layer@.width == self@.layer_width(w as int),
                    layer@.height == self@.layer_height(h as int),
                    layer@.layout == Layout::Rgba,
                    dx == self@.origin_x() + self@.offset_x,
                    dy == self@.origin_y() + self@.offset_y,
                    !self@.nop(),
                    clear == (Pixel { a: 0, ..self@.color }),
                    forall|u: int, v: int|
                        layer@.contains(u, v) ==> #[trigger] layer@.at(u, v) == (if v - dy < y || (v
                            - dy == y && u - dx < x) {
                            self@.silhouette_at(img, u, v)
                        } else {
                            clear
                        }),
                decreases w - x,
            {
                proof {
                    lemma_axis_bounds(w as int, self@.offset_x, self@.blur_radius as int, x as int);
                    lemma_axis_bounds(h as int, self@.offset_y, self@.blur_radius as int, y as int);
                }
                let p = img.get_pixel(x, y);
                let bx = (x as i64 + dx) as u32;
                let by = (y as i64 + dy) as u32;
                layer.put_pixel(bx, by, self.color.with_alpha(p.a));
                x = x + 1;
            }
            y = y + 1;
        }
        Ok((layer, b.combine_offset_x, b.combine_offset_y))
    }

    /// Applies the shadow's own opacity to a blurred layer: every alpha is
    /// scaled by the alpha of the shadow's colour over 255, rounded up.
    pub fn tint(&self, layer: &mut Raster)
        requires
            old(layer).wf(),
        ensures
            final(layer).wf(),
            final(layer)@.width == old(layer)@.width,
            final(layer)@.height == old(layer)@.height,
            final(layer)@.layout == old(layer)@.layout,
            forall|x: int, y: int|
                old(layer)@.contains(x, y) ==> #[trigger] final(layer)@.at(x, y) == old(
                    layer,
                )@.layout.stored(self@.tinted(old(layer)@.at(x, y))),
    {
        let w = layer.width();
        let h = layer.height();
        let opacity = self.color.a as u32;
        let mut y: u32 = 0;
        while y < h
            invariant
                y <= h,
                layer.wf(),
                opacity == self@.color.a,
                layer@.width == old(layer)@.width == w,
                layer@.height == old(layer)@.height == h,
                layer@.layout == old(layer)@.layout,
                forall|u: int, v: int|
                    old(layer)@.contains(u, v) ==> #[trigger] layer@.at(u, v) == (if v < y {
                        old(layer)@.layout.stored(self@.tinted(old(layer)@.at(u, v)))
                    } else {
                        old(layer)@.at(u, v)
                    }),
            decreases h - y,
        {
            let mut x: u32 = 0;
            while x < w
                invariant
                    x <= w,
                    y < h,
                    layer.wf(),
                    opacity == self@.color.a,
                    layer@.width == old(layer)@.width == w,
                    layer@.height == old(layer)@.height == h,
                    layer@.layout == old(layer)@.layout,
                    forall|u: int, v: int|
                        old(layer)@.contains(u, v) ==> #[trigger] layer@.at(u, v) == (if v < y || (v
                            == y && u < x) {
                            old(layer)@.layout.stored(self@.tinted(old(layer)@.at(u, v)))
                        } else {
                            old(layer)@.at(u, v)
                        }),
                decreases w - x,
            {
                let p = layer.get_pixel(x, y);
                assert(p.a * opacity <= 255 * 255) by (nonlinear_arith)
                    requires
                        0 <= p.a <= 255,
                        0 <= opacity <= 255,
                ;
                let a = ((p.a as u32) * opacity + 254) / 255;
                layer.put_pixel(x, y, p.with_alpha(a as u8));
                x = x + 1;
            }
            y = y + 1;
        }
    }

    /// The layer that holds the shadow of `img`, and the column and row of
    /// the top left corner of `img` in it.
    ///
    /// A shadow that cannot be seen gives a fully transparent layer of the
    /// size it would have had, and `blur` is not called. Otherwise the layer
    /// is the silhouette of `img`, blurred by half the shadow's blur radius
    /// and tinted with the shadow's opacity.
    pub fn gen_bg<T: ImageView, F: Fn(Raster, u64) -> Raster>(&self, img: &T, blur: &F) -> (res:
        Result<(Raster, u32, u32), InvalidConfiguration>)
        requires
            img.view_wf(),
            blur_ok(blur),
        ensures
            res is Ok <==> self@.fits(img.view_width() as int, img.view_height() as int),
            res matches Err(e) ==> e == InvalidConfiguration::TooLarge,
            res matches Ok(out) ==> {
                &&& out.0.wf()
                &&& out.1 == self@.origin_x()
                &&& out.2 == self@.origin_y()
                &&& self@.is_layer(out.0@, img, blur)
            },
    {
        let (flat, ox, oy) = match self.silhouette(img) {
            Ok(out) => out,
            Err(e) => {
                return Err(e);
            },
        };
        if self.nop() {
            return Ok((flat, ox, oy));
        }
        let mut layer = soften(flat, self.blur_radius as u64, blur);
        self.tint(&mut layer);
        Ok((layer, ox, oy))
    }

    /// The content `img` drawn over its own shadow, and the column and row
    /// of the top left corner of `img` in the result.
    pub fn apply<T: ImageView, F: Fn(Raster, u64) -> Raster>(&self, img: &T, blur: &F) -> (res:
        Result<(Raster, u32, u32), InvalidConfiguration>)
        requires
            img.view_wf(),
            blur_ok(blur),
        ensures
            res is Ok <==> self@.fits(img.view_width() as int, img.view_height() as int),
            res matches Err(e) ==> e == InvalidConfiguration::TooLarge,
            res matches Ok(out) ==> {
                &&& out.0.wf()
                &&& out.1 == self@.origin_x()
                &&& out.2 == self@.origin_y()
                &&& exists|layer: Raster|
                    {
                        &&& self@.is_layer(layer@, img, blur)
                        &&& is_composite(out.0@, layer@, img, self@.origin_x(), self@.origin_y())
                    }
            },
    {
        let (mut bg, dx, dy) = match self.gen_bg(img, blur) {
            Ok(out) => out,
            Err(e) => {
                return Err(e);
            },
        };
        composite(&mut bg, img, dx as i64, dy as i64);
        Ok((bg, dx, dy))
    }
}

/// Builds a [`Shadow`] step by step from the default one.
#[derive(Debug)]
pub struct Builder {
    inner: Shadow,
}

impl Default for Builder {
    fn default() -> (builder: Builder)
        ensures
            builder.spec_build() == (ShadowView {
                offset_x: 10,
                offset_y: 10,
                blur_radius: 5,
                color: Pixel { r: 0, g: 0, b: 0, a: 255 },
            }),
    {
        Builder { inner: Shadow::default() }
    }
}

impl Builder {
    /// The shadow that [`Builder::build`] would give now.
    pub closed spec fn spec_build(&self) -> ShadowView {
        self.inner@
    }

    /// Starts from the default shadow: ten pixels right and down, blurred
    /// by five, opaque black.
    pub fn new() -> (builder: Builder)
        ensures
            builder.spec_build() == (ShadowView {
                offset_x: 10,
                offset_y: 10,
                blur_radius: 5,
                color: Pixel { r: 0, g: 0, b: 0, a: 255 },
            }),
    {
        Builder { inner: Shadow::default() }
    }

    /// Sets how far the shadow is moved right and down.
    pub fn offset(self, x: i32, y: i32) -> (builder: Builder)
        ensures
            builder.spec_build() == (ShadowView { offset_x: x as int, offset_y: y as int, ..self.spec_build() }),
    {
        let mut inner = self.inner;
        inner.offset_x = x;
        inner.offset_y = y;
        Builder { inner }
    }

    /// Sets the blur radius.
    pub fn blur_radius(self, r: u32) -> (builder: Builder)
        ensures
            builder.spec_build() == (ShadowView { blur_radius: r as nat, ..self.spec_build() }),
    {
        let mut inner = self.inner;
        inner.blur_radius = r;
        Builder { inner }
    }

    /// Sets colour and opacity, as red, green, blue and alpha.
    pub fn color(self, rgba: [u8; 4]) -> (builder: Builder)
        ensures
            builder.spec_build() == (ShadowView {
                color: Pixel { r: rgba[0], g: rgba[1], b: rgba[2], a: rgba[3] },
                ..self.spec_build()
            }),
    {
        let mut inner = self.inner;
        inner.color = Pixel::from_rgba(rgba);
        Builder { inner }
    }

    /// The shadow as configured.
    pub fn build(self) -> (shadow: Shadow)
        ensures
            shadow@ == self.spec_build(),
    {
        self.inner
    }
}

} // verus!

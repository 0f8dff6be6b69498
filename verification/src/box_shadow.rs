//! The box shadow of a whole image, as an effect of its own.

use vstd::prelude::*;
use crate::blur::blur_ok;
use crate::effects::shadow::{Builder, Shadow, ShadowView};
use crate::error::InvalidConfiguration;
use crate::pixel::Pixel;
use crate::raster::Raster;

verus! {

/// A box shadow: how far it is moved, how much it is blurred and what
/// colour and opacity it has.
#[derive(Debug, Clone, Copy)]
pub struct Effects {
    shadow: Shadow,
}

impl View for Effects {
    type V = ShadowView;

    closed spec fn view(&self) -> ShadowView {
        self.shadow@
    }
}

impl Default for Effects {
    fn default() -> (effects: Effects)
        ensures
            effects@ == (ShadowView {
                offset_x: 10,
                offset_y: 10,
                blur_radius: 5,
                color: Pixel { r: 0, g: 0, b: 0, a: 255 },
            }),
    {
        Effects { shadow: Shadow::default() }
    }
}

/// Builds [`Effects`] step by step from the default ones.
#[derive(Debug)]
pub struct EffectBuilder {
    effects: Builder,
}

impl Default for EffectBuilder {
    fn default() -> (builder: EffectBuilder)
        ensures
            builder.spec_build() == (ShadowView {
                offset_x: 10,
                offset_y: 10,
                blur_radius: 5,
                color: Pixel { r: 0, g: 0, b: 0, a: 255 },
            }),
    {
        EffectBuilder { effects: Builder::new() }
    }
}

impl EffectBuilder {
    /// The effects that [`EffectBuilder::build`] would give now.
    pub closed spec fn spec_build(&self) -> ShadowView {
        self.effects.spec_build()
    }

    /// Starts from the default shadow: ten pixels right and down, blurred
    /// by five, opaque black.
    pub fn new() -> (builder: EffectBuilder)
        ensures
            builder.spec_build() == (ShadowView {
                offset_x: 10,
                offset_y: 10,
                blur_radius: 5,
                color: Pixel { r: 0, g: 0, b: 0, a: 255 },
            }),
    {
        EffectBuilder { effects: Builder::new() }
    }

    /// Sets how far the shadow is moved right and down.
    pub fn offset(self, x: i32, y: i32) -> (builder: EffectBuilder)
        ensures
            builder.spec_build() == (ShadowView { offset_x: x as int, offset_y: y as int, ..self.spec_build() }),
    {
        EffectBuilder { effects: self.effects.offset(x, y) }
    }

    /// Sets the blur radius.
    pub fn blur_radius(self, r: u32) -> (builder: EffectBuilder)
        ensures
            builder.spec_build() == (ShadowView { blur_radius: r as nat, ..self.spec_build() }),
    {
        EffectBuilder { effects: self.effects.blur_radius(r) }
    }

    /// Sets colour and opacity, as red, green, blue and alpha.
    pub fn color(self, rgba: [u8; 4]) -> (builder: EffectBuilder)
        ensures
            builder.spec_build() == (ShadowView {
                color: Pixel { r: rgba[0], g: rgba[1], b: rgba[2], a: rgba[3] },
                ..self.spec_build()
            }),
    {
        EffectBuilder { effects: self.effects.color(rgba) }
    }

    /// The effects as configured.
    pub fn build(self) -> (effects: Effects)
        ensures
            effects@ == self.spec_build(),
    {
        Effects { shadow: self.effects.build() }
    }
}

impl Effects {
    /// Whether the shadow cannot be seen.
    pub fn nop(&self) -> (b: bool)
        ensures
            b == self@.nop(),
    {
        self.shadow.nop()
    }

    /// The layer that holds the shadow of `img`, and the column and row of
    /// the top left corner of `img` in it.
    pub fn gen_bg<F: Fn(Raster, u64) -> Raster>(&self, img: &Raster, blur: &F) -> (res: Result<
        (Raster, u32, u32),
        InvalidConfiguration,
    >)
        requires
            img.wf(),
            blur_ok(blur),
        ensures
            res is Ok <==> self@.fits(img@.width as int, img@.height as int),
            res matches Err(e) ==> e == InvalidConfiguration::TooLarge,
            res matches Ok(out) ==> {
                &&& out.0.wf()
                &&& out.1 == self@.origin_x()
                &&& out.2 == self@.origin_y()
                &&& self@.is_layer(out.0@, img, blur)
            },
    {
        self.shadow.gen_bg(img, blur)
    }
}

} // verus!

//! Poster compositing: a source photo is centred, corner-rounded and
//! drop-shadowed on a background canvas of a chosen size or aspect ratio.
//!
//! The library works on decoded pixels. Reading and writing files, and the
//! Gaussian blur itself, are the caller's: the blur is handed in as a
//! function (see [`blur`]).

use vstd::prelude::*;

pub mod blur;
pub mod box_shadow;
pub mod compose;
pub mod config;
pub mod effects;
pub mod error;
pub mod orientation;
pub mod pixel;
pub mod raster;
pub mod resize;

pub use config::Config;
pub use orientation::open_img;

use crate::blur::{blur_ok, is_softened, soften};
use crate::compose::{
    background,
    background_error,
    draw,
    foreground,
    foreground_error,
    foreground_of,
    is_background,
    is_drawn,
};
use crate::config::{lemma_canvas_holds_content, Geometry};
use crate::effects::round::{apply, masked_at, Rounded};
use crate::effects::shadow::{Builder, ShadowView};
use crate::error::InvalidConfiguration;
use crate::pixel::{Layout, Pixel};
use crate::raster::{Raster, RasterView};

verus! {

/// Rounds the corners of `img`: every pixel outside the rounded rectangle
/// of the given radius becomes transparent, or white where `img` has no
/// alpha channel.
pub fn round_img(img: Raster, radius: u32) -> (res: Result<Raster, InvalidConfiguration>)
    requires
        img.wf(),
    ensures
        res is Ok <==> 2 * radius <= img@.width && 2 * radius <= img@.height,
        res matches Err(e) ==> e == InvalidConfiguration::Radius,
        res matches Ok(out) ==> {
            &&& out.wf()
            &&& out@.width == img@.width
            &&& out@.height == img@.height
            &&& out@.layout == img@.layout
            &&& forall|x: int, y: int|
                img@.contains(x, y) ==> #[trigger] out@.at(x, y) == masked_at(
                    img@,
                    radius as int,
                    img@.layout.blank(),
                    x,
                    y,
                )
        },
{
    let mut out = img;
    match apply(&mut out, radius) {
        Ok(()) => Ok(out),
        Err(e) => Err(e),
    }
}

/// The font families that captions can be set in.
pub fn font_families() -> (res: Vec<String>)
    ensures
        res@.len() == 1,
        res@[0]@ == "hello"@,
{
    let mut res: Vec<String> = Vec::new();
    res.push("hello".to_owned());
    res
}

/// The shadow that every poster is drawn with: black at alpha 200, moved
/// and blurred as the job asks.
pub open spec fn poster_shadow(cfg: Config) -> ShadowView {
    ShadowView {
        offset_x: cfg.size.shadow_offset_x as int,
        offset_y: cfg.size.shadow_offset_y as int,
        blur_radius: cfg.size.shadow as nat,
        color: Pixel { r: 0, g: 0, b: 0, a: 200 },
    }
}

/// Why the job `cfg` cannot be rendered from `source`, if it cannot: the
/// first failure among the canvas layout, the foreground, the corner radius
/// against the foreground's size, the size of the shadow layer, and the
/// background.
pub open spec fn go_error(cfg: Config, source: RasterView) -> Option<InvalidConfiguration> {
    let w = source.width as int;
    let h = source.height as int;
    let bg = cfg.size.canvas(w, h);
    let fg = foreground_of(source, cfg.size, bg.0, bg.1);
    if cfg.size.rejection(w, h) is Some {
        cfg.size.rejection(w, h)
    } else if foreground_error(source, cfg.size, bg.0, bg.1) is Some {
        foreground_error(source, cfg.size, bg.0, bg.1)
    } else if 2 * cfg.size.round_radius > fg.1 || 2 * cfg.size.round_radius > fg.2 {
        Some(InvalidConfiguration::Radius)
    } else if !poster_shadow(cfg).fits(fg.1 as int, fg.2 as int) {
        Some(InvalidConfiguration::TooLarge)
    } else {
        background_error(source, cfg.white_bg, bg.0, bg.1)
    }
}

/// Renders the poster of `source` that the job `cfg` describes.
///
/// The canvas is sized, filled (white, or with `source` scaled to cover it)
/// and blurred by the background blur radius. The foreground (`source`,
/// scaled to fit the padded canvas when the canvas has a fixed size) is
/// centred on it with rounded corners, over its drop shadow.
///
/// A job is rejected before its background is made; only the scaling of
/// the foreground, on whose size the checks depend, comes first.
pub fn go<F: Fn(Raster, u64) -> Raster>(cfg: &Config, source: &Raster, blur: &F) -> (res: Result<
    Raster,
    InvalidConfiguration,
>)
    requires
        source.wf(),
        blur_ok(blur),
    ensures
        match res {
            Err(e) => go_error(*cfg, source@) == Some(e),
            Ok(out) => {
                let canvas = cfg.size.canvas(source@.width as int, source@.height as int);
                let fg = foreground_of(source@, cfg.size, canvas.0, canvas.1);
                let dist_h = (canvas.0 - fg.1) / 2;
                let dist_v = (canvas.1 - fg.2) / 2;
                &&& go_error(*cfg, source@) is None
                &&& out.wf()
                &&& out@.width == canvas.0
                &&& out@.height == canvas.1
                &&& out@.layout == Layout::Rgb
                &&& fg.1 <= canvas.0
                &&& fg.2 <= canvas.1
                &&& exists|flat: Raster, soft: Raster, content: Raster, view: Rounded|
                    {
                        &&& is_background(flat@, source@, cfg.white_bg, canvas.0, canvas.1)
                        &&& is_softened(soft, flat, 2 * cfg.size.blur_radius, blur)
                        &&& content.wf()
                        &&& content@.layout == source@.layout
                        &&& (content@.pixels, content@.width, content@.height) == fg
                        &&& view.wf()
                        &&& view.source() == content@
                        &&& view.radius() == cfg.size.round_radius
                        &&& is_drawn(out@, soft@, &view, poster_shadow(*cfg), dist_h, dist_v, blur)
                    }
            },
        },
{
    let size = &cfg.size;
    let (bg_width, bg_height) = match size.calc_bg(source.width(), source.height()) {
        Ok(bg) => bg,
        Err(e) => {
            return Err(e);
        },
    };
    let img = match foreground(source, size, bg_width, bg_height) {
        Ok(img) => img,
        Err(e) => {
            return Err(e);
        },
    };
    let rounded = match Rounded::new(&img, size.round_radius) {
        Ok(view) => view,
        Err(e) => {
            return Err(e);
        },
    };
    let shadow = Builder::new().offset(size.shadow_offset_x, size.shadow_offset_y).blur_radius(
        size.shadow,
    ).color([0, 0, 0, 200]).build();
    if !shadow.fits(img.width(), img.height()) {
        return Err(InvalidConfiguration::TooLarge);
    }
    // The canvas is made last, once the job has passed every other check.
    let flat = match background(source, cfg.white_bg, bg_width, bg_height) {
        Ok(bg) => bg,
        Err(e) => {
            return Err(e);
        },
    };
    proof {
        if size.aspect_ratio {
            lemma_canvas_holds_content(*size, source@.width as int, source@.height as int);
        }
    }
    // The foreground never is larger than the canvas.
    let place = Geometry::new(bg_width, bg_height, img.width(), img.height()).unwrap();
    let soft = soften(flat, 2 * (size.blur_radius as u64), blur);
    Ok(draw(soft, &rounded, &shadow, place.dist_h, place.dist_v, blur).unwrap())
}

} // verus!

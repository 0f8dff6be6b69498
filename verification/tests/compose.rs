use bmps::blur::soften;
use bmps::compose::{background, composite, draw, foreground};
use bmps::config::{Padding, Size};
use bmps::effects::round::Rounded;
use bmps::effects::shadow::Builder;
use bmps::error::InvalidConfiguration;
use bmps::pixel::{Layout, Pixel};
use bmps::raster::Raster;

fn px(r: u8, g: u8, b: u8, a: u8) -> Pixel {
    Pixel { r, g, b, a }
}

/// A raster whose pixel at `(x, y)` is `(x, y, 10 * y + x, alpha)`.
fn grid(width: u32, height: u32, layout: Layout, alpha: u8) -> Raster {
    let mut img = Raster::from_pixel(width, height, layout, px(0, 0, 0, 255));
    for y in 0..height {
        for x in 0..width {
            img.put_pixel(x, y, px(x as u8, y as u8, (10 * y + x) as u8, alpha));
        }
    }
    img
}

fn never(_layer: Raster, _halves: u64) -> Raster {
    panic!("the blur must not be called")
}

fn same(layer: Raster, _halves: u64) -> Raster {
    layer
}

#[test]
fn a_transparent_layer_changes_nothing() {
    for layout in [Layout::Rgb, Layout::Rgba] {
        let bg = grid(6, 5, layout, 90);
        let top = grid(4, 4, Layout::Rgba, 0);
        for (left, upper) in [(0i64, 0i64), (1, 1), (-2, 3), (5, 4), (-9, -9), (100, 0), (i64::MIN, i64::MAX)] {
            let mut out = bg.duplicate();
            composite(&mut out, &top, left, upper);
            assert_eq!(out, bg);
        }
    }
}

#[test]
fn an_opaque_layer_replaces_what_it_covers() {
    for layout in [Layout::Rgb, Layout::Rgba] {
        let bg = Raster::from_pixel(6, 5, layout, px(9, 9, 9, 77));
        let top = grid(3, 2, Layout::Rgba, 255);
        let mut out = bg.duplicate();
        composite(&mut out, &top, 2, 1);
        for y in 0..5u32 {
            for x in 0..6u32 {
                if (2..5).contains(&x) && (1..3).contains(&y) {
                    assert_eq!(out.get_pixel(x, y), top.get_pixel(x - 2, y - 1));
                } else {
                    assert_eq!(out.get_pixel(x, y), bg.get_pixel(x, y));
                }
            }
        }
    }
}

#[test]
fn what_falls_outside_the_background_is_clipped() {
    let bg = Raster::from_pixel(4, 4, Layout::Rgba, px(9, 9, 9, 255));
    let top = grid(3, 3, Layout::Rgba, 255);
    let mut out = bg.duplicate();
    composite(&mut out, &top, -1, -2);
    // Only the last row of the layer, without its first column, lands.
    assert_eq!(out.get_pixel(0, 0), top.get_pixel(1, 2));
    assert_eq!(out.get_pixel(1, 0), top.get_pixel(2, 2));
    assert_eq!(out.get_pixel(2, 0), px(9, 9, 9, 255));
    assert_eq!(out.get_pixel(0, 1), px(9, 9, 9, 255));
    let mut out = bg.duplicate();
    composite(&mut out, &top, 3, 3);
    assert_eq!(out.get_pixel(3, 3), top.get_pixel(0, 0));
    assert_eq!(out.get_pixel(2, 3), px(9, 9, 9, 255));
}

#[test]
fn a_translucent_layer_is_mixed_in() {
    let mut out = Raster::from_pixel(2, 1, Layout::Rgb, px(10, 20, 30, 255));
    let top = Raster::from_pixel(1, 1, Layout::Rgba, px(200, 100, 50, 128));
    composite(&mut out, &top, 1, 0);
    assert_eq!(out.get_pixel(0, 0), px(10, 20, 30, 255));
    // Mixed as for a pixel alone, and opaque as the background has no alpha.
    assert_eq!(out.get_pixel(1, 0), px(105, 60, 40, 255));
    let mut out = Raster::from_pixel(2, 1, Layout::Rgba, px(10, 20, 30, 100));
    composite(&mut out, &top, 0, 0);
    assert_eq!(out.get_pixel(0, 0), px(146, 77, 44, 177));
}

#[test]
fn composite_reads_through_a_rounded_view() {
    let fg = grid(8, 8, Layout::Rgb, 255);
    let view = Rounded::new(&fg, 4).unwrap();
    let mut out = Raster::from_pixel(10, 10, Layout::Rgb, Pixel::white());
    composite(&mut out, &view, 1, 1);
    // The corner of the view is masked, its centre is not.
    assert_eq!(out.get_pixel(1, 1), Pixel::white());
    assert_eq!(out.get_pixel(5, 5), fg.get_pixel(4, 4));
}

#[test]
fn silhouette_moves_the_alpha_of_the_content() {
    let mut img = Raster::from_pixel(2, 2, Layout::Rgba, px(50, 60, 70, 255));
    img.put_pixel(1, 0, px(50, 60, 70, 128));
    img.put_pixel(0, 1, px(50, 60, 70, 0));
    let shadow = Builder::new().offset(2, -1).blur_radius(0).color([1, 2, 3, 255]).build();
    let (layer, ox, oy) = shadow.silhouette(&img).unwrap();
    // To the right the layer grows by the offset; upwards too, and there the
    // content is moved down to make room.
    assert_eq!(layer.dimensions(), (4, 3));
    assert_eq!((ox, oy), (0, 1));
    assert_eq!(layer.layout(), Layout::Rgba);
    let alphas: Vec<u8> = layer.to_raw().chunks(4).map(|p| p[3]).collect();
    assert_eq!(alphas, vec![0, 0, 255, 128, 0, 0, 0, 255, 0, 0, 0, 0]);
    for y in 0..3 {
        for x in 0..4 {
            let p = layer.get_pixel(x, y);
            assert_eq!((p.r, p.g, p.b), (1, 2, 3));
        }
    }
}

#[test]
fn tint_scales_alpha_and_rounds_up() {
    let mut layer = Raster::from_pixel(4, 1, Layout::Rgba, px(1, 2, 3, 255));
    layer.put_pixel(1, 0, px(1, 2, 3, 128));
    layer.put_pixel(2, 0, px(1, 2, 3, 51));
    layer.put_pixel(3, 0, px(1, 2, 3, 0));
    let shadow = Builder::new().color([9, 9, 9, 200]).build();
    shadow.tint(&mut layer);
    // 255 * 200 / 255 = 200; 128 * 200 / 255 = 100.4; 51 * 200 / 255 = 40.
    assert_eq!(layer.get_pixel(0, 0), px(1, 2, 3, 200));
    assert_eq!(layer.get_pixel(1, 0), px(1, 2, 3, 101));
    assert_eq!(layer.get_pixel(2, 0), px(1, 2, 3, 40));
    assert_eq!(layer.get_pixel(3, 0), px(1, 2, 3, 0));
    let full = Builder::new().color([9, 9, 9, 255]).build();
    let before = layer.duplicate();
    full.tint(&mut layer);
    assert_eq!(layer, before);
    let faint = Builder::new().color([9, 9, 9, 1]).build();
    faint.tint(&mut layer);
    assert_eq!(layer.get_pixel(0, 0).a, 1);
    assert_eq!(layer.get_pixel(3, 0).a, 0);
}

#[test]
fn gen_bg_of_an_invisible_shadow_is_transparent() {
    let img = grid(5, 4, Layout::Rgba, 255);
    for shadow in [
        Builder::new().color([7, 8, 9, 0]).build(),
        Builder::new().offset(0, 0).blur_radius(0).color([7, 8, 9, 255]).build(),
    ] {
        let (layer, ox, oy) = shadow.gen_bg(&img, &never).unwrap();
        let b = shadow.bounds(5, 4).unwrap();
        assert_eq!(layer.dimensions(), (b.bg_width, b.bg_height));
        assert_eq!((ox, oy), (b.combine_offset_x, b.combine_offset_y));
        for y in 0..b.bg_height {
            for x in 0..b.bg_width {
                assert_eq!(layer.get_pixel(x, y), px(7, 8, 9, 0));
            }
        }
    }
}

#[test]
fn gen_bg_tints_what_the_blur_returns() {
    let img = grid(2, 2, Layout::Rgba, 255);
    let shadow = Builder::new().offset(1, 1).blur_radius(2).color([0, 0, 0, 100]).build();
    let seen = std::cell::Cell::new(0u64);
    let blur = |layer: Raster, halves: u64| {
        seen.set(halves);
        layer
    };
    let (layer, ox, oy) = shadow.gen_bg(&img, &blur).unwrap();
    // The radius handed over is the shadow's blur radius, in half pixels.
    assert_eq!(seen.get(), 2);
    assert_eq!(layer.dimensions(), (6, 6));
    assert_eq!((ox, oy), (1, 1));
    assert_eq!(layer.get_pixel(2, 2), px(0, 0, 0, 100));
    assert_eq!(layer.get_pixel(3, 3), px(0, 0, 0, 100));
    assert_eq!(layer.get_pixel(1, 1), px(0, 0, 0, 0));
    assert_eq!(layer.get_pixel(4, 4), px(0, 0, 0, 0));
}

#[test]
fn gen_bg_does_not_blur_by_nothing() {
    let img = grid(2, 2, Layout::Rgba, 255);
    let shadow = Builder::new().offset(3, 0).blur_radius(0).build();
    let (layer, _, _) = shadow.gen_bg(&img, &never).unwrap();
    assert_eq!(layer.get_pixel(3, 0), px(0, 0, 0, 255));
    assert_eq!(layer.get_pixel(0, 0), px(0, 0, 0, 0));
}

#[test]
fn apply_draws_the_content_over_its_shadow() {
    let img = grid(2, 2, Layout::Rgba, 255);
    let shadow = Builder::new().offset(-1, 2).blur_radius(0).color([9, 9, 9, 255]).build();
    let (out, dx, dy) = shadow.apply(&img, &same).unwrap();
    assert_eq!((dx, dy), (1, 0));
    assert_eq!(out.dimensions(), (3, 4));
    for y in 0..2 {
        for x in 0..2 {
            assert_eq!(out.get_pixel(x + dx, y + dy), img.get_pixel(x, y));
        }
    }
    // The shadow lies one to the left and two down.
    assert_eq!(out.get_pixel(0, 2), px(9, 9, 9, 255));
    assert_eq!(out.get_pixel(1, 3), px(9, 9, 9, 255));
    assert_eq!(out.get_pixel(0, 0), px(9, 9, 9, 0));
    assert_eq!(out.get_pixel(2, 3), px(9, 9, 9, 0));
}

#[test]
fn an_invisible_shadow_draws_like_no_shadow() {
    let fg = grid(6, 6, Layout::Rgba, 140);
    let view = Rounded::new(&fg, 2).unwrap();
    let bg = grid(12, 10, Layout::Rgb, 255);
    let mut plain = bg.duplicate();
    composite(&mut plain, &view, 3, 2);
    for shadow in [
        Builder::new().offset(30, -4).blur_radius(7).color([1, 2, 3, 0]).build(),
        Builder::new().offset(0, 0).blur_radius(0).color([1, 2, 3, 200]).build(),
    ] {
        let out = draw(bg.duplicate(), &view, &shadow, 3, 2, &never).unwrap();
        assert_eq!(out, plain);
    }
    assert_ne!(plain, bg);
}

#[test]
fn a_visible_shadow_shows_beside_the_content() {
    let fg = grid(2, 2, Layout::Rgba, 255);
    let bg = Raster::from_pixel(8, 8, Layout::Rgb, Pixel::white());
    let shadow = Builder::new().offset(2, 2).blur_radius(0).color([0, 0, 0, 255]).build();
    let out = draw(bg, &fg, &shadow, 3, 3, &same).unwrap();
    assert_eq!(out.get_pixel(3, 3), fg.get_pixel(0, 0));
    assert_eq!(out.get_pixel(4, 4), fg.get_pixel(1, 1));
    assert_eq!(out.get_pixel(5, 5), px(0, 0, 0, 255));
    assert_eq!(out.get_pixel(6, 6), px(0, 0, 0, 255));
    assert_eq!(out.get_pixel(7, 7), Pixel::white());
    assert_eq!(out.get_pixel(2, 2), Pixel::white());
}

#[test]
fn a_shadow_reaching_past_the_canvas_is_clipped() {
    let fg = grid(2, 2, Layout::Rgba, 255);
    let bg = Raster::from_pixel(4, 4, Layout::Rgb, Pixel::white());
    let shadow = Builder::new().offset(-3, -3).blur_radius(0).color([0, 0, 0, 255]).build();
    let out = draw(bg, &fg, &shadow, 1, 1, &same).unwrap();
    // The shadow would lie at columns and rows -2 and -1.
    assert_eq!(out.get_pixel(0, 0), Pixel::white());
    assert_eq!(out.get_pixel(1, 1), fg.get_pixel(0, 0));
    assert_eq!(out.get_pixel(3, 3), Pixel::white());
}

#[test]
fn draw_rejects_a_shadow_layer_that_cannot_be_addressed() {
    let fg = grid(2, 2, Layout::Rgba, 255);
    let bg = Raster::from_pixel(4, 4, Layout::Rgb, Pixel::white());
    let shadow = Builder::new().offset(0, 0).blur_radius(u32::MAX).build();
    assert_eq!(draw(bg, &fg, &shadow, 1, 1, &same).unwrap_err(), InvalidConfiguration::TooLarge);
    assert_eq!(shadow.gen_bg(&fg, &same).unwrap_err(), InvalidConfiguration::TooLarge);
    assert_eq!(shadow.silhouette(&fg).unwrap_err(), InvalidConfiguration::TooLarge);
    assert_eq!(shadow.apply(&fg, &same).unwrap_err(), InvalidConfiguration::TooLarge);
    assert_eq!(shadow.bounds(2, 2).unwrap_err(), InvalidConfiguration::TooLarge);
}

#[test]
fn soften_by_nothing_returns_the_layer() {
    let img = grid(3, 3, Layout::Rgba, 200);
    assert_eq!(soften(img.duplicate(), 0, &never), img);
    let blank = |layer: Raster, _halves: u64| Raster::from_pixel(layer.width(), layer.height(), layer.layout(), px(0, 0, 0, 0));
    assert_ne!(soften(img.duplicate(), 1, &blank), img);
}

#[test]
fn background_is_white_or_the_source_filling_the_canvas() {
    let src = grid(4, 2, Layout::Rgba, 100);
    let white = background(&src, true, 3, 3).unwrap();
    assert_eq!(white, Raster::from_pixel(3, 3, Layout::Rgb, Pixel::white()));
    let filled = background(&src, false, 2, 2).unwrap();
    assert_eq!(filled.layout(), Layout::Rgb);
    assert_eq!(filled.dimensions(), (2, 2));
    // The middle columns of the source, made opaque.
    assert_eq!(filled.get_pixel(0, 0), px(1, 0, 1, 255));
    assert_eq!(filled.get_pixel(1, 1), px(2, 1, 12, 255));
    assert_eq!(background(&src, false, 0, 2).unwrap_err(), InvalidConfiguration::ZeroDimension);
    assert!(background(&src, true, 0, 2).is_ok());
}

#[test]
fn foreground_is_scaled_only_on_a_fixed_canvas() {
    let src = grid(10, 10, Layout::Rgba, 255);
    let fixed = Size { width: 40, height: 30, padding: Padding { numerator: 1, denominator: 10 }, ..Size::default() };
    let fg = foreground(&src, &fixed, 40, 30).unwrap();
    // In 32 by 24 a square is 24 by 24.
    assert_eq!(fg.dimensions(), (24, 24));
    assert_eq!(fg.get_pixel(0, 0), src.get_pixel(0, 0));
    assert_eq!(fg.get_pixel(23, 23), src.get_pixel(9, 9));
    let ratio = Size { aspect_ratio: true, ..fixed };
    assert_eq!(foreground(&src, &ratio, 40, 30).unwrap(), src);
    let empty = Raster::from_pixel(0, 0, Layout::Rgba, px(0, 0, 0, 0));
    assert_eq!(foreground(&empty, &fixed, 40, 30).unwrap_err(), InvalidConfiguration::ZeroDimension);
}

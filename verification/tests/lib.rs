use bmps::config::{Padding, Size};
use bmps::effects::round;
use bmps::effects::shadow::Builder;
use bmps::error::InvalidConfiguration;
use bmps::pixel::{Layout, Pixel};
use bmps::raster::Raster;
use bmps::{font_families, go, Config};

fn px(r: u8, g: u8, b: u8, a: u8) -> Pixel {
    Pixel { r, g, b, a }
}

/// An opaque picture whose pixel at `(x, y)` is `(x, y, x + y)`, each taken
/// modulo 256.
fn photo(width: u32, height: u32, layout: Layout) -> Raster {
    let mut bytes = Vec::with_capacity((width * height * 4) as usize);
    for y in 0..height {
        for x in 0..width {
            bytes.push((x % 256) as u8);
            bytes.push((y % 256) as u8);
            bytes.push(((x + y) % 256) as u8);
            bytes.push(255);
        }
    }
    Raster::from_raw(width, height, layout, &bytes).unwrap()
}

/// Gaussian blur by `halves` half pixels.
fn gaussian(layer: Raster, halves: u64) -> Raster {
    let (w, h) = layer.dimensions();
    if w == 0 || h == 0 {
        return layer;
    }
    let layout = layer.layout();
    let raw = layer.to_raw();
    let radius = halves as f32 / 2.0;
    let out: Vec<u8> = match layout {
        Layout::Rgba => {
            let mut data: Vec<[u8; 4]> = raw.chunks_exact(4).map(|c| [c[0], c[1], c[2], c[3]]).collect();
            blurslice::gaussian_blur(&mut data, w as usize, h as usize, radius);
            data.into_iter().flatten().collect()
        }
        Layout::Rgb => {
            let mut data: Vec<[u8; 3]> = raw.chunks_exact(4).map(|c| [c[0], c[1], c[2]]).collect();
            blurslice::gaussian_blur(&mut data, w as usize, h as usize, radius);
            data.into_iter().flat_map(|c| [c[0], c[1], c[2], 255]).collect()
        }
    };
    Raster::from_raw(w, h, layout, &out).unwrap()
}

fn job(size: Size, white_bg: bool) -> Config {
    Config {
        source_file: "./hello.jpg".to_owned(),
        dest_file: "./output_p.jpg".to_owned(),
        font: None,
        size,
        white_bg,
    }
}

#[test]
fn fonts() {
    let _ = font_families();
}

#[test]
fn font_families_are_listed() {
    assert_eq!(font_families(), vec!["hello".to_owned()]);
}

#[test]
fn gogogo() {
    let source = photo(1200, 800, Layout::Rgb);
    let mut cfg = Config {
        source_file: "./hello.jpg".to_owned(),
        dest_file: "./output_p.jpg".to_owned(),
        font: None,
        size: Default::default(),
        white_bg: false,
    };
    let portrait = go(&cfg, &source, &gaussian).unwrap();
    assert_eq!(portrait.dimensions(), (1920, 1080));
    assert_eq!(portrait.layout(), Layout::Rgb);
    std::mem::swap(&mut cfg.size.width, &mut cfg.size.height);
    cfg.dest_file = "./output_l.jpg".to_owned();
    let landscape = go(&cfg, &source, &gaussian).unwrap();
    assert_eq!(landscape.dimensions(), (1080, 1920));
    // The foreground is 864 by 576, centred: its middle shows the middle of
    // the source.
    assert_eq!(landscape.get_pixel(540, 960), source.get_pixel(600, 400));
}

#[test]
fn shadow() {
    let img = photo(2400, 1600, Layout::Rgb);
    let img = img.resize_to_fill(1920, 1080).unwrap();
    let mut img = img.with_layout(Layout::Rgba);
    round::apply(&mut img, 40).unwrap();

    let (bg, dx, dy) = Builder::new()
        .color([100, 100, 100, 255])
        .blur_radius(50)
        .offset(100, 100)
        .build()
        .gen_bg(&img, &gaussian)
        .unwrap();
    assert_eq!((dx, dy), (0, 0));
    assert_eq!(bg.dimensions(), (2070, 1230));
    let mut res = Raster::from_pixel(
        bg.width() + 200,
        bg.height() + 200,
        Layout::Rgba,
        px(255, 255, 255, 255),
    );
    for x in 0..bg.width() {
        for y in 0..bg.height() {
            let under = res.get_pixel(x + 100, y + 100);
            let over = bg.get_pixel(x, y);
            res.put_pixel(x + 100, y + 100, under.blend(over));
        }
    }
    for x in 0..img.width() {
        for y in 0..img.height() {
            let p = img.get_pixel(x, y);
            let q = res.get_pixel(x + 100 + dx, y + 100 + dy);
            res.put_pixel(x + 100 + dx, y + 100 + dy, q.blend(p));
        }
    }
    assert_eq!(res.dimensions(), (2270, 1430));
    // Around the layer the page is white, the content shows itself, and
    // well inside the shadow, beside the content, the page is shadow grey.
    assert_eq!(res.get_pixel(0, 0), px(255, 255, 255, 255));
    assert_eq!(res.get_pixel(2269, 1429), px(255, 255, 255, 255));
    assert_eq!(res.get_pixel(100 + 960, 100 + 540), img.get_pixel(960, 540));
    assert_eq!(res.get_pixel(100 + 1925, 100 + 640), px(100, 100, 100, 255));
    // The rounded corner of the content lets the page through.
    assert_eq!(res.get_pixel(100, 100), px(255, 255, 255, 255));
}

#[test]
fn poster_on_white_with_the_shadow_switched_off() {
    let source = photo(1000, 1000, Layout::Rgb);
    let size = Size {
        width: 800,
        height: 600,
        aspect_ratio: false,
        blur_radius: 50,
        round_radius: 0,
        padding: Padding { numerator: 1, denominator: 10 },
        shadow: 0,
        shadow_offset_x: 0,
        shadow_offset_y: 0,
    };
    let out = go(&job(size, true), &source, &gaussian).unwrap();
    assert_eq!(out.dimensions(), (800, 600));
    let white = px(255, 255, 255, 255);
    for (x, y) in [(0, 0), (799, 0), (0, 599), (799, 599)] {
        assert_eq!(out.get_pixel(x, y), white);
    }
    // The content is 480 by 480, at (800 - 480) / 2 and (600 - 480) / 2.
    let (dist_h, dist_v) = (160, 60);
    for y in 0..600u32 {
        for x in 0..800u32 {
            let inside = (dist_h..dist_h + 480).contains(&x) && (dist_v..dist_v + 480).contains(&y);
            if !inside {
                assert_eq!(out.get_pixel(x, y), white, "at {x},{y}");
            }
        }
    }
    // Output pixel c of the content shows source pixel (c + 0.5) * 1000 / 480.
    assert_eq!(out.get_pixel(dist_h, dist_v), source.get_pixel(1, 1));
    assert_eq!(out.get_pixel(dist_h + 479, dist_v + 479), source.get_pixel(998, 998));
    assert_eq!(out.get_pixel(dist_h + 240, dist_v), source.get_pixel(501, 1));
    let content = source.resize(640, 480).unwrap();
    assert_eq!(content.dimensions(), (480, 480));
    for y in 0..480 {
        for x in 0..480 {
            assert_eq!(out.get_pixel(dist_h + x, dist_v + y), content.get_pixel(x, y));
        }
    }
}

#[test]
fn poster_by_aspect_ratio_keeps_the_source_size() {
    let source = photo(400, 200, Layout::Rgb);
    let size = Size {
        width: 16,
        height: 9,
        aspect_ratio: true,
        blur_radius: 3,
        round_radius: 10,
        shadow: 4,
        shadow_offset_x: 3,
        shadow_offset_y: 3,
        ..Size::default()
    };
    let out = go(&job(size, false), &source, &gaussian).unwrap();
    assert_eq!(out.dimensions(), (500, 281));
    // (500 - 400) / 2 = 50 and (281 - 200) / 2 = 40.
    assert_eq!(out.get_pixel(50 + 200, 40 + 100), source.get_pixel(200, 100));
    assert_eq!(out.get_pixel(50 + 399, 40 + 100), source.get_pixel(399, 100));
}

#[test]
fn poster_with_a_shadow_darkens_the_page_beside_the_content() {
    let source = photo(100, 100, Layout::Rgb);
    let size = Size {
        width: 200,
        height: 200,
        aspect_ratio: false,
        blur_radius: 0,
        round_radius: 0,
        padding: Padding { numerator: 1, denominator: 4 },
        shadow: 0,
        shadow_offset_x: 20,
        shadow_offset_y: 0,
    };
    let out = go(&job(size, true), &source, &gaussian).unwrap();
    // The content is 100 by 100 at (50, 50); its shadow lies 20 to the right.
    assert_eq!(out.get_pixel(50, 50), source.get_pixel(0, 0));
    assert_eq!(out.get_pixel(149, 149), source.get_pixel(99, 99));
    // Black at alpha 200 over white.
    assert_eq!(out.get_pixel(160, 100), px(55, 55, 55, 255));
    assert_eq!(out.get_pixel(169, 50), px(55, 55, 55, 255));
    assert_eq!(out.get_pixel(170, 100), px(255, 255, 255, 255));
    assert_eq!(out.get_pixel(49, 100), px(255, 255, 255, 255));
    assert_eq!(out.get_pixel(160, 49), px(255, 255, 255, 255));
}

#[test]
fn poster_is_rejected_before_any_drawing() {
    let source = photo(100, 60, Layout::Rgb);
    let half = Size { padding: Padding { numerator: 1, denominator: 2 }, ..Size::default() };
    assert_eq!(go(&job(half, true), &source, &gaussian).err(), Some(InvalidConfiguration::Padding));
    let flat = Size { height: 0, ..Size::default() };
    assert_eq!(go(&job(flat, true), &source, &gaussian).err(), Some(InvalidConfiguration::ZeroDimension));
    // In 1536 by 864 the foreground is 1440 by 864.
    let round = Size { round_radius: 433, ..Size::default() };
    assert_eq!(go(&job(round, true), &source, &gaussian).err(), Some(InvalidConfiguration::Radius));
    let round = Size { round_radius: 432, ..Size::default() };
    assert_eq!(go(&job(round, true), &source, &gaussian).err(), None);
    let wide = Size { width: u32::MAX, height: 1, aspect_ratio: true, ..Size::default() };
    assert_eq!(go(&job(wide, false), &source, &gaussian).err(), Some(InvalidConfiguration::TooLarge));
    let dark = Size { shadow: u32::MAX, ..Size::default() };
    assert_eq!(go(&job(dark, true), &source, &gaussian).err(), Some(InvalidConfiguration::TooLarge));
    let empty = Raster::from_pixel(0, 0, Layout::Rgb, px(0, 0, 0, 255));
    assert_eq!(
        go(&job(Size::default(), true), &empty, &gaussian).err(),
        Some(InvalidConfiguration::ZeroDimension)
    );
}

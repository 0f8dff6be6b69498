use bmps::effects::round::{apply, Checker, Rounded};
use bmps::error::InvalidConfiguration;
use bmps::pixel::{Layout, Pixel};
use bmps::raster::{ImageView, Raster};
use bmps::round_img;

fn photo(width: u32, height: u32, layout: Layout) -> Raster {
    let mut bytes = Vec::with_capacity((width * height * 4) as usize);
    for y in 0..height {
        for x in 0..width {
            bytes.push((x % 256) as u8);
            bytes.push((y % 256) as u8);
            bytes.push(((x + y) % 256) as u8);
            bytes.push(255);
        }
    }
    Raster::from_raw(width, height, layout, &bytes).unwrap()
}

#[test]
fn round() {
    let img = photo(2400, 1600, Layout::Rgb);
    let mut img = img
        .resize_to_fill(1920, 1080)
        .unwrap()
        .with_layout(Layout::Rgba);
    let clear = Pixel { r: 0, g: 0, b: 0, a: 0 };
    let mut tmp = Raster::from_pixel(img.width(), img.height(), Layout::Rgba, clear);
    {
        let r = Rounded::new(&img, 40).unwrap();
        for y in 0..tmp.height() {
            for x in 0..tmp.width() {
                let v = r.get_pixel(x, y);
                let p = tmp.get_pixel(x, y).blend(v);
                tmp.put_pixel(x, y, p);
            }
        }
    }
    apply(&mut img, 40).unwrap();
    // Masking in place and reading through the mask show the same picture.
    assert_eq!(img, tmp);
    assert_eq!(img.dimensions(), (1920, 1080));
    assert_eq!(img.get_pixel(0, 0), clear);
    assert_eq!(img.get_pixel(1919, 1079), clear);
    assert_eq!(img.get_pixel(960, 540).a, 255);
}

#[test]
fn checker() {
    let c = Checker {
        width: 100,
        height: 100,
        radius: 30,
    };
    assert!(!c.contains(0, 0));
    assert!(!c.contains(8, 8));
    assert!(!c.contains(99, 99));
    assert!(!c.contains(93, 93));
    assert!(!c.contains(99, 0));
    assert!(!c.contains(0, 99));
    assert!(c.contains(50, 50));
}

#[test]
fn checker_is_symmetric_about_both_centre_lines() {
    for (w, h, r) in [(100u32, 100u32, 30u32), (101, 57, 28), (64, 40, 20), (9, 9, 4), (7, 5, 0)] {
        let c = Checker { width: w, height: h, radius: r };
        for y in 0..=h {
            for x in 0..=w {
                let here = c.contains(x, y);
                assert_eq!(c.contains(w - x, y), here, "{w}x{h} r{r} at {x},{y}");
                assert_eq!(c.contains(x, h - y), here, "{w}x{h} r{r} at {x},{y}");
                assert_eq!(c.contains(w - x, h - y), here, "{w}x{h} r{r} at {x},{y}");
            }
        }
    }
}

#[test]
fn checker_boundary_of_the_circle_is_inside() {
    // Centre (5, 5), radius 5: (2, 1) is at squared distance 9 + 16 = 25.
    let c = Checker { width: 20, height: 20, radius: 5 };
    assert!(c.contains(2, 1));
    assert!(c.contains(1, 2));
    // (1, 1) is at 16 + 16 = 32 > 25, (2, 0) at 9 + 25 = 34 > 25.
    assert!(!c.contains(1, 1));
    assert!(!c.contains(2, 0));
    // The bands reach to the edges.
    assert!(c.contains(5, 0));
    assert!(c.contains(0, 5));
    assert!(c.contains(15, 0));
    assert!(c.contains(0, 15));
    // Mirror of (2, 1) across the vertical centre line.
    assert!(c.contains(18, 1));
    assert!(!c.contains(19, 1));
}

#[test]
fn checker_without_radius_holds_everything() {
    let c = Checker { width: 4, height: 3, radius: 0 };
    for y in 0..3 {
        for x in 0..4 {
            assert!(c.contains(x, y));
        }
    }
}

#[test]
fn checker_far_outside_does_not_overflow() {
    let c = Checker { width: 100, height: 100, radius: 30 };
    assert!(!c.contains(u32::MAX, u32::MAX));
    assert!(c.contains(u32::MAX, 50));
    let big = Checker { width: u32::MAX, height: u32::MAX, radius: u32::MAX / 2 };
    assert!(!big.contains(0, 0));
    assert!(big.contains(u32::MAX / 2, 0));
}

#[test]
fn checker_new_rejects_a_radius_over_half_the_smaller_side() {
    assert!(Checker::new(100, 60, 30).is_ok());
    assert_eq!(Checker::new(100, 60, 31).unwrap_err(), InvalidConfiguration::Radius);
    assert_eq!(Checker::new(60, 100, 31).unwrap_err(), InvalidConfiguration::Radius);
    assert!(Checker::new(101, 61, 30).is_ok());
    assert!(Checker::new(0, 0, 0).is_ok());
    assert_eq!(Checker::new(0, 0, 1).unwrap_err(), InvalidConfiguration::Radius);
}

#[test]
fn apply_blanks_what_the_checker_excludes() {
    let mut img = photo(20, 12, Layout::Rgba);
    let before = photo(20, 12, Layout::Rgba);
    apply(&mut img, 5).unwrap();
    let c = Checker { width: 20, height: 12, radius: 5 };
    let mut blanked = 0;
    for y in 0..12 {
        for x in 0..20 {
            if c.contains(x, y) {
                assert_eq!(img.get_pixel(x, y), before.get_pixel(x, y));
            } else {
                assert_eq!(img.get_pixel(x, y), Pixel { r: 0, g: 0, b: 0, a: 0 });
                blanked += 1;
            }
        }
    }
    assert!(blanked > 0);
}

#[test]
fn apply_uses_white_where_there_is_no_alpha() {
    let mut img = photo(20, 12, Layout::Rgb);
    apply(&mut img, 5).unwrap();
    assert_eq!(img.get_pixel(0, 0), Pixel { r: 255, g: 255, b: 255, a: 255 });
    assert_eq!(img.get_pixel(10, 6), Pixel { r: 10, g: 6, b: 16, a: 255 });
    assert_eq!(img.layout(), Layout::Rgb);
}

#[test]
fn apply_rejects_a_large_radius_and_leaves_the_image() {
    let mut img = photo(20, 12, Layout::Rgba);
    assert_eq!(apply(&mut img, 7), Err(InvalidConfiguration::Radius));
    assert_eq!(img, photo(20, 12, Layout::Rgba));
    assert_eq!(apply(&mut img, 6), Ok(()));
}

#[test]
fn rounded_view_reads_without_changing_the_source() {
    let img = photo(20, 12, Layout::Rgb);
    let view = Rounded::new(&img, 5).unwrap();
    assert_eq!(view.dimensions(), (20, 12));
    assert_eq!(view.bounds(), (0, 0, 20, 12));
    assert_eq!(view.width(), 20);
    assert_eq!(view.height(), 12);
    assert_eq!(view.get_pixel(0, 0), Pixel { r: 0, g: 0, b: 0, a: 0 });
    assert_eq!(view.get_pixel(7, 3), Pixel { r: 7, g: 3, b: 10, a: 255 });
    assert_eq!(img.get_pixel(0, 0), Pixel { r: 0, g: 0, b: 0, a: 255 });
    assert!(Rounded::new(&img, 7).is_err());
}

#[test]
fn round_img_returns_the_rounded_image() {
    let out = round_img(photo(20, 12, Layout::Rgba), 5).unwrap();
    let mut expected = photo(20, 12, Layout::Rgba);
    apply(&mut expected, 5).unwrap();
    assert_eq!(out, expected);
    assert_eq!(round_img(photo(20, 12, Layout::Rgba), 7).unwrap_err(), InvalidConfiguration::Radius);
}

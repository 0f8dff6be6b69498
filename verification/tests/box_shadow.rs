use bmps::box_shadow::{EffectBuilder, Effects};
use bmps::effects::shadow::Builder;
use bmps::error::InvalidConfiguration;
use bmps::pixel::{Layout, Pixel};
use bmps::raster::Raster;

fn same(layer: Raster, _halves: u64) -> Raster {
    layer
}

fn never(_layer: Raster, _halves: u64) -> Raster {
    panic!("the blur must not be called")
}

#[test]
fn effect_builder_starts_from_the_default_shadow() {
    let img = Raster::from_pixel(4, 3, Layout::Rgba, Pixel { r: 9, g: 9, b: 9, a: 255 });
    let (layer, dx, dy) = EffectBuilder::new().build().gen_bg(&img, &same).unwrap();
    // Ten right and down, blurred by five: 4 + 10 + 5 by 3 + 10 + 5.
    assert_eq!(layer.dimensions(), (19, 18));
    assert_eq!((dx, dy), (0, 0));
    assert_eq!(layer.get_pixel(10, 10), Pixel { r: 0, g: 0, b: 0, a: 255 });
    assert_eq!(layer.get_pixel(13, 12), Pixel { r: 0, g: 0, b: 0, a: 255 });
    assert_eq!(layer.get_pixel(9, 10), Pixel { r: 0, g: 0, b: 0, a: 0 });
    assert!(!Effects::default().nop());
    assert!(!EffectBuilder::default().build().nop());
}

#[test]
fn effects_agree_with_the_shadow_of_the_same_parts() {
    let mut img = Raster::from_pixel(5, 4, Layout::Rgba, Pixel { r: 9, g: 9, b: 9, a: 255 });
    img.put_pixel(2, 2, Pixel { r: 9, g: 9, b: 9, a: 60 });
    let effects = EffectBuilder::new().offset(-3, 2).blur_radius(1).color([5, 6, 7, 130]).build();
    let shadow = Builder::new().offset(-3, 2).blur_radius(1).color([5, 6, 7, 130]).build();
    assert_eq!(effects.gen_bg(&img, &same).unwrap(), shadow.gen_bg(&img, &same).unwrap());
    let (layer, dx, dy) = effects.gen_bg(&img, &same).unwrap();
    assert_eq!((dx, dy), (4, 0));
    // Pixel (2, 2) lands at (2 + 4 - 3, 2 + 0 + 2) with alpha 60 * 130 / 255, rounded up.
    assert_eq!(layer.get_pixel(3, 4), Pixel { r: 5, g: 6, b: 7, a: 31 });
    assert_eq!(layer.get_pixel(1, 2), Pixel { r: 5, g: 6, b: 7, a: 130 });
}

#[test]
fn effects_that_cannot_be_seen_give_a_transparent_layer() {
    let img = Raster::from_pixel(5, 4, Layout::Rgba, Pixel { r: 9, g: 9, b: 9, a: 255 });
    let clear = EffectBuilder::new().color([5, 6, 7, 0]).build();
    assert!(clear.nop());
    let (layer, _, _) = clear.gen_bg(&img, &never).unwrap();
    assert_eq!(layer, Raster::from_pixel(20, 19, Layout::Rgba, Pixel { r: 5, g: 6, b: 7, a: 0 }));
    let huge = EffectBuilder::new().blur_radius(u32::MAX).build();
    assert_eq!(huge.gen_bg(&img, &same).err(), Some(InvalidConfiguration::TooLarge));
}

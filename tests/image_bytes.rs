use amity_art::color::{Rgba, blend_over};
use amity_art::image::{Image, ImportError};

#[test]
fn bytes_round_trip() {
    let mut img = Image::new(2, 1, Rgba::white());
    img.set_pixel(1, 0, Rgba::new(1, 2, 3, 4));
    let bytes = img.pixel_bytes();
    assert_eq!(bytes, vec![255, 255, 255, 255, 1, 2, 3, 4]);
    let back = Image::from_pixel_bytes(2, 1, &bytes).unwrap();
    assert_eq!(back.get_color(1, 0), Some(Rgba::new(1, 2, 3, 4)));
    assert_eq!(back.get_color(0, 0), Some(Rgba::white()));
}

#[test]
fn bytes_size_mismatch() {
    let r = Image::from_pixel_bytes(2, 2, &vec![0u8; 15]);
    assert!(matches!(r, Err(ImportError::SizeMismatch)));
}

#[test]
fn get_color_out_of_bounds() {
    let img = Image::new(2, 2, Rgba::white());
    assert_eq!(img.get_color(2, 0), None);
    assert_eq!(img.get_color(0, -1), None);
}

#[test]
fn blend_opaque_replaces() {
    let src = Rgba::new(10, 20, 30, 255);
    assert_eq!(blend_over(src, Rgba::white()), src);
}

#[test]
fn blend_transparent_keeps() {
    let dst = Rgba::new(10, 20, 30, 40);
    assert_eq!(blend_over(Rgba::new(200, 100, 50, 0), dst), dst);
}

#[test]
fn blend_half() {
    // (200 * 128 + 0 * 127 + 127) / 255 = 100; alpha 128 + (255 * 127 + 127) / 255 = 255.
    let r = blend_over(Rgba::new(200, 0, 0, 128), Rgba::new(0, 0, 0, 255));
    assert_eq!(r, Rgba::new(100, 0, 0, 255));
}

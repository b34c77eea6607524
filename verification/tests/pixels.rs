use tiler::geometry::Rectangle;
use tiler::pixels::PixelImage;
use tiler::pixels::Rgba8;

fn px(red: u8, green: u8, blue: u8) -> Rgba8 {
    Rgba8 { red, green, blue, alpha: 255 }
}

#[test]
fn test_raw_round_trip_preserves_pixels() {
    let mut img = PixelImage::from_pixel(2, 2, px(1, 2, 3));
    img.pixels[3] = px(9, 8, 7);

    let raw = img.to_raw();
    assert_eq!(raw.len(), 16);
    assert_eq!(&raw[0..4], &[1, 2, 3, 255]);
    assert_eq!(&raw[12..16], &[9, 8, 7, 255]);

    let back = PixelImage::from_raw(2, 2, raw).unwrap();
    assert_eq!(back.pixels, img.pixels);
}

#[test]
fn test_from_raw_rejects_wrong_length() {
    let raw = vec![0u8; 15];
    assert!(PixelImage::from_raw(2, 2, raw).is_none());
}

#[test]
fn test_crop_copies_the_requested_rectangle() {
    let mut img = PixelImage::from_pixel(4, 3, px(0, 0, 0));
    for y in 0..3usize {
        for x in 0..4usize {
            img.pixels[y * 4 + x] = px((10 * x) as u8, (10 * y) as u8, 0);
        }
    }

    let out = img.crop(&Rectangle::new(1, 1, 2, 2));

    assert_eq!(out.width, 2);
    assert_eq!(out.height, 2);
    assert_eq!(
        out.pixels,
        vec![px(10, 10, 0), px(20, 10, 0), px(10, 20, 0), px(20, 20, 0)]
    );
}

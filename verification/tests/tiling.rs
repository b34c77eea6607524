use tiler::geometry::Rectangle;
use tiler::pixels::PixelImage;
use tiler::pixels::Rgba8;
use tiler::tiling::build_tile;
use tiler::tiling::choose_tile_area;

#[test]
fn test_chooses_central_square_for_portrait_tile() {
    assert_eq!(choose_tile_area(10, 20), Rectangle::new(0, 5, 10, 10));
}

#[test]
fn test_chooses_central_square_for_landscape_tile() {
    assert_eq!(choose_tile_area(20, 10), Rectangle::new(5, 0, 10, 10));
}

#[test]
fn test_build_tile_cuts_central_square() {
    // A 30 by 10 image whose middle third is green: the central square is
    // exactly that third, and no resampling is needed at 10 by 10.
    let green = Rgba8 { red: 0, green: 255, blue: 0, alpha: 255 };
    let red = Rgba8 { red: 255, green: 0, blue: 0, alpha: 255 };
    let mut img = PixelImage::from_pixel(30, 10, red);
    for y in 0..10usize {
        for x in 10..20usize {
            img.pixels[y * 30 + x] = green;
        }
    }

    let tile = build_tile(&img, (10, 10));

    assert_eq!(tile.width, 10);
    assert_eq!(tile.height, 10);
    assert_eq!(tile.pixels.len(), 100);
    assert!(tile.pixels.iter().all(|p| *p == green));
}

#[test]
fn test_build_tile_resamples_to_requested_size() {
    let red = Rgba8 { red: 255, green: 0, blue: 0, alpha: 255 };
    let img = PixelImage::from_pixel(20, 20, red);

    let tile = build_tile(&img, (10, 10));

    assert_eq!(tile.width, 10);
    assert_eq!(tile.height, 10);
    assert_eq!(tile.pixels.len(), 100);
    assert!(tile.pixels.iter().all(|p| *p == red));
}

use tiler::geometry::scale_locations;
use tiler::geometry::GridView;
use tiler::geometry::PixelRegion;
use tiler::geometry::Rectangle;
use tiler::geometry::TileLocationExtensions;
use tiler::geometry::TupleExtensions;

// GridView::all

#[test]
fn grid_accepts_valid_dimensions() {
    let vals = vec![0, 1, 2, 3, 4, 5];
    let dims = (2, 3);

    GridView::all(&vals, dims);
}

// GridView::get

#[test]
fn grid_get_finds_correct_items() {
    let vals = vec![0, 1, 2, 3, 4, 5];
    let dims = (2, 3);
    let grid = GridView::new(&vals, dims, Rectangle::new(0, 0, 2, 3));

    assert_eq!(grid.get(0, 0), &0);
    assert_eq!(grid.get(1, 0), &1);
    assert_eq!(grid.get(0, 1), &2);
    assert_eq!(grid.get(1, 1), &3);
    assert_eq!(grid.get(0, 2), &4);
    assert_eq!(grid.get(1, 2), &5);
}

// GridView::subset

#[test]
fn grid_subset_finds_correct_items() {
    let vals = vec![0, 1, 2, 3, 4, 5];
    let dims = (2, 3);
    let grid = GridView::new(&vals, dims, Rectangle::new(0, 0, 2, 3));

    let result = grid.subset(Rectangle::new(1, 1, 1, 1));

    assert_eq!(result.get(0, 0), &3);
}

// Scaling

#[test]
fn test_pixel_region_scales_origin_and_size() {
    let region = PixelRegion::new(-3, 4, 10, 20);
    let scaled = region.scale(5);
    assert_eq!(scaled, PixelRegion::new(-15, 20, 50, 100));
}

#[test]
fn test_pixel_region_from_rectangle() {
    let region = PixelRegion::from(&Rectangle::new(7, 9, 2, 3));
    assert_eq!(region, PixelRegion::new(7, 9, 2, 3));
}

#[test]
fn test_tile_location_scales_region_only() {
    let location = (4usize, PixelRegion::new(1, 2, 3, 4));
    let scaled = location.scale(10);
    assert_eq!(scaled.0, 4);
    assert_eq!(scaled.1, PixelRegion::new(10, 20, 30, 40));
}

#[test]
fn test_dimensions_scale() {
    let dims: (u32, u32) = (12, 5);
    assert_eq!(dims.scale(3), (36, 15));
}

#[test]
fn test_scale_locations_scales_every_placement() {
    let tiles = vec![
        (0usize, PixelRegion::new(0, 0, 10, 10)),
        (1usize, PixelRegion::new(10, 0, 10, 10)),
    ];
    let scaled = scale_locations(&tiles, 4).unwrap();
    assert_eq!(scaled.len(), 2);
    assert_eq!(scaled[0], (0, PixelRegion::new(0, 0, 40, 40)));
    assert_eq!(scaled[1], (1, PixelRegion::new(40, 0, 40, 40)));
}

#[test]
fn test_scale_locations_rejects_overflow() {
    let tiles = vec![(0usize, PixelRegion::new(0, 0, u32::MAX, 1))];
    assert_eq!(scale_locations(&tiles, 2), None);
}

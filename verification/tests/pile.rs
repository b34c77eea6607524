use tiler::geometry::Dimensions;
use tiler::pile::random_pile;
use tiler::pile::random_pile_strategy;

fn fake_image(width: u32, height: u32) -> Dimensions {
    (width, height)
}

#[test]
fn test_returns_zero_tiles_for_no_input() {
    let tiles: Vec<Dimensions> = vec![];
    let actual = random_pile(&tiles, 2, (100, 200));
    assert_eq!(actual.len(), 0);
}

#[test]
fn test_returns_minimum_number_even_if_insufficient_tiles() {
    let tiles = vec![fake_image(10, 10)];
    let actual = random_pile(&tiles, 7, (100, 200));
    assert_eq!(actual.len(), 7);
}

#[test]
fn test_all_coords_in_bounds() {
    let (width, height): Dimensions = (100, 200);
    let tile_size: u32 = 10;
    let tiles = vec![fake_image(tile_size, tile_size)];

    let actual = random_pile(&tiles, 7, (width, height));

    let xcoords: Vec<i64> = actual.iter().map(|loc| loc.1).collect();
    let ycoords: Vec<i64> = actual.iter().map(|loc| loc.2).collect();

    let all_x_valid = xcoords
        .iter()
        .all(|x| -(tile_size as i64) <= *x && *x < width as i64);
    let all_y_valid = ycoords
        .iter()
        .all(|y| -(tile_size as i64) <= *y && *y < height as i64);

    assert_eq!(all_x_valid, true, "{:?}", xcoords);
    assert_eq!(all_y_valid, true, "{:?}", ycoords);
}

#[test]
fn test_cycles_through_tiles_in_order() {
    let tiles = vec![fake_image(10, 10), fake_image(20, 20)];
    let actual = random_pile(&tiles, 5, (100, 100));

    assert_eq!(actual.len(), 5);
    let ids: Vec<usize> = actual.iter().map(|loc| loc.0).collect();
    assert_eq!(ids, vec![0, 1, 0, 1, 0]);
}

#[test]
fn test_uses_tile_count_when_above_minimum() {
    let tiles = vec![fake_image(10, 10), fake_image(20, 20), fake_image(5, 5)];
    let actual = random_pile(&tiles, 2, (50, 50));
    assert_eq!(actual.len(), 3);
}

#[test]
fn test_strategy_defaults_to_minimum_count() {
    let strategy = random_pile_strategy(vec![fake_image(10, 10)], None);
    assert_eq!(strategy.min_tiles, 128);

    let placements = strategy.choose_tiles((100, 100));
    assert_eq!(placements.len(), 128);
}

#[test]
fn test_strategy_respects_given_minimum() {
    let strategy = random_pile_strategy(vec![fake_image(10, 10)], Some(7));
    let placements = strategy.choose_tiles((100, 200));

    assert_eq!(placements.len(), 7);
    for p in placements {
        assert_eq!(p.0, 0);
        assert!(-10 <= p.1 && p.1 < 100);
        assert!(-10 <= p.2 && p.2 < 200);
    }
}

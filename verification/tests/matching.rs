use tiler::analysis::analyse;
use tiler::analysis::AnalysisOptions;
use tiler::geometry::TilerError;
use tiler::matching::CellCoords;
use tiler::matching::MatchingTileStrategy;
use tiler::pixels::PixelImage;
use tiler::pixels::Rgba8;
use tiler::strategy::Penalty;

// CellCoords distances

#[test]
fn test_distance_is_zero_for_same() {
    let target = CellCoords { x: 5, y: 5 };

    let d = target.abs_distance(&target);
    let d2 = target.sqr_distance(&target);

    assert_eq!(d, (0, 0));
    assert_eq!(d2, 0);
}

#[test]
fn test_distance_is_1_for_bordering() {
    let target = CellCoords { x: 5, y: 5 };

    let borders = vec![
        CellCoords { x: 4, y: 5 },
        CellCoords { x: 6, y: 5 },
        CellCoords { x: 5, y: 4 },
        CellCoords { x: 5, y: 6 },
    ];

    let ds: Vec<(i32, i32)> = borders
        .iter()
        .map(|border| target.abs_distance(border))
        .collect();
    let d2s: Vec<i32> = borders
        .iter()
        .map(|border| target.sqr_distance(border))
        .collect();

    assert_eq!(ds, vec!((-1, 0), (1, 0), (0, -1), (0, 1)));
    assert_eq!(d2s, vec!(1, 1, 1, 1));
}

#[test]
fn test_distance_is_more_further_out() {
    let target = CellCoords { x: 5, y: 5 };

    let borders = vec![
        CellCoords { x: 4, y: 4 },
        CellCoords { x: 6, y: 6 },
        CellCoords { x: 4, y: 4 },
        CellCoords { x: 6, y: 6 },
    ];

    let ds: Vec<(i32, i32)> = borders
        .iter()
        .map(|border| target.abs_distance(border))
        .collect();
    let d2s: Vec<i32> = borders
        .iter()
        .map(|border| target.sqr_distance(border))
        .collect();

    assert_eq!(ds, vec!((-1, -1), (1, 1), (-1, -1), (1, 1)));
    assert_eq!(d2s, vec!(2, 2, 2, 2));
}

// CellCoords::surrounding

#[test]
fn test_finds_self() {
    let results = CellCoords { x: 5, y: 5 }.surrounding(0);

    assert_eq!(results.len(), 1);
    assert!(results.contains(&CellCoords { x: 5, y: 5 }));
}

#[test]
fn test_finds_immediate_neighbours() {
    let results = CellCoords { x: 2, y: 2 }.surrounding(1);

    assert_eq!(results.len(), 5);
    assert_eq!(
        map(&results, (0, 0), (3, 3)),
        "......x..xxx..x."
    );
}

#[test]
fn test_finds_neighbours_within_radius() {
    let results = CellCoords { x: 2, y: 2 }.surrounding(2);

    assert_eq!(results.len(), 13);
    assert_eq!(
        map(&results, (0, 0), (4, 4)),
        "..x...xxx.xxxxx.xxx...x.."
    );
}

#[test]
fn test_goes_negative() {
    let results = CellCoords { x: 0, y: 0 }.surrounding(1);

    assert_eq!(results.len(), 5);
    assert_eq!(map(&results, (-1, -1), (1, 1)), ".x.xxx.x.");
}

// Convert results to a visual map over given bounds
fn map(results: &[CellCoords], min: (i32, i32), max: (i32, i32)) -> String {
    let mut s = String::new();
    for y in min.1..=max.1 {
        for x in min.0..=max.0 {
            if results.contains(&CellCoords { x, y }) {
                s.push('x');
            } else {
                s.push('.');
            }
        }
    }
    s
}

// Cell geometry

#[test]
fn test_to_rect_multiplies_by_cell_size() {
    let c = CellCoords { x: 3, y: 2 };
    let r = c.to_rect(&(10, 20));
    assert_eq!((r.x, r.y, r.width, r.height), (30, 40, 10, 20));
}

#[test]
fn test_to_region_may_go_negative() {
    let c = CellCoords { x: -1, y: 2 };
    let r = c.to_region(&(10, 20));
    assert_eq!((r.x, r.y, r.width, r.height), (-10, 40, 10, 20));
}

// The two-phase duplicate-avoiding selection

fn red_library(count: usize) -> Vec<PixelImage> {
    (0..count)
        .map(|i| {
            PixelImage::from_pixel(
                10,
                10,
                Rgba8 {
                    red: 255 - i as u8,
                    green: 0,
                    blue: 0,
                    alpha: 255,
                },
            )
        })
        .collect()
}

#[test]
fn test_choose2_avoids_duplicates_on_uniform_target() {
    let opts = AnalysisOptions::new(Some(1));
    let tiles = red_library(3);
    let analysis: Vec<_> = tiles.iter().map(|t| analyse(t, &opts)).collect();
    let strategy = MatchingTileStrategy::new(&analysis, &opts);
    let target = PixelImage::from_pixel(
        30,
        10,
        Rgba8 {
            red: 255,
            green: 0,
            blue: 0,
            alpha: 255,
        },
    );

    let mut result = strategy
        .choose2(&target, &(10, 10), &Penalty::Constant(10))
        .unwrap();
    result.sort_by_key(|p| p.1);

    assert_eq!(result.len(), 3);
    assert_ne!(result[0].0, result[1].0);
    assert_ne!(result[0].0, result[2].0);
    assert_ne!(result[1].0, result[2].0);
}

#[test]
fn test_choose2_rejects_empty_library() {
    let opts = AnalysisOptions::new(Some(1));
    let analysis: Vec<tiler::analysis::ImageInfo> = Vec::new();
    let strategy = MatchingTileStrategy::new(&analysis, &opts);
    let target = PixelImage::new(10, 10);

    let result = strategy.choose2(&target, &(10, 10), &Penalty::Constant(10));

    assert_eq!(result, Err(TilerError::EmptyLibrary));
}

#[test]
fn test_matching_choose_tiles_picks_best_match() {
    let opts = AnalysisOptions::new(Some(1));
    let blue_tile = PixelImage::from_pixel(
        10,
        10,
        Rgba8 {
            red: 0,
            green: 0,
            blue: 255,
            alpha: 255,
        },
    );
    let green_tile = PixelImage::from_pixel(
        10,
        10,
        Rgba8 {
            red: 0,
            green: 255,
            blue: 0,
            alpha: 255,
        },
    );
    let analysis = vec![analyse(&blue_tile, &opts), analyse(&green_tile, &opts)];
    let strategy = MatchingTileStrategy::new(&analysis, &opts);
    let target = PixelImage::from_pixel(
        10,
        10,
        Rgba8 {
            red: 0,
            green: 0,
            blue: 255,
            alpha: 255,
        },
    );

    let result = strategy.choose_tiles(&target, &(10, 10)).unwrap();

    assert_eq!(result.len(), 1);
    assert_eq!(result[0].0, 0);
}

#[test]
fn test_rank_library_and_pick_best_prefer_identical_tile() {
    let opts = AnalysisOptions::new(Some(1));
    let tiles = red_library(2);
    let analysis: Vec<_> = tiles.iter().map(|t| analyse(t, &opts)).collect();
    let strategy = MatchingTileStrategy::new(&analysis, &opts);

    let ranked = strategy.rank_library(&analysis[1]);

    assert_eq!(ranked.len(), 2);
    assert_eq!(ranked[1], 0);
    assert!(ranked[0] > 0);
    assert_eq!(strategy.pick_best(&ranked), 1);
}

#[test]
fn test_select_tile_returns_region_of_cell() {
    let opts = AnalysisOptions::new(Some(1));
    let tiles = red_library(1);
    let analysis: Vec<_> = tiles.iter().map(|t| analyse(t, &opts)).collect();
    let strategy = MatchingTileStrategy::new(&analysis, &opts);
    let target = PixelImage::from_pixel(
        20,
        10,
        Rgba8 {
            red: 255,
            green: 0,
            blue: 0,
            alpha: 255,
        },
    );

    let rect = tiler::geometry::Rectangle::new(10, 0, 10, 10);
    let placement = strategy.select_tile(&target, &rect);

    assert_eq!(placement.0, 0);
    assert_eq!(placement.1, tiler::geometry::PixelRegion::new(10, 0, 10, 10));
}

use tiler::analysis::analyse;
use tiler::analysis::AnalysisOptions;
use tiler::analysis::ImageInfo;
use tiler::geometry::Dimensions;
use tiler::geometry::Rectangle;
use tiler::geometry::TilerError;
use tiler::pixels::PixelImage;
use tiler::pixels::Rgba8;
use tiler::strategy::adjust_weights;
use tiler::strategy::grid;
use tiler::strategy::penalty_by_distance;
use tiler::strategy::HolisticStrategy;
use tiler::strategy::IndependentStrategy;
use tiler::strategy::Penalty;

// The sequential penalty pass

#[test]
fn test_adjust_weights_penalises_duplicates() {
    let rects = vec![Rectangle::new(0, 0, 10, 10), Rectangle::new(10, 0, 10, 10)];
    let mut cell_options = vec![vec![0i64], vec![100i64]];
    let penalty = Penalty::Constant(42);

    adjust_weights(&mut cell_options, &rects, &penalty);

    // The only tile is favourite for rect 1 so should be penalised for rect 2
    assert_eq!(cell_options[0][0], 0);
    assert_eq!(cell_options[1][0], 142);
}

#[test]
fn test_penalty_by_distance_formula() {
    let penalty = penalty_by_distance(20, 40);

    assert_eq!(
        penalty,
        Penalty::ByDistance {
            max_penalty: 255 * 255 * 3 * 20 * 20 / 20,
            threshold: 40,
        }
    );
    assert_eq!(penalty.eval(0), (3901500 / 40) * 40);
    assert_eq!(penalty.eval(39), 3901500 / 40);
    assert_eq!(penalty.eval(40), 0);
    assert_eq!(penalty.eval(1000), 0);
}

#[test]
fn test_grid_drops_partial_trailing_cells() {
    let cells = grid((25, 10), &(10, 10));
    assert_eq!(cells.len(), 2);
    assert_eq!(cells[0], Rectangle::new(0, 0, 10, 10));
    assert_eq!(cells[1], Rectangle::new(10, 0, 10, 10));
}

// Strategy scenarios

struct TestContext {
    analysis_options: AnalysisOptions,
    cell_size: Dimensions,
    red: Rgba8,
    green: Rgba8,
    blue: Rgba8,
    red_tile1: PixelImage,
    red_tile2: PixelImage,
    red_tile3: PixelImage,
    green_tile: PixelImage,
    blue_tile: PixelImage,
}

fn setup() -> TestContext {
    let red_pixel = Rgba8 { red: 255, green: 0, blue: 0, alpha: 255 };
    let redish_pixel = Rgba8 { red: 254, green: 0, blue: 0, alpha: 255 };
    let redy_pixel = Rgba8 { red: 253, green: 0, blue: 0, alpha: 255 };
    let green_pixel = Rgba8 { red: 0, green: 255, blue: 0, alpha: 255 };
    let blue_pixel = Rgba8 { red: 0, green: 0, blue: 255, alpha: 255 };

    TestContext {
        analysis_options: AnalysisOptions::new(Some(1)),
        cell_size: (10, 10),
        red: red_pixel,
        green: green_pixel,
        blue: blue_pixel,
        red_tile1: PixelImage::from_pixel(10, 10, red_pixel),
        red_tile2: PixelImage::from_pixel(10, 10, redish_pixel),
        red_tile3: PixelImage::from_pixel(10, 10, redy_pixel),
        green_tile: PixelImage::from_pixel(10, 10, green_pixel),
        blue_tile: PixelImage::from_pixel(10, 10, blue_pixel),
    }
}

fn analyse_tiles(ctx: &TestContext, tiles: Vec<&PixelImage>) -> Vec<ImageInfo> {
    tiles
        .into_iter()
        .map(|tile| analyse(tile, &ctx.analysis_options))
        .collect()
}

fn sort_by_position(
    result: &[(usize, tiler::geometry::PixelRegion)],
) -> Vec<(usize, tiler::geometry::PixelRegion)> {
    let mut sorted = result.to_vec();
    sorted.sort_by_key(|a| a.1);
    sorted
}

fn blue_image(ctx: &TestContext) -> PixelImage {
    PixelImage::from_pixel(10, 10, ctx.blue)
}

fn blue_green_image(ctx: &TestContext) -> PixelImage {
    let mut img = PixelImage::from_pixel(20, 10, ctx.blue);
    for y in 0..10usize {
        for x in 10..20usize {
            img.pixels[y * 20 + x] = ctx.green;
        }
    }
    img
}

fn red_image(ctx: &TestContext) -> PixelImage {
    PixelImage::from_pixel(30, 10, ctx.red)
}

#[test]
fn test_independent_strategy_picks_best_match() {
    let ctx = setup();

    let blue_image = blue_image(&ctx);
    let analysis = analyse_tiles(&ctx, vec![&ctx.blue_tile, &ctx.green_tile]);
    let strategy = IndependentStrategy::new(&analysis, &ctx.analysis_options, ctx.cell_size);

    let result = strategy.choose_tiles(&blue_image).unwrap();

    assert_eq!(result.len(), 1);
    assert_eq!(result[0].0, 0);
}

#[test]
fn test_independent_strategy_picks_best_match_for_each_cell() {
    let ctx = setup();

    let blue_green_image = blue_green_image(&ctx);
    let analysis = analyse_tiles(&ctx, vec![&ctx.blue_tile, &ctx.green_tile]);
    let strategy = IndependentStrategy::new(&analysis, &ctx.analysis_options, ctx.cell_size);

    let result = strategy.choose_tiles(&blue_green_image).unwrap();

    assert_eq!(result.len(), 2);
    let result = sort_by_position(&result);
    assert_eq!(result[0].0, 0);
    assert_eq!(result[1].0, 1);
}

#[test]
fn test_independent_strategy_allows_duplicate_neighbours() {
    let ctx = setup();

    let red_image = red_image(&ctx);
    let analysis = analyse_tiles(&ctx, vec![&ctx.red_tile1, &ctx.red_tile2]);
    let strategy = IndependentStrategy::new(&analysis, &ctx.analysis_options, ctx.cell_size);

    let result = strategy.choose_tiles(&red_image).unwrap();

    assert_eq!(result.len(), 3);
    let result = sort_by_position(&result);
    assert_eq!(result[0].0, result[1].0);
    assert_eq!(result[0].0, result[2].0);
    assert_eq!(result[1].0, result[2].0);
}

#[test]
fn test_holistic_strategy_picks_best_match() {
    let ctx = setup();

    let blue_image = blue_image(&ctx);
    let analysis = analyse_tiles(&ctx, vec![&ctx.blue_tile, &ctx.green_tile]);
    let strategy = HolisticStrategy::new(
        &analysis,
        &ctx.analysis_options,
        ctx.cell_size,
        Penalty::Constant(10),
    );

    let result = strategy.choose_tiles(&blue_image).unwrap();

    assert_eq!(result.len(), 1);
    assert_eq!(result[0].0, 0);
}

#[test]
fn test_holistic_strategy_picks_best_match_for_each_cell() {
    let ctx = setup();

    let blue_green_image = blue_green_image(&ctx);
    let analysis = analyse_tiles(&ctx, vec![&ctx.blue_tile, &ctx.green_tile]);
    let strategy = HolisticStrategy::new(
        &analysis,
        &ctx.analysis_options,
        ctx.cell_size,
        Penalty::Constant(10),
    );

    let result = strategy.choose_tiles(&blue_green_image).unwrap();

    assert_eq!(result.len(), 2);
    let result = sort_by_position(&result);
    assert_eq!(result[0].0, 0);
    assert_eq!(result[1].0, 1);
}

#[test]
fn test_holistic_strategy_avoids_duplicate_neighbours() {
    let ctx = setup();

    let red_image = red_image(&ctx);
    let analysis = analyse_tiles(&ctx, vec![&ctx.red_tile1, &ctx.red_tile2]);
    let strategy = HolisticStrategy::new(
        &analysis,
        &ctx.analysis_options,
        ctx.cell_size,
        Penalty::Constant(10),
    );

    let result = strategy.choose_tiles(&red_image).unwrap();

    assert_eq!(result.len(), 3);
    let result = sort_by_position(&result);
    assert_ne!(result[0].0, result[1].0);
}

#[test]
fn test_holistic_strategy_avoids_multiple_duplicate_neighbours() {
    let ctx = setup();

    let red_image = red_image(&ctx);
    let analysis = analyse_tiles(&ctx, vec![&ctx.red_tile1, &ctx.red_tile2, &ctx.red_tile3]);
    let strategy = HolisticStrategy::new(
        &analysis,
        &ctx.analysis_options,
        ctx.cell_size,
        Penalty::Constant(10),
    );

    let result = strategy.choose_tiles(&red_image).unwrap();

    assert_eq!(result.len(), 3);
    let result = sort_by_position(&result);
    assert_ne!(result[0].0, result[1].0);
    assert_ne!(result[0].0, result[2].0);
    assert_ne!(result[1].0, result[2].0);
}

#[test]
fn test_independent_strategy_rejects_empty_library() {
    let ctx = setup();
    let analysis: Vec<ImageInfo> = Vec::new();
    let strategy = IndependentStrategy::new(&analysis, &ctx.analysis_options, ctx.cell_size);

    let result = strategy.choose_tiles(&blue_image(&ctx));

    assert_eq!(result, Err(TilerError::EmptyLibrary));
}

#[test]
fn test_holistic_strategy_rejects_mismatched_fingerprints() {
    let ctx = setup();
    let wrong_opts = AnalysisOptions::new(Some(2));
    let analysis = vec![analyse(&ctx.blue_tile, &wrong_opts)];
    let strategy = HolisticStrategy::new(
        &analysis,
        &ctx.analysis_options,
        ctx.cell_size,
        Penalty::Constant(10),
    );

    let result = strategy.choose_tiles(&blue_image(&ctx));

    assert_eq!(result, Err(TilerError::FingerprintSizeMismatch));
}

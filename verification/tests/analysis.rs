use tiler::analysis::analyse;
use tiler::analysis::AnalysisOptions;
use tiler::analysis::ColorInfo;
use tiler::analysis::ImageInfo;
use tiler::geometry::TilerError;
use tiler::pixels::PixelImage;
use tiler::pixels::Rgba8;

struct TestContext {
    black: ColorInfo,
    red: ColorInfo,
    green: ColorInfo,
    blue: ColorInfo,
    grey: ColorInfo,
    white: ColorInfo,
}

fn setup() -> TestContext {
    TestContext {
        black: ColorInfo::new(0, 0, 0),
        red: ColorInfo::new(255, 0, 0),
        blue: ColorInfo::new(0, 255, 0),
        green: ColorInfo::new(0, 0, 255),
        grey: ColorInfo::new(127, 127, 127),
        white: ColorInfo::new(255, 255, 255),
    }
}

#[test]
fn test_returns_expected_image_analysis() {
    let ctx = setup();
    let size = 100;
    let img = PixelImage::new(size, size);
    let opts = AnalysisOptions::new(Some(1));

    let result = analyse(&img, &opts);

    assert_eq!(
        result,
        ImageInfo {
            width: size,
            height: size,
            colors: vec![ctx.black],
        }
    );
}

#[test]
fn test_absolute_image_color_difference() {
    let ctx = setup();
    assert_eq!(ctx.black.abs_diff(&ctx.black), 0);
    assert_eq!(ctx.red.abs_diff(&ctx.red), 0);
    assert_eq!(ctx.green.abs_diff(&ctx.green), 0);
    assert_eq!(ctx.blue.abs_diff(&ctx.blue), 0);
    assert_eq!(ctx.grey.abs_diff(&ctx.grey), 0);
    assert_eq!(ctx.white.abs_diff(&ctx.white), 0);

    assert_eq!(ctx.black.abs_diff(&ctx.red), 255 + 0 + 0);
    assert_eq!(ctx.black.abs_diff(&ctx.green), 0 + 255 + 0);
    assert_eq!(ctx.black.abs_diff(&ctx.blue), 0 + 0 + 255);
    assert_eq!(ctx.black.abs_diff(&ctx.grey), 127 + 127 + 127);
    assert_eq!(ctx.black.abs_diff(&ctx.white), 255 + 255 + 255);
}

#[test]
fn test_squared_image_color_difference() {
    let ctx = setup();
    assert_eq!(ctx.black.sqr_diff(&ctx.black), 0);
    assert_eq!(ctx.red.sqr_diff(&ctx.red), 0);
    assert_eq!(ctx.green.sqr_diff(&ctx.green), 0);
    assert_eq!(ctx.blue.sqr_diff(&ctx.blue), 0);
    assert_eq!(ctx.grey.sqr_diff(&ctx.grey), 0);
    assert_eq!(ctx.white.sqr_diff(&ctx.white), 0);

    assert_eq!(ctx.black.sqr_diff(&ctx.red), 255 * 255 + 0 + 0);
    assert_eq!(ctx.black.sqr_diff(&ctx.green), 0 + 255 * 255 + 0);
    assert_eq!(ctx.black.sqr_diff(&ctx.blue), 0 + 0 + 255 * 255);
    assert_eq!(
        ctx.black.sqr_diff(&ctx.grey),
        127 * 127 + 127 * 127 + 127 * 127
    );
    assert_eq!(
        ctx.black.sqr_diff(&ctx.white),
        255 * 255 + 255 * 255 + 255 * 255
    );
}

#[test]
fn test_returns_zero_diffs_for_identical_images() {
    let size = 100;
    let img1 = PixelImage::new(size, size);
    let img2 = PixelImage::new(size, size);

    let opts = AnalysisOptions::new(Some(2));

    let result1 = analyse(&img1, &opts);
    let result2 = analyse(&img2, &opts);

    let diffs = result1.diff(&result2).unwrap();

    assert_eq!(diffs, vec![0, 0, 0, 0]);
}

#[test]
fn test_returns_diff_of_each_sample() {
    let size = 100;
    let img1 = PixelImage::new(size, size);
    let img2 = PixelImage::from_pixel(
        size,
        size,
        Rgba8 {
            red: 0,
            green: 0,
            blue: 255,
            alpha: 0,
        },
    );

    let opts = AnalysisOptions::new(Some(2));

    let result1 = analyse(&img1, &opts);
    let result2 = analyse(&img2, &opts);

    let diffs = result1.diff(&result2).unwrap();

    assert_eq!(diffs.len(), 4);
    for d in diffs {
        assert!(d > 0);
    }
}

#[test]
fn test_abs_diff_of_each_sample_against_blue_fill() {
    let size = 100;
    let img1 = PixelImage::new(size, size);
    let img2 = PixelImage::from_pixel(
        size,
        size,
        Rgba8 {
            red: 0,
            green: 0,
            blue: 255,
            alpha: 0,
        },
    );

    let opts = AnalysisOptions::new(Some(2));

    let result1 = analyse(&img1, &opts);
    let result2 = analyse(&img2, &opts);

    let diffs: Vec<i32> = result1
        .colors
        .iter()
        .zip(result2.colors.iter())
        .map(|(a, b)| a.abs_diff(b))
        .collect();

    assert_eq!(diffs, vec![255, 255, 255, 255]);
}

#[test]
fn test_diff_rejects_mismatched_sample_counts() {
    let img = PixelImage::new(10, 10);
    let small = analyse(&img, &AnalysisOptions::new(Some(1)));
    let large = analyse(&img, &AnalysisOptions::new(Some(2)));

    let result = small.diff(&large);

    assert_eq!(result, Err(TilerError::FingerprintSizeMismatch));
}

#[test]
fn test_default_sample_size_is_eight() {
    let opts = AnalysisOptions::new(None);
    assert_eq!(opts.sample_size, 8);

    let img = PixelImage::new(16, 16);
    let info = analyse(&img, &opts);
    assert_eq!(info.colors.len(), 64);
}

//! Cutting a square tile out of a library image and bringing it to the
//! size the mosaic needs.

use vstd::prelude::*;
use crate::geometry::Dimensions;
use crate::geometry::Rectangle;
use crate::pixels::PixelImage;
use crate::pixels::crop_px;
use crate::pixels::flat_rgba;
use crate::pixels::pixels_of_raw;
use crate::pixels::resample_fits;
use crate::pixels::resample_rgba;
use crate::pixels::resampled_of;

verus! {

/// The central square of an image of the given size: the largest square
/// that fits, centred along the longer axis.
pub open spec fn tile_area(width: u32, height: u32) -> Rectangle {
    if width < height {
        Rectangle { x: 0, y: (((height - width) / 2) as u32), width: width, height: width }
    } else {
        Rectangle { x: (((width - height) / 2) as u32), y: 0, width: height, height: height }
    }
}

/// Choose the area to use as a tile from an image of the given dimensions.
pub fn choose_tile_area(width: u32, height: u32) -> (r: Rectangle)
    ensures
        r == tile_area(width, height),
        r.x + r.width <= width,
        r.y + r.height <= height,
{
    let (x, y, s) = if width < height {
        (0, (height - width) / 2, width)
    } else {
        ((width - height) / 2, 0, height)
    };
    Rectangle::new(x, y, s, s)
}

/// Build a tile image: cut the central square out of the image and bring
/// it to `size`, resampling only when the square is not already that size.
pub fn build_tile(img: &PixelImage, size: Dimensions) -> (r: PixelImage)
    requires
        img.wf(),
        4 * (size.0 * size.1) <= usize::MAX,
        resample_fits(
            tile_area(img.width, img.height).width,
            tile_area(img.width, img.height).height,
            size.0,
            size.1,
        ),
    ensures
        r.wf(),
        r.width == size.0,
        r.height == size.1,
        ({
            let area = tile_area(img.width, img.height);
            let cropped = crop_px(img.pixels@, img.width, area);
            if area.width == size.0 && area.height == size.1 {
                r.pixels@ == cropped
            } else {
                r.pixels@ == pixels_of_raw(
                    resampled_of(flat_rgba(cropped), area.width, area.height, size.0, size.1),
                )
            }
        }),
{
    let area = choose_tile_area(img.width, img.height);
    let cropped = img.crop(&area);
    if area.width == size.0 && area.height == size.1 {
        cropped
    } else {
        let raw = cropped.to_raw();
        let out_raw = resample_rgba(&raw, area.width, area.height, size.0, size.1);
        let out = PixelImage::from_raw(size.0, size.1, out_raw);
        out.unwrap()
    }
}

} // verus!

//! Shared geometry and result types: dimensions, rectangles, pixel
//! regions, tile placements, and the errors the strategies can report.

use vstd::prelude::*;

verus! {

/// Width and height, in pixels.
pub type Dimensions = (u32, u32);

/// A chosen tile, as an index into the library, and the pixel region of
/// the output it should cover.
pub type TileLocation = (usize, PixelRegion);

/// The failures a matching strategy can report.
#[derive(Clone, Copy, Debug, PartialEq, Eq, Structural)]
pub enum TilerError {
    /// Two fingerprints with different sample counts were compared.
    FingerprintSizeMismatch,
    /// A strategy was asked to pick the best tile out of an empty library.
    EmptyLibrary,
}

/// An axis-aligned pixel rectangle with an unsigned origin.
#[derive(Clone, Copy, Debug, PartialEq, Eq, Structural)]
pub struct Rectangle {
    pub x: u32,
    pub y: u32,
    pub width: u32,
    pub height: u32,
}

impl Rectangle {
    /// Build a rectangle from its origin and size.
    pub fn new(x: u32, y: u32, width: u32, height: u32) -> (r: Self)
        ensures
            r == (Rectangle { x, y, width, height }),
    {
        Self { x, y, width, height }
    }
}

/// The position of a tile expressed in pixel coordinates.  The origin is
/// signed so that a tile may spill off the top or left edge of the canvas.
#[derive(Clone, Copy, Debug, PartialEq, Eq, Structural, PartialOrd, Ord)]
pub struct PixelRegion {
    pub x: i64,
    pub y: i64,
    pub width: u32,
    pub height: u32,
}

/// The pixel region covering the same pixels as a rectangle.
pub open spec fn region_of(r: Rectangle) -> PixelRegion {
    PixelRegion { x: r.x as i64, y: r.y as i64, width: r.width, height: r.height }
}

impl PixelRegion {
    /// Build a region from its origin and size.
    pub fn new(x: i64, y: i64, width: u32, height: u32) -> (r: Self)
        ensures
            r == (PixelRegion { x, y, width, height }),
    {
        Self { x, y, width, height }
    }

    /// The region covering the same pixels as a rectangle.
    pub fn from(r: &Rectangle) -> (p: Self)
        ensures
            p == region_of(*r),
    {
        Self::new(r.x as i64, r.y as i64, r.width, r.height)
    }

    /// Whether scaling this region by `ratio` stays within the integer types.
    pub open spec fn can_scale(&self, ratio: u32) -> bool {
        &&& i64::MIN <= self.x * ratio <= i64::MAX
        &&& i64::MIN <= self.y * ratio <= i64::MAX
        &&& self.width * ratio <= u32::MAX
        &&& self.height * ratio <= u32::MAX
    }

    /// Multiply the origin and the size of the region by `ratio`.
    pub fn scale(&self, ratio: u32) -> (r: Self)
        requires
            self.can_scale(ratio),
        ensures
            r.x == self.x * ratio,
            r.y == self.y * ratio,
            r.width == self.width * ratio,
            r.height == self.height * ratio,
    {
        Self::new(
            self.x * (ratio as i64),
            self.y * (ratio as i64),
            self.width * ratio,
            self.height * ratio,
        )
    }
}

/// Extension trait for [`TileLocation`], which is a built-in tuple type.
pub trait TileLocationExtensions: Sized {
    /// Whether scaling cannot overflow.
    spec fn can_scale(&self, ratio: u32) -> bool;

    /// The location scaled by `ratio`.
    spec fn scaled(&self, ratio: u32) -> Self;

    /// Scale the size and position of the tile location.
    fn scale(&self, ratio: u32) -> (r: Self)
        requires
            self.can_scale(ratio),
        ensures
            r == self.scaled(ratio),
    ;
}

impl TileLocationExtensions for TileLocation {
    open spec fn can_scale(&self, ratio: u32) -> bool {
        self.1.can_scale(ratio)
    }

    open spec fn scaled(&self, ratio: u32) -> Self {
        (
            self.0,
            PixelRegion {
                x: (self.1.x * ratio) as i64,
                y: (self.1.y * ratio) as i64,
                width: (self.1.width * ratio) as u32,
                height: (self.1.height * ratio) as u32,
            },
        )
    }

    fn scale(&self, ratio: u32) -> (r: Self) {
        let (tile, region) = self;
        (*tile, region.scale(ratio))
    }
}

/// Extension trait for homogeneous pairs, which are a built-in type.
pub trait TupleExtensions: Sized {
    /// Whether scaling cannot overflow.
    spec fn can_scale(&self, ratio: u32) -> bool;

    /// The pair with both components scaled by `ratio`.
    spec fn scaled(&self, ratio: u32) -> Self;

    /// Scale the numeric values inside the tuple.
    fn scale(&self, ratio: u32) -> (r: Self)
        requires
            self.can_scale(ratio),
        ensures
            r == self.scaled(ratio),
    ;
}

/// Scale a whole placement list by one ratio, as when cells are chosen
/// at one size and drawn at another; refuses a ratio under which any
/// placement would overflow its coordinates.
pub fn scale_locations(tiles: &Vec<TileLocation>, ratio: u32) -> (r: Option<Vec<TileLocation>>)
    ensures
        match r {
            Some(v) => {
                &&& v@.len() == tiles@.len()
                &&& forall|i: int|
                    0 <= i < v@.len() ==> (#[trigger] tiles@[i]).can_scale(ratio) && v@[i]
                        == tiles@[i].scaled(ratio)
            },
            None => exists|i: int|
                0 <= i < tiles@.len() && !(#[trigger] tiles@[i]).can_scale(ratio),
        },
{
    let n = tiles.len();
    let mut v: Vec<TileLocation> = Vec::new();
    let mut i: usize = 0;
    while i < n
        invariant
            i <= n,
            n == tiles@.len(),
            v@.len() == i,
            forall|j: int|
                0 <= j < i ==> (#[trigger] tiles@[j]).can_scale(ratio) && v@[j]
                    == tiles@[j].scaled(ratio),
        decreases n - i,
    {
        let (tile, region) = &tiles[i];
        proof {
            assert(i128::MIN <= (region.x as int) * (ratio as int) <= i128::MAX && i128::MIN <= (
            region.y as int) * (ratio as int) <= i128::MAX) by (nonlinear_arith)
                requires
                    i64::MIN <= region.x <= i64::MAX,
                    i64::MIN <= region.y <= i64::MAX,
                    0 <= ratio <= u32::MAX,
            ;
            assert(0 <= (region.width as int) * (ratio as int) <= u64::MAX && 0 <= (
            region.height as int) * (ratio as int) <= u64::MAX) by (nonlinear_arith)
                requires
                    0 <= region.width <= u32::MAX,
                    0 <= region.height <= u32::MAX,
                    0 <= ratio <= u32::MAX,
            ;
        }
        let xs = (region.x as i128) * (ratio as i128);
        let ys = (region.y as i128) * (ratio as i128);
        let ws = (region.width as u64) * (ratio as u64);
        let hs = (region.height as u64) * (ratio as u64);
        if xs < i64::MIN as i128 || xs > i64::MAX as i128 || ys < i64::MIN as i128 || ys
            > i64::MAX as i128 || ws > u32::MAX as u64 || hs > u32::MAX as u64 {
            return None;
        }
        let scaled = (*tile, PixelRegion::new(xs as i64, ys as i64, ws as u32, hs as u32));
        v.push(scaled);
        i = i + 1;
    }
    Some(v)
}

impl TupleExtensions for Dimensions {
    open spec fn can_scale(&self, ratio: u32) -> bool {
        self.0 * ratio <= u32::MAX && self.1 * ratio <= u32::MAX
    }

    open spec fn scaled(&self, ratio: u32) -> Self {
        ((self.0 * ratio) as u32, (self.1 * ratio) as u32)
    }

    fn scale(&self, ratio: u32) -> (r: Self) {
        (self.0 * ratio, self.1 * ratio)
    }
}

/// A view into a grid of items, represented as a linear slice in
/// row-major order.
pub struct GridView<'a, T> {
    /// The items of the whole grid.
    pub items: &'a [T],
    /// The full width and height of the grid.
    pub dimensions: Dimensions,
    /// The rectangle of the grid this view exposes.
    pub region: Rectangle,
}

impl<'a, T> GridView<'a, T> {
    /// The item count matches the dimensions and the region is a
    /// non-empty rectangle inside them.
    pub open spec fn wf(&self) -> bool {
        &&& self.items@.len() == self.dimensions.0 * self.dimensions.1
        &&& self.region.width >= 1
        &&& self.region.height >= 1
        &&& self.region.x + self.region.width <= self.dimensions.0
        &&& self.region.y + self.region.height <= self.dimensions.1
    }

    /// The item at an offset within the region.
    pub open spec fn spec_get(&self, dx: int, dy: int) -> T {
        self.items@[(self.region.y + dy) * self.dimensions.0 + self.region.x + dx]
    }

    /// Create a view that covers the entire input.
    pub fn all(items: &'a [T], dimensions: Dimensions) -> (g: Self)
        requires
            items@.len() == dimensions.0 * dimensions.1,
            dimensions.0 >= 1,
            dimensions.1 >= 1,
        ensures
            g.items@ == items@,
            g.dimensions == dimensions,
            g.region == (Rectangle { x: 0, y: 0, width: dimensions.0, height: dimensions.1 }),
            g.wf(),
    {
        let (width, height) = dimensions;
        let region = Rectangle::new(0, 0, width, height);
        Self::new(items, dimensions, region)
    }

    /// Create a view over a specific region of the input.
    pub fn new(items: &'a [T], dimensions: Dimensions, region: Rectangle) -> (g: Self)
        requires
            items@.len() == dimensions.0 * dimensions.1,
            region.width >= 1,
            region.height >= 1,
            region.x + region.width <= dimensions.0,
            region.y + region.height <= dimensions.1,
        ensures
            g.items@ == items@,
            g.dimensions == dimensions,
            g.region == region,
            g.wf(),
    {
        GridView { items, dimensions, region }
    }

    /// Get the item at the specified offset within the region.
    pub fn get(&self, dx: u32, dy: u32) -> (r: &T)
        requires
            self.wf(),
            dx < self.region.width,
            dy < self.region.height,
        ensures
            *r == self.spec_get(dx as int, dy as int),
    {
        let x: usize = (self.region.x + dx) as usize;
        let y: usize = (self.region.y + dy) as usize;
        let _total: usize = self.items.len();
        proof {
            assert(self.items@.len() <= usize::MAX);
            assert((y as int) * (self.dimensions.0 as int) + (x as int) < self.items@.len())
                by (nonlinear_arith)
                requires
                    (x as int) < self.dimensions.0 as int,
                    (y as int) < self.dimensions.1 as int,
                    self.items@.len() == (self.dimensions.0 as int) * (self.dimensions.1 as int),
            ;
        }
        let index: usize = y * (self.dimensions.0 as usize) + x;
        &self.items[index]
    }

    /// Create a new view that is a subset of the current view.
    pub fn subset(&self, target: Rectangle) -> (g: GridView<'a, T>)
        requires
            self.wf(),
            target.width >= 1,
            target.height >= 1,
            self.region.x + target.x + target.width <= self.dimensions.0,
            self.region.y + target.y + target.height <= self.dimensions.1,
        ensures
            g.items@ == self.items@,
            g.dimensions == self.dimensions,
            g.region == (Rectangle {
                x: (self.region.x + target.x) as u32,
                y: (self.region.y + target.y) as u32,
                width: target.width,
                height: target.height,
            }),
            g.wf(),
    {
        GridView::new(
            self.items,
            self.dimensions,
            Rectangle {
                x: self.region.x + target.x,
                y: self.region.y + target.y,
                width: target.width,
                height: target.height,
            },
        )
    }
}

} // verus!

//! Matching of library tiles to target cells over integer grid
//! coordinates, including a two-phase duplicate-avoiding selection.

use vstd::prelude::*;
use vstd::arithmetic::div_mod::lemma_fundamental_div_mod_converse_div;
use vstd::arithmetic::div_mod::lemma_fundamental_div_mod_converse_mod;
use crate::analysis::AnalysisOptions;
use crate::analysis::ImageInfo;
use crate::geometry::Dimensions;
use crate::geometry::PixelRegion;
use crate::geometry::Rectangle;
use crate::geometry::TileLocation;
use crate::geometry::TilerError;
use crate::pixels::PixelImage;
use crate::pixels::resample_fits;
use crate::strategy::IndependentStrategy;
use crate::strategy::Penalty;
use crate::strategy::best_tile;
use crate::strategy::initial_rows;
use crate::strategy::matrix_view;
use crate::strategy::sat_add;
use crate::strategy::cell_colors;
use crate::strategy::fingerprints_match;
use crate::strategy::first_min_index;
use crate::strategy::grid_cell;
use crate::strategy::grid_len;
use crate::strategy::library_row;
use crate::strategy::library_wf;
use crate::strategy::weights_view;
use crate::strategy::lowest_weight_item;
use crate::strategy::rank_row;

verus! {

/// The position of a cell in the grid, measured in cells.  Signed, so
/// that neighbour arithmetic may step over the edge of the grid.
#[derive(Clone, Copy, Debug, PartialEq, Eq, Structural)]
pub struct CellCoords {
    pub x: i32,
    pub y: i32,
}

/// The squared Euclidean distance between two cell coordinates.
pub open spec fn sqr_dist(a: CellCoords, b: CellCoords) -> int {
    (b.x - a.x) * (b.x - a.x) + (b.y - a.y) * (b.y - a.y)
}

/// The Manhattan distance between two cell coordinates, in cells.
pub open spec fn cell_manhattan(a: CellCoords, b: CellCoords) -> int {
    (if a.x >= b.x {
        a.x - b.x
    } else {
        b.x - a.x
    }) + (if a.y >= b.y {
        a.y - b.y
    } else {
        b.y - a.y
    })
}

impl CellCoords {
    /// The distance to another cell, one signed component per axis.
    pub fn abs_distance(&self, other: &Self) -> (r: (i32, i32))
        requires
            i32::MIN <= other.x - self.x <= i32::MAX,
            i32::MIN <= other.y - self.y <= i32::MAX,
        ensures
            r.0 == other.x - self.x,
            r.1 == other.y - self.y,
    {
        let x_dist = other.x - self.x;
        let y_dist = other.y - self.y;
        (x_dist, y_dist)
    }

    /// The squared Euclidean distance to another cell.
    pub fn sqr_distance(&self, other: &Self) -> (r: i32)
        requires
            i32::MIN <= other.x - self.x <= i32::MAX,
            i32::MIN <= other.y - self.y <= i32::MAX,
            sqr_dist(*self, *other) <= i32::MAX,
        ensures
            r == sqr_dist(*self, *other),
    {
        let dx = (other.x - self.x) as i64;
        let dy = (other.y - self.y) as i64;
        proof {
            assert(0 <= dx * dx && 0 <= dy * dy) by (nonlinear_arith);
            assert(dx * dx + dy * dy == sqr_dist(*self, *other));
        }
        let s: i64 = dx * dx + dy * dy;
        s as i32
    }

    /// The pixel rectangle this cell covers, for cells inside the grid.
    pub fn to_rect(self, cell_size: &Dimensions) -> (r: Rectangle)
        requires
            self.x >= 0,
            self.y >= 0,
            self.x * cell_size.0 <= u32::MAX,
            self.y * cell_size.1 <= u32::MAX,
        ensures
            r == (Rectangle {
                x: (self.x * cell_size.0) as u32,
                y: (self.y * cell_size.1) as u32,
                width: cell_size.0,
                height: cell_size.1,
            }),
    {
        let x = (self.x as u64) * (cell_size.0 as u64);
        let y = (self.y as u64) * (cell_size.1 as u64);
        Rectangle::new(x as u32, y as u32, cell_size.0, cell_size.1)
    }

    /// The pixel region this cell covers; the origin may be negative for
    /// cells off the edge of the grid.
    pub fn to_region(self, cell_size: &Dimensions) -> (r: PixelRegion)
        ensures
            r == (PixelRegion {
                x: (self.x * cell_size.0) as i64,
                y: (self.y * cell_size.1) as i64,
                width: cell_size.0,
                height: cell_size.1,
            }),
            r.x == self.x * cell_size.0,
            r.y == self.y * cell_size.1,
    {
        proof {
            assert(i64::MIN <= (self.x as int) * (cell_size.0 as int) <= i64::MAX && i64::MIN <= (
            self.y as int) * (cell_size.1 as int) <= i64::MAX) by (nonlinear_arith)
                requires
                    -0x8000_0000 <= self.x <= 0x7fff_ffff,
                    -0x8000_0000 <= self.y <= 0x7fff_ffff,
                    0 <= cell_size.0 <= 0xffff_ffffu32,
                    0 <= cell_size.1 <= 0xffff_ffffu32,
            ;
        }
        let x = (self.x as i64) * (cell_size.0 as i64);
        let y = (self.y as i64) * (cell_size.1 as i64);
        PixelRegion::new(x, y, cell_size.0, cell_size.1)
    }
}

/// Whether a cell lies within distance `d` of a centre cell, by squared
/// Euclidean distance.
pub open spec fn in_disk(center: CellCoords, d: int, c: CellCoords) -> bool {
    sqr_dist(center, c) <= d * d
}

impl CellCoords {
    /// Find the cells within `distance` of this one: exactly those whose
    /// squared Euclidean distance is at most `distance * distance`,
    /// listed column by column with no cell repeated.
    pub fn surrounding(&self, distance: i32) -> (v: Vec<CellCoords>)
        requires
            distance >= 0,
            i32::MIN <= self.x - distance,
            self.x + distance <= i32::MAX,
            i32::MIN <= self.y - distance,
            self.y + distance <= i32::MAX,
        ensures
            forall|c: CellCoords| #[trigger]
                v@.contains(c) <==> in_disk(*self, distance as int, c),
            forall|j1: int, j2: int| 0 <= j1 < j2 < v@.len() ==> v@[j1] != v@[j2],
    {
        proof {
            assert(0 <= (distance as int) * (distance as int) <= 0x4000_0000_0000_0000)
                by (nonlinear_arith)
                requires
                    0 <= distance <= 0x7fff_ffff,
            ;
        }
        let d2: i64 = (distance as i64) * (distance as i64);
        let xmin: i64 = self.x as i64 - distance as i64;
        let xmax: i64 = self.x as i64 + distance as i64;
        let ymin: i64 = self.y as i64 - distance as i64;
        let ymax: i64 = self.y as i64 + distance as i64;
        let mut v: Vec<CellCoords> = Vec::new();
        let mut cx: i64 = xmin;
        while cx <= xmax
            invariant
                d2 == (distance as int) * (distance as int),
                distance >= 0,
                xmin == self.x - distance,
                xmax == self.x + distance,
                ymin == self.y - distance,
                ymax == self.y + distance,
                i32::MIN <= xmin,
                xmax <= i32::MAX,
                i32::MIN <= ymin,
                ymax <= i32::MAX,
                xmin <= cx <= xmax + 1,
                forall|j: int|
                    0 <= j < v@.len() ==> in_disk(*self, distance as int, #[trigger] v@[j]),
                forall|j: int|
                    0 <= j < v@.len() ==> xmin <= (#[trigger] v@[j]).x < cx && ymin <= v@[j].y
                        <= ymax,
                forall|c: CellCoords|
                    xmin <= c.x < cx && ymin <= c.y <= ymax && in_disk(*self, distance as int, c)
                        ==> #[trigger] v@.contains(c),
                forall|j1: int, j2: int|
                    0 <= j1 < j2 < v@.len() ==> (v@[j1].x < v@[j2].x || (v@[j1].x == v@[j2].x
                        && v@[j1].y < v@[j2].y)),
            decreases xmax + 1 - cx,
        {
            let mut cy: i64 = ymin;
            while cy <= ymax
                invariant
                    d2 == (distance as int) * (distance as int),
                    distance >= 0,
                    xmin == self.x - distance,
                    xmax == self.x + distance,
                    ymin == self.y - distance,
                    ymax == self.y + distance,
                    i32::MIN <= xmin,
                    xmax <= i32::MAX,
                    i32::MIN <= ymin,
                    ymax <= i32::MAX,
                    xmin <= cx <= xmax,
                    ymin <= cy <= ymax + 1,
                    forall|j: int|
                        0 <= j < v@.len() ==> in_disk(*self, distance as int, #[trigger] v@[j]),
                    forall|j: int|
                        0 <= j < v@.len() ==> xmin <= (#[trigger] v@[j]).x <= cx && ymin
                            <= v@[j].y <= ymax,
                    forall|j: int|
                        0 <= j < v@.len() ==> ((#[trigger] v@[j]).x < cx || v@[j].y < cy),
                    forall|c: CellCoords|
                        xmin <= c.x < cx && ymin <= c.y <= ymax && in_disk(
                            *self,
                            distance as int,
                            c,
                        ) ==> #[trigger] v@.contains(c),
                    forall|c: CellCoords|
                        c.x == cx && ymin <= c.y < cy && in_disk(*self, distance as int, c)
                            ==> #[trigger] v@.contains(c),
                    forall|j1: int, j2: int|
                        0 <= j1 < j2 < v@.len() ==> (v@[j1].x < v@[j2].x || (v@[j1].x == v@[j2].x
                            && v@[j1].y < v@[j2].y)),
                decreases ymax + 1 - cy,
            {
                let dx: i64 = cx - self.x as i64;
                let dy: i64 = cy - self.y as i64;
                proof {
                    assert(0 <= dx * dx <= 0x3fff_ffff_0000_0001 && 0 <= dy * dy
                        <= 0x3fff_ffff_0000_0001) by (nonlinear_arith)
                        requires
                            -0x7fff_ffff <= dx <= 0x7fff_ffff,
                            -0x7fff_ffff <= dy <= 0x7fff_ffff,
                    ;
                }
                let s: i64 = dx * dx + dy * dy;
                let candidate = CellCoords { x: cx as i32, y: cy as i32 };
                proof {
                    assert(s == sqr_dist(*self, candidate));
                }
                if s <= d2 {
                    let ghost prev = v@;
                    v.push(candidate);
                    proof {
                        assert forall|c: CellCoords|
                            xmin <= c.x < cx && ymin <= c.y <= ymax && in_disk(
                                *self,
                                distance as int,
                                c,
                            ) implies #[trigger] v@.contains(c) by {
                            assert(prev.contains(c));
                            let j = choose|j: int| 0 <= j < prev.len() && prev[j] == c;
                            assert(v@[j] == c);
                        }
                        assert forall|c: CellCoords|
                            c.x == cx && ymin <= c.y < cy + 1 && in_disk(
                                *self,
                                distance as int,
                                c,
                            ) implies #[trigger] v@.contains(c) by {
                            if c.y < cy {
                                assert(prev.contains(c));
                                let j = choose|j: int| 0 <= j < prev.len() && prev[j] == c;
                                assert(v@[j] == c);
                            } else {
                                assert(c == candidate);
                                assert(v@[v@.len() - 1] == c);
                            }
                        }
                    }
                } else {
                    proof {
                        assert forall|c: CellCoords|
                            c.x == cx && ymin <= c.y < cy + 1 && in_disk(
                                *self,
                                distance as int,
                                c,
                            ) implies #[trigger] v@.contains(c) by {
                            assert(c.y != cy);
                        }
                    }
                }
                cy = cy + 1;
            }
            cx = cx + 1;
        }
        proof {
            assert forall|c: CellCoords| #[trigger]
                in_disk(*self, distance as int, c) implies xmin <= c.x <= xmax && ymin <= c.y
                <= ymax by {
                let ux = c.x - self.x;
                let uy = c.y - self.y;
                assert(ux * ux >= 0 && uy * uy >= 0) by (nonlinear_arith);
                assert(ux * ux <= (distance as int) * (distance as int) ==> -(distance as int)
                    <= ux <= distance as int) by (nonlinear_arith)
                    requires
                        distance >= 0,
                ;
                assert(uy * uy <= (distance as int) * (distance as int) ==> -(distance as int)
                    <= uy <= distance as int) by (nonlinear_arith)
                    requires
                        distance >= 0,
                ;
            }
        }
        v
    }
}

/// Compute the Manhattan distance between two cells, in cells.
fn cell_manhattan_dist(a: &CellCoords, b: &CellCoords) -> (r: i64)
    ensures
        r == cell_manhattan(*a, *b),
        r >= 0,
{
    let dx = if a.x >= b.x {
        (a.x as i64) - (b.x as i64)
    } else {
        (b.x as i64) - (a.x as i64)
    };
    let dy = if a.y >= b.y {
        (a.y as i64) - (b.y as i64)
    } else {
        (b.y as i64) - (a.y as i64)
    };
    dx + dy
}

/// The coordinates of every grid cell over a target, as a sequence in
/// grid order.
pub open spec fn grid_coords_seq(target_size: Dimensions, cell_size: Dimensions) -> Seq<
    CellCoords,
> {
    Seq::new(
        grid_len(target_size, cell_size) as nat,
        |k: int| coord_of(target_size, cell_size, k),
    )
}

/// One step of the two-phase pass: the best tile of cell `i`, judged by
/// its current, possibly already-penalised row, is penalised in every
/// other cell, scaled by the Manhattan distance in cells between the
/// two; a cell never penalises itself.
pub open spec fn spread_step(
    w: Seq<Seq<int>>,
    cells: Seq<CellCoords>,
    pen: Penalty,
    i: int,
) -> Seq<Seq<int>> {
    let best = first_min_index(w[i]);
    Seq::new(
        w.len(),
        |k: int|
            if k != i {
                w[k].update(best, sat_add(w[k][best], pen.at(cell_manhattan(cells[i], cells[k]))))
            } else {
                w[k]
            },
    )
}

/// The weight matrix after the first `n` cells have each spread their
/// penalty over the other cells.
pub open spec fn spread_prefix(
    w0: Seq<Seq<int>>,
    cells: Seq<CellCoords>,
    pen: Penalty,
    n: int,
) -> Seq<Seq<int>>
    decreases n,
{
    if n <= 0 {
        w0
    } else {
        spread_step(spread_prefix(w0, cells, pen, n - 1), cells, pen, n - 1)
    }
}

/// The coordinates of the grid cell at position `i`, counting down each
/// column first, then across, in step with `grid_cell`.
pub open spec fn coord_of(target_size: Dimensions, cell_size: Dimensions, i: int) -> CellCoords {
    let down = (target_size.1 / cell_size.1) as int;
    CellCoords { x: (i / down) as i32, y: (i % down) as i32 }
}

/// The coordinates of every full grid cell over the target, column by
/// column, in step with the rectangles that `grid` produces.
pub fn grid_coords(target_size: Dimensions, cell_size: &Dimensions) -> (r: Vec<CellCoords>)
    requires
        cell_size.0 >= 1,
        cell_size.1 >= 1,
        target_size.0 as int / cell_size.0 as int <= i32::MAX,
        target_size.1 as int / cell_size.1 as int <= i32::MAX,
    ensures
        r@.len() == grid_len(target_size, *cell_size),
        forall|i: int|
            0 <= i < r@.len() ==> #[trigger] r@[i] == coord_of(target_size, *cell_size, i),
{
    let (tw, th) = target_size;
    let cw = cell_size.0;
    let ch = cell_size.1;
    let across = tw / cw;
    let down = th / ch;
    let mut r: Vec<CellCoords> = Vec::new();
    let mut xi: u32 = 0;
    while xi < across
        invariant
            xi <= across,
            across == tw as int / cw as int,
            down == th as int / ch as int,
            across <= i32::MAX,
            down <= i32::MAX,
            r@.len() == (xi as int) * (down as int),
            forall|i: int|
                0 <= i < r@.len() ==> #[trigger] r@[i] == coord_of((tw, th), (cw, ch), i),
        decreases across - xi,
    {
        let mut yi: u32 = 0;
        while yi < down
            invariant
                yi <= down,
                xi < across,
                across == tw as int / cw as int,
                down == th as int / ch as int,
                across <= i32::MAX,
                down <= i32::MAX,
                r@.len() == (xi as int) * (down as int) + yi,
                forall|i: int|
                    0 <= i < r@.len() ==> #[trigger] r@[i] == coord_of((tw, th), (cw, ch), i),
            decreases down - yi,
        {
            r.push(CellCoords { x: xi as i32, y: yi as i32 });
            proof {
                let i0 = (xi as int) * (down as int) + yi;
                lemma_fundamental_div_mod_converse_div(i0, down as int, xi as int, yi as int);
                lemma_fundamental_div_mod_converse_mod(i0, down as int, xi as int, yi as int);
                assert(r@[i0] == coord_of((tw, th), (cw, ch), i0));
            }
            yi = yi + 1;
        }
        xi = xi + 1;
        proof {
            assert(((xi - 1) as int) * (down as int) + (down as int) == (xi as int) * (down as int))
                by (nonlinear_arith);
        }
    }
    proof {
        assert((across as int) * (down as int) == grid_len((tw, th), (cw, ch)));
    }
    r
}

/// Matches library tiles to target cells by fingerprint distance, with
/// either an independent pick per cell or a duplicate-avoiding two-phase
/// pick.
pub struct MatchingTileStrategy<'a> {
    /// The grid resolution both sides were fingerprinted with.
    pub options: &'a AnalysisOptions,
    /// The fingerprints of the library, one per tile, in tile order.
    pub analysis: &'a Vec<ImageInfo>,
}

impl<'a> MatchingTileStrategy<'a> {
    /// The library fingerprints are well formed.
    pub open spec fn wf(&self) -> bool {
        library_wf(self.analysis@)
    }

    /// Build the strategy.
    pub fn new(analysis: &'a Vec<ImageInfo>, options: &'a AnalysisOptions) -> (r:
        MatchingTileStrategy<'a>)
        ensures
            r.analysis == analysis,
            r.options == options,
    {
        MatchingTileStrategy { options, analysis }
    }

    /// Score every library tile against one cell fingerprint.
    pub fn rank_library(&self, info: &ImageInfo) -> (r: Vec<i64>)
        requires
            info.wf(),
            forall|t: int|
                0 <= t < self.analysis@.len() ==> (#[trigger] self.analysis@[t]).colors@.len()
                    == info.colors@.len(),
        ensures
            r@.len() == self.analysis@.len(),
            weights_view(r@) == library_row(self.analysis@, info.colors@),
            forall|t: int| 0 <= t < r@.len() ==> #[trigger] r@[t] >= 0,
    {
        rank_row(self.analysis, info)
    }

    /// The tile with the cheapest score; the earliest of equally cheap
    /// tiles wins, so ties are deterministic.
    pub fn pick_best(&self, cells_ranked: &Vec<i64>) -> (r: usize)
        requires
            cells_ranked@.len() >= 1,
        ensures
            r == first_min_index(weights_view(cells_ranked@)),
            r < cells_ranked@.len(),
    {
        lowest_weight_item(cells_ranked)
    }

    /// Choose the best tile for the given rectangle of the target.
    pub fn select_tile(&self, img: &PixelImage, r: &Rectangle) -> (t: TileLocation)
        requires
            self.wf(),
            img.wf(),
            r.x + r.width <= img.width,
            r.y + r.height <= img.height,
            resample_fits(
                r.width,
                r.height,
                self.options.sample_size as u32,
                self.options.sample_size as u32,
            ),
            self.analysis@.len() >= 1,
            fingerprints_match(self.analysis@, self.options.sample_size),
        ensures
            t.0 as int == best_tile(self.analysis@, cell_colors(*img, *r, self.options.sample_size)),
            t.1 == crate::geometry::region_of(*r),
    {
        let tile = crate::strategy::select_best_tile(self.analysis, self.options, img, r);
        (tile, PixelRegion::from(r))
    }

    /// Choose the best set of tiles for this target image, avoiding
    /// duplicates near one another: every cell is ranked against the
    /// whole library, then each cell in order spreads a penalty for its
    /// currently best tile over every other cell, and finally each cell
    /// re-selects the cheapest tile from its penalised row.
    pub fn choose2(
        &self,
        target: &PixelImage,
        cell_size: &Dimensions,
        duplicate_penalty: &Penalty,
    ) -> (r: Result<Vec<TileLocation>, TilerError>)
        requires
            self.wf(),
            target.wf(),
            cell_size.0 >= 1,
            cell_size.1 >= 1,
            resample_fits(
                cell_size.0,
                cell_size.1,
                self.options.sample_size as u32,
                self.options.sample_size as u32,
            ),
            duplicate_penalty.wf(),
            target.width as int / cell_size.0 as int <= i32::MAX,
            target.height as int / cell_size.1 as int <= i32::MAX,
        ensures
            match r {
                Ok(v) => {
                    let dims = (target.width, target.height);
                    let cells = grid_len(dims, *cell_size);
                    let final_rows = spread_prefix(
                        initial_rows(
                            self.analysis@,
                            *target,
                            *cell_size,
                            self.options.sample_size,
                        ),
                        grid_coords_seq(dims, *cell_size),
                        *duplicate_penalty,
                        cells,
                    );
                    &&& (cells >= 1 ==> self.analysis@.len() >= 1 && fingerprints_match(
                        self.analysis@,
                        self.options.sample_size,
                    ))
                    &&& v@.len() == cells
                    &&& forall|i: int|
                        0 <= i < v@.len() ==> (#[trigger] v@[i]).1 == crate::geometry::region_of(
                            grid_cell(dims, *cell_size, i),
                        )
                    &&& forall|i: int|
                        0 <= i < v@.len() ==> (#[trigger] v@[i]).0 as int == first_min_index(
                            final_rows[i],
                        )
                },
                Err(e) => {
                    &&& grid_len((target.width, target.height), *cell_size) >= 1
                    &&& (e == TilerError::EmptyLibrary <==> self.analysis@.len() == 0)
                    &&& (e == TilerError::FingerprintSizeMismatch <==> self.analysis@.len() >= 1
                        && !fingerprints_match(self.analysis@, self.options.sample_size))
                },
            },
    {
        let dims = (target.width, target.height);
        let rects = crate::strategy::grid(dims, cell_size);
        let coords = grid_coords(dims, cell_size);
        if rects.len() == 0 {
            return Ok(Vec::new());
        }
        if self.analysis.len() == 0 {
            return Err(TilerError::EmptyLibrary);
        }
        match crate::strategy::check_fingerprint_sizes(self.analysis, self.options.sample_size) {
            Err(e) => {
                return Err(e);
            },
            Ok(()) => {},
        }
        let n = rects.len();
        let ghost rows0 = initial_rows(self.analysis@, *target, *cell_size, self.options.sample_size);
        let ghost coords_seq = grid_coords_seq(dims, *cell_size);
        proof {
            assert(coords@ =~= coords_seq);
        }
        let mut rows: Vec<Vec<i64>> = Vec::new();
        let mut i: usize = 0;
        while i < n
            invariant
                i <= n,
                self.wf(),
                target.wf(),
                self.analysis@.len() >= 1,
                fingerprints_match(self.analysis@, self.options.sample_size),
                n == rects@.len(),
                n == grid_len((target.width, target.height), *cell_size),
                resample_fits(
                    cell_size.0,
                    cell_size.1,
                    self.options.sample_size as u32,
                    self.options.sample_size as u32,
                ),
                rows0 == initial_rows(
                    self.analysis@,
                    *target,
                    *cell_size,
                    self.options.sample_size,
                ),
                forall|j: int|
                    0 <= j < n ==> #[trigger] rects@[j] == grid_cell(
                        (target.width, target.height),
                        *cell_size,
                        j,
                    ),
                forall|j: int|
                    0 <= j < n ==> (#[trigger] rects@[j]).x + rects@[j].width <= target.width
                        && rects@[j].y + rects@[j].height <= target.height,
                rows@.len() == i,
                forall|j: int| #![auto] 0 <= j < i ==> rows@[j]@.len() == self.analysis@.len(),
                forall|j: int| #![auto] 0 <= j < i ==> weights_view(rows@[j]@) == rows0[j],
                forall|j: int, t: int| #![auto]
                    0 <= j < i && 0 <= t < rows@[j]@.len() ==> rows@[j]@[t] >= 0,
            decreases n - i,
        {
            let info = crate::analysis::analyse_cell(target, &rects[i], self.options);
            let row = rank_row(self.analysis, &info);
            rows.push(row);
            i = i + 1;
        }
        proof {
            assert(matrix_view(rows@) =~= rows0);
        }
        let ghost m: int = self.analysis@.len() as int;
        let mut i2: usize = 0;
        while i2 < n
            invariant
                i2 <= n,
                duplicate_penalty.wf(),
                n == rects@.len(),
                n == coords@.len(),
                coords@ == coords_seq,
                rows@.len() == n,
                m == self.analysis@.len(),
                m >= 1,
                rows0.len() == n,
                forall|k: int| #![auto] 0 <= k < n ==> rows@[k]@.len() == m,
                forall|k: int, t: int| #![auto]
                    0 <= k < n && 0 <= t < m ==> rows@[k]@[t] >= 0,
                matrix_view(rows@) == spread_prefix(
                    rows0,
                    coords_seq,
                    *duplicate_penalty,
                    i2 as int,
                ),
            decreases n - i2,
        {
            let best = lowest_weight_item(&rows[i2]);
            let ghost wi = matrix_view(rows@);
            proof {
                assert(wi[i2 as int] == weights_view(rows@[i2 as int]@));
                assert(best == first_min_index(wi[i2 as int]));
            }
            let mut k: usize = 0;
            while k < n
                invariant
                    duplicate_penalty.wf(),
                    i2 < n,
                    k <= n,
                    n == coords@.len(),
                    coords@ == coords_seq,
                    rows@.len() == n,
                    best < m,
                    best == first_min_index(wi[i2 as int]),
                    wi.len() == n,
                    forall|r0: int| #![auto] 0 <= r0 < n ==> wi[r0].len() == m,
                    forall|k2: int| #![auto] 0 <= k2 < n ==> rows@[k2]@.len() == m,
                    forall|k2: int, t: int| #![auto]
                        0 <= k2 < n && 0 <= t < m ==> rows@[k2]@[t] >= 0,
                    forall|k2: int, t: int| #![auto]
                        0 <= k2 < n && 0 <= t < m ==> wi[k2][t] >= 0,
                    forall|r0: int| #![auto]
                        (k <= r0 < n || r0 == i2) ==> matrix_view(rows@)[r0] == wi[r0],
                    forall|r0: int| #![auto]
                        0 <= r0 < k && r0 != i2 ==> matrix_view(rows@)[r0] == wi[r0].update(
                            best as int,
                            sat_add(
                                wi[r0][best as int],
                                duplicate_penalty.at(
                                    cell_manhattan(coords_seq[i2 as int], coords_seq[r0]),
                                ),
                            ),
                        ),
                decreases n - k,
            {
                if k != i2 {
                    let d = cell_manhattan_dist(&coords[i2], &coords[k]);
                    let p = duplicate_penalty.eval(d);
                    let ghost before = matrix_view(rows@);
                    let row = &mut rows[k];
                    let cur = row[best];
                    proof {
                        assert(before[k as int] == weights_view(row@));
                        assert(cur == wi[k as int][best as int]);
                    }
                    let newval = crate::strategy::sat_add_i64(cur, p);
                    row[best] = newval;
                    proof {
                        assert(weights_view(rows@[k as int]@) =~= wi[k as int].update(
                            best as int,
                            sat_add(
                                wi[k as int][best as int],
                                duplicate_penalty.at(
                                    cell_manhattan(coords_seq[i2 as int], coords_seq[k as int]),
                                ),
                            ),
                        ));
                        assert forall|r0: int| 0 <= r0 < n && r0 != k implies #[trigger] matrix_view(
                            rows@,
                        )[r0] == before[r0] by {}
                    }
                }
                k = k + 1;
            }
            proof {
                assert forall|r0: int| 0 <= r0 < n implies #[trigger] matrix_view(rows@)[r0]
                    == spread_step(wi, coords_seq, *duplicate_penalty, i2 as int)[r0] by {}
                assert(matrix_view(rows@) =~= spread_step(
                    wi,
                    coords_seq,
                    *duplicate_penalty,
                    i2 as int,
                ));
                assert(spread_prefix(rows0, coords_seq, *duplicate_penalty, (i2 + 1) as int)
                    == spread_step(
                    spread_prefix(rows0, coords_seq, *duplicate_penalty, i2 as int),
                    coords_seq,
                    *duplicate_penalty,
                    i2 as int,
                ));
            }
            i2 = i2 + 1;
        }
        let ghost final_rows = spread_prefix(rows0, coords_seq, *duplicate_penalty, n as int);
        proof {
            assert forall|j: int| 0 <= j < n implies (#[trigger] rows@[j])@.len() == m by {
                assert(matrix_view(rows@)[j] == weights_view(rows@[j]@));
            }
        }
        let mut out: Vec<TileLocation> = Vec::new();
        let mut i3: usize = 0;
        while i3 < n
            invariant
                i3 <= n,
                n == rects@.len(),
                rows@.len() == n,
                m >= 1,
                matrix_view(rows@) == final_rows,
                final_rows.len() == n,
                forall|j: int| #![auto] 0 <= j < n ==> rows@[j]@.len() == m,
                forall|j: int|
                    0 <= j < n ==> #[trigger] rects@[j] == grid_cell(
                        (target.width, target.height),
                        *cell_size,
                        j,
                    ),
                out@.len() == i3,
                forall|j: int|
                    0 <= j < i3 ==> (#[trigger] out@[j]).1 == crate::geometry::region_of(
                        rects@[j],
                    ),
                forall|j: int|
                    0 <= j < i3 ==> (#[trigger] out@[j]).0 as int == first_min_index(
                        final_rows[j],
                    ),
            decreases n - i3,
        {
            proof {
                assert(matrix_view(rows@)[i3 as int] == weights_view(rows@[i3 as int]@));
            }
            let b = lowest_weight_item(&rows[i3]);
            let region = PixelRegion::from(&rects[i3]);
            out.push((b, region));
            i3 = i3 + 1;
        }
        Ok(out)
    }

    /// Choose the best set of tiles for this target image, picking the
    /// best tile for each cell independently of all other cells.
    pub fn choose_tiles(&self, target: &PixelImage, cell_size: &Dimensions) -> (r: Result<
        Vec<TileLocation>,
        TilerError,
    >)
        requires
            self.wf(),
            target.wf(),
            cell_size.0 >= 1,
            cell_size.1 >= 1,
            resample_fits(
                cell_size.0,
                cell_size.1,
                self.options.sample_size as u32,
                self.options.sample_size as u32,
            ),
        ensures
            match r {
                Ok(v) => {
                    let cells = grid_len((target.width, target.height), *cell_size);
                    &&& (cells >= 1 ==> self.analysis@.len() >= 1 && fingerprints_match(
                        self.analysis@,
                        self.options.sample_size,
                    ))
                    &&& v@.len() == cells
                    &&& forall|i: int|
                        0 <= i < v@.len() ==> (#[trigger] v@[i]).1 == crate::geometry::region_of(
                            grid_cell((target.width, target.height), *cell_size, i),
                        )
                    &&& forall|i: int|
                        0 <= i < v@.len() ==> (#[trigger] v@[i]).0 as int == best_tile(
                            self.analysis@,
                            cell_colors(
                                *target,
                                grid_cell((target.width, target.height), *cell_size, i),
                                self.options.sample_size,
                            ),
                        )
                },
                Err(e) => {
                    &&& grid_len((target.width, target.height), *cell_size) >= 1
                    &&& (e == TilerError::EmptyLibrary <==> self.analysis@.len() == 0)
                    &&& (e == TilerError::FingerprintSizeMismatch <==> self.analysis@.len() >= 1
                        && !fingerprints_match(self.analysis@, self.options.sample_size))
                },
            },
    {
        let strategy = IndependentStrategy::new(self.analysis, self.options, *cell_size);
        strategy.choose_tiles(target)
    }
}

} // verus!

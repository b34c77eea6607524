//! Tile-selection strategies: the independent per-cell pick, and the
//! holistic pick that discourages re-using a tile in nearby cells.

use vstd::prelude::*;
use vstd::arithmetic::div_mod::lemma_fundamental_div_mod;
use vstd::arithmetic::div_mod::lemma_fundamental_div_mod_converse_div;
use vstd::arithmetic::div_mod::lemma_fundamental_div_mod_converse_mod;
use crate::analysis::AnalysisOptions;
use crate::analysis::ColorInfo;
use crate::analysis::ImageInfo;
use crate::analysis::MAX_SAMPLES;
use crate::analysis::analyse_cell;
use crate::analysis::analysed_colors;
use crate::analysis::color_sqr_diff;
use crate::geometry::Dimensions;
use crate::geometry::PixelRegion;
use crate::geometry::Rectangle;
use crate::geometry::TileLocation;
use crate::geometry::TilerError;
use crate::pixels::PixelImage;
use crate::pixels::crop_px;
use crate::pixels::resample_fits;

verus! {

// ---------------------------------------------------------------------
// Aggregate match scores
// ---------------------------------------------------------------------

/// The total distance over the first `n` sample pairs of two equally
/// long colour sequences.
pub open spec fn diff_total_prefix(a: Seq<ColorInfo>, b: Seq<ColorInfo>, n: int) -> int
    decreases n,
{
    if n <= 0 {
        0
    } else {
        diff_total_prefix(a, b, n - 1) + color_sqr_diff(a[n - 1], b[n - 1])
    }
}

/// The aggregate match score of two fingerprint colour sequences: the
/// squared colour distances of all sample pairs added up.
pub open spec fn diff_total(a: Seq<ColorInfo>, b: Seq<ColorInfo>) -> int {
    diff_total_prefix(a, b, a.len() as int)
}

/// The view of a weight row as unbounded integers.
pub open spec fn weights_view(v: Seq<i64>) -> Seq<int> {
    v.map_values(|x: i64| x as int)
}

/// The view of a weight matrix as unbounded integers.
pub open spec fn matrix_view(m: Seq<Vec<i64>>) -> Seq<Seq<int>> {
    m.map_values(|row: Vec<i64>| weights_view(row@))
}

// ---------------------------------------------------------------------
// Picking the cheapest entry
// ---------------------------------------------------------------------

/// The index of the smallest entry among the first `n`; the earliest of
/// equally small entries wins.
pub open spec fn first_min_prefix(w: Seq<int>, n: int) -> int
    decreases n,
{
    if n <= 1 {
        0
    } else {
        let p = first_min_prefix(w, n - 1);
        if w[n - 1] < w[p] {
            n - 1
        } else {
            p
        }
    }
}

/// The index of the smallest entry of a row; the earliest of equally
/// small entries wins.
pub open spec fn first_min_index(w: Seq<int>) -> int {
    first_min_prefix(w, w.len() as int)
}

/// What `first_min_prefix` picks: an index below `n` holding a value no
/// larger than any entry below `n`, with strictly larger entries before it.
pub proof fn lemma_first_min_prefix(w: Seq<int>, n: int)
    requires
        1 <= n <= w.len(),
    ensures
        0 <= first_min_prefix(w, n) < n,
        forall|j: int| 0 <= j < n ==> w[first_min_prefix(w, n)] <= #[trigger] w[j],
        forall|j: int| 0 <= j < first_min_prefix(w, n) ==> #[trigger] w[j] > w[first_min_prefix(w, n)],
    decreases n,
{
    if n > 1 {
        lemma_first_min_prefix(w, n - 1);
    }
}

/// What `first_min_index` picks, over the whole row.
pub proof fn lemma_first_min_index(w: Seq<int>)
    requires
        w.len() >= 1,
    ensures
        0 <= first_min_index(w) < w.len(),
        forall|j: int| 0 <= j < w.len() ==> w[first_min_index(w)] <= #[trigger] w[j],
        forall|j: int| 0 <= j < first_min_index(w) ==> #[trigger] w[j] > w[first_min_index(w)],
{
    lemma_first_min_prefix(w, w.len() as int);
}

/// Find the index of the cheapest weight; among equally cheap entries the
/// earliest index wins, so ties are deterministic.
pub fn lowest_weight_item(weights: &Vec<i64>) -> (r: usize)
    requires
        weights@.len() >= 1,
    ensures
        r == first_min_index(weights_view(weights@)),
        r < weights@.len(),
        forall|j: int| 0 <= j < weights@.len() ==> weights@[r as int] <= #[trigger] weights@[j],
        forall|j: int| 0 <= j < r ==> #[trigger] weights@[j] > weights@[r as int],
{
    let n = weights.len();
    let mut best: usize = 0;
    let mut i: usize = 1;
    while i < n
        invariant
            1 <= i <= n,
            n == weights@.len(),
            best < i,
            best == first_min_prefix(weights_view(weights@), i as int),
        decreases n - i,
    {
        if weights[i] < weights[best] {
            best = i;
        }
        i = i + 1;
    }
    proof {
        lemma_first_min_index(weights_view(weights@));
        assert forall|j: int| 0 <= j < weights@.len() implies weights_view(weights@)[j]
            == #[trigger] weights@[j] by {}
    }
    best
}

/// The aggregate difference between the fingerprint of a target region
/// and the fingerprint of a library tile.
pub fn tile_difference_weight(target: &ImageInfo, tile: &ImageInfo) -> (r: i64)
    requires
        target.colors@.len() == tile.colors@.len(),
        target.wf(),
    ensures
        r == diff_total(tile.colors@, target.colors@),
        0 <= r <= 195075 * tile.colors@.len(),
{
    let n = tile.colors.len();
    let mut sum: i64 = 0;
    let mut i: usize = 0;
    while i < n
        invariant
            i <= n,
            n == tile.colors@.len(),
            n == target.colors@.len(),
            n <= MAX_SAMPLES,
            sum == diff_total_prefix(tile.colors@, target.colors@, i as int),
            0 <= sum <= 195075 * i,
        decreases n - i,
    {
        let d = tile.colors[i].sqr_diff(&target.colors[i]);
        sum = sum + d as i64;
        i = i + 1;
    }
    sum
}

// ---------------------------------------------------------------------
// The grid of cells
// ---------------------------------------------------------------------

/// How many full cells of size `cell_size` fit into `target_size`.
pub open spec fn grid_len(target_size: Dimensions, cell_size: Dimensions) -> int {
    (target_size.0 / cell_size.0) * (target_size.1 / cell_size.1)
}

/// The cell rectangle at position `i` of the grid, counting down each
/// column first, then across.
pub open spec fn grid_cell(target_size: Dimensions, cell_size: Dimensions, i: int) -> Rectangle {
    let down = (target_size.1 / cell_size.1) as int;
    Rectangle {
        x: ((i / down) * cell_size.0) as u32,
        y: ((i % down) * cell_size.1) as u32,
        width: cell_size.0,
        height: cell_size.1,
    }
}

/// Build a grid of non-overlapping cell rectangles covering the target.
///
/// If the target is not a perfect multiple of `cell_size` in one or both
/// dimensions then the trailing part that cannot be covered by a full
/// cell is dropped, not padded or clipped.
pub fn grid(target_size: Dimensions, cell_size: &Dimensions) -> (r: Vec<Rectangle>)
    requires
        cell_size.0 >= 1,
        cell_size.1 >= 1,
    ensures
        r@.len() == grid_len(target_size, *cell_size),
        forall|i: int| 0 <= i < r@.len() ==> r@[i] == grid_cell(target_size, *cell_size, i),
        forall|i: int|
            0 <= i < r@.len() ==> r@[i].x + r@[i].width <= target_size.0 && r@[i].y + r@[i].height
                <= target_size.1,
{
    let (tw, th) = target_size;
    let cw = cell_size.0;
    let ch = cell_size.1;
    let across = tw / cw;
    let down = th / ch;
    proof {
        lemma_fundamental_div_mod(tw as int, cw as int);
        lemma_fundamental_div_mod(th as int, ch as int);
    }
    let mut r: Vec<Rectangle> = Vec::new();
    let mut xi: u32 = 0;
    while xi < across
        invariant
            xi <= across,
            across == tw as int / cw as int,
            down == th as int / ch as int,
            cw >= 1,
            ch >= 1,
            (cw as int) * (across as int) <= tw,
            (ch as int) * (down as int) <= th,
            r@.len() == (xi as int) * (down as int),
            forall|i: int|
                0 <= i < r@.len() ==> r@[i] == grid_cell((tw, th), (cw, ch), i),
            forall|i: int|
                0 <= i < r@.len() ==> r@[i].x + r@[i].width <= tw && r@[i].y + r@[i].height <= th,
        decreases across - xi,
    {
        proof {
            assert((xi as int) * cw + cw <= (cw as int) * (across as int)) by (nonlinear_arith)
                requires
                    xi < across,
                    cw >= 1,
            ;
        }
        let x = xi * cw;
        let mut yi: u32 = 0;
        while yi < down
            invariant
                yi <= down,
                xi < across,
                across == tw as int / cw as int,
                down == th as int / ch as int,
                cw >= 1,
                ch >= 1,
                (cw as int) * (across as int) <= tw,
                (ch as int) * (down as int) <= th,
                x == xi * cw,
                x + cw <= tw,
                r@.len() == (xi as int) * (down as int) + yi,
                forall|i: int|
                    0 <= i < r@.len() ==> r@[i] == grid_cell((tw, th), (cw, ch), i),
                forall|i: int|
                    0 <= i < r@.len() ==> r@[i].x + r@[i].width <= tw && r@[i].y + r@[i].height
                        <= th,
            decreases down - yi,
        {
            proof {
                assert((yi as int) * ch + ch <= (ch as int) * (down as int)) by (nonlinear_arith)
                    requires
                        yi < down,
                        ch >= 1,
                ;
            }
            let y = yi * ch;
            let cell = Rectangle::new(x, y, cw, ch);
            r.push(cell);
            proof {
                let i0 = (xi as int) * (down as int) + yi;
                lemma_fundamental_div_mod_converse_div(i0, down as int, xi as int, yi as int);
                lemma_fundamental_div_mod_converse_mod(i0, down as int, xi as int, yi as int);
                assert(r@[i0] == grid_cell((tw, th), (cw, ch), i0));
            }
            yi = yi + 1;
        }
        xi = xi + 1;
        proof {
            assert(((xi - 1) as int) * (down as int) + (down as int) == (xi as int) * (down as int))
                by (nonlinear_arith);
        }
    }
    proof {
        assert((across as int) * (down as int) == grid_len((tw, th), (cw, ch)));
    }
    r
}

// ---------------------------------------------------------------------
// Duplicate penalties
// ---------------------------------------------------------------------

/// A penalty for re-using a tile, as a function of the distance between
/// the cell it was picked for and the cell being penalised.
#[derive(Clone, Copy, Debug, PartialEq, Eq, Structural)]
pub enum Penalty {
    /// The same penalty at every distance.
    Constant(i64),
    /// A linear decay: `(max_penalty / threshold) * (threshold - d)` at
    /// distance `d` below the threshold, and zero at or beyond it.
    ByDistance { max_penalty: i64, threshold: i64 },
}

impl Penalty {
    /// The penalty holds workable values.
    pub open spec fn wf(&self) -> bool {
        match *self {
            Penalty::Constant(v) => v >= 0,
            Penalty::ByDistance { max_penalty, threshold } => max_penalty >= 0 && threshold >= 1,
        }
    }

    /// The penalty applied at distance `d`.
    pub open spec fn at(&self, d: int) -> int {
        match *self {
            Penalty::Constant(v) => v as int,
            Penalty::ByDistance { max_penalty, threshold } => if d >= threshold {
                0
            } else {
                (max_penalty as int / threshold as int) * (threshold - d)
            },
        }
    }

    /// Evaluate the penalty at distance `d`.
    pub fn eval(&self, d: i64) -> (r: i64)
        requires
            self.wf(),
            d >= 0,
        ensures
            r == self.at(d as int),
            0 <= r,
    {
        match self {
            Penalty::Constant(v) => *v,
            Penalty::ByDistance { max_penalty, threshold } => {
                if d >= *threshold {
                    0
                } else {
                    let q: u64 = (*max_penalty as u64) / (*threshold as u64);
                    proof {
                        lemma_fundamental_div_mod(*max_penalty as int, *threshold as int);
                        assert(0 <= (q as int) * ((*threshold - d) as int) <= (*threshold as int)
                            * (q as int)) by (nonlinear_arith)
                            requires
                                0 <= q,
                                0 <= d < *threshold,
                        ;
                    }
                    (q as i64) * (*threshold - d)
                }
            },
        }
    }
}

/// The largest penalty of the reference decay: the largest squared colour
/// distance, scaled by the number of samples in the fingerprint grid, and
/// damped by a factor of 20.
pub open spec fn reference_max_penalty(analysis_size: u8) -> int {
    255 * 255 * 3 * (analysis_size as int) * (analysis_size as int) / 20
}

/// The reference distance decay: maximal near the chosen cell and fading
/// linearly to zero at `dist_threshold`.
pub fn penalty_by_distance(analysis_size: u8, dist_threshold: u32) -> (r: Penalty)
    requires
        dist_threshold >= 1,
    ensures
        r == (Penalty::ByDistance {
            max_penalty: reference_max_penalty(analysis_size) as i64,
            threshold: dist_threshold as i64,
        }),
        r.wf(),
{
    let s = analysis_size as u64;
    proof {
        assert((s as int) * (s as int) <= 65025) by (nonlinear_arith)
            requires
                s <= 255,
        ;
        assert(255 * 255 * 3 * (s as int) * (s as int) == 195075 * ((s as int) * (s as int)))
            by (nonlinear_arith);
    }
    let s2: u64 = s * s;
    let max_penalty: u64 = 255 * 255 * 3 * s2 / 20;
    Penalty::ByDistance { max_penalty: max_penalty as i64, threshold: dist_threshold as i64 }
}

// ---------------------------------------------------------------------
// The sequential penalty pass
// ---------------------------------------------------------------------

/// Addition that stops at the top of the `i64` range instead of wrapping.
pub open spec fn sat_add(a: int, b: int) -> int {
    if a + b > i64::MAX {
        i64::MAX as int
    } else {
        a + b
    }
}

/// Add two non-negative weights, stopping at the top of the range.
pub(crate) fn sat_add_i64(a: i64, b: i64) -> (r: i64)
    requires
        a >= 0,
        b >= 0,
    ensures
        r == sat_add(a as int, b as int),
        r >= 0,
{
    if a <= i64::MAX - b {
        a + b
    } else {
        i64::MAX
    }
}

/// The Manhattan distance between the origins of two cells, in pixels.
pub open spec fn manhattan(a: Rectangle, b: Rectangle) -> int {
    (if a.x >= b.x {
        a.x - b.x
    } else {
        b.x - a.x
    }) + (if a.y >= b.y {
        a.y - b.y
    } else {
        b.y - a.y
    })
}

/// Compute the Manhattan distance between the origins of two cells.
fn manhattan_dist(a: &Rectangle, b: &Rectangle) -> (r: i64)
    ensures
        r == manhattan(*a, *b),
        r >= 0,
{
    let dx = if a.x >= b.x {
        a.x - b.x
    } else {
        b.x - a.x
    };
    let dy = if a.y >= b.y {
        a.y - b.y
    } else {
        b.y - a.y
    };
    dx as i64 + dy as i64
}

/// One step of the sequential pass: once the currently best tile of cell
/// `i` is chosen, its weight rises in every later cell, scaled by the
/// distance between the two cells.  Cells at or before `i` are untouched.
pub open spec fn penalize_step(
    w: Seq<Seq<int>>,
    rects: Seq<Rectangle>,
    pen: Penalty,
    i: int,
) -> Seq<Seq<int>> {
    let best = first_min_index(w[i]);
    Seq::new(
        w.len(),
        |k: int|
            if k > i {
                w[k].update(best, sat_add(w[k][best], pen.at(manhattan(rects[i], rects[k]))))
            } else {
                w[k]
            },
    )
}

/// The weight matrix after the first `n` cells of the sequential pass
/// have each penalised their chosen tile in the cells after them.
pub open spec fn adjusted_prefix(
    w0: Seq<Seq<int>>,
    rects: Seq<Rectangle>,
    pen: Penalty,
    n: int,
) -> Seq<Seq<int>>
    decreases n,
{
    if n <= 0 {
        w0
    } else {
        penalize_step(adjusted_prefix(w0, rects, pen, n - 1), rects, pen, n - 1)
    }
}

/// Increase the cost of neighbouring duplicates.  The cells are walked in
/// order; the currently best tile of each cell is penalised in every cell
/// after it, the penalty scaled by the Manhattan distance in pixels
/// between the two cell origins.
pub fn adjust_weights(
    weights: &mut Vec<Vec<i64>>,
    rects: &Vec<Rectangle>,
    duplicate_penalty: &Penalty,
)
    requires
        duplicate_penalty.wf(),
        old(weights)@.len() == rects@.len(),
        forall|k: int|
            0 <= k < old(weights)@.len() ==> (#[trigger] old(weights)@[k])@.len() == old(
                weights,
            )@[0]@.len(),
        rects@.len() >= 1 ==> old(weights)@[0]@.len() >= 1,
        forall|k: int, t: int| #![auto]
            0 <= k < old(weights)@.len() && 0 <= t < old(weights)@[k]@.len() ==> old(
                weights,
            )@[k]@[t] >= 0,
    ensures
        matrix_view(final(weights)@) == adjusted_prefix(
            matrix_view(old(weights)@),
            rects@,
            *duplicate_penalty,
            rects@.len() as int,
        ),
{
    let ghost w0 = matrix_view(old(weights)@);
    let ghost m: int = if rects@.len() >= 1 {
        old(weights)@[0]@.len() as int
    } else {
        0
    };
    let n = rects.len();
    let mut i: usize = 0;
    while i < n
        invariant
            duplicate_penalty.wf(),
            i <= n,
            n == rects@.len(),
            weights@.len() == n,
            n >= 1 ==> m >= 1,
            forall|k: int| #![auto] 0 <= k < n ==> weights@[k]@.len() == m,
            forall|k: int, t: int| #![auto]
                0 <= k < n && 0 <= t < m ==> weights@[k]@[t] >= 0,
            matrix_view(weights@) == adjusted_prefix(w0, rects@, *duplicate_penalty, i as int),
        decreases n - i,
    {
        let best = lowest_weight_item(&weights[i]);
        let ghost wi = matrix_view(weights@);
        proof {
            assert(wi[i as int] == weights_view(weights@[i as int]@));
            assert(best == first_min_index(wi[i as int]));
        }
        let mut k: usize = i + 1;
        while k < n
            invariant
                duplicate_penalty.wf(),
                i < n,
                i + 1 <= k <= n,
                n == rects@.len(),
                weights@.len() == n,
                best < m,
                best == first_min_index(wi[i as int]),
                wi.len() == n,
                forall|r0: int| #![auto] 0 <= r0 < n ==> wi[r0].len() == m,
                forall|k2: int| #![auto] 0 <= k2 < n ==> weights@[k2]@.len() == m,
                forall|k2: int, t: int| #![auto]
                    0 <= k2 < n && 0 <= t < m ==> weights@[k2]@[t] >= 0,
                forall|k2: int, t: int| #![auto]
                    0 <= k2 < n && 0 <= t < m ==> wi[k2][t] >= 0,
                forall|r0: int| #![auto]
                    0 <= r0 <= i || k <= r0 < n ==> matrix_view(weights@)[r0] == wi[r0],
                forall|r0: int| #![auto]
                    i < r0 < k ==> matrix_view(weights@)[r0] == wi[r0].update(
                        best as int,
                        sat_add(
                            wi[r0][best as int],
                            duplicate_penalty.at(manhattan(rects@[i as int], rects@[r0])),
                        ),
                    ),
            decreases n - k,
        {
            let d = manhattan_dist(&rects[i], &rects[k]);
            let p = duplicate_penalty.eval(d);
            let ghost before = matrix_view(weights@);
            let row = &mut weights[k];
            let cur = row[best];
            proof {
                assert(before[k as int] == weights_view(row@));
                assert(cur == wi[k as int][best as int]);
            }
            let newval = sat_add_i64(cur, p);
            row[best] = newval;
            proof {
                assert(weights_view(weights@[k as int]@) =~= wi[k as int].update(
                    best as int,
                    sat_add(
                        wi[k as int][best as int],
                        duplicate_penalty.at(manhattan(rects@[i as int], rects@[k as int])),
                    ),
                ));
                assert forall|r0: int| 0 <= r0 < n && r0 != k implies #[trigger] matrix_view(
                    weights@,
                )[r0] == before[r0] by {}
            }
            k = k + 1;
        }
        proof {
            assert forall|r0: int| 0 <= r0 < n implies #[trigger] matrix_view(weights@)[r0]
                == penalize_step(wi, rects@, *duplicate_penalty, i as int)[r0] by {}
            assert(matrix_view(weights@) =~= penalize_step(wi, rects@, *duplicate_penalty, i as int));
            assert(adjusted_prefix(w0, rects@, *duplicate_penalty, (i + 1) as int)
                == penalize_step(
                adjusted_prefix(w0, rects@, *duplicate_penalty, i as int),
                rects@,
                *duplicate_penalty,
                i as int,
            ));
        }
        i = i + 1;
    }
}

/// The pass keeps the shape of the matrix: as many rows, each of its
/// original length.
pub proof fn lemma_adjusted_prefix_shape(
    w0: Seq<Seq<int>>,
    rects: Seq<Rectangle>,
    pen: Penalty,
    n: int,
)
    requires
        0 <= n <= w0.len(),
        forall|k: int| 0 <= k < w0.len() ==> (#[trigger] w0[k]).len() == w0[0].len(),
        w0.len() >= 1 ==> w0[0].len() >= 1,
    ensures
        adjusted_prefix(w0, rects, pen, n).len() == w0.len(),
        forall|k: int|
            0 <= k < w0.len() ==> (#[trigger] adjusted_prefix(w0, rects, pen, n)[k]).len()
                == w0[k].len(),
    decreases n,
{
    if n > 0 {
        lemma_adjusted_prefix_shape(w0, rects, pen, n - 1);
        let prev = adjusted_prefix(w0, rects, pen, n - 1);
        lemma_first_min_index(prev[n - 1]);
        assert forall|k: int|
            0 <= k < w0.len() implies (#[trigger] adjusted_prefix(w0, rects, pen, n)[k]).len()
            == w0[k].len() by {
            assert(adjusted_prefix(w0, rects, pen, n) == penalize_step(prev, rects, pen, n - 1));
            assert(penalize_step(prev, rects, pen, n - 1)[k].len() == prev[k].len());
        }
    }
}

// ---------------------------------------------------------------------
// The strategies
// ---------------------------------------------------------------------

/// The fingerprint colours of the part of `img` inside the cell `r`.
pub open spec fn cell_colors(img: PixelImage, r: Rectangle, sample_size: u8) -> Seq<ColorInfo> {
    analysed_colors(crop_px(img.pixels@, img.width, r), r.width, r.height, sample_size)
}

/// The match scores of every library tile against one cell fingerprint.
pub open spec fn library_row(analysis: Seq<ImageInfo>, cell: Seq<ColorInfo>) -> Seq<int> {
    Seq::new(analysis.len(), |t: int| diff_total(analysis[t].colors@, cell))
}

/// The library tile an independent pick chooses for one cell: the first
/// of the tiles with the smallest match score.
pub open spec fn best_tile(analysis: Seq<ImageInfo>, cell: Seq<ColorInfo>) -> int {
    first_min_index(library_row(analysis, cell))
}

/// Every fingerprint of the library holds the sample count that the
/// configured grid resolution produces.
pub open spec fn fingerprints_match(analysis: Seq<ImageInfo>, sample_size: u8) -> bool {
    forall|t: int|
        0 <= t < analysis.len() ==> (#[trigger] analysis[t]).colors@.len() == (sample_size as int)
            * (sample_size as int)
}

/// Every fingerprint of the library is well formed.
pub open spec fn library_wf(analysis: Seq<ImageInfo>) -> bool {
    forall|t: int| 0 <= t < analysis.len() ==> (#[trigger] analysis[t]).wf()
}

/// The cell rectangles of the grid over a target, as a sequence.
pub open spec fn grid_rects(target_size: Dimensions, cell_size: Dimensions) -> Seq<Rectangle> {
    Seq::new(
        grid_len(target_size, cell_size) as nat,
        |k: int| grid_cell(target_size, cell_size, k),
    )
}

/// The per-cell rows of match scores of a target against a library,
/// before any penalty is applied.
pub open spec fn initial_rows(
    analysis: Seq<ImageInfo>,
    target: PixelImage,
    cell_size: Dimensions,
    sample_size: u8,
) -> Seq<Seq<int>> {
    Seq::new(
        grid_len((target.width, target.height), cell_size) as nat,
        |k: int|
            library_row(
                analysis,
                cell_colors(
                    target,
                    grid_cell((target.width, target.height), cell_size, k),
                    sample_size,
                ),
            ),
    )
}

/// Score every library tile against one fingerprint.
pub(crate) fn rank_row(analysis: &Vec<ImageInfo>, info: &ImageInfo) -> (r: Vec<i64>)
    requires
        info.wf(),
        forall|t: int|
            0 <= t < analysis@.len() ==> (#[trigger] analysis@[t]).colors@.len()
                == info.colors@.len(),
    ensures
        r@.len() == analysis@.len(),
        weights_view(r@) == library_row(analysis@, info.colors@),
        forall|t: int| 0 <= t < r@.len() ==> #[trigger] r@[t] >= 0,
{
    let n = analysis.len();
    let mut r: Vec<i64> = Vec::new();
    let mut t: usize = 0;
    while t < n
        invariant
            t <= n,
            n == analysis@.len(),
            info.wf(),
            forall|j: int|
                0 <= j < n ==> (#[trigger] analysis@[j]).colors@.len() == info.colors@.len(),
            r@.len() == t,
            forall|j: int|
                0 <= j < t ==> #[trigger] r@[j] == diff_total(analysis@[j].colors@, info.colors@),
            forall|j: int| 0 <= j < t ==> #[trigger] r@[j] >= 0,
        decreases n - t,
    {
        let w = tile_difference_weight(info, &analysis[t]);
        r.push(w);
        t = t + 1;
    }
    proof {
        assert(weights_view(r@) =~= library_row(analysis@, info.colors@));
    }
    r
}

/// Pick the library tile whose fingerprint matches the given rectangle
/// of the target best; the earliest of equally good tiles wins.
pub(crate) fn select_best_tile(
    analysis: &Vec<ImageInfo>,
    options: &AnalysisOptions,
    img: &PixelImage,
    r: &Rectangle,
) -> (t: usize)
    requires
        library_wf(analysis@),
        img.wf(),
        r.x + r.width <= img.width,
        r.y + r.height <= img.height,
        resample_fits(r.width, r.height, options.sample_size as u32, options.sample_size as u32),
        analysis@.len() >= 1,
        fingerprints_match(analysis@, options.sample_size),
    ensures
        t == best_tile(analysis@, cell_colors(*img, *r, options.sample_size)),
        t < analysis@.len(),
{
    let target_info = analyse_cell(img, r, options);
    let row = rank_row(analysis, &target_info);
    lowest_weight_item(&row)
}

/// The strategy used to pick tiles for a given target.
pub trait TilingStrategy {
    /// The conditions under which this strategy is usable.
    spec fn usable(&self) -> bool;

    /// Choose the best set of tiles for this target image.
    fn choose_tiles(&self, target: &PixelImage) -> (r: Result<Vec<TileLocation>, TilerError>)
        requires
            self.usable(),
            target.wf(),
    ;
}

/// Picks, for every cell of the target grid, the library tile whose
/// fingerprint matches the cell best, each cell independently of all
/// others.  Identical cells always pick the same tile, so visible
/// repetition is expected.
pub struct IndependentStrategy<'a> {
    /// The grid resolution both sides were fingerprinted with.
    pub options: &'a AnalysisOptions,
    /// The fingerprints of the library, one per tile, in tile order.
    pub analysis: &'a Vec<ImageInfo>,
    /// The size of one grid cell.
    pub cell_size: Dimensions,
}

impl<'a> IndependentStrategy<'a> {
    /// The strategy is configured with a workable cell size, small
    /// enough for the resampler at its grid resolution, and a well
    /// formed library.
    pub open spec fn wf(&self) -> bool {
        &&& self.cell_size.0 >= 1
        &&& self.cell_size.1 >= 1
        &&& library_wf(self.analysis@)
        &&& resample_fits(
            self.cell_size.0,
            self.cell_size.1,
            self.options.sample_size as u32,
            self.options.sample_size as u32,
        )
    }

    /// Build the strategy.
    pub fn new(
        analysis: &'a Vec<ImageInfo>,
        options: &'a AnalysisOptions,
        cell_size: Dimensions,
    ) -> (r: IndependentStrategy<'a>)
        ensures
            r.analysis == analysis,
            r.options == options,
            r.cell_size == cell_size,
    {
        IndependentStrategy { options, analysis, cell_size }
    }

    /// Choose the best tile for the given rectangle of the target.
    fn select_tile(&self, img: &PixelImage, r: &Rectangle) -> (t: usize)
        requires
            self.wf(),
            img.wf(),
            r.x + r.width <= img.width,
            r.y + r.height <= img.height,
            resample_fits(
                r.width,
                r.height,
                self.options.sample_size as u32,
                self.options.sample_size as u32,
            ),
            self.analysis@.len() >= 1,
            fingerprints_match(self.analysis@, self.options.sample_size),
        ensures
            t == best_tile(self.analysis@, cell_colors(*img, *r, self.options.sample_size)),
            t < self.analysis@.len(),
    {
        select_best_tile(self.analysis, self.options, img, r)
    }

    /// Choose the best set of tiles for this target image, picking the
    /// best tile for each cell independently of all other cells.
    pub fn choose_tiles(&self, target: &PixelImage) -> (r: Result<
        Vec<TileLocation>,
        TilerError,
    >)
        requires
            self.wf(),
            target.wf(),
        ensures
            match r {
                Ok(v) => {
                    let cells = grid_len((target.width, target.height), self.cell_size);
                    &&& (cells >= 1 ==> self.analysis@.len() >= 1 && fingerprints_match(
                        self.analysis@,
                        self.options.sample_size,
                    ))
                    &&& v@.len() == cells
                    &&& forall|i: int|
                        0 <= i < v@.len() ==> (#[trigger] v@[i]).1 == crate::geometry::region_of(
                            grid_cell((target.width, target.height), self.cell_size, i),
                        )
                    &&& forall|i: int|
                        0 <= i < v@.len() ==> (#[trigger] v@[i]).0 as int == best_tile(
                            self.analysis@,
                            cell_colors(
                                *target,
                                grid_cell((target.width, target.height), self.cell_size, i),
                                self.options.sample_size,
                            ),
                        )
                },
                Err(e) => {
                    &&& grid_len((target.width, target.height), self.cell_size) >= 1
                    &&& (e == TilerError::EmptyLibrary <==> self.analysis@.len() == 0)
                    &&& (e == TilerError::FingerprintSizeMismatch <==> self.analysis@.len() >= 1
                        && !fingerprints_match(self.analysis@, self.options.sample_size))
                },
            },
    {
        let dims = (target.width, target.height);
        let rects = grid(dims, &self.cell_size);
        if rects.len() == 0 {
            return Ok(Vec::new());
        }
        if self.analysis.len() == 0 {
            return Err(TilerError::EmptyLibrary);
        }
        match check_fingerprint_sizes(self.analysis, self.options.sample_size) {
            Err(e) => {
                return Err(e);
            },
            Ok(()) => {},
        }
        let n = rects.len();
        let mut out: Vec<TileLocation> = Vec::new();
        let mut i: usize = 0;
        while i < n
            invariant
                i <= n,
                self.wf(),
                target.wf(),
                self.analysis@.len() >= 1,
                fingerprints_match(self.analysis@, self.options.sample_size),
                n == rects@.len(),
                n == grid_len((target.width, target.height), self.cell_size),
                forall|j: int|
                    0 <= j < n ==> #[trigger] rects@[j] == grid_cell(
                        (target.width, target.height),
                        self.cell_size,
                        j,
                    ),
                forall|j: int|
                    0 <= j < n ==> (#[trigger] rects@[j]).x + rects@[j].width <= target.width
                        && rects@[j].y + rects@[j].height <= target.height,
                out@.len() == i,
                forall|j: int|
                    0 <= j < i ==> (#[trigger] out@[j]).1 == crate::geometry::region_of(
                        rects@[j],
                    ),
                forall|j: int|
                    0 <= j < i ==> (#[trigger] out@[j]).0 as int == best_tile(
                        self.analysis@,
                        cell_colors(*target, rects@[j], self.options.sample_size),
                    ),
            decreases n - i,
        {
            let tile = self.select_tile(target, &rects[i]);
            let region = PixelRegion::from(&rects[i]);
            out.push((tile, region));
            i = i + 1;
        }
        Ok(out)
    }
}

/// Confirm that every library fingerprint holds the sample count the
/// configured grid resolution produces.
pub(crate) fn check_fingerprint_sizes(analysis: &Vec<ImageInfo>, sample_size: u8) -> (r: Result<
    (),
    TilerError,
>)
    ensures
        match r {
            Ok(()) => fingerprints_match(analysis@, sample_size),
            Err(e) => {
                &&& e == TilerError::FingerprintSizeMismatch
                &&& !fingerprints_match(analysis@, sample_size)
            },
        },
{
    proof {
        assert((sample_size as int) * (sample_size as int) <= 65025) by (nonlinear_arith)
            requires
                sample_size <= 255,
        ;
    }
    let expected: usize = (sample_size as usize) * (sample_size as usize);
    let n = analysis.len();
    let mut t: usize = 0;
    while t < n
        invariant
            t <= n,
            n == analysis@.len(),
            expected == (sample_size as int) * (sample_size as int),
            forall|j: int|
                0 <= j < t ==> (#[trigger] analysis@[j]).colors@.len() == (sample_size as int) * (
                sample_size as int),
        decreases n - t,
    {
        if analysis[t].colors.len() != expected {
            proof {
                assert(analysis@[t as int].colors@.len() != (sample_size as int) * (
                sample_size as int));
                assert(!fingerprints_match(analysis@, sample_size));
            }
            return Err(TilerError::FingerprintSizeMismatch);
        }
        t = t + 1;
    }
    Ok(())
}

impl<'a> TilingStrategy for IndependentStrategy<'a> {
    open spec fn usable(&self) -> bool {
        self.wf()
    }

    fn choose_tiles(&self, target: &PixelImage) -> (r: Result<Vec<TileLocation>, TilerError>) {
        IndependentStrategy::choose_tiles(self, target)
    }
}

/// Picks tiles like the independent strategy, but walks the cells in
/// order and, each time a tile is chosen, raises that tile's score in
/// every later cell, scaled by the distance between the two cells, so
/// that nearby duplicates become expensive.
pub struct HolisticStrategy<'a> {
    /// The grid resolution both sides were fingerprinted with.
    pub options: &'a AnalysisOptions,
    /// The fingerprints of the library, one per tile, in tile order.
    pub analysis: &'a Vec<ImageInfo>,
    /// The size of one grid cell.
    pub cell_size: Dimensions,
    /// The penalty a chosen tile incurs in the cells after its own.
    pub duplicate_penalty: Penalty,
}

impl<'a> HolisticStrategy<'a> {
    /// The strategy is configured with a workable cell size, small
    /// enough for the resampler at its grid resolution, a well formed
    /// library, and a workable penalty.
    pub open spec fn wf(&self) -> bool {
        &&& self.cell_size.0 >= 1
        &&& self.cell_size.1 >= 1
        &&& library_wf(self.analysis@)
        &&& self.duplicate_penalty.wf()
        &&& resample_fits(
            self.cell_size.0,
            self.cell_size.1,
            self.options.sample_size as u32,
            self.options.sample_size as u32,
        )
    }

    /// Build the strategy.
    pub fn new(
        analysis: &'a Vec<ImageInfo>,
        options: &'a AnalysisOptions,
        cell_size: Dimensions,
        duplicate_penalty: Penalty,
    ) -> (r: HolisticStrategy<'a>)
        ensures
            r.analysis == analysis,
            r.options == options,
            r.cell_size == cell_size,
            r.duplicate_penalty == duplicate_penalty,
    {
        HolisticStrategy { options, analysis, cell_size, duplicate_penalty }
    }

    /// Evaluate all library tiles against a given rectangle of the target.
    fn evaluate_tile(&self, img: &PixelImage, r: &Rectangle) -> (row: Vec<i64>)
        requires
            self.wf(),
            img.wf(),
            r.x + r.width <= img.width,
            r.y + r.height <= img.height,
            resample_fits(
                r.width,
                r.height,
                self.options.sample_size as u32,
                self.options.sample_size as u32,
            ),
            fingerprints_match(self.analysis@, self.options.sample_size),
        ensures
            row@.len() == self.analysis@.len(),
            weights_view(row@) == library_row(
                self.analysis@,
                cell_colors(*img, *r, self.options.sample_size),
            ),
            forall|t: int| 0 <= t < row@.len() ==> #[trigger] row@[t] >= 0,
    {
        let target_info = analyse_cell(img, r, self.options);
        rank_row(self.analysis, &target_info)
    }

    /// Choose the best set of tiles for this target image, discouraging
    /// duplicates near one another.
    pub fn choose_tiles(&self, target: &PixelImage) -> (r: Result<
        Vec<TileLocation>,
        TilerError,
    >)
        requires
            self.wf(),
            target.wf(),
        ensures
            match r {
                Ok(v) => {
                    let dims = (target.width, target.height);
                    let cells = grid_len(dims, self.cell_size);
                    let final_rows = adjusted_prefix(
                        initial_rows(
                            self.analysis@,
                            *target,
                            self.cell_size,
                            self.options.sample_size,
                        ),
                        grid_rects(dims, self.cell_size),
                        self.duplicate_penalty,
                        cells,
                    );
                    &&& (cells >= 1 ==> self.analysis@.len() >= 1 && fingerprints_match(
                        self.analysis@,
                        self.options.sample_size,
                    ))
                    &&& v@.len() == cells
                    &&& forall|i: int|
                        0 <= i < v@.len() ==> (#[trigger] v@[i]).1 == crate::geometry::region_of(
                            grid_cell(dims, self.cell_size, i),
                        )
                    &&& forall|i: int|
                        0 <= i < v@.len() ==> (#[trigger] v@[i]).0 as int == first_min_index(
                            final_rows[i],
                        )
                },
                Err(e) => {
                    &&& grid_len((target.width, target.height), self.cell_size) >= 1
                    &&& (e == TilerError::EmptyLibrary <==> self.analysis@.len() == 0)
                    &&& (e == TilerError::FingerprintSizeMismatch <==> self.analysis@.len() >= 1
                        && !fingerprints_match(self.analysis@, self.options.sample_size))
                },
            },
    {
        let dims = (target.width, target.height);
        let rects = grid(dims, &self.cell_size);
        if rects.len() == 0 {
            return Ok(Vec::new());
        }
        if self.analysis.len() == 0 {
            return Err(TilerError::EmptyLibrary);
        }
        match check_fingerprint_sizes(self.analysis, self.options.sample_size) {
            Err(e) => {
                return Err(e);
            },
            Ok(()) => {},
        }
        let n = rects.len();
        let ghost rows0 = initial_rows(
            self.analysis@,
            *target,
            self.cell_size,
            self.options.sample_size,
        );
        let mut rows: Vec<Vec<i64>> = Vec::new();
        let mut i: usize = 0;
        while i < n
            invariant
                i <= n,
                self.wf(),
                target.wf(),
                self.analysis@.len() >= 1,
                fingerprints_match(self.analysis@, self.options.sample_size),
                n == rects@.len(),
                n == grid_len((target.width, target.height), self.cell_size),
                rows0 == initial_rows(
                    self.analysis@,
                    *target,
                    self.cell_size,
                    self.options.sample_size,
                ),
                forall|j: int|
                    0 <= j < n ==> #[trigger] rects@[j] == grid_cell(
                        (target.width, target.height),
                        self.cell_size,
                        j,
                    ),
                forall|j: int|
                    0 <= j < n ==> (#[trigger] rects@[j]).x + rects@[j].width <= target.width
                        && rects@[j].y + rects@[j].height <= target.height,
                rows@.len() == i,
                forall|j: int| #![auto]
                    0 <= j < i ==> rows@[j]@.len() == self.analysis@.len(),
                forall|j: int| #![auto]
                    0 <= j < i ==> weights_view(rows@[j]@) == rows0[j],
                forall|j: int, t: int| #![auto]
                    0 <= j < i && 0 <= t < rows@[j]@.len() ==> rows@[j]@[t] >= 0,
            decreases n - i,
        {
            let row = self.evaluate_tile(target, &rects[i]);
            rows.push(row);
            i = i + 1;
        }
        proof {
            assert(matrix_view(rows@) =~= rows0);
        }
        adjust_weights(&mut rows, &rects, &self.duplicate_penalty);
        proof {
            assert(rects@ =~= grid_rects(dims, self.cell_size));
            lemma_adjusted_prefix_shape(rows0, rects@, self.duplicate_penalty, n as int);
        }
        let ghost final_rows = adjusted_prefix(
            rows0,
            grid_rects(dims, self.cell_size),
            self.duplicate_penalty,
            n as int,
        );
        proof {
            assert forall|j: int| 0 <= j < n implies (#[trigger] rows@[j])@.len()
                == self.analysis@.len() by {
                assert(matrix_view(rows@)[j] == weights_view(rows@[j]@));
                assert(final_rows[j].len() == rows0[j].len());
            }
        }
        let mut out: Vec<TileLocation> = Vec::new();
        let mut i2: usize = 0;
        while i2 < n
            invariant
                i2 <= n,
                n == rects@.len(),
                rows@.len() == n,
                matrix_view(rows@) == final_rows,
                final_rows.len() == n,
                self.analysis@.len() >= 1,
                forall|j: int| #![auto] 0 <= j < n ==> rows@[j]@.len() == self.analysis@.len(),
                out@.len() == i2,
                forall|j: int|
                    0 <= j < i2 ==> (#[trigger] out@[j]).1 == crate::geometry::region_of(
                        rects@[j],
                    ),
                forall|j: int|
                    0 <= j < i2 ==> (#[trigger] out@[j]).0 as int == first_min_index(
                        final_rows[j],
                    ),
            decreases n - i2,
        {
            proof {
                assert(matrix_view(rows@)[i2 as int] == weights_view(rows@[i2 as int]@));
            }
            let b = lowest_weight_item(&rows[i2]);
            let region = PixelRegion::from(&rects[i2]);
            out.push((b, region));
            i2 = i2 + 1;
        }
        Ok(out)
    }
}

impl<'a> TilingStrategy for HolisticStrategy<'a> {
    open spec fn usable(&self) -> bool {
        self.wf()
    }

    fn choose_tiles(&self, target: &PixelImage) -> (r: Result<Vec<TileLocation>, TilerError>) {
        HolisticStrategy::choose_tiles(self, target)
    }
}


} // verus!

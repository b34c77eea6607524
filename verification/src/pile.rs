//! The random pile strategy: colour-blind placement of tiles at random
//! positions over a canvas.

use vstd::prelude::*;
use vstd::arithmetic::div_mod::lemma_fundamental_div_mod_converse_mod;
use rand::Rng;
use crate::geometry::Dimensions;

verus! {

/// Placements to produce when the caller does not pick a minimum; tiles
/// repeat if fewer are given.
pub const MIN_TILES: usize = 128;

/// A placed pile tile: the index of the tile, and the x and y pixel
/// coordinates of its top-left corner, possibly off the canvas.
pub type PilePlacement = (usize, i64, i64);

#[verifier::external_type_specification]
#[verifier::external_body]
pub struct ExThreadRng(rand::rngs::ThreadRng);

/// Relies on `rand::thread_rng`: a handle to the calling thread's random
/// number generator.
#[verifier::external_body]
fn fresh_rng() -> rand::rngs::ThreadRng {
    rand::thread_rng()
}

/// Relies on `Rng::gen_range` over a half-open `i64` range: it panics on
/// an empty range and otherwise returns a value inside the range.
#[verifier::external_body]
fn gen_range_i64(rng: &mut rand::rngs::ThreadRng, lo: i64, hi: i64) -> (r: i64)
    requires
        lo < hi,
    ensures
        lo <= r < hi,
{
    rng.gen_range(lo..hi)
}

/// Places tiles, known by their sizes alone, in a random pile over a
/// canvas.  No colour analysis is involved.
pub struct RandomPileStrategy {
    /// Width and height of each available tile, in tile order.
    pub tile_sizes: Vec<Dimensions>,
    /// How many placements to produce, when any tiles exist at all.
    pub min_tiles: usize,
}

/// Build a random pile strategy over the given tile sizes, with the
/// default minimum tile count when none is given.
pub fn random_pile_strategy(tile_sizes: Vec<Dimensions>, min_tiles: Option<usize>) -> (r:
    RandomPileStrategy)
    ensures
        r.tile_sizes == tile_sizes,
        r.min_tiles == (match min_tiles {
            Option::Some(m) => m,
            Option::None => MIN_TILES,
        }),
{
    let min_tiles = match min_tiles {
        Option::Some(m) => m,
        Option::None => MIN_TILES,
    };
    RandomPileStrategy { tile_sizes, min_tiles }
}

/// How many placements a pile over the given tiles produces: none for an
/// empty tile list, else the larger of the minimum and the tile count.
pub open spec fn pile_count(tiles: Seq<Dimensions>, min_tiles: usize) -> int {
    if tiles.len() == 0 {
        0
    } else if min_tiles >= tiles.len() {
        min_tiles as int
    } else {
        tiles.len() as int
    }
}

impl RandomPileStrategy {
    /// Choose placements over a canvas of the given size: cycle through
    /// the tile list until enough placements exist, and give each one a
    /// position drawn uniformly from the range that lets the tile spill
    /// partly off the canvas but never lie wholly beyond its top-left
    /// corner's range.  Only a tile and canvas both of size zero on the
    /// same axis, an empty range to draw from, is excluded.
    pub fn choose_tiles(&self, canvas: Dimensions) -> (r: Vec<PilePlacement>)
        requires
            forall|i: int|
                0 <= i < self.tile_sizes@.len() ==> ((#[trigger] self.tile_sizes@[i]).0 > 0
                    || canvas.0 > 0),
            forall|i: int|
                0 <= i < self.tile_sizes@.len() ==> ((#[trigger] self.tile_sizes@[i]).1 > 0
                    || canvas.1 > 0),
        ensures
            r@.len() == pile_count(self.tile_sizes@, self.min_tiles),
            forall|k: int|
                0 <= k < r@.len() ==> (#[trigger] r@[k]).0 == k % (self.tile_sizes@.len() as int),
            forall|k: int|
                0 <= k < r@.len() ==> -(self.tile_sizes@[(#[trigger] r@[k]).0 as int].0 as int)
                    <= r@[k].1 < canvas.0,
            forall|k: int|
                0 <= k < r@.len() ==> -(self.tile_sizes@[(#[trigger] r@[k]).0 as int].1 as int)
                    <= r@[k].2 < canvas.1,
    {
        random_pile(&self.tile_sizes, self.min_tiles, canvas)
    }
}

/// Place tiles in a random pile over a canvas of the given size.  With no
/// tiles there are no placements; otherwise the tile list is cycled in
/// order until `min_tiles` placements exist, or one per tile if that is
/// more.  Each placement's position is random within the range that keeps
/// its top-left corner between one tile size before the origin and the
/// far canvas edge; only a tile and canvas both of size zero on the same
/// axis, an empty range to draw from, is excluded.
pub fn random_pile(tiles: &Vec<Dimensions>, min_tiles: usize, size: Dimensions) -> (r: Vec<
    PilePlacement,
>)
    requires
        forall|i: int|
            0 <= i < tiles@.len() ==> ((#[trigger] tiles@[i]).0 > 0 || size.0 > 0),
        forall|i: int|
            0 <= i < tiles@.len() ==> ((#[trigger] tiles@[i]).1 > 0 || size.1 > 0),
    ensures
        r@.len() == pile_count(tiles@, min_tiles),
        forall|k: int| 0 <= k < r@.len() ==> (#[trigger] r@[k]).0 == k % (tiles@.len() as int),
        forall|k: int|
            0 <= k < r@.len() ==> -(tiles@[(#[trigger] r@[k]).0 as int].0 as int) <= r@[k].1
                < size.0,
        forall|k: int|
            0 <= k < r@.len() ==> -(tiles@[(#[trigger] r@[k]).0 as int].1 as int) <= r@[k].2
                < size.1,
{
    if tiles.len() == 0 {
        return Vec::new();
    }
    let tiles_to_place = if min_tiles >= tiles.len() {
        min_tiles
    } else {
        tiles.len()
    };
    let mut rng = fresh_rng();
    let mut out: Vec<PilePlacement> = Vec::new();
    let mut k: usize = 0;
    let mut idx: usize = 0;
    let ghost mut q: int = 0;
    while k < tiles_to_place
        invariant
            tiles@.len() >= 1,
            forall|i: int|
                0 <= i < tiles@.len() ==> ((#[trigger] tiles@[i]).0 > 0 || size.0 > 0),
            forall|i: int|
                0 <= i < tiles@.len() ==> ((#[trigger] tiles@[i]).1 > 0 || size.1 > 0),
            k <= tiles_to_place,
            idx < tiles@.len(),
            k as int == q * (tiles@.len() as int) + idx,
            q >= 0,
            out@.len() == k,
            forall|j: int|
                0 <= j < k ==> (#[trigger] out@[j]).0 == j % (tiles@.len() as int),
            forall|j: int|
                0 <= j < k ==> -(tiles@[(#[trigger] out@[j]).0 as int].0 as int) <= out@[j].1
                    < size.0,
            forall|j: int|
                0 <= j < k ==> -(tiles@[(#[trigger] out@[j]).0 as int].1 as int) <= out@[j].2
                    < size.1,
        decreases tiles_to_place - k,
    {
        let (w, h) = tiles[idx];
        let x = gen_range_i64(&mut rng, -(w as i64), size.0 as i64);
        let y = gen_range_i64(&mut rng, -(h as i64), size.1 as i64);
        proof {
            lemma_fundamental_div_mod_converse_mod(k as int, tiles@.len() as int, q, idx as int);
        }
        out.push((idx, x, y));
        k = k + 1;
        idx = idx + 1;
        if idx == tiles.len() {
            idx = 0;
            proof {
                q = q + 1;
                assert(q * (tiles@.len() as int) == (q - 1) * (tiles@.len() as int)
                    + tiles@.len()) by (nonlinear_arith);
            }
        }
    }
    out
}

} // verus!

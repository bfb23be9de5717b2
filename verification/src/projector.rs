//! The coordinate projector: from a position inside a tile to the corner it
//! is nearest to and the weights with which the tiles round that corner blend.

use crate::fixed::{lemma_quotient_bound, Fixed, SCALE};
use vstd::arithmetic::div_mod::{
    lemma_div_is_ordered, lemma_div_multiples_vanish, lemma_fundamental_div_mod_converse,
};
use vstd::prelude::*;

verus! {

/// The position of pixel `offset` within a tile of `extent` pixels, as a
/// fraction of the tile.
pub open spec fn tile_progress_spec(offset: int, extent: int) -> int {
    offset * SCALE / extent
}

/// The projection of one axis: the signed blend coordinate and the side of
/// the tile, -1 for the low edge and +1 for the high edge. `threshold` is the
/// width of the blend band, of which one half lies on each side of an edge.
///
/// Within half a threshold of the low edge the coordinate rises from 0 at the
/// edge to 1 at the inner end of the band; within half a threshold of the
/// high edge it rises from -1 at the inner end of the band to 0 at the edge.
/// Between the bands nothing blends: the coordinate is 1 on the low half of
/// the tile and -1 on the high half.
pub open spec fn project_axis(x: int, threshold: int) -> (int, int) {
    if 2 * x < threshold {
        (2 * x * SCALE / threshold, -1)
    } else if 2 * x > 2 * SCALE - threshold {
        (-(2 * (SCALE - x) * SCALE / threshold), 1)
    } else if 2 * x < SCALE {
        (SCALE as int, -1)
    } else {
        (-SCALE as int, 1)
    }
}

/// A signed blend coordinate between -1 and 1, rescaled to a weight between
/// 0 and 1: the share of the high one of two neighbouring tiles.
pub open spec fn blend_weight_spec(w: int) -> int {
    (w + SCALE) / 2
}

/// The share of the high tile of an axis in the blend.
pub open spec fn high_weight(x: int, threshold: int) -> int {
    blend_weight_spec(project_axis(x, threshold).0)
}

/// The share of the low tile of an axis in the blend.
pub open spec fn low_weight(x: int, threshold: int) -> int {
    SCALE - high_weight(x, threshold)
}

/// The projected coordinate lies between -1 and 1, and the side is -1 or 1.
pub proof fn lemma_project_axis_range(x: int, threshold: int)
    requires
        0 <= x <= SCALE,
        0 <= threshold <= SCALE,
    ensures
        -SCALE <= project_axis(x, threshold).0 <= SCALE,
        project_axis(x, threshold).1 == -1 || project_axis(x, threshold).1 == 1,
{
    let s = SCALE as int;
    if 2 * x < threshold {
        lemma_quotient_bound(2 * x * s, threshold, s);
        lemma_div_is_ordered(0, 2 * x * s, threshold);
    } else if 2 * x > 2 * s - threshold {
        lemma_quotient_bound(2 * (s - x) * s, threshold, s);
        lemma_div_is_ordered(0, 2 * (s - x) * s, threshold);
    }
}

/// The two tiles of an axis share the blend between them: neither weight is
/// negative, and together they are one.
pub proof fn lemma_axis_weights_sum_to_one(x: int, threshold: int)
    requires
        0 <= x <= SCALE,
        0 <= threshold <= SCALE,
    ensures
        0 <= low_weight(x, threshold) <= SCALE,
        0 <= high_weight(x, threshold) <= SCALE,
        low_weight(x, threshold) + high_weight(x, threshold) == SCALE,
{
    lemma_project_axis_range(x, threshold);
}

/// A position lies between the blend bands of its axis, where nothing
/// blends.
pub open spec fn is_interior(x: int, threshold: int) -> bool {
    threshold <= 2 * x <= 2 * SCALE - threshold
}

/// Between the blend bands a position projects to the full weight of its own
/// half of the tile: on the low half the side is low and the whole weight
/// lies on the high tile of the pair, which is the tile itself; on the high
/// half the side is high and the whole weight lies on the low tile of the
/// pair, again the tile itself.
pub proof fn lemma_interior_projects_to_ends(x: int, threshold: int)
    requires
        is_interior(x, threshold),
    ensures
        2 * x < SCALE ==> project_axis(x, threshold) == (SCALE as int, -1int) && high_weight(
            x,
            threshold,
        ) == SCALE,
        2 * x >= SCALE ==> project_axis(x, threshold) == (-SCALE as int, 1int) && high_weight(
            x,
            threshold,
        ) == 0,
{
}

/// Without a blend band every position of the tile lies between the bands.
pub proof fn lemma_zero_threshold_is_interior(x: int)
    requires
        0 <= x <= SCALE,
    ensures
        is_interior(x, 0),
{
}

/// With a blend band as wide as the tile every position but the midline
/// lies in a band: the coordinate is twice the distance from the nearer
/// edge, counted negative toward the high edge.
pub proof fn lemma_full_threshold_blends_everywhere(x: int)
    requires
        0 <= x <= SCALE,
        2 * x != SCALE,
    ensures
        project_axis(x, SCALE as int) == if 2 * x < SCALE {
            (2 * x, -1int)
        } else {
            (-(2 * (SCALE - x)), 1int)
        },
{
    let s = SCALE as int;
    if 2 * x < s {
        assert(2 * x * s / s == 2 * x) by {
            lemma_div_multiples_vanish(2 * x, s);
            assert(2 * x * s == s * (2 * x)) by (nonlinear_arith);
        }
    } else {
        assert(2 * (s - x) * s / s == 2 * (s - x)) by {
            lemma_div_multiples_vanish(2 * (s - x), s);
            assert(2 * (s - x) * s == s * (2 * (s - x))) by (nonlinear_arith);
        }
    }
}

/// The position of a pixel of a tile, as a fraction of the tile, is at least
/// zero and less than one.
pub proof fn lemma_tile_progress_range(offset: int, extent: int)
    requires
        0 <= offset < extent,
    ensures
        0 <= tile_progress_spec(offset, extent) < SCALE,
{
    let s = SCALE as int;
    assert(0 <= offset * s <= (s - 1) * extent + (extent - 1)) by (nonlinear_arith)
        requires
            0 <= offset < extent,
            s > 0,
    ;
    lemma_div_is_ordered(0, offset * s, extent);
    lemma_div_is_ordered(offset * s, (s - 1) * extent + (extent - 1), extent);
    lemma_fundamental_div_mod_converse(
        (s - 1) * extent + (extent - 1),
        extent,
        s - 1,
        extent - 1,
    );
}

/// The position of pixel `offset` within a tile of `extent` pixels, as a
/// fraction of the tile between zero and one.
pub fn tile_progress(offset: usize, extent: usize) -> (x: Fixed)
    requires
        offset < extent,
    ensures
        x == tile_progress_spec(offset as int, extent as int),
        0 <= x < SCALE,
{
    proof {
        lemma_tile_progress_range(offset as int, extent as int);
        assert(0 <= offset * SCALE <= usize::MAX * 1_000_000) by (nonlinear_arith)
            requires
                0 <= offset <= usize::MAX,
                SCALE == 1_000_000,
        ;
    }
    ((offset as u128) * (SCALE as u128) / (extent as u128)) as Fixed
}

fn project_one(x: Fixed, threshold: Fixed) -> (r: (Fixed, i8))
    requires
        0 <= x <= SCALE,
        0 <= threshold <= SCALE,
    ensures
        r.0 == project_axis(x as int, threshold as int).0,
        r.1 == project_axis(x as int, threshold as int).1,
        -SCALE <= r.0 <= SCALE,
        r.1 == -1 || r.1 == 1,
{
    proof {
        lemma_project_axis_range(x as int, threshold as int);
    }
    let x2: i64 = 2 * (x as i64);
    let t: i64 = threshold as i64;
    let s: i64 = SCALE as i64;
    if x2 < t {
        ((x2 * s / t) as Fixed, -1)
    } else if x2 > 2 * s - t {
        let from_edge: i64 = 2 * (s - x as i64);
        (-((from_edge * s / t) as Fixed), 1)
    } else if x2 < s {
        (SCALE, -1)
    } else {
        (-SCALE, 1)
    }
}

/// Projects a position inside a tile, each coordinate a fraction of the tile
/// between zero and one, to the corner of the tile it is nearest to.
///
/// Returns `(weight_x, weight_y, side_x, side_y)`: per axis the side of the
/// tile, -1 for low and +1 for high, and a signed blend coordinate between
/// -1 and 1, as [`project_axis`] defines them. `threshold`, between zero and
/// one, is the width of the blend band as a fraction of the tile.
pub fn project_box_coord(x: Fixed, y: Fixed, threshold: Fixed) -> (r: (Fixed, Fixed, i8, i8))
    requires
        0 <= x <= SCALE,
        0 <= y <= SCALE,
        0 <= threshold <= SCALE,
    ensures
        r.0 == project_axis(x as int, threshold as int).0,
        r.1 == project_axis(y as int, threshold as int).0,
        r.2 == project_axis(x as int, threshold as int).1,
        r.3 == project_axis(y as int, threshold as int).1,
        -SCALE <= r.0 <= SCALE,
        -SCALE <= r.1 <= SCALE,
        r.2 == -1 || r.2 == 1,
        r.3 == -1 || r.3 == 1,
{
    let (weight_x, side_x) = project_one(x, threshold);
    let (weight_y, side_y) = project_one(y, threshold);
    (weight_x, weight_y, side_x, side_y)
}

/// Rescales a signed blend coordinate between -1 and 1 to a weight between
/// zero and one: `(w + 1) / 2`.
pub fn blend_weight(w: Fixed) -> (r: Fixed)
    requires
        -SCALE <= w <= SCALE,
    ensures
        r == blend_weight_spec(w as int),
        0 <= r <= SCALE,
{
    (w + SCALE) / 2
}

} // verus!

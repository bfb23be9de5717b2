//! The four-way blend of the tiles that meet at a corner, with its contrast
//! correction.
//!
//! The samples of the four tiles are blended bilinearly: first along the
//! columns within the top pair and within the bottom pair, then along the
//! rows between the two results. The contrast corrector runs after each of
//! the two stages, on the sum of the squared weights of that stage.

use crate::color::{
    apply_contrast_correction, apply_contrast_spec, color_of_bytes, contrast_channel,
    contrast_correct_spec, lemma_contrast_channel_bound, lemma_mix_channel_bound,
    lemma_mix_channel_convex, lemma_mix_channel_ends, lemma_mix_channel_same,
    lemma_zero_factor_is_identity, mix, mix_spec, Color, Rgb,
};
use crate::fixed::{
    fixed_sqrt_spec, lemma_fixed_sqrt_at_least, lemma_fixed_sqrt_of_one, Fixed, SCALE,
};
use vstd::arithmetic::div_mod::{lemma_div_is_ordered, lemma_div_multiples_vanish};
use vstd::prelude::*;

verus! {

/// The colours of the four tiles round a corner: the mathematical value of
/// [`Corners`].
pub struct CornerColors {
    /// The colour of the tile above and left of the corner.
    pub top_left: Color,
    /// The colour of the tile above and right of the corner.
    pub top_right: Color,
    /// The colour of the tile below and left of the corner.
    pub bottom_left: Color,
    /// The colour of the tile below and right of the corner.
    pub bottom_right: Color,
}

impl CornerColors {
    /// Each of the four colours lies between `low` and `high`.
    pub open spec fn between(self, low: Color, high: Color) -> bool {
        &&& self.top_left.between(low, high)
        &&& self.top_right.between(low, high)
        &&& self.bottom_left.between(low, high)
        &&& self.bottom_right.between(low, high)
    }

    /// Each of the four colours is one of an 8-bit image.
    pub open spec fn in_byte_range(self) -> bool {
        self.between(color_of_bytes(0, 0, 0), color_of_bytes(255, 255, 255))
    }
}

/// One colour for each of the four tiles round a corner.
#[derive(Clone, Copy, Debug, PartialEq, Eq, Structural)]
pub struct Corners {
    /// The colour of the tile above and left of the corner.
    pub top_left: Rgb,
    /// The colour of the tile above and right of the corner.
    pub top_right: Rgb,
    /// The colour of the tile below and left of the corner.
    pub bottom_left: Rgb,
    /// The colour of the tile below and right of the corner.
    pub bottom_right: Rgb,
}

impl View for Corners {
    type V = CornerColors;

    open spec fn view(&self) -> CornerColors {
        CornerColors {
            top_left: self.top_left@,
            top_right: self.top_right@,
            bottom_left: self.bottom_left@,
            bottom_right: self.bottom_right@,
        }
    }
}

/// The sum of the squared weights of a blend of two: `w * w + (1 - w) * (1 - w)`.
pub open spec fn axis_opacity_squared_spec(w: int) -> int {
    (w * w + (SCALE - w) * (SCALE - w)) / (SCALE as int)
}

/// The product of two fixed-point numbers.
pub open spec fn weight_product(a: int, b: int) -> int {
    a * b / (SCALE as int)
}

/// The sum of the squared weights of a blend of four: each corner's weight is
/// the product of its weights on the two axes.
pub open spec fn corner_opacity_squared_spec(wx: int, wy: int) -> int {
    let top_left = weight_product(SCALE - wx, SCALE - wy);
    let top_right = weight_product(wx, SCALE - wy);
    let bottom_left = weight_product(SCALE - wx, wy);
    let bottom_right = weight_product(wx, wy);
    (top_left * top_left + top_right * top_right + bottom_left * bottom_left + bottom_right
        * bottom_right) / (SCALE as int)
}

/// The blend of the four samples round a corner. `wx` is the share of the
/// right-hand tiles and `wy` the share of the bottom tiles; `averages` holds
/// the mean colours of the four tiles' textures, which are blended with the
/// same weights to give the average that the contrast corrector needs.
pub open spec fn blend_corners_spec(
    samples: CornerColors,
    averages: CornerColors,
    wx: int,
    wy: int,
    factor: int,
) -> Color {
    let across = axis_opacity_squared_spec(wx);
    let top_avg = mix_spec(averages.top_left, averages.top_right, wx);
    let top = apply_contrast_spec(
        mix_spec(samples.top_left, samples.top_right, wx),
        top_avg,
        across,
        factor,
    );
    let bottom_avg = mix_spec(averages.bottom_left, averages.bottom_right, wx);
    let bottom = apply_contrast_spec(
        mix_spec(samples.bottom_left, samples.bottom_right, wx),
        bottom_avg,
        across,
        factor,
    );
    apply_contrast_spec(
        mix_spec(top, bottom, wy),
        mix_spec(top_avg, bottom_avg, wy),
        corner_opacity_squared_spec(wx, wy),
        factor,
    )
}

/// The tile that a pair of weights at the ends of their range selects.
pub open spec fn selected_corner(corners: CornerColors, wx: int, wy: int) -> Color {
    if wy == 0 {
        if wx == 0 {
            corners.top_left
        } else {
            corners.top_right
        }
    } else {
        if wx == 0 {
            corners.bottom_left
        } else {
            corners.bottom_right
        }
    }
}

/// A blend with a weight between zero and one lies between its inputs.
pub proof fn lemma_mix_convex(a: Color, b: Color, t: int, low: Color, high: Color)
    requires
        0 <= t <= SCALE,
        a.between(low, high),
        b.between(low, high),
    ensures
        mix_spec(a, b, t).between(low, high),
{
    lemma_mix_channel_convex(a.r, b.r, t, low.r, high.r);
    lemma_mix_channel_convex(a.g, b.g, t, low.g, high.g);
    lemma_mix_channel_convex(a.b, b.b, t, low.b, high.b);
}

/// The magnitude of a blend, for any weight a `Fixed` can hold.
pub proof fn lemma_mix_bound(a: Color, b: Color, t: int, la: int, lb: int)
    requires
        a.within(la),
        b.within(lb),
        -0x8000_0000 <= t <= 0x7fff_ffff,
    ensures
        mix_spec(a, b, t).within(la * 2149 + lb * 2148),
{
    lemma_mix_channel_bound(a.r, b.r, t, la, lb);
    lemma_mix_channel_bound(a.g, b.g, t, la, lb);
    lemma_mix_channel_bound(a.b, b.b, t, la, lb);
}

/// The magnitude of a corrected colour where the square root of the summed
/// squared weights is at least `1 / amp`.
pub proof fn lemma_contrast_bound(sample: Color, avg: Color, q: int, ls: int, la: int, amp: int)
    requires
        sample.within(ls),
        avg.within(la),
        amp > 0,
        q > 0,
        fixed_sqrt_spec(q) * amp >= SCALE,
    ensures
        contrast_correct_spec(sample, avg, q).within(la + (ls + la) * amp),
{
    let root = fixed_sqrt_spec(q);
    assert(root > 0) by (nonlinear_arith)
        requires
            root >= 0,
            amp > 0,
            root * amp >= 1_000_000,
    ;
    lemma_contrast_channel_bound(sample.r, avg.r, root, ls, la, amp);
    lemma_contrast_channel_bound(sample.g, avg.g, root, ls, la, amp);
    lemma_contrast_channel_bound(sample.b, avg.b, root, ls, la, amp);
}

/// The summed squared weights of a blend of two lie between a quarter and
/// one.
pub proof fn lemma_axis_opacity_range(w: int)
    requires
        0 <= w <= SCALE,
    ensures
        250_000 <= axis_opacity_squared_spec(w) <= SCALE,
{
    let s = SCALE as int;
    let num = w * w + (s - w) * (s - w);
    assert(250_000 * s <= num <= s * s) by (nonlinear_arith)
        requires
            0 <= w <= s,
            s == 1_000_000,
            num == w * w + (s - w) * (s - w),
    ;
    lemma_div_is_ordered(250_000 * s, num, s);
    lemma_div_is_ordered(num, s * s, s);
    lemma_div_multiples_vanish(250_000, s);
    lemma_div_multiples_vanish(s, s);
}

/// A product of two weights between zero and one lies between zero and one.
pub proof fn lemma_weight_product_range(a: int, b: int)
    requires
        0 <= a <= SCALE,
        0 <= b <= SCALE,
    ensures
        0 <= weight_product(a, b) <= SCALE,
        2 * a >= SCALE && 2 * b >= SCALE ==> weight_product(a, b) >= 250_000,
{
    let s = SCALE as int;
    assert(0 <= a * b <= s * s) by (nonlinear_arith)
        requires
            0 <= a <= s,
            0 <= b <= s,
    ;
    lemma_div_is_ordered(0, a * b, s);
    lemma_div_is_ordered(a * b, s * s, s);
    lemma_div_multiples_vanish(s, s);
    if 2 * a >= s && 2 * b >= s {
        assert(a * b >= 250_000 * s) by (nonlinear_arith)
            requires
                2 * a >= s,
                2 * b >= s,
                s == 1_000_000,
        ;
        lemma_div_is_ordered(250_000 * s, a * b, s);
        lemma_div_multiples_vanish(250_000, s);
    }
}

/// The summed squared weights of a blend of four lie between a sixteenth and
/// four.
pub proof fn lemma_corner_opacity_range(wx: int, wy: int)
    requires
        0 <= wx <= SCALE,
        0 <= wy <= SCALE,
    ensures
        62_500 <= corner_opacity_squared_spec(wx, wy) <= 4 * SCALE,
{
    let s = SCALE as int;
    let tl = weight_product(s - wx, s - wy);
    let tr = weight_product(wx, s - wy);
    let bl = weight_product(s - wx, wy);
    let br = weight_product(wx, wy);
    lemma_weight_product_range(s - wx, s - wy);
    lemma_weight_product_range(wx, s - wy);
    lemma_weight_product_range(s - wx, wy);
    lemma_weight_product_range(wx, wy);
    let num = tl * tl + tr * tr + bl * bl + br * br;
    assert(0 <= tl * tl <= s * s && 0 <= tr * tr <= s * s && 0 <= bl * bl <= s * s && 0 <= br * br
        <= s * s) by (nonlinear_arith)
        requires
            0 <= tl <= s,
            0 <= tr <= s,
            0 <= bl <= s,
            0 <= br <= s,
    ;
    assert(num >= 62_500 * s) by (nonlinear_arith)
        requires
            num == tl * tl + tr * tr + bl * bl + br * br,
            tl >= 250_000 || tr >= 250_000 || bl >= 250_000 || br >= 250_000,
            s == 1_000_000,
    ;
    lemma_div_is_ordered(62_500 * s, num, s);
    lemma_div_is_ordered(num, 4 * s * s, s);
    lemma_div_multiples_vanish(62_500, s);
    lemma_div_multiples_vanish(4 * s, s);
    assert(4 * s * s == s * (4 * s)) by (nonlinear_arith);
}

/// With weights at the ends of their range the summed squared weights are
/// one: a single tile has all the weight.
pub proof fn lemma_opacity_at_ends(wx: int, wy: int)
    requires
        wx == 0 || wx == SCALE,
        wy == 0 || wy == SCALE,
    ensures
        axis_opacity_squared_spec(wx) == SCALE,
        corner_opacity_squared_spec(wx, wy) == SCALE,
{
    let s = SCALE as int;
    assert(weight_product(0, 0) == 0);
    assert(weight_product(0, s) == 0);
    assert(weight_product(s, 0) == 0);
    assert(weight_product(s, s) == s);
}

/// Where the summed squared weights are one the contrast corrector changes
/// nothing, whatever the correction factor.
pub proof fn lemma_contrast_of_one_is_identity(sample: Color, avg: Color, factor: int)
    ensures
        apply_contrast_spec(sample, avg, SCALE as int, factor) == sample,
{
    lemma_fixed_sqrt_of_one();
    let s = SCALE as int;
    assert(contrast_channel(sample.r, avg.r, s) == sample.r);
    assert(contrast_channel(sample.g, avg.g, s) == sample.g);
    assert(contrast_channel(sample.b, avg.b, s) == sample.b);
    assert(contrast_correct_spec(sample, avg, s) == sample);
    lemma_mix_channel_same(sample.r, factor);
    lemma_mix_channel_same(sample.g, factor);
    lemma_mix_channel_same(sample.b, factor);
}

/// With weights at the ends of their range nothing is blended: the result is
/// the sample of the one tile that the weights select, whatever the averages
/// and the correction factor.
pub proof fn lemma_blend_at_ends_selects(
    samples: CornerColors,
    averages: CornerColors,
    wx: int,
    wy: int,
    factor: int,
)
    requires
        wx == 0 || wx == SCALE,
        wy == 0 || wy == SCALE,
    ensures
        blend_corners_spec(samples, averages, wx, wy, factor) == selected_corner(samples, wx, wy),
{
    lemma_opacity_at_ends(wx, wy);
    let top_raw = mix_spec(samples.top_left, samples.top_right, wx);
    let bottom_raw = mix_spec(samples.bottom_left, samples.bottom_right, wx);
    let top_avg = mix_spec(averages.top_left, averages.top_right, wx);
    let bottom_avg = mix_spec(averages.bottom_left, averages.bottom_right, wx);
    lemma_contrast_of_one_is_identity(top_raw, top_avg, factor);
    lemma_contrast_of_one_is_identity(bottom_raw, bottom_avg, factor);
    lemma_contrast_of_one_is_identity(
        mix_spec(top_raw, bottom_raw, wy),
        mix_spec(top_avg, bottom_avg, wy),
        factor,
    );
    lemma_mix_channel_ends(samples.top_left.r, samples.top_right.r);
    lemma_mix_channel_ends(samples.top_left.g, samples.top_right.g);
    lemma_mix_channel_ends(samples.top_left.b, samples.top_right.b);
    lemma_mix_channel_ends(samples.bottom_left.r, samples.bottom_right.r);
    lemma_mix_channel_ends(samples.bottom_left.g, samples.bottom_right.g);
    lemma_mix_channel_ends(samples.bottom_left.b, samples.bottom_right.b);
    lemma_mix_channel_ends(top_raw.r, bottom_raw.r);
    lemma_mix_channel_ends(top_raw.g, bottom_raw.g);
    lemma_mix_channel_ends(top_raw.b, bottom_raw.b);
}

/// Without contrast correction the blend is a convex combination of the four
/// samples: each channel of the result lies between the least and the
/// greatest value that the channel has among them.
pub proof fn lemma_uncorrected_blend_is_convex(
    samples: CornerColors,
    averages: CornerColors,
    wx: int,
    wy: int,
    low: Color,
    high: Color,
)
    requires
        0 <= wx <= SCALE,
        0 <= wy <= SCALE,
        samples.between(low, high),
    ensures
        blend_corners_spec(samples, averages, wx, wy, 0).between(low, high),
{
    let across = axis_opacity_squared_spec(wx);
    let top_raw = mix_spec(samples.top_left, samples.top_right, wx);
    let bottom_raw = mix_spec(samples.bottom_left, samples.bottom_right, wx);
    let top_avg = mix_spec(averages.top_left, averages.top_right, wx);
    let bottom_avg = mix_spec(averages.bottom_left, averages.bottom_right, wx);
    lemma_mix_convex(samples.top_left, samples.top_right, wx, low, high);
    lemma_mix_convex(samples.bottom_left, samples.bottom_right, wx, low, high);
    lemma_zero_factor_is_identity(top_raw, top_avg, across);
    lemma_zero_factor_is_identity(bottom_raw, bottom_avg, across);
    lemma_mix_convex(top_raw, bottom_raw, wy, low, high);
    lemma_zero_factor_is_identity(
        mix_spec(top_raw, bottom_raw, wy),
        mix_spec(top_avg, bottom_avg, wy),
        corner_opacity_squared_spec(wx, wy),
    );
}

/// The sum of the squared weights of a blend of two with weight `w`.
pub fn axis_opacity_squared(w: Fixed) -> (q: Fixed)
    requires
        0 <= w <= SCALE,
    ensures
        q == axis_opacity_squared_spec(w as int),
        250_000 <= q <= SCALE,
{
    proof {
        lemma_axis_opacity_range(w as int);
        assert(0 <= w * w <= 1_000_000_000_000 && 0 <= (SCALE - w) * (SCALE - w)
            <= 1_000_000_000_000) by (nonlinear_arith)
            requires
                0 <= w <= SCALE,
                SCALE == 1_000_000,
        ;
    }
    let a: i64 = w as i64;
    let b: i64 = (SCALE - w) as i64;
    ((a * a + b * b) / (SCALE as i64)) as Fixed
}

fn multiply_weights(a: Fixed, b: Fixed) -> (p: i64)
    requires
        0 <= a <= SCALE,
        0 <= b <= SCALE,
    ensures
        p == weight_product(a as int, b as int),
        0 <= p <= SCALE,
{
    proof {
        lemma_weight_product_range(a as int, b as int);
        assert(0 <= a * b <= 1_000_000_000_000) by (nonlinear_arith)
            requires
                0 <= a <= SCALE,
                0 <= b <= SCALE,
                SCALE == 1_000_000,
        ;
    }
    (a as i64) * (b as i64) / (SCALE as i64)
}

/// The sum of the squared weights of a blend of four, with weight `wx`
/// across and `wy` down.
pub fn corner_opacity_squared(wx: Fixed, wy: Fixed) -> (q: Fixed)
    requires
        0 <= wx <= SCALE,
        0 <= wy <= SCALE,
    ensures
        q == corner_opacity_squared_spec(wx as int, wy as int),
        62_500 <= q <= 4 * SCALE,
{
    let top_left = multiply_weights(SCALE - wx, SCALE - wy);
    let top_right = multiply_weights(wx, SCALE - wy);
    let bottom_left = multiply_weights(SCALE - wx, wy);
    let bottom_right = multiply_weights(wx, wy);
    proof {
        lemma_corner_opacity_range(wx as int, wy as int);
        let s = SCALE as int;
        assert(0 <= top_left * top_left <= s * s && 0 <= top_right * top_right <= s * s && 0
            <= bottom_left * bottom_left <= s * s && 0 <= bottom_right * bottom_right <= s * s)
            by (nonlinear_arith)
            requires
                0 <= top_left <= s,
                0 <= top_right <= s,
                0 <= bottom_left <= s,
                0 <= bottom_right <= s,
        ;
        assert(s * s == 1_000_000_000_000) by (nonlinear_arith)
            requires
                s == 1_000_000,
        ;
    }
    ((top_left * top_left + top_right * top_right + bottom_left * bottom_left + bottom_right
        * bottom_right) / (SCALE as i64)) as Fixed
}

/// Blends the samples of the four tiles round a corner.
///
/// `weight_x` is the share of the right-hand tiles and `weight_y` the share
/// of the bottom tiles, each between zero and one. The top pair and the
/// bottom pair are blended across, then the two results are blended down;
/// after each stage the contrast corrector is applied with `factor`, on the
/// same blend of the tiles' average colours.
pub fn blend_corners(
    samples: Corners,
    averages: Corners,
    weight_x: Fixed,
    weight_y: Fixed,
    factor: Fixed,
) -> (c: Rgb)
    requires
        samples@.in_byte_range(),
        averages@.in_byte_range(),
        0 <= weight_x <= SCALE,
        0 <= weight_y <= SCALE,
    ensures
        c@ == blend_corners_spec(
            samples@,
            averages@,
            weight_x as int,
            weight_y as int,
            factor as int,
        ),
{
    let ghost black = color_of_bytes(0, 0, 0);
    let ghost white = color_of_bytes(255, 255, 255);
    let ghost stage_limit = 3_286_695_000_000int;
    let ghost stage_low = Color { r: -stage_limit, g: -stage_limit, b: -stage_limit };
    let ghost stage_high = Color { r: stage_limit, g: stage_limit, b: stage_limit };
    let across = axis_opacity_squared(weight_x);
    proof {
        lemma_fixed_sqrt_at_least(across as int, 500_000);
    }
    let top_avg = mix(averages.top_left, averages.top_right, weight_x);
    let top_raw = mix(samples.top_left, samples.top_right, weight_x);
    proof {
        lemma_mix_convex(averages@.top_left, averages@.top_right, weight_x as int, black, white);
        lemma_mix_convex(samples@.top_left, samples@.top_right, weight_x as int, black, white);
        lemma_contrast_bound(top_raw@, top_avg@, across as int, 255_000_000, 255_000_000, 2);
        lemma_mix_bound(
            top_raw@,
            contrast_correct_spec(top_raw@, top_avg@, across as int),
            factor as int,
            255_000_000,
            1_275_000_000,
        );
    }
    let top = apply_contrast_correction(top_raw, top_avg, across, factor);
    let bottom_avg = mix(averages.bottom_left, averages.bottom_right, weight_x);
    let bottom_raw = mix(samples.bottom_left, samples.bottom_right, weight_x);
    proof {
        lemma_mix_convex(
            averages@.bottom_left,
            averages@.bottom_right,
            weight_x as int,
            black,
            white,
        );
        lemma_mix_convex(
            samples@.bottom_left,
            samples@.bottom_right,
            weight_x as int,
            black,
            white,
        );
        lemma_contrast_bound(
            bottom_raw@,
            bottom_avg@,
            across as int,
            255_000_000,
            255_000_000,
            2,
        );
        lemma_mix_bound(
            bottom_raw@,
            contrast_correct_spec(bottom_raw@, bottom_avg@, across as int),
            factor as int,
            255_000_000,
            1_275_000_000,
        );
    }
    let bottom = apply_contrast_correction(bottom_raw, bottom_avg, across, factor);
    let around = corner_opacity_squared(weight_x, weight_y);
    let avg = mix(top_avg, bottom_avg, weight_y);
    let raw = mix(top, bottom, weight_y);
    proof {
        lemma_fixed_sqrt_at_least(around as int, 250_000);
        lemma_mix_convex(top_avg@, bottom_avg@, weight_y as int, black, white);
        lemma_mix_convex(top@, bottom@, weight_y as int, stage_low, stage_high);
        lemma_contrast_bound(raw@, avg@, around as int, stage_limit, 255_000_000, 4);
    }
    apply_contrast_correction(raw, avg, around, factor)
}

} // verus!

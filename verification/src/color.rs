//! Colours with fixed-point channels, and the arithmetic that blends them.

use crate::fixed::{
    div_floor, fixed_sqrt, fixed_sqrt_spec, lemma_product_bound, lemma_quotient_bound, Fixed, SCALE,
};
use vstd::arithmetic::div_mod::{lemma_div_is_ordered, lemma_div_multiples_vanish};
use vstd::prelude::*;

verus! {

/// The largest magnitude of a channel that the blending operations accept.
pub const CHANNEL_LIMIT: i64 = 0x4_0000_0000_0000;

/// A colour whose channels are unbounded fixed-point numbers: the
/// mathematical value of an [`Rgb`].
pub struct Color {
    /// Red.
    pub r: int,
    /// Green.
    pub g: int,
    /// Blue.
    pub b: int,
}

impl Color {
    /// No channel exceeds `limit` in magnitude.
    pub open spec fn within(self, limit: int) -> bool {
        &&& -limit <= self.r <= limit
        &&& -limit <= self.g <= limit
        &&& -limit <= self.b <= limit
    }

    /// Every channel lies between `low` and `high`.
    pub open spec fn between(self, low: Color, high: Color) -> bool {
        &&& low.r <= self.r <= high.r
        &&& low.g <= self.g <= high.g
        &&& low.b <= self.b <= high.b
    }
}

/// A colour with fixed-point channels; a channel of an 8-bit image lies
/// between 0 and `255 * SCALE`.
#[derive(Clone, Copy, Debug, PartialEq, Eq, Structural)]
pub struct Rgb {
    /// Red.
    pub r: i64,
    /// Green.
    pub g: i64,
    /// Blue.
    pub b: i64,
}

impl View for Rgb {
    type V = Color;

    open spec fn view(&self) -> Color {
        Color { r: self.r as int, g: self.g as int, b: self.b as int }
    }
}

/// The colour of a pixel whose 8-bit channels are `r`, `g` and `b`.
pub open spec fn color_of_bytes(r: u8, g: u8, b: u8) -> Color {
    Color { r: r * SCALE, g: g * SCALE, b: b * SCALE }
}

/// The 8-bit value of a channel: its whole part, held to the range of a byte.
pub open spec fn channel_to_byte(c: int) -> u8 {
    if c < 0 {
        0
    } else if c / (SCALE as int) > 255 {
        255
    } else {
        (c / (SCALE as int)) as u8
    }
}

/// The 8-bit channels of a colour.
pub open spec fn color_bytes(c: Color) -> (u8, u8, u8) {
    (channel_to_byte(c.r), channel_to_byte(c.g), channel_to_byte(c.b))
}

/// The colour of an 8-bit pixel has the channels of that pixel.
pub proof fn lemma_color_bytes_of_bytes(r: u8, g: u8, b: u8)
    ensures
        color_bytes(color_of_bytes(r, g, b)) == (r, g, b),
{
}

/// One channel of a linear blend: `a` where `t` is zero, `b` where `t` is one.
pub open spec fn mix_channel(a: int, b: int, t: int) -> int {
    (a * (SCALE - t) + b * t) / (SCALE as int)
}

/// The linear blend `a * (1 - t) + b * t`, channel by channel.
pub open spec fn mix_spec(a: Color, b: Color, t: int) -> Color {
    Color {
        r: mix_channel(a.r, b.r, t),
        g: mix_channel(a.g, b.g, t),
        b: mix_channel(a.b, b.b, t),
    }
}

/// One channel of the contrast correction: the deviation of the sample from
/// the average, divided by `root`, and added back to the average.
pub open spec fn contrast_channel(sample: int, avg: int, root: int) -> int {
    avg + ((sample - avg) * SCALE) / root
}

/// The sample with its deviation from the average colour amplified by the
/// inverse square root of `q`, the sum of the squared blend weights. Where
/// `q` is not positive there is nothing to divide by, and the sample is left
/// as it is.
pub open spec fn contrast_correct_spec(sample: Color, avg: Color, q: int) -> Color {
    let root = fixed_sqrt_spec(q);
    if q <= 0 {
        sample
    } else {
        Color {
            r: contrast_channel(sample.r, avg.r, root),
            g: contrast_channel(sample.g, avg.g, root),
            b: contrast_channel(sample.b, avg.b, root),
        }
    }
}

/// The corrected sample, dialled in by `factor`: the plain sample at zero,
/// the fully corrected one at one, a linear extrapolation beyond.
pub open spec fn apply_contrast_spec(sample: Color, avg: Color, q: int, factor: int) -> Color {
    mix_spec(sample, contrast_correct_spec(sample, avg, q), factor)
}

/// The sum of one channel over the first `pixels` pixels of an RGBA buffer.
pub open spec fn channel_sum(data: Seq<u8>, channel: int, pixels: nat) -> int
    decreases pixels,
{
    if pixels == 0 {
        0
    } else {
        channel_sum(data, channel, (pixels - 1) as nat) + data[4 * (pixels - 1) + channel]
    }
}

/// The mean of one channel over all pixels of an RGBA buffer, or zero where
/// the buffer holds no pixel.
pub open spec fn average_channel(data: Seq<u8>, channel: int) -> int {
    let pixels = data.len() / 4;
    if pixels == 0 {
        0
    } else {
        channel_sum(data, channel, pixels) * SCALE / (pixels as int)
    }
}

/// The mean colour of an RGBA buffer; alpha takes no part.
pub open spec fn average_color_spec(data: Seq<u8>) -> Color {
    Color {
        r: average_channel(data, 0),
        g: average_channel(data, 1),
        b: average_channel(data, 2),
    }
}

/// The eight colours that stand for texture slots in debug renderings: red,
/// green, blue, yellow, magenta, cyan, white, black.
pub open spec fn debug_palette() -> Seq<(u8, u8, u8)> {
    seq![
        (255u8, 0u8, 0u8),
        (0u8, 255u8, 0u8),
        (0u8, 0u8, 255u8),
        (255u8, 255u8, 0u8),
        (255u8, 0u8, 255u8),
        (0u8, 255u8, 255u8),
        (255u8, 255u8, 255u8),
        (0u8, 0u8, 0u8),
    ]
}

/// The debug colour of texture slot `ix`.
pub open spec fn debug_color_spec(ix: int) -> Color {
    let entry = debug_palette()[ix % 8];
    color_of_bytes(entry.0, entry.1, entry.2)
}

/// A blend with a weight between zero and one lies between its two inputs.
pub proof fn lemma_mix_channel_convex(a: int, b: int, t: int, low: int, high: int)
    requires
        0 <= t <= SCALE,
        low <= a <= high,
        low <= b <= high,
    ensures
        low <= mix_channel(a, b, t) <= high,
{
    let s = SCALE as int;
    let num = a * (s - t) + b * t;
    assert(low * s <= num <= high * s) by (nonlinear_arith)
        requires
            0 <= t <= s,
            low <= a <= high,
            low <= b <= high,
            num == a * (s - t) + b * t,
    ;
    lemma_div_is_ordered(low * s, num, s);
    lemma_div_is_ordered(num, high * s, s);
    lemma_div_multiples_vanish(low, s);
    lemma_div_multiples_vanish(high, s);
}

/// A blend with weight zero is its first input, and with weight one its
/// second.
pub proof fn lemma_mix_channel_ends(a: int, b: int)
    ensures
        mix_channel(a, b, 0) == a,
        mix_channel(a, b, SCALE as int) == b,
{
}

/// A blend of a value with itself is that value, whatever the weight.
pub proof fn lemma_mix_channel_same(a: int, t: int)
    ensures
        mix_channel(a, a, t) == a,
{
    let s = SCALE as int;
    assert(a * (s - t) + a * t == a * s) by (nonlinear_arith);
}

/// The magnitude of a blend, for any weight a `Fixed` can hold.
pub proof fn lemma_mix_channel_bound(a: int, b: int, t: int, la: int, lb: int)
    requires
        -la <= a <= la,
        -lb <= b <= lb,
        -0x8000_0000 <= t <= 0x7fff_ffff,
    ensures
        -(la * 2149 + lb * 2148) <= mix_channel(a, b, t) <= la * 2149 + lb * 2148,
{
    let s = SCALE as int;
    lemma_product_bound(a, s - t, la, 2_148_483_648);
    lemma_product_bound(b, t, lb, 2_147_483_648);
    let num = a * (s - t) + b * t;
    let bound = la * 2149 + lb * 2148;
    assert(la >= 0 && lb >= 0);
    assert(-(bound * s) <= num <= bound * s);
    lemma_quotient_bound(num, s, bound);
}

/// The magnitude of a corrected channel where the square root of the summed
/// squared weights is at least `SCALE / amp`.
pub proof fn lemma_contrast_channel_bound(
    sample: int,
    avg: int,
    root: int,
    ls: int,
    la: int,
    amp: int,
)
    requires
        -ls <= sample <= ls,
        -la <= avg <= la,
        amp > 0,
        root > 0,
        root * amp >= SCALE,
    ensures
        -(la + (ls + la) * amp) <= contrast_channel(sample, avg, root) <= la + (ls + la) * amp,
{
    let s = SCALE as int;
    let dev = sample - avg;
    let bound = (ls + la) * amp;
    assert(-(bound * root) <= dev * s <= bound * root) by (nonlinear_arith)
        requires
            -(ls + la) <= dev <= ls + la,
            bound == (ls + la) * amp,
            amp > 0,
            root > 0,
            root * amp >= s,
            s > 0,
    ;
    lemma_quotient_bound(dev * s, root, bound);
}

impl Rgb {
    /// The colour of a pixel whose 8-bit channels are `r`, `g` and `b`.
    pub fn from_bytes(r: u8, g: u8, b: u8) -> (c: Rgb)
        ensures
            c@ == color_of_bytes(r, g, b),
    {
        let one: i64 = SCALE as i64;
        assert(one == 1_000_000);
        Rgb { r: (r as i64) * one, g: (g as i64) * one, b: (b as i64) * one }
    }

    /// The 8-bit channels of the colour: the whole part of each channel,
    /// held to the range of a byte.
    pub fn to_bytes(&self) -> (bytes: (u8, u8, u8))
        ensures
            bytes == color_bytes(self@),
    {
        (to_byte(self.r), to_byte(self.g), to_byte(self.b))
    }
}

/// The 8-bit value of a channel.
pub fn to_byte(c: i64) -> (byte: u8)
    ensures
        byte == channel_to_byte(c as int),
{
    if c < 0 {
        0
    } else {
        let whole: i64 = c / (SCALE as i64);
        if whole > 255 {
            255
        } else {
            whole as u8
        }
    }
}

fn mix_one(a: i64, b: i64, t: Fixed) -> (r: i64)
    requires
        -CHANNEL_LIMIT <= a <= CHANNEL_LIMIT,
        -CHANNEL_LIMIT <= b <= CHANNEL_LIMIT,
    ensures
        r == mix_channel(a as int, b as int, t as int),
{
    let rest: i128 = (SCALE as i128) - (t as i128);
    proof {
        lemma_product_bound(a as int, rest as int, CHANNEL_LIMIT as int, 2_148_483_648);
        lemma_product_bound(b as int, t as int, CHANNEL_LIMIT as int, 2_147_483_648);
        lemma_mix_channel_bound(
            a as int,
            b as int,
            t as int,
            CHANNEL_LIMIT as int,
            CHANNEL_LIMIT as int,
        );
    }
    let num: i128 = (a as i128) * rest + (b as i128) * (t as i128);
    div_floor(num, SCALE as i128) as i64
}

/// Blends two colours linearly: `a` where `t` is zero, `b` where `t` is one.
/// A weight outside that range extrapolates.
pub fn mix(a: Rgb, b: Rgb, t: Fixed) -> (r: Rgb)
    requires
        a@.within(CHANNEL_LIMIT as int),
        b@.within(CHANNEL_LIMIT as int),
    ensures
        r@ == mix_spec(a@, b@, t as int),
{
    Rgb { r: mix_one(a.r, b.r, t), g: mix_one(a.g, b.g, t), b: mix_one(a.b, b.b, t) }
}

fn contrast_one(sample: i64, avg: i64, root: i64) -> (r: i64)
    requires
        -CHANNEL_LIMIT <= sample <= CHANNEL_LIMIT,
        -CHANNEL_LIMIT <= avg <= CHANNEL_LIMIT,
        root >= 1000,
    ensures
        r == contrast_channel(sample as int, avg as int, root as int),
{
    let dev: i128 = (sample as i128) - (avg as i128);
    proof {
        lemma_contrast_channel_bound(
            sample as int,
            avg as int,
            root as int,
            CHANNEL_LIMIT as int,
            CHANNEL_LIMIT as int,
            1000,
        );
    }
    let amplified: i128 = div_floor(dev * (SCALE as i128), root as i128);
    (avg as i128 + amplified) as i64
}

/// Restores the contrast that averaging took from a blended sample: the
/// deviation of the sample from `avg_color`, the same blend of the tiles'
/// average colours, is divided by the square root of
/// `opacity_parts_squared`, the sum of the squares of the blend weights.
/// Where that sum is not positive the sample is returned as it is.
pub fn contrast_correct(sample: Rgb, avg_color: Rgb, opacity_parts_squared: Fixed) -> (r: Rgb)
    requires
        sample@.within(CHANNEL_LIMIT as int),
        avg_color@.within(CHANNEL_LIMIT as int),
    ensures
        r@ == contrast_correct_spec(sample@, avg_color@, opacity_parts_squared as int),
{
    if opacity_parts_squared <= 0 {
        sample
    } else {
        let root = fixed_sqrt(opacity_parts_squared);
        Rgb {
            r: contrast_one(sample.r, avg_color.r, root),
            g: contrast_one(sample.g, avg_color.g, root),
            b: contrast_one(sample.b, avg_color.b, root),
        }
    }
}

/// The contrast corrector: the blended sample moved toward its corrected
/// form by `factor`. At zero the sample comes back unchanged; at one it is
/// fully corrected; other values interpolate or extrapolate linearly.
pub fn apply_contrast_correction(
    sample: Rgb,
    avg_color: Rgb,
    opacity_parts_squared: Fixed,
    factor: Fixed,
) -> (r: Rgb)
    requires
        sample@.within(CHANNEL_LIMIT as int),
        avg_color@.within(CHANNEL_LIMIT as int),
        contrast_correct_spec(sample@, avg_color@, opacity_parts_squared as int).within(
            CHANNEL_LIMIT as int,
        ),
    ensures
        r@ == apply_contrast_spec(
            sample@,
            avg_color@,
            opacity_parts_squared as int,
            factor as int,
        ),
        factor == 0 ==> r == sample,
{
    let corrected = contrast_correct(sample, avg_color, opacity_parts_squared);
    let r = mix(sample, corrected, factor);
    proof {
        if factor == 0 {
            lemma_zero_factor_is_identity(sample@, avg_color@, opacity_parts_squared as int);
            assert(r.r == sample.r && r.g == sample.g && r.b == sample.b);
        }
    }
    r
}

/// With a correction factor of zero the contrast corrector is the identity
/// on the blended sample, whatever the average colour and the weights.
pub proof fn lemma_zero_factor_is_identity(sample: Color, avg: Color, q: int)
    ensures
        apply_contrast_spec(sample, avg, q, 0) == sample,
{
}

/// A channel sum is at most 255 for each pixel counted.
pub proof fn lemma_channel_sum_bound(data: Seq<u8>, channel: int, pixels: nat)
    ensures
        0 <= channel_sum(data, channel, pixels) <= 255 * pixels,
    decreases pixels,
{
    if pixels > 0 {
        lemma_channel_sum_bound(data, channel, (pixels - 1) as nat);
    }
}

/// The mean of a channel lies within the range of an 8-bit channel.
pub proof fn lemma_average_channel_bound(data: Seq<u8>, channel: int)
    ensures
        0 <= average_channel(data, channel) <= 255 * SCALE,
{
    let pixels = data.len() / 4;
    if pixels > 0 {
        let s = SCALE as int;
        let sum = channel_sum(data, channel, pixels);
        lemma_channel_sum_bound(data, channel, pixels);
        assert(0 <= sum * s <= (255 * s) * pixels) by (nonlinear_arith)
            requires
                0 <= sum <= 255 * pixels,
                s > 0,
        ;
        lemma_quotient_bound(sum * s, pixels as int, 255 * s);
        lemma_div_is_ordered(0, sum * s, pixels as int);
    }
}

/// The mean colour of an RGBA buffer: for each of red, green and blue the
/// sum over all pixels divided by the number of pixels. Alpha is ignored, and
/// so are bytes after the last whole pixel. A buffer without a pixel has the
/// mean colour black.
pub fn compute_average_color(data: &[u8]) -> (avg: Rgb)
    ensures
        avg@ == average_color_spec(data@),
        avg@.between(color_of_bytes(0, 0, 0), color_of_bytes(255, 255, 255)),
{
    let pixels: usize = data.len() / 4;
    proof {
        lemma_average_channel_bound(data@, 0);
        lemma_average_channel_bound(data@, 1);
        lemma_average_channel_bound(data@, 2);
    }
    if pixels == 0 {
        return Rgb { r: 0, g: 0, b: 0 };
    }
    let mut sum_r: u128 = 0;
    let mut sum_g: u128 = 0;
    let mut sum_b: u128 = 0;
    let mut i: usize = 0;
    while i < pixels
        invariant
            i <= pixels,
            pixels == data@.len() / 4,
            data@.len() <= usize::MAX,
            sum_r == channel_sum(data@, 0, i as nat),
            sum_g == channel_sum(data@, 1, i as nat),
            sum_b == channel_sum(data@, 2, i as nat),
        decreases pixels - i,
    {
        proof {
            lemma_channel_sum_bound(data@, 0, i as nat);
            lemma_channel_sum_bound(data@, 1, i as nat);
            lemma_channel_sum_bound(data@, 2, i as nat);
        }
        sum_r = sum_r + data[i * 4] as u128;
        sum_g = sum_g + data[i * 4 + 1] as u128;
        sum_b = sum_b + data[i * 4 + 2] as u128;
        i = i + 1;
    }
    proof {
        lemma_channel_sum_bound(data@, 0, pixels as nat);
        lemma_channel_sum_bound(data@, 1, pixels as nat);
        lemma_channel_sum_bound(data@, 2, pixels as nat);
    }
    Rgb {
        r: (sum_r * (SCALE as u128) / (pixels as u128)) as i64,
        g: (sum_g * (SCALE as u128) / (pixels as u128)) as i64,
        b: (sum_b * (SCALE as u128) / (pixels as u128)) as i64,
    }
}

/// The debug colour of texture slot `ix`: one of eight fixed colours, chosen
/// by the slot index modulo eight.
pub fn get_debug_color(ix: usize) -> (c: Rgb)
    ensures
        c@ == debug_color_spec(ix as int),
        c@.between(color_of_bytes(0, 0, 0), color_of_bytes(255, 255, 255)),
{
    let k: usize = ix % 8;
    if k == 0 {
        Rgb::from_bytes(255, 0, 0)
    } else if k == 1 {
        Rgb::from_bytes(0, 255, 0)
    } else if k == 2 {
        Rgb::from_bytes(0, 0, 255)
    } else if k == 3 {
        Rgb::from_bytes(255, 255, 0)
    } else if k == 4 {
        Rgb::from_bytes(255, 0, 255)
    } else if k == 5 {
        Rgb::from_bytes(0, 255, 255)
    } else if k == 6 {
        Rgb::from_bytes(255, 255, 255)
    } else {
        Rgb::from_bytes(0, 0, 0)
    }
}

} // verus!

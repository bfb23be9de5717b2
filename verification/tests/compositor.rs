use texture_crossfade::compositor::crossfade_generate;
use texture_crossfade::fixed::SCALE;
use texture_crossfade::registry::{
    crossfade_reset, crossfade_set_texture, crossfade_set_texture_indices,
    crossfade_set_texture_offsets, crossfade_set_texture_rotations, CrossfadeError, Registry,
};

fn solid(width: usize, height: usize, color: [u8; 3]) -> Vec<u8> {
    let mut data = Vec::new();
    for _ in 0..width * height {
        data.extend_from_slice(&[color[0], color[1], color[2], 255]);
    }
    data
}

fn pixel(out: &[u8], out_width: usize, x: usize, y: usize) -> [u8; 4] {
    let ix = (y * out_width + x) * 4;
    [out[ix], out[ix + 1], out[ix + 2], out[ix + 3]]
}

const COLORS: [[u8; 3]; 4] = [[200, 0, 0], [0, 100, 0], [0, 0, 60], [40, 20, 100]];

fn four_solid_tiles() -> Registry {
    let mut registry = Registry::new(64, 64);
    for slot in 0..4 {
        assert_eq!(crossfade_set_texture(&mut registry, solid(4, 4, COLORS[slot]), slot), Ok(()));
    }
    assert_eq!(crossfade_set_texture_indices(&mut registry, &[0, 1, 2, 3]), Ok(()));
    assert_eq!(crossfade_set_texture_rotations(&mut registry, &[0, 0, 0, 0]), Ok(()));
    assert_eq!(crossfade_set_texture_offsets(&mut registry, &[0, 0, 0, 0], &[0, 0, 0, 0]), Ok(()));
    registry
}

#[test]
fn four_tiles_meet_in_their_average() {
    let registry = four_solid_tiles();
    let out = crossfade_generate(&registry, 4, 4, 2, SCALE / 2, false, 0).unwrap();
    assert_eq!(out.len(), 8 * 8 * 4);
    // The pixel where the four tiles meet has equal shares of all of them.
    assert_eq!(pixel(&out, 8, 4, 4), [60, 30, 40, 255]);
    // The grid wraps round: the outer corner is such a meeting point too.
    assert_eq!(pixel(&out, 8, 0, 0), [60, 30, 40, 255]);
    // The centre of each tile is far from every edge.
    assert_eq!(pixel(&out, 8, 2, 2), [200, 0, 0, 255]);
    assert_eq!(pixel(&out, 8, 6, 2), [0, 100, 0, 255]);
    assert_eq!(pixel(&out, 8, 2, 6), [0, 0, 60, 255]);
    assert_eq!(pixel(&out, 8, 6, 6), [40, 20, 100, 255]);
}

#[test]
fn every_pixel_is_opaque() {
    let registry = four_solid_tiles();
    let out = crossfade_generate(&registry, 4, 4, 2, 700_000, false, 300_000).unwrap();
    for y in 0..8 {
        for x in 0..8 {
            assert_eq!(pixel(&out, 8, x, y)[3], 255);
        }
    }
}

#[test]
fn unset_texture_is_refused() {
    let mut registry = four_solid_tiles();
    crossfade_reset(&mut registry);
    assert_eq!(
        crossfade_generate(&registry, 4, 4, 2, SCALE / 2, false, 0),
        Err(CrossfadeError::UnsetTexture)
    );
}

/// A texture whose pixel (x, y) has the colour `textured_pixel(slot, x, y)`.
fn textured(slot: usize, width: usize, height: usize) -> Vec<u8> {
    let mut data = Vec::new();
    for y in 0..height {
        for x in 0..width {
            let [r, g, b] = textured_pixel(slot, x, y);
            data.extend_from_slice(&[r, g, b, 255]);
        }
    }
    data
}

fn textured_pixel(slot: usize, x: usize, y: usize) -> [u8; 3] {
    [
        ((60 * slot + 40 * x + 10) % 256) as u8,
        ((90 * y + 50 * slot + 5) % 256) as u8,
        ((200 - 30 * slot + 20 * x * y) % 256) as u8,
    ]
}

fn rotated(rotation: u8, size: usize, x: usize, y: usize) -> (usize, usize) {
    match rotation {
        0 => (x, y),
        1 => (y, size - 1 - x),
        2 => (size - 1 - x, size - 1 - y),
        _ => (size - 1 - y, x),
    }
}

#[test]
fn zero_threshold_shows_each_tile_unblended() {
    let size = 4;
    let indices = [3, 0, 2, 1, 1, 1, 0, 3, 2];
    let rotations = [0, 1, 2, 3, 0, 1, 2, 3, 0];
    let offsets_x = [0, 1, 2, 3, 4, 5, 6, 7, 8];
    let offsets_y = [3, 0, 0, 2, 9, 1, 1, 0, 5];
    let mut registry = Registry::new(4, 9);
    for slot in 0..4 {
        assert_eq!(crossfade_set_texture(&mut registry, textured(slot, size, size), slot), Ok(()));
    }
    assert_eq!(crossfade_set_texture_indices(&mut registry, &indices), Ok(()));
    assert_eq!(crossfade_set_texture_rotations(&mut registry, &rotations), Ok(()));
    assert_eq!(crossfade_set_texture_offsets(&mut registry, &offsets_x, &offsets_y), Ok(()));
    for factor in [0, 400_000, SCALE, -3 * SCALE] {
        let out = crossfade_generate(&registry, size, size, 3, 0, false, factor).unwrap();
        assert_eq!(out.len(), 12 * 12 * 4);
        for y in 0..12 {
            for x in 0..12 {
                let cell = (y / size) * 3 + x / size;
                let sx = (x % size + offsets_x[cell]) % size;
                let sy = (y % size + offsets_y[cell]) % size;
                let (tx, ty) = rotated(rotations[cell], size, sx, sy);
                let [r, g, b] = textured_pixel(indices[cell], tx, ty);
                assert_eq!(pixel(&out, 12, x, y), [r, g, b, 255]);
            }
        }
    }
}

#[test]
fn zero_threshold_shows_each_debug_colour_unblended() {
    let registry = four_solid_tiles();
    let out = crossfade_generate(&registry, 4, 4, 2, 0, true, SCALE).unwrap();
    let palette = [[255, 0, 0], [0, 255, 0], [0, 0, 255], [255, 255, 0]];
    for y in 0..8 {
        for x in 0..8 {
            let [r, g, b] = palette[(y / 4) * 2 + x / 4];
            assert_eq!(pixel(&out, 8, x, y), [r, g, b, 255]);
        }
    }
}

#[test]
fn debug_mode_shows_palette_colours_and_never_a_texture() {
    let mut registry = Registry::new(64, 64);
    for slot in 0..2 {
        assert_eq!(crossfade_set_texture(&mut registry, solid(4, 4, [0, 0, 200]), slot), Ok(()));
    }
    assert_eq!(crossfade_set_texture_indices(&mut registry, &[0, 1, 1, 0]), Ok(()));
    let out = crossfade_generate(&registry, 4, 4, 2, SCALE / 2, true, 0).unwrap();
    let red = [255, 0, 0, 255];
    let green = [0, 255, 0, 255];
    let both = [127, 127, 0, 255];
    for y in 0..8 {
        for x in 0..8 {
            let expected = if x % 4 == 0 || y % 4 == 0 {
                both
            } else if (x / 4 + y / 4) % 2 == 0 {
                red
            } else {
                green
            };
            assert_eq!(pixel(&out, 8, x, y), expected);
        }
    }
    for threshold in [0, 250_000, 800_000, SCALE] {
        let out = crossfade_generate(&registry, 4, 4, 2, threshold, true, 0).unwrap();
        for y in 0..8 {
            for x in 0..8 {
                let [r, g, b, a] = pixel(&out, 8, x, y);
                assert_eq!(b, 0);
                assert_eq!(a, 255);
                let sum = r as u32 + g as u32;
                assert!(sum == 254 || sum == 255);
            }
        }
    }
}

#[test]
fn debug_mode_corrects_contrast_against_the_texture_averages() {
    let registry = four_solid_tiles();
    let out = crossfade_generate(&registry, 4, 4, 2, SCALE / 2, true, SCALE).unwrap();
    assert_eq!(pixel(&out, 8, 4, 4), [250, 255, 107, 255]);
    let out = crossfade_generate(&registry, 4, 4, 2, SCALE, true, SCALE).unwrap();
    assert_eq!(pixel(&out, 8, 4, 4), [250, 255, 107, 255]);
    assert_eq!(pixel(&out, 8, 3, 5), [147, 118, 236, 255]);
    let out = crossfade_generate(&registry, 4, 4, 2, SCALE, true, 0).unwrap();
    assert_eq!(pixel(&out, 8, 3, 5), [95, 63, 143, 255]);
}

fn four_textured_tiles() -> Registry {
    let mut registry = Registry::new(4, 4);
    for slot in 0..4 {
        assert_eq!(crossfade_set_texture(&mut registry, textured(slot, 2, 2), slot), Ok(()));
    }
    assert_eq!(crossfade_set_texture_indices(&mut registry, &[0, 1, 2, 3]), Ok(()));
    assert_eq!(crossfade_set_texture_rotations(&mut registry, &[0, 1, 2, 3]), Ok(()));
    assert_eq!(crossfade_set_texture_offsets(&mut registry, &[0, 1, 0, 1], &[1, 0, 0, 1]), Ok(()));
    registry
}

#[test]
fn textured_tiles_blend_across_the_whole_tile() {
    let registry = four_textured_tiles();
    let out = crossfade_generate(&registry, 2, 2, 2, SCALE, false, SCALE / 2).unwrap();
    let expected: [[u8; 4]; 16] = [
        [101, 165, 159, 255], [90, 154, 181, 255], [101, 165, 159, 255], [125, 150, 138, 255],
        [60, 9, 182, 255], [50, 5, 200, 255], [60, 9, 182, 255], [110, 145, 190, 255],
        [101, 165, 159, 255], [90, 154, 181, 255], [101, 165, 159, 255], [125, 150, 138, 255],
        [209, 175, 137, 255], [130, 105, 140, 255], [209, 175, 137, 255], [230, 155, 110, 255],
    ];
    assert_eq!(out, expected.concat());
}

#[test]
fn textured_tiles_blend_with_full_correction() {
    let registry = four_textured_tiles();
    let out = crossfade_generate(&registry, 2, 2, 2, 600_000, false, SCALE).unwrap();
    let expected: [[u8; 4]; 16] = [
        [91, 188, 159, 255], [90, 163, 182, 255], [91, 188, 159, 255], [121, 150, 137, 255],
        [60, 0, 179, 255], [50, 5, 200, 255], [60, 0, 179, 255], [110, 145, 190, 255],
        [91, 188, 159, 255], [90, 163, 182, 255], [91, 188, 159, 255], [121, 150, 137, 255],
        [220, 175, 140, 255], [130, 105, 140, 255], [220, 175, 140, 255], [230, 155, 110, 255],
    ];
    assert_eq!(out, expected.concat());
}

#[test]
fn threshold_outside_the_unit_range_is_refused() {
    let registry = four_solid_tiles();
    for threshold in [-1, SCALE + 1, i32::MIN, i32::MAX] {
        assert_eq!(
            crossfade_generate(&registry, 4, 4, 2, threshold, false, 0),
            Err(CrossfadeError::InvalidThreshold)
        );
    }
    assert!(crossfade_generate(&registry, 4, 4, 2, 0, false, 0).is_ok());
    assert!(crossfade_generate(&registry, 4, 4, 2, SCALE, false, 0).is_ok());
}

#[test]
fn grid_larger_than_the_registry_is_refused() {
    let registry = four_solid_tiles();
    assert_eq!(
        crossfade_generate(&registry, 4, 4, 9, SCALE / 2, true, 0),
        Err(CrossfadeError::TooManyTiles)
    );
    assert_eq!(
        crossfade_generate(&registry, 4, 4, usize::MAX, SCALE / 2, true, 0),
        Err(CrossfadeError::TooManyTiles)
    );
}

#[test]
fn cell_without_texture_is_refused() {
    let mut registry = Registry::new(4, 4);
    for slot in 0..3 {
        assert_eq!(crossfade_set_texture(&mut registry, solid(4, 4, COLORS[slot]), slot), Ok(()));
    }
    assert_eq!(crossfade_set_texture_indices(&mut registry, &[0, 1, 2, 3]), Ok(()));
    for debug in [false, true] {
        assert_eq!(
            crossfade_generate(&registry, 4, 4, 2, SCALE / 2, debug, 0),
            Err(CrossfadeError::UnsetTexture)
        );
    }
    // The first cell alone is complete.
    assert!(crossfade_generate(&registry, 4, 4, 1, SCALE / 2, false, 0).is_ok());
    // A slot beyond the registry's slots holds no texture either.
    assert_eq!(crossfade_set_texture_indices(&mut registry, &[4]), Ok(()));
    assert_eq!(
        crossfade_generate(&registry, 4, 4, 1, SCALE / 2, false, 0),
        Err(CrossfadeError::UnsetTexture)
    );
}

#[test]
fn texture_of_another_size_is_refused_unless_in_debug_mode() {
    let registry = four_solid_tiles();
    assert_eq!(
        crossfade_generate(&registry, 5, 4, 2, SCALE / 2, false, 0),
        Err(CrossfadeError::TextureSizeMismatch)
    );
    assert_eq!(
        crossfade_generate(&registry, 2, 2, 2, SCALE / 2, false, 0),
        Err(CrossfadeError::TextureSizeMismatch)
    );
    assert_eq!(
        crossfade_generate(&registry, usize::MAX, usize::MAX, 2, SCALE / 2, false, 0),
        Err(CrossfadeError::TextureSizeMismatch)
    );
    let out = crossfade_generate(&registry, 5, 3, 2, SCALE / 2, true, 0).unwrap();
    assert_eq!(out.len(), 10 * 6 * 4);
}

#[test]
fn image_too_large_to_address_is_refused() {
    let registry = four_solid_tiles();
    assert_eq!(
        crossfade_generate(&registry, usize::MAX / 2, 2, 1, SCALE / 2, true, 0),
        Err(CrossfadeError::OutputTooLarge)
    );
    assert_eq!(
        crossfade_generate(&registry, usize::MAX, 1, 2, SCALE / 2, true, 0),
        Err(CrossfadeError::OutputTooLarge)
    );
}

#[test]
fn errors_are_reported_in_a_fixed_order() {
    let registry = Registry::new(4, 4);
    assert_eq!(
        crossfade_generate(&registry, usize::MAX, 2, 9, -1, false, 0),
        Err(CrossfadeError::InvalidThreshold)
    );
    assert_eq!(
        crossfade_generate(&registry, usize::MAX, 2, 9, 0, false, 0),
        Err(CrossfadeError::TooManyTiles)
    );
    assert_eq!(
        crossfade_generate(&registry, usize::MAX, 2, 2, 0, false, 0),
        Err(CrossfadeError::UnsetTexture)
    );
    let registry = four_solid_tiles();
    assert_eq!(
        crossfade_generate(&registry, usize::MAX, 2, 2, 0, false, 0),
        Err(CrossfadeError::TextureSizeMismatch)
    );
}

#[test]
fn grid_without_pixels_gives_an_empty_image() {
    let registry = four_solid_tiles();
    assert_eq!(crossfade_generate(&registry, 4, 4, 0, SCALE / 2, false, 0), Ok(vec![]));
    assert_eq!(crossfade_generate(&registry, 0, 4, 2, SCALE / 2, true, 0), Ok(vec![]));
    assert_eq!(crossfade_generate(&registry, usize::MAX, 0, 2, SCALE / 2, true, 0), Ok(vec![]));
    let mut registry = Registry::new(1, 1);
    assert_eq!(crossfade_set_texture(&mut registry, vec![], 0), Ok(()));
    assert_eq!(crossfade_generate(&registry, 0, 7, 1, SCALE / 2, false, 0), Ok(vec![]));
}

#[test]
fn single_tile_blends_with_itself() {
    let mut registry = Registry::new(1, 1);
    assert_eq!(crossfade_set_texture(&mut registry, solid(3, 2, [9, 99, 199]), 0), Ok(()));
    for factor in [0, SCALE] {
        let out = crossfade_generate(&registry, 3, 2, 1, SCALE, false, factor).unwrap();
        assert_eq!(out.len(), 3 * 2 * 4);
        for y in 0..2 {
            for x in 0..3 {
                assert_eq!(pixel(&out, 3, x, y), [9, 99, 199, 255]);
            }
        }
    }
}

#[test]
fn composition_reads_textures_assigned_after_a_reset() {
    let mut registry = four_solid_tiles();
    crossfade_reset(&mut registry);
    for slot in 0..4 {
        assert_eq!(crossfade_set_texture(&mut registry, solid(4, 4, [1, 2, 3]), slot), Ok(()));
    }
    let out = crossfade_generate(&registry, 4, 4, 2, SCALE / 2, false, SCALE).unwrap();
    for y in 0..8 {
        for x in 0..8 {
            assert_eq!(pixel(&out, 8, x, y), [1, 2, 3, 255]);
        }
    }
}

/// The composition in floating point, from the same formulas.
struct Reference {
    size: usize,
    tile_count: usize,
    textures: Vec<Vec<u8>>,
    indices: Vec<usize>,
    rotations: Vec<u8>,
    offsets: Vec<(usize, usize)>,
    threshold: f64,
    factor: f64,
}

impl Reference {
    fn project(&self, x: f64) -> (f64, i64) {
        let half = self.threshold / 2.;
        if x < half {
            (x / half, -1)
        } else if x > 1. - half {
            ((x - 1.) / half, 1)
        } else if x < 0.5 {
            (1., -1)
        } else {
            (-1., 1)
        }
    }

    fn sample(&self, cell: usize, px: usize, py: usize) -> [f64; 3] {
        let sx = (px + self.offsets[cell].0) % self.size;
        let sy = (py + self.offsets[cell].1) % self.size;
        let (tx, ty) = rotated(self.rotations[cell], self.size, sx, sy);
        let ix = (ty * self.size + tx) * 4;
        let data = &self.textures[self.indices[cell]];
        [data[ix] as f64, data[ix + 1] as f64, data[ix + 2] as f64]
    }

    fn average(&self, cell: usize) -> [f64; 3] {
        let data = &self.textures[self.indices[cell]];
        let pixels = data.len() / 4;
        let mut sum = [0.; 3];
        for i in 0..pixels {
            for c in 0..3 {
                sum[c] += data[i * 4 + c] as f64;
            }
        }
        [sum[0] / pixels as f64, sum[1] / pixels as f64, sum[2] / pixels as f64]
    }

    fn mix(a: [f64; 3], b: [f64; 3], t: f64) -> [f64; 3] {
        [
            a[0] * (1. - t) + b[0] * t,
            a[1] * (1. - t) + b[1] * t,
            a[2] * (1. - t) + b[2] * t,
        ]
    }

    fn correct(&self, sample: [f64; 3], avg: [f64; 3], q: f64) -> [f64; 3] {
        let root = q.sqrt();
        let corrected = [
            avg[0] + (sample[0] - avg[0]) / root,
            avg[1] + (sample[1] - avg[1]) / root,
            avg[2] + (sample[2] - avg[2]) / root,
        ];
        Self::mix(sample, corrected, self.factor)
    }

    fn pixel(&self, x: usize, y: usize) -> [f64; 3] {
        let n = self.tile_count;
        let (px, py) = (x % self.size, y % self.size);
        let (tile_x, tile_y) = (x / self.size, y / self.size);
        let (wx, side_x) = self.project(px as f64 / self.size as f64);
        let (wy, side_y) = self.project(py as f64 / self.size as f64);
        let (wx, wy) = ((wx + 1.) / 2., (wy + 1.) / 2.);
        let (left, right) =
            if side_x < 0 { ((tile_x + n - 1) % n, tile_x) } else { (tile_x, (tile_x + 1) % n) };
        let (top, bottom) =
            if side_y < 0 { ((tile_y + n - 1) % n, tile_y) } else { (tile_y, (tile_y + 1) % n) };
        let cells = [top * n + left, top * n + right, bottom * n + left, bottom * n + right];
        let across = wx * wx + (1. - wx) * (1. - wx);
        let products = [(1. - wx) * (1. - wy), wx * (1. - wy), (1. - wx) * wy, wx * wy];
        let around: f64 = products.iter().map(|p| p * p).sum();
        let top_avg = Self::mix(self.average(cells[0]), self.average(cells[1]), wx);
        let bottom_avg = Self::mix(self.average(cells[2]), self.average(cells[3]), wx);
        let top = self.correct(
            Self::mix(self.sample(cells[0], px, py), self.sample(cells[1], px, py), wx),
            top_avg,
            across,
        );
        let bottom = self.correct(
            Self::mix(self.sample(cells[2], px, py), self.sample(cells[3], px, py), wx),
            bottom_avg,
            across,
        );
        self.correct(Self::mix(top, bottom, wy), Self::mix(top_avg, bottom_avg, wy), around)
    }
}

#[test]
fn composition_agrees_with_floating_point_to_one_unit() {
    let size = 4;
    let tile_count = 3;
    let mut state: u32 = 12345;
    let mut next = move || {
        state = state.wrapping_mul(1_664_525).wrapping_add(1_013_904_223);
        (state >> 16) as usize
    };
    let textures: Vec<Vec<u8>> =
        (0..5).map(|_| (0..size * size * 4).map(|_| next() as u8).collect()).collect();
    let indices: Vec<usize> = (0..9).map(|_| next() % 5).collect();
    let rotations: Vec<u8> = (0..9).map(|_| (next() % 4) as u8).collect();
    let offsets: Vec<(usize, usize)> = (0..9).map(|_| (next() % 7, next() % 7)).collect();

    let mut registry = Registry::new(5, 9);
    for (slot, texture) in textures.iter().enumerate() {
        assert_eq!(crossfade_set_texture(&mut registry, texture.clone(), slot), Ok(()));
    }
    let offsets_x: Vec<usize> = offsets.iter().map(|o| o.0).collect();
    let offsets_y: Vec<usize> = offsets.iter().map(|o| o.1).collect();
    assert_eq!(crossfade_set_texture_indices(&mut registry, &indices), Ok(()));
    assert_eq!(crossfade_set_texture_rotations(&mut registry, &rotations), Ok(()));
    assert_eq!(crossfade_set_texture_offsets(&mut registry, &offsets_x, &offsets_y), Ok(()));

    for threshold in [300_000, 770_000, SCALE] {
        for factor in [0, 500_000, SCALE] {
            let out =
                crossfade_generate(&registry, size, size, tile_count, threshold, false, factor)
                    .unwrap();
            let reference = Reference {
                size,
                tile_count,
                textures: textures.clone(),
                indices: indices.clone(),
                rotations: rotations.clone(),
                offsets: offsets.clone(),
                threshold: threshold as f64 / SCALE as f64,
                factor: factor as f64 / SCALE as f64,
            };
            let side = size * tile_count;
            for y in 0..side {
                for x in 0..side {
                    let got = pixel(&out, side, x, y);
                    let want = reference.pixel(x, y);
                    for c in 0..3 {
                        let exact = want[c].clamp(0., 255.);
                        assert!(
                            (got[c] as f64 - exact).abs() < 1.001,
                            "pixel ({}, {}) channel {}: {} against {}",
                            x,
                            y,
                            c,
                            got[c],
                            want[c]
                        );
                    }
                }
            }
        }
    }
}

use texture_crossfade::color::Rgb;
use texture_crossfade::sampler::{read_texture, TileDescriptor};

/// A texture whose pixel (x, y) has red x, green y and blue 7.
fn coordinates(width: usize, height: usize) -> Vec<u8> {
    let mut data = Vec::new();
    for y in 0..height {
        for x in 0..width {
            data.extend_from_slice(&[x as u8, y as u8, 7, 99]);
        }
    }
    data
}

fn descriptor(
    data: &[u8],
    width: usize,
    height: usize,
    rotation: u8,
    offset: (usize, usize),
) -> TileDescriptor<'_> {
    TileDescriptor {
        width,
        height,
        tex_ix: 0,
        data,
        average_color: Rgb { r: 0, g: 0, b: 0 },
        rotation,
        offset_x: offset.0,
        offset_y: offset.1,
    }
}

/// The texture coordinate that the tile shows at (x, y).
fn shown(desc: &TileDescriptor, x: usize, y: usize) -> (usize, usize) {
    let (r, g, b) = read_texture(desc, x, y).to_bytes();
    assert_eq!(b, 7);
    (r as usize, g as usize)
}

#[test]
fn sampling_without_rotation_and_offset_reads_the_raw_pixel() {
    let data = coordinates(5, 3);
    let desc = descriptor(&data, 5, 3, 0, (0, 0));
    for y in 0..3 {
        for x in 0..5 {
            assert_eq!(read_texture(&desc, x, y), Rgb::from_bytes(x as u8, y as u8, 7));
        }
    }
}

#[test]
fn sampling_reads_red_green_and_blue() {
    let data = [1, 2, 3, 4, 5, 6, 7, 8];
    let desc = descriptor(&data, 2, 1, 0, (0, 0));
    assert_eq!(read_texture(&desc, 0, 0), Rgb::from_bytes(1, 2, 3));
    assert_eq!(read_texture(&desc, 1, 0), Rgb::from_bytes(5, 6, 7));
}

#[test]
fn quarter_turn_maps_to_the_rotated_coordinate() {
    let data = coordinates(4, 4);
    let desc = descriptor(&data, 4, 4, 1, (0, 0));
    for y in 0..4 {
        for x in 0..4 {
            assert_eq!(shown(&desc, x, y), (y, 3 - x));
        }
    }
}

#[test]
fn half_turn_maps_to_the_rotated_coordinate() {
    let data = coordinates(5, 3);
    let desc = descriptor(&data, 5, 3, 2, (0, 0));
    for y in 0..3 {
        for x in 0..5 {
            assert_eq!(shown(&desc, x, y), (4 - x, 2 - y));
        }
    }
}

#[test]
fn three_quarter_turn_maps_to_the_rotated_coordinate() {
    let data = coordinates(4, 4);
    let desc = descriptor(&data, 4, 4, 3, (0, 0));
    for y in 0..4 {
        for x in 0..4 {
            assert_eq!(shown(&desc, x, y), (3 - y, x));
        }
    }
}

#[test]
fn offset_shifts_cyclically() {
    let data = coordinates(4, 3);
    let desc = descriptor(&data, 4, 3, 0, (1, 2));
    assert_eq!(shown(&desc, 0, 0), (1, 2));
    assert_eq!(shown(&desc, 3, 0), (0, 2));
    assert_eq!(shown(&desc, 0, 1), (1, 0));
    assert_eq!(shown(&desc, 3, 2), (0, 1));
}

#[test]
fn offset_wraps_modulo_the_texture() {
    let data = coordinates(4, 3);
    let near = descriptor(&data, 4, 3, 0, (1, 2));
    let far = descriptor(&data, 4, 3, 0, (4 * 1000 + 1, 3 * 77 + 2));
    let huge = descriptor(&data, 4, 3, 0, (usize::MAX, usize::MAX));
    for y in 0..3 {
        for x in 0..4 {
            assert_eq!(shown(&near, x, y), shown(&far, x, y));
            assert_eq!(
                shown(&huge, x, y),
                ((x + usize::MAX % 4) % 4, (y + usize::MAX % 3) % 3)
            );
        }
    }
}

#[test]
fn offset_applies_before_rotation() {
    let data = coordinates(4, 4);
    let desc = descriptor(&data, 4, 4, 1, (1, 0));
    // (0, 0) shifts to (1, 0), which a quarter turn maps to (0, 3 - 1).
    assert_eq!(shown(&desc, 0, 0), (0, 2));
    let desc = descriptor(&data, 4, 4, 2, (3, 1));
    // (2, 3) shifts to (1, 0), which a half turn maps to (2, 3).
    assert_eq!(shown(&desc, 2, 3), (2, 3));
}

#[test]
fn rotation_wraps_on_a_texture_that_is_not_square() {
    let data = coordinates(4, 2);
    let desc = descriptor(&data, 4, 2, 1, (0, 0));
    // (3, 1) maps to (1, 2 - 1 - 3), and -2 wraps to 0 on an axis of 2.
    assert_eq!(shown(&desc, 3, 1), (1, 0));
    // (2, 0) maps to (0, -1), which wraps to 1.
    assert_eq!(shown(&desc, 2, 0), (0, 1));
    let desc = descriptor(&data, 4, 2, 3, (0, 0));
    // (3, 0) maps to (2 - 1 - 0, 3), and 3 wraps to 1.
    assert_eq!(shown(&desc, 3, 0), (1, 1));
}

#[test]
fn four_quarter_turns_are_the_identity() {
    let data = coordinates(4, 4);
    let desc = descriptor(&data, 4, 4, 1, (0, 0));
    for y in 0..4 {
        for x in 0..4 {
            let a = shown(&desc, x, y);
            let b = shown(&desc, a.0, a.1);
            let c = shown(&desc, b.0, b.1);
            let d = shown(&desc, c.0, c.1);
            assert_eq!(d, (x, y));
            assert_ne!(a, (x, y));
        }
    }
}

#[test]
fn two_half_turns_are_the_identity() {
    let data = coordinates(5, 3);
    let desc = descriptor(&data, 5, 3, 2, (0, 0));
    for y in 0..3 {
        for x in 0..5 {
            let a = shown(&desc, x, y);
            assert_eq!(shown(&desc, a.0, a.1), (x, y));
        }
    }
}

#[test]
fn three_quarter_turn_undoes_quarter_turn() {
    let data = coordinates(4, 4);
    let forth = descriptor(&data, 4, 4, 1, (0, 0));
    let back = descriptor(&data, 4, 4, 3, (0, 0));
    for y in 0..4 {
        for x in 0..4 {
            let a = shown(&forth, x, y);
            assert_eq!(shown(&back, a.0, a.1), (x, y));
        }
    }
}

#[test]
fn sampler_shows_every_pixel_exactly_once() {
    let data = coordinates(4, 4);
    for rotation in 0..4u8 {
        for offset in [(0, 0), (1, 3), (6, 9)] {
            let desc = descriptor(&data, 4, 4, rotation, offset);
            let mut seen = [[false; 4]; 4];
            for y in 0..4 {
                for x in 0..4 {
                    let (tx, ty) = shown(&desc, x, y);
                    assert!(!seen[ty][tx]);
                    seen[ty][tx] = true;
                }
            }
            assert!(seen.iter().all(|row| row.iter().all(|&s| s)));
        }
    }
}

#[test]
fn quarter_turn_of_an_oblong_texture_is_no_bijection() {
    let data = coordinates(4, 2);
    let desc = descriptor(&data, 4, 2, 1, (0, 0));
    assert_eq!(shown(&desc, 0, 0), shown(&desc, 2, 0));
}

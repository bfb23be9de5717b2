use texture_crossfade::fixed::{Fixed, SCALE};
use texture_crossfade::projector::{blend_weight, project_box_coord, tile_progress};

fn fixed(v: f32) -> Fixed {
    (v * 1_000_000.0).round() as Fixed
}

#[test]
fn project_box_coord_correctness() {
    let threshold = fixed(0.2);
    assert_eq!(
        project_box_coord(fixed(0.), fixed(0.), threshold),
        (fixed(0.), fixed(0.), -1, -1)
    );
    assert_eq!(
        project_box_coord(fixed(1.), fixed(1.), threshold),
        (fixed(0.), fixed(0.), 1, 1)
    );
    assert_eq!(
        project_box_coord(fixed(0.5), fixed(0.5), threshold),
        (fixed(-1.), fixed(-1.), 1, 1)
    );
    assert_eq!(
        project_box_coord(fixed(0.05), fixed(0.95), threshold),
        (fixed(0.5), fixed(-0.5000001), -1, 1)
    );
}

#[test]
fn projection_inside_the_low_band_rises_from_the_edge() {
    // threshold 0.4: the band reaches 0.2 into the tile.
    let (wx, wy, sx, sy) = project_box_coord(0, 100_000, 400_000);
    assert_eq!((wx, sx), (0, -1));
    assert_eq!((wy, sy), (500_000, -1));
    let (wx, _, sx, _) = project_box_coord(199_999, 0, 400_000);
    assert_eq!((wx, sx), (999_995, -1));
}

#[test]
fn projection_inside_the_high_band_rises_to_the_edge() {
    let (wx, wy, sx, sy) = project_box_coord(900_000, 999_999, 400_000);
    assert_eq!((wx, sx), (-500_000, 1));
    assert_eq!((wy, sy), (-5, 1));
}

#[test]
fn projection_between_the_bands_takes_the_side_of_the_midline() {
    let threshold = 400_000;
    assert_eq!(project_box_coord(200_000, 499_999, threshold), (SCALE, SCALE, -1, -1));
    assert_eq!(project_box_coord(500_000, 800_000, threshold), (-SCALE, -SCALE, 1, 1));
}

#[test]
fn zero_threshold_never_blends() {
    for step in 0..=100 {
        let x = step * 10_000;
        let (wx, wy, sx, sy) = project_box_coord(x, SCALE - x, 0);
        let expect_x = if x < 500_000 { (SCALE, -1) } else { (-SCALE, 1) };
        let expect_y = if SCALE - x < 500_000 { (SCALE, -1) } else { (-SCALE, 1) };
        assert_eq!((wx, sx), expect_x);
        assert_eq!((wy, sy), expect_y);
        assert!(blend_weight(wx) == 0 || blend_weight(wx) == SCALE);
    }
}

#[test]
fn full_threshold_blends_across_the_whole_tile() {
    // threshold 1: the low band is the low half, the high band the high half.
    assert_eq!(project_box_coord(250_000, 750_000, SCALE), (500_000, -500_000, -1, 1));
    assert_eq!(project_box_coord(0, 499_999, SCALE), (0, 999_998, -1, -1));
    assert_eq!(project_box_coord(0, 500_000, SCALE), (0, -SCALE, -1, 1));
    assert_eq!(project_box_coord(500_001, SCALE, SCALE), (-999_998, 0, 1, 1));
}

#[test]
fn axis_weights_sum_to_one() {
    for threshold in [1, 100_000, 333_333, 500_000, 999_999, SCALE] {
        for step in 0..=1000 {
            let x = step * 1000;
            let (wx, wy, _, _) = project_box_coord(x, SCALE - x, threshold);
            for w in [wx, wy] {
                assert!(-SCALE <= w && w <= SCALE);
                let high = blend_weight(w);
                let low = SCALE - high;
                assert!(0 <= high && high <= SCALE);
                assert!(0 <= low && low <= SCALE);
                assert_eq!(low + high, SCALE);
            }
        }
    }
}

#[test]
fn blend_weight_rescales_to_unit_range() {
    assert_eq!(blend_weight(-SCALE), 0);
    assert_eq!(blend_weight(0), 500_000);
    assert_eq!(blend_weight(SCALE), SCALE);
    assert_eq!(blend_weight(500_000), 750_000);
    assert_eq!(blend_weight(-500_000), 250_000);
    assert_eq!(blend_weight(-1), 499_999);
}

#[test]
fn tile_progress_is_the_fraction_of_the_tile() {
    assert_eq!(tile_progress(0, 4), 0);
    assert_eq!(tile_progress(1, 4), 250_000);
    assert_eq!(tile_progress(3, 4), 750_000);
    assert_eq!(tile_progress(1, 3), 333_333);
    assert_eq!(tile_progress(2, 3), 666_666);
    assert_eq!(tile_progress(usize::MAX - 1, usize::MAX), 999_999);
}

use texture_crossfade::corner::get_tile_indices_for_corner;

#[test]
fn corner_of_the_first_cell_wraps_to_the_last_row_and_column() {
    // Cells (3,3), (0,3), (3,0), (0,0) of a grid of four by four.
    assert_eq!(get_tile_indices_for_corner(4, (0, 0), (-1, -1)), (15, 12, 3, 0));
}

#[test]
fn corner_of_the_last_cell_wraps_to_the_first_row_and_column() {
    // Cells (3,3), (0,3), (3,0), (0,0).
    assert_eq!(get_tile_indices_for_corner(4, (3, 3), (1, 1)), (15, 12, 3, 0));
}

#[test]
fn corners_of_an_inner_cell() {
    // Cell (1,2) of a grid of four by four has index 9.
    assert_eq!(get_tile_indices_for_corner(4, (1, 2), (-1, -1)), (4, 5, 8, 9));
    assert_eq!(get_tile_indices_for_corner(4, (1, 2), (1, -1)), (5, 6, 9, 10));
    assert_eq!(get_tile_indices_for_corner(4, (1, 2), (-1, 1)), (8, 9, 12, 13));
    assert_eq!(get_tile_indices_for_corner(4, (1, 2), (1, 1)), (9, 10, 13, 14));
}

#[test]
fn corners_wrap_on_one_axis_alone() {
    assert_eq!(get_tile_indices_for_corner(3, (0, 1), (-1, 1)), (5, 3, 8, 6));
    assert_eq!(get_tile_indices_for_corner(3, (1, 2), (1, 1)), (7, 8, 1, 2));
}

#[test]
fn a_grid_of_one_cell_is_its_own_neighbour() {
    for side in [(-1, -1), (-1, 1), (1, -1), (1, 1)] {
        assert_eq!(get_tile_indices_for_corner(1, (0, 0), side), (0, 0, 0, 0));
    }
}

#[test]
fn corner_always_includes_the_current_cell() {
    for tile_count in 1..=6usize {
        for y in 0..tile_count {
            for x in 0..tile_count {
                let current = y * tile_count + x;
                for (side, place) in [((-1, -1), 3), ((1, -1), 2), ((-1, 1), 1), ((1, 1), 0)] {
                    let (a, b, c, d) = get_tile_indices_for_corner(tile_count, (x, y), side);
                    let cells = [a, b, c, d];
                    assert_eq!(cells[place], current);
                    for cell in cells {
                        assert!(cell < tile_count * tile_count);
                    }
                }
            }
        }
    }
}

#[test]
fn corner_cells_are_neighbours_on_the_torus() {
    let n = 5usize;
    for y in 0..n {
        for x in 0..n {
            let (tl, tr, bl, br) = get_tile_indices_for_corner(n, (x, y), (-1, 1));
            assert_eq!(tl, y * n + (x + n - 1) % n);
            assert_eq!(tr, y * n + x);
            assert_eq!(bl, ((y + 1) % n) * n + (x + n - 1) % n);
            assert_eq!(br, ((y + 1) % n) * n + x);
        }
    }
}

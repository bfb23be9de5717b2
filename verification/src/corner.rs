//! The corner resolver: the four grid cells that meet at a corner of a tile.
//!
//! The grid is a torus: the cell left of column zero is the last column, and
//! the cell above row zero is the last row.

use vstd::arithmetic::div_mod::{lemma_fundamental_div_mod_converse, lemma_small_mod};
use vstd::prelude::*;

verus! {

/// The coordinate one `step` away from `v` on an axis of `tile_count` cells
/// that wraps round.
pub open spec fn wrap_step(tile_count: int, v: int, step: int) -> int {
    (v + step) % tile_count
}

/// The index of the cell in column `x` and row `y` of a row-major grid.
pub open spec fn cell_index(tile_count: int, x: int, y: int) -> int {
    y * tile_count + x
}

/// The cells round the corner of cell `(tile_x, tile_y)` that lies on the
/// side `(side_x, side_y)`, as (top left, top right, bottom left, bottom
/// right). The block reaches one cell from the current one toward the side of
/// each axis, with wraparound.
pub open spec fn corner_cells(
    tile_count: int,
    tile_x: int,
    tile_y: int,
    side_x: int,
    side_y: int,
) -> (int, int, int, int) {
    let left = if side_x < 0 {
        wrap_step(tile_count, tile_x, -1)
    } else {
        tile_x
    };
    let right = if side_x < 0 {
        tile_x
    } else {
        wrap_step(tile_count, tile_x, 1)
    };
    let top = if side_y < 0 {
        wrap_step(tile_count, tile_y, -1)
    } else {
        tile_y
    };
    let bottom = if side_y < 0 {
        tile_y
    } else {
        wrap_step(tile_count, tile_y, 1)
    };
    (
        cell_index(tile_count, left, top),
        cell_index(tile_count, right, top),
        cell_index(tile_count, left, bottom),
        cell_index(tile_count, right, bottom),
    )
}

/// A step along a wrapping axis stays on the axis: it moves by one, except
/// from the last cell forward, which leads to cell zero, and from cell zero
/// backward, which leads to the last cell.
pub proof fn lemma_wrap_step(tile_count: int, v: int)
    requires
        0 <= v < tile_count,
    ensures
        wrap_step(tile_count, v, 1) == if v == tile_count - 1 {
            0
        } else {
            v + 1
        },
        wrap_step(tile_count, v, -1) == if v == 0 {
            tile_count - 1
        } else {
            v - 1
        },
{
    if v == tile_count - 1 {
        lemma_fundamental_div_mod_converse(v + 1, tile_count, 1, 0);
    } else {
        lemma_small_mod((v + 1) as nat, tile_count as nat);
    }
    if v == 0 {
        lemma_fundamental_div_mod_converse(v - 1, tile_count, -1, tile_count - 1);
    } else {
        lemma_small_mod((v - 1) as nat, tile_count as nat);
    }
}

/// A cell of the grid has an index below the number of cells.
pub proof fn lemma_cell_index_range(tile_count: int, x: int, y: int)
    requires
        0 <= x < tile_count,
        0 <= y < tile_count,
    ensures
        0 <= cell_index(tile_count, x, y) < tile_count * tile_count,
{
    assert(0 <= y * tile_count + x < tile_count * tile_count) by (nonlinear_arith)
        requires
            0 <= x < tile_count,
            0 <= y < tile_count,
    ;
}

/// The four cells round a corner are cells of the grid, and the current cell
/// is one of them: the one diagonally opposite the corner's side.
pub proof fn lemma_corner_includes_current_cell(
    tile_count: int,
    tile_x: int,
    tile_y: int,
    side_x: int,
    side_y: int,
)
    requires
        0 <= tile_x < tile_count,
        0 <= tile_y < tile_count,
    ensures
        ({
            let cells = corner_cells(tile_count, tile_x, tile_y, side_x, side_y);
            let current = cell_index(tile_count, tile_x, tile_y);
            &&& 0 <= cells.0 < tile_count * tile_count
            &&& 0 <= cells.1 < tile_count * tile_count
            &&& 0 <= cells.2 < tile_count * tile_count
            &&& 0 <= cells.3 < tile_count * tile_count
            &&& side_x < 0 && side_y < 0 ==> cells.3 == current
            &&& side_x >= 0 && side_y < 0 ==> cells.2 == current
            &&& side_x < 0 && side_y >= 0 ==> cells.1 == current
            &&& side_x >= 0 && side_y >= 0 ==> cells.0 == current
            &&& cells.0 == current || cells.1 == current || cells.2 == current || cells.3
                == current
        }),
{
    lemma_wrap_step(tile_count, tile_x);
    lemma_wrap_step(tile_count, tile_y);
    let left = if side_x < 0 {
        wrap_step(tile_count, tile_x, -1)
    } else {
        tile_x
    };
    let right = if side_x < 0 {
        tile_x
    } else {
        wrap_step(tile_count, tile_x, 1)
    };
    let top = if side_y < 0 {
        wrap_step(tile_count, tile_y, -1)
    } else {
        tile_y
    };
    let bottom = if side_y < 0 {
        tile_y
    } else {
        wrap_step(tile_count, tile_y, 1)
    };
    lemma_cell_index_range(tile_count, left, top);
    lemma_cell_index_range(tile_count, right, top);
    lemma_cell_index_range(tile_count, left, bottom);
    lemma_cell_index_range(tile_count, right, bottom);
}

fn inc_wrap(tile_count: usize, v: usize) -> (r: usize)
    requires
        v < tile_count,
    ensures
        r == wrap_step(tile_count as int, v as int, 1),
        r < tile_count,
{
    proof {
        lemma_wrap_step(tile_count as int, v as int);
    }
    if v == tile_count - 1 {
        0
    } else {
        v + 1
    }
}

fn dec_wrap(tile_count: usize, v: usize) -> (r: usize)
    requires
        v < tile_count,
    ensures
        r == wrap_step(tile_count as int, v as int, -1),
        r < tile_count,
{
    proof {
        lemma_wrap_step(tile_count as int, v as int);
    }
    if v == 0 {
        tile_count - 1
    } else {
        v - 1
    }
}

fn coords_to_ix(tile_count: usize, x: usize, y: usize) -> (r: usize)
    requires
        x < tile_count,
        y < tile_count,
        tile_count * tile_count <= usize::MAX,
    ensures
        r == cell_index(tile_count as int, x as int, y as int),
        r < tile_count * tile_count,
{
    proof {
        lemma_cell_index_range(tile_count as int, x as int, y as int);
        assert(0 <= y * tile_count <= tile_count * tile_count) by (nonlinear_arith)
            requires
                0 <= y < tile_count,
        ;
    }
    y * tile_count + x
}

/// Returns the indices of the cells round a corner of the cell `tile`, as
/// (top left, top right, bottom left, bottom right).
///
/// `tile` is the cell's (column, row) in a grid of `tile_count` cells a side,
/// and `side`, each component -1 or +1, names the corner: the block of four
/// reaches one cell toward that side on each axis, wrapping round at the
/// edges of the grid. The current cell is always one of the four.
pub fn get_tile_indices_for_corner(
    tile_count: usize,
    tile: (usize, usize),
    side: (i8, i8),
) -> (cells: (usize, usize, usize, usize))
    requires
        tile.0 < tile_count,
        tile.1 < tile_count,
        tile_count * tile_count <= usize::MAX,
        side.0 == -1 || side.0 == 1,
        side.1 == -1 || side.1 == 1,
    ensures
        (cells.0 as int, cells.1 as int, cells.2 as int, cells.3 as int) == corner_cells(
            tile_count as int,
            tile.0 as int,
            tile.1 as int,
            side.0 as int,
            side.1 as int,
        ),
        cells.0 < tile_count * tile_count,
        cells.1 < tile_count * tile_count,
        cells.2 < tile_count * tile_count,
        cells.3 < tile_count * tile_count,
        cells.0 == tile.1 * tile_count + tile.0 || cells.1 == tile.1 * tile_count + tile.0
            || cells.2 == tile.1 * tile_count + tile.0 || cells.3 == tile.1 * tile_count
            + tile.0,
{
    let (tile_x, tile_y) = tile;
    let (x_side, y_side) = side;
    proof {
        lemma_corner_includes_current_cell(
            tile_count as int,
            tile_x as int,
            tile_y as int,
            x_side as int,
            y_side as int,
        );
    }
    if x_side == -1 && y_side == -1 {
        (
            coords_to_ix(tile_count, dec_wrap(tile_count, tile_x), dec_wrap(tile_count, tile_y)),
            coords_to_ix(tile_count, tile_x, dec_wrap(tile_count, tile_y)),
            coords_to_ix(tile_count, dec_wrap(tile_count, tile_x), tile_y),
            coords_to_ix(tile_count, tile_x, tile_y),
        )
    } else if x_side == -1 {
        (
            coords_to_ix(tile_count, dec_wrap(tile_count, tile_x), tile_y),
            coords_to_ix(tile_count, tile_x, tile_y),
            coords_to_ix(tile_count, dec_wrap(tile_count, tile_x), inc_wrap(tile_count, tile_y)),
            coords_to_ix(tile_count, tile_x, inc_wrap(tile_count, tile_y)),
        )
    } else if y_side == -1 {
        (
            coords_to_ix(tile_count, tile_x, dec_wrap(tile_count, tile_y)),
            coords_to_ix(tile_count, inc_wrap(tile_count, tile_x), dec_wrap(tile_count, tile_y)),
            coords_to_ix(tile_count, tile_x, tile_y),
            coords_to_ix(tile_count, inc_wrap(tile_count, tile_x), tile_y),
        )
    } else {
        (
            coords_to_ix(tile_count, tile_x, tile_y),
            coords_to_ix(tile_count, inc_wrap(tile_count, tile_x), tile_y),
            coords_to_ix(tile_count, tile_x, inc_wrap(tile_count, tile_y)),
            coords_to_ix(tile_count, inc_wrap(tile_count, tile_x), inc_wrap(tile_count, tile_y)),
        )
    }
}

} // verus!

//! The compositor: lays the textures of a registry out over the grid and
//! crossfades each tile into its neighbours.

use crate::blend::{
    blend_corners, blend_corners_spec, lemma_blend_at_ends_selects,
    lemma_uncorrected_blend_is_convex, CornerColors, Corners,
};
use crate::color::{
    color_bytes, color_of_bytes, debug_color_spec, get_debug_color, lemma_average_channel_bound,
    lemma_color_bytes_of_bytes, Color, Rgb,
};
use crate::corner::{cell_index, corner_cells, get_tile_indices_for_corner};
use crate::fixed::{Fixed, SCALE};
use crate::projector::{
    blend_weight, high_weight, is_interior, lemma_axis_weights_sum_to_one,
    lemma_interior_projects_to_ends, lemma_tile_progress_range, lemma_zero_threshold_is_interior,
    project_axis, project_box_coord, tile_progress, tile_progress_spec,
};
use crate::registry::{CrossfadeError, Registry, RegistryView};
use crate::sampler::{
    read_texture, read_texture_spec, texel_bytes, texel_coord, texel_spec, TileDescriptor,
};
use vstd::arithmetic::div_mod::{
    lemma_fundamental_div_mod, lemma_fundamental_div_mod_converse, lemma_mod_pos_bound,
};
use vstd::prelude::*;

verus! {

/// What one composition is made with.
#[derive(Clone, Copy, Debug, PartialEq, Eq, Structural)]
pub struct RenderParameters {
    /// Width of a tile, and of every texture, in pixels.
    pub tile_pixel_width: usize,
    /// Height of a tile, and of every texture, in pixels.
    pub tile_pixel_height: usize,
    /// Number of tiles along each side of the grid.
    pub tile_count: usize,
    /// Width of the blend band as a fraction of the tile, between zero and
    /// one.
    pub blend_threshold: Fixed,
    /// Whether each tile shows the debug colour of its slot in place of its
    /// texture.
    pub debug: bool,
    /// How far the contrast correction is applied: not at all at zero, in
    /// full at one.
    pub contrast_correction_factor: Fixed,
}

impl RenderParameters {
    /// Width of the output image in pixels.
    pub open spec fn out_width(self) -> int {
        self.tile_pixel_width * self.tile_count
    }

    /// Height of the output image in pixels.
    pub open spec fn out_height(self) -> int {
        self.tile_pixel_height * self.tile_count
    }

    /// Number of cells of the grid.
    pub open spec fn cell_count(self) -> int {
        self.tile_count * self.tile_count
    }

    /// Number of bytes of a texture of the size of a tile.
    pub open spec fn texture_len(self) -> int {
        self.tile_pixel_width * self.tile_pixel_height * 4
    }

    /// The cell of the grid that the output pixel `(x, y)` lies in.
    pub open spec fn own_cell(self, x: int, y: int) -> int {
        cell_index(
            self.tile_count as int,
            x / (self.tile_pixel_width as int),
            y / (self.tile_pixel_height as int),
        )
    }
}

/// The texture coordinate that `cell` shows at the pixel `(px, py)` of a
/// tile.
pub open spec fn cell_texel(
    reg: RegistryView,
    p: RenderParameters,
    cell: int,
    px: int,
    py: int,
) -> (int, int) {
    let tile = reg.tiles[cell];
    texel_coord(
        tile.rotation as int,
        tile.offset_x as int,
        tile.offset_y as int,
        p.tile_pixel_width as int,
        p.tile_pixel_height as int,
        px,
        py,
    )
}

/// The colour that `cell` contributes at the pixel `(px, py)` of a tile: in
/// debug mode the debug colour of the cell's slot, else the sample of the
/// cell's texture through the cell's offset and rotation.
pub open spec fn cell_sample(
    reg: RegistryView,
    p: RenderParameters,
    cell: int,
    px: int,
    py: int,
) -> Color {
    if p.debug {
        debug_color_spec(reg.slot_of(cell))
    } else {
        let shown = cell_texel(reg, p, cell, px, py);
        texel_spec(reg.cell_pixels(cell), p.tile_pixel_width as int, shown.0, shown.1)
    }
}

/// The samples of the four cells round a corner at the pixel `(px, py)` of a
/// tile.
pub open spec fn corner_samples(
    reg: RegistryView,
    p: RenderParameters,
    cells: (int, int, int, int),
    px: int,
    py: int,
) -> CornerColors {
    CornerColors {
        top_left: cell_sample(reg, p, cells.0, px, py),
        top_right: cell_sample(reg, p, cells.1, px, py),
        bottom_left: cell_sample(reg, p, cells.2, px, py),
        bottom_right: cell_sample(reg, p, cells.3, px, py),
    }
}

/// The mean colours of the textures of the four cells round a corner.
pub open spec fn corner_averages(reg: RegistryView, cells: (int, int, int, int)) -> CornerColors {
    CornerColors {
        top_left: reg.cell_average(cells.0),
        top_right: reg.cell_average(cells.1),
        bottom_left: reg.cell_average(cells.2),
        bottom_right: reg.cell_average(cells.3),
    }
}

/// The four cells that blend at the output pixel `(x, y)`: the cells round
/// the corner of the pixel's tile that the pixel is nearest to.
pub open spec fn pixel_cells(p: RenderParameters, x: int, y: int) -> (int, int, int, int) {
    let w = p.tile_pixel_width as int;
    let h = p.tile_pixel_height as int;
    let threshold = p.blend_threshold as int;
    corner_cells(
        p.tile_count as int,
        x / w,
        y / h,
        project_axis(tile_progress_spec(x % w, w), threshold).1,
        project_axis(tile_progress_spec(y % h, h), threshold).1,
    )
}

/// The colour of the output pixel `(x, y)`: the position of the pixel in its
/// tile is projected to a corner and a pair of weights, and the four cells
/// round that corner are blended with those weights.
pub open spec fn pixel_color(reg: RegistryView, p: RenderParameters, x: int, y: int) -> Color {
    let w = p.tile_pixel_width as int;
    let h = p.tile_pixel_height as int;
    let px = x % w;
    let py = y % h;
    let threshold = p.blend_threshold as int;
    let cells = pixel_cells(p, x, y);
    blend_corners_spec(
        corner_samples(reg, p, cells, px, py),
        corner_averages(reg, cells),
        high_weight(tile_progress_spec(px, w), threshold),
        high_weight(tile_progress_spec(py, h), threshold),
        p.contrast_correction_factor as int,
    )
}

/// The red, green and blue bytes of the output pixel `(x, y)`.
pub open spec fn pixel_spec(reg: RegistryView, p: RenderParameters, x: int, y: int) -> (
    u8,
    u8,
    u8,
) {
    color_bytes(pixel_color(reg, p, x, y))
}

/// The RGBA buffer `out` holds the opaque colour `c` as its pixel `k`.
pub open spec fn holds_pixel(out: Seq<u8>, k: int, c: (u8, u8, u8)) -> bool {
    &&& out[4 * k] == c.0
    &&& out[4 * k + 1] == c.1
    &&& out[4 * k + 2] == c.2
    &&& out[4 * k + 3] == 255
}

/// `out` is the composition: row by row and without padding, the RGBA
/// pixels of the image of `out_width` by `out_height` pixels, each with the
/// colour that `pixel_spec` gives it, and opaque.
pub open spec fn is_composite(out: Seq<u8>, reg: RegistryView, p: RenderParameters) -> bool {
    &&& out.len() == 4 * p.out_width() * p.out_height()
    &&& forall|x: int, y: int|
        0 <= x < p.out_width() && 0 <= y < p.out_height() ==> holds_pixel(
            out,
            y * p.out_width() + x,
            #[trigger] pixel_spec(reg, p, x, y),
        )
}

/// Why a composition is refused, if it is. The conditions are tried in this
/// order: the threshold must lie between zero and one; the registry must
/// have a cell for every cell of the grid; every cell of the grid must refer
/// to a slot that holds a texture; unless in debug mode, each of these
/// textures must have the size of a tile; and the output must be
/// addressable.
pub open spec fn generate_error(reg: RegistryView, p: RenderParameters) -> Option<CrossfadeError> {
    if p.blend_threshold < 0 || p.blend_threshold > SCALE {
        Some(CrossfadeError::InvalidThreshold)
    } else if p.cell_count() > reg.tiles.len() {
        Some(CrossfadeError::TooManyTiles)
    } else if exists|cell: int| 0 <= cell < p.cell_count() && !#[trigger] reg.cell_is_set(cell) {
        Some(CrossfadeError::UnsetTexture)
    } else if !p.debug && exists|cell: int|
        0 <= cell < p.cell_count() && (#[trigger] reg.cell_pixels(cell)).len() != p.texture_len() {
        Some(CrossfadeError::TextureSizeMismatch)
    } else if 4 * p.out_width() * p.out_height() > usize::MAX {
        Some(CrossfadeError::OutputTooLarge)
    } else {
        None
    }
}

/// The descriptor `desc` is that of cell `cell` of the registry.
pub open spec fn descriptor_matches(
    desc: TileDescriptor,
    reg: RegistryView,
    p: RenderParameters,
    cell: int,
) -> bool {
    &&& reg.cell_is_set(cell)
    &&& desc.width == p.tile_pixel_width
    &&& desc.height == p.tile_pixel_height
    &&& desc.tex_ix == reg.slot_of(cell)
    &&& desc.data@ == reg.cell_pixels(cell)
    &&& desc.average_color@ == reg.cell_average(cell)
    &&& desc.rotation == reg.tiles[cell].rotation
    &&& desc.offset_x == reg.tiles[cell].offset_x
    &&& desc.offset_y == reg.tiles[cell].offset_y
    &&& desc.rotation < 4
}

/// The output pixel `(x, y)` lies between the blend bands of its tile on
/// both axes.
pub open spec fn is_interior_pixel(p: RenderParameters, x: int, y: int) -> bool {
    let w = p.tile_pixel_width as int;
    let h = p.tile_pixel_height as int;
    &&& is_interior(tile_progress_spec(x % w, w), p.blend_threshold as int)
    &&& is_interior(tile_progress_spec(y % h, h), p.blend_threshold as int)
}

/// What the own tile of the output pixel `(x, y)` shows there, as a colour.
pub open spec fn own_sample(reg: RegistryView, p: RenderParameters, x: int, y: int) -> Color {
    cell_sample(
        reg,
        p,
        p.own_cell(x, y),
        x % (p.tile_pixel_width as int),
        y % (p.tile_pixel_height as int),
    )
}

/// The bytes of the texture of the own tile of the output pixel `(x, y)` at
/// the place that the tile's offset and rotation lead to.
pub open spec fn own_texel_bytes(reg: RegistryView, p: RenderParameters, x: int, y: int) -> (
    u8,
    u8,
    u8,
) {
    let own = p.own_cell(x, y);
    let shown = cell_texel(
        reg,
        p,
        own,
        x % (p.tile_pixel_width as int),
        y % (p.tile_pixel_height as int),
    );
    texel_bytes(reg.cell_pixels(own), p.tile_pixel_width as int, shown.0, shown.1)
}

/// Between the blend bands nothing is blended: a pixel that lies outside
/// the bands on both axes has the colour that its own tile shows there,
/// whatever the neighbours, the average colours and the contrast correction
/// factor. Outside debug mode the pixel is, byte for byte, the pixel of the
/// texture that the tile's offset and rotation lead to.
pub proof fn lemma_interior_pixel_is_unblended(
    reg: RegistryView,
    p: RenderParameters,
    x: int,
    y: int,
)
    requires
        is_interior_pixel(p, x, y),
    ensures
        pixel_color(reg, p, x, y) == own_sample(reg, p, x, y),
        pixel_spec(reg, p, x, y) == color_bytes(own_sample(reg, p, x, y)),
        !p.debug ==> pixel_spec(reg, p, x, y) == own_texel_bytes(reg, p, x, y),
{
    let w = p.tile_pixel_width as int;
    let h = p.tile_pixel_height as int;
    let px = x % w;
    let py = y % h;
    let threshold = p.blend_threshold as int;
    let across = tile_progress_spec(px, w);
    let down = tile_progress_spec(py, h);
    lemma_interior_projects_to_ends(across, threshold);
    lemma_interior_projects_to_ends(down, threshold);
    lemma_blend_at_ends_selects(
        corner_samples(reg, p, pixel_cells(p, x, y), px, py),
        corner_averages(reg, pixel_cells(p, x, y)),
        high_weight(across, threshold),
        high_weight(down, threshold),
        p.contrast_correction_factor as int,
    );
    if !p.debug {
        let bytes = own_texel_bytes(reg, p, x, y);
        lemma_color_bytes_of_bytes(bytes.0, bytes.1, bytes.2);
    }
}

/// With a threshold of zero nothing is blended anywhere: every pixel of the
/// output has the colour that its own tile shows there, whatever the
/// neighbours, the average colours and the contrast correction factor.
/// Outside debug mode the pixel is, byte for byte, the pixel of the texture
/// that the tile's offset and rotation lead to.
pub proof fn lemma_zero_threshold_is_unblended(
    reg: RegistryView,
    p: RenderParameters,
    x: int,
    y: int,
)
    requires
        p.blend_threshold == 0,
        0 <= x < p.out_width(),
        0 <= y < p.out_height(),
    ensures
        pixel_color(reg, p, x, y) == own_sample(reg, p, x, y),
        pixel_spec(reg, p, x, y) == color_bytes(own_sample(reg, p, x, y)),
        !p.debug ==> pixel_spec(reg, p, x, y) == own_texel_bytes(reg, p, x, y),
{
    let w = p.tile_pixel_width as int;
    let h = p.tile_pixel_height as int;
    assert(w > 0 && h > 0) by (nonlinear_arith)
        requires
            0 <= x < w * p.tile_count,
            0 <= y < h * p.tile_count,
            w >= 0,
            h >= 0,
    ;
    lemma_mod_pos_bound(x, w);
    lemma_mod_pos_bound(y, h);
    lemma_tile_progress_range(x % w, w);
    lemma_tile_progress_range(y % h, h);
    lemma_zero_threshold_is_interior(tile_progress_spec(x % w, w));
    lemma_zero_threshold_is_interior(tile_progress_spec(y % h, h));
    lemma_interior_pixel_is_unblended(reg, p, x, y);
}

/// Without contrast correction every pixel of the output is a convex
/// combination of the samples of the four cells round its corner: each of
/// its channels lies between the least and the greatest value of that
/// channel among the four.
pub proof fn lemma_uncorrected_pixel_is_convex(
    reg: RegistryView,
    p: RenderParameters,
    x: int,
    y: int,
    low: Color,
    high: Color,
)
    requires
        0 <= p.blend_threshold <= SCALE,
        p.contrast_correction_factor == 0,
        0 <= x < p.out_width(),
        0 <= y < p.out_height(),
        corner_samples(
            reg,
            p,
            pixel_cells(p, x, y),
            x % (p.tile_pixel_width as int),
            y % (p.tile_pixel_height as int),
        ).between(low, high),
    ensures
        pixel_color(reg, p, x, y).between(low, high),
{
    let w = p.tile_pixel_width as int;
    let h = p.tile_pixel_height as int;
    assert(w > 0 && h > 0) by (nonlinear_arith)
        requires
            0 <= x < w * p.tile_count,
            0 <= y < h * p.tile_count,
            w >= 0,
            h >= 0,
    ;
    let px = x % w;
    let py = y % h;
    lemma_mod_pos_bound(x, w);
    lemma_mod_pos_bound(y, h);
    lemma_tile_progress_range(px, w);
    lemma_tile_progress_range(py, h);
    let threshold = p.blend_threshold as int;
    let across = tile_progress_spec(px, w);
    let down = tile_progress_spec(py, h);
    lemma_axis_weights_sum_to_one(across, threshold);
    lemma_axis_weights_sum_to_one(down, threshold);
    let cells = pixel_cells(p, x, y);
    lemma_uncorrected_blend_is_convex(
        corner_samples(reg, p, cells, px, py),
        corner_averages(reg, cells),
        high_weight(across, threshold),
        high_weight(down, threshold),
        low,
        high,
    );
}

fn sample_cell(desc: &TileDescriptor, debug: bool, px: usize, py: usize) -> (c: Rgb)
    requires
        debug || desc.wf(),
    ensures
        c@ == if debug {
            debug_color_spec(desc.tex_ix as int)
        } else {
            read_texture_spec(*desc, px as int, py as int)
        },
        c@.between(color_of_bytes(0, 0, 0), color_of_bytes(255, 255, 255)),
{
    if debug {
        get_debug_color(desc.tex_ix)
    } else {
        read_texture(desc, px, py)
    }
}

fn composite_pixel(
    tiles: &Vec<TileDescriptor>,
    p: &RenderParameters,
    x: usize,
    y: usize,
    Ghost(reg): Ghost<RegistryView>,
) -> (c: Rgb)
    requires
        0 <= p.blend_threshold <= SCALE,
        x < p.out_width(),
        y < p.out_height(),
        tiles@.len() == p.cell_count(),
        forall|cell: int|
            0 <= cell < tiles@.len() ==> descriptor_matches(#[trigger] tiles@[cell], reg, *p, cell),
        !p.debug ==> forall|cell: int|
            0 <= cell < tiles@.len() ==> (#[trigger] tiles@[cell]).data@.len() == p.texture_len(),
    ensures
        c@ == pixel_color(reg, *p, x as int, y as int),
{
    let width = p.tile_pixel_width;
    let height = p.tile_pixel_height;
    let tile_count = p.tile_count;
    proof {
        let w = width as int;
        let h = height as int;
        let n = tile_count as int;
        assert(w > 0 && h > 0 && n > 0) by (nonlinear_arith)
            requires
                0 <= x < w * n,
                0 <= y < h * n,
                w >= 0,
                h >= 0,
                n >= 0,
        ;
        lemma_fundamental_div_mod(x as int, w);
        lemma_fundamental_div_mod(y as int, h);
        lemma_mod_pos_bound(x as int, w);
        lemma_mod_pos_bound(y as int, h);
        assert(0 <= x / width < n) by (nonlinear_arith)
            requires
                0 <= x < w * n,
                w > 0,
                x == w * (x / width) + x % width,
                0 <= x % width < w,
        ;
        assert(0 <= y / height < n) by (nonlinear_arith)
            requires
                0 <= y < h * n,
                h > 0,
                y == h * (y / height) + y % height,
                0 <= y % height < h,
        ;
        assert(tiles@.len() == tiles.len());
    }
    let cur_tile_x: usize = x % width;
    let x_cur_tile: usize = x / width;
    let cur_tile_y: usize = y % height;
    let y_cur_tile: usize = y / height;
    let x_cur_tile_progress = tile_progress(cur_tile_x, width);
    let y_cur_tile_progress = tile_progress(cur_tile_y, height);
    let (normalized_x, normalized_y, x_side, y_side) = project_box_coord(
        x_cur_tile_progress,
        y_cur_tile_progress,
        p.blend_threshold,
    );
    let weight_x = blend_weight(normalized_x);
    let weight_y = blend_weight(normalized_y);
    let (tl_tile_ix, tr_tile_ix, bl_tile_ix, br_tile_ix) = get_tile_indices_for_corner(
        tile_count,
        (x_cur_tile, y_cur_tile),
        (x_side, y_side),
    );
    let tl_tile = &tiles[tl_tile_ix];
    let tr_tile = &tiles[tr_tile_ix];
    let bl_tile = &tiles[bl_tile_ix];
    let br_tile = &tiles[br_tile_ix];
    proof {
        assert(descriptor_matches(tiles@[tl_tile_ix as int], reg, *p, tl_tile_ix as int));
        assert(descriptor_matches(tiles@[tr_tile_ix as int], reg, *p, tr_tile_ix as int));
        assert(descriptor_matches(tiles@[bl_tile_ix as int], reg, *p, bl_tile_ix as int));
        assert(descriptor_matches(tiles@[br_tile_ix as int], reg, *p, br_tile_ix as int));
        lemma_corner_averages_in_byte_range(
            reg,
            (tl_tile_ix as int, tr_tile_ix as int, bl_tile_ix as int, br_tile_ix as int),
        );
    }
    let samples = Corners {
        top_left: sample_cell(tl_tile, p.debug, cur_tile_x, cur_tile_y),
        top_right: sample_cell(tr_tile, p.debug, cur_tile_x, cur_tile_y),
        bottom_left: sample_cell(bl_tile, p.debug, cur_tile_x, cur_tile_y),
        bottom_right: sample_cell(br_tile, p.debug, cur_tile_x, cur_tile_y),
    };
    let averages = Corners {
        top_left: tl_tile.average_color,
        top_right: tr_tile.average_color,
        bottom_left: bl_tile.average_color,
        bottom_right: br_tile.average_color,
    };
    proof {
        let cells = (tl_tile_ix as int, tr_tile_ix as int, bl_tile_ix as int, br_tile_ix as int);
        assert(samples@ == corner_samples(reg, *p, cells, cur_tile_x as int, cur_tile_y as int));
        assert(averages@ == corner_averages(reg, cells));
    }
    blend_corners(samples, averages, weight_x, weight_y, p.contrast_correction_factor)
}

/// The mean colours of textures are colours of an 8-bit image.
pub proof fn lemma_corner_averages_in_byte_range(reg: RegistryView, cells: (int, int, int, int))
    ensures
        corner_averages(reg, cells).in_byte_range(),
{
    lemma_average_channel_bound(reg.cell_pixels(cells.0), 0);
    lemma_average_channel_bound(reg.cell_pixels(cells.0), 1);
    lemma_average_channel_bound(reg.cell_pixels(cells.0), 2);
    lemma_average_channel_bound(reg.cell_pixels(cells.1), 0);
    lemma_average_channel_bound(reg.cell_pixels(cells.1), 1);
    lemma_average_channel_bound(reg.cell_pixels(cells.1), 2);
    lemma_average_channel_bound(reg.cell_pixels(cells.2), 0);
    lemma_average_channel_bound(reg.cell_pixels(cells.2), 1);
    lemma_average_channel_bound(reg.cell_pixels(cells.2), 2);
    lemma_average_channel_bound(reg.cell_pixels(cells.3), 0);
    lemma_average_channel_bound(reg.cell_pixels(cells.3), 1);
    lemma_average_channel_bound(reg.cell_pixels(cells.3), 2);
}

/// The pixel in column `x` of row `y` is pixel `y * width + x` of a
/// row-major image.
proof fn lemma_row_major(width: int, x: int, y: int)
    requires
        0 <= x < width,
        0 <= y,
    ensures
        (y * width + x) % width == x,
        (y * width + x) / width == y,
        y * width + x >= 0,
{
    lemma_fundamental_div_mod_converse(y * width + x, width, y, x);
    assert(y * width >= 0) by (nonlinear_arith)
        requires
            y >= 0,
            width > 0,
    ;
}

/// Composes the output image: a grid of `tile_count` by `tile_count` tiles
/// of `width` by `height` pixels each, every tile showing the texture that
/// the registry assigns to its cell and fading into its neighbours within
/// half a `threshold` of each edge.
///
/// Returns the image as RGBA bytes, row by row, every pixel opaque and with
/// the colour that [`pixel_spec`] defines. The composition is refused, with
/// the error that [`generate_error`] names, where the threshold does not lie
/// between zero and one, where the grid has more cells than the registry,
/// where a cell of the grid refers to an empty slot, where a texture to be
/// sampled has not the size of a tile, and where the image would be too
/// large to address.
pub fn crossfade_generate(
    registry: &Registry,
    width: usize,
    height: usize,
    tile_count: usize,
    threshold: Fixed,
    debug: bool,
    contrast_correction_factor: Fixed,
) -> (r: Result<Vec<u8>, CrossfadeError>)
    requires
        registry.wf(),
    ensures
        ({
            let p = RenderParameters {
                tile_pixel_width: width,
                tile_pixel_height: height,
                tile_count,
                blend_threshold: threshold,
                debug,
                contrast_correction_factor,
            };
            match r {
                Ok(out) => generate_error(registry@, p) is None && is_composite(
                    out@,
                    registry@,
                    p,
                ),
                Err(e) => generate_error(registry@, p) == Some(e),
            }
        }),
{
    let p = RenderParameters {
        tile_pixel_width: width,
        tile_pixel_height: height,
        tile_count,
        blend_threshold: threshold,
        debug,
        contrast_correction_factor,
    };
    if threshold < 0 || threshold > SCALE {
        return Err(CrossfadeError::InvalidThreshold);
    }
    let capacity: usize = registry.tile_capacity();
    let cell_count: usize = match tile_count.checked_mul(tile_count) {
        Some(n) => n,
        None => {
            return Err(CrossfadeError::TooManyTiles);
        },
    };
    if cell_count > capacity {
        return Err(CrossfadeError::TooManyTiles);
    }
    let mut tiles: Vec<TileDescriptor> = Vec::new();
    let mut cell: usize = 0;
    while cell < cell_count
        invariant
            cell <= cell_count,
            cell_count == p.cell_count(),
            cell_count <= registry@.tiles.len(),
            p == (RenderParameters {
                tile_pixel_width: width,
                tile_pixel_height: height,
                tile_count,
                blend_threshold: threshold,
                debug,
                contrast_correction_factor,
            }),
            0 <= threshold <= SCALE,
            registry.wf(),
            tiles@.len() == cell,
            forall|c: int|
                0 <= c < cell ==> descriptor_matches(#[trigger] tiles@[c], registry@, p, c),
        decreases cell_count - cell,
    {
        match registry.tile_descriptor(cell, width, height) {
            Some(desc) => {
                tiles.push(desc);
            },
            None => {
                assert(!registry@.cell_is_set(cell as int));
                return Err(CrossfadeError::UnsetTexture);
            },
        }
        cell = cell + 1;
    }
    assert forall|c: int| 0 <= c < p.cell_count() implies #[trigger] registry@.cell_is_set(c) by {
        assert(descriptor_matches(tiles@[c], registry@, p, c));
    }
    if !debug {
        let expected: Option<usize> = match width.checked_mul(height) {
            Some(pixels) => pixels.checked_mul(4),
            None => None,
        };
        let mut k: usize = 0;
        while k < cell_count
            invariant
                k <= cell_count,
                cell_count == p.cell_count(),
                cell_count <= registry@.tiles.len(),
                tiles@.len() == cell_count,
                p == (RenderParameters {
                    tile_pixel_width: width,
                    tile_pixel_height: height,
                    tile_count,
                    blend_threshold: threshold,
                    debug,
                    contrast_correction_factor,
                }),
                0 <= threshold <= SCALE,
                !debug,
                forall|c: int| 0 <= c < p.cell_count() ==> #[trigger] registry@.cell_is_set(c),
                expected == if p.texture_len() <= usize::MAX {
                    Some(p.texture_len() as usize)
                } else {
                    None::<usize>
                },
                forall|c: int|
                    0 <= c < tiles@.len() ==> descriptor_matches(
                        #[trigger] tiles@[c],
                        registry@,
                        p,
                        c,
                    ),
                forall|c: int|
                    0 <= c < k ==> (#[trigger] tiles@[c]).data@.len() == p.texture_len(),
            decreases cell_count - k,
        {
            let len: usize = tiles[k].data.len();
            let fits: bool = match expected {
                Some(e) => len == e,
                None => false,
            };
            if !fits {
                assert(descriptor_matches(tiles@[k as int], registry@, p, k as int));
                assert(registry@.cell_pixels(k as int).len() != p.texture_len());
                return Err(CrossfadeError::TextureSizeMismatch);
            }
            k = k + 1;
        }
        assert forall|c: int| 0 <= c < p.cell_count() implies (#[trigger] registry@.cell_pixels(
            c,
        )).len() == p.texture_len() by {
            assert(descriptor_matches(tiles@[c], registry@, p, c));
        }
    }
    if width == 0 || height == 0 || tile_count == 0 {
        assert(4 * p.out_width() * p.out_height() == 0) by (nonlinear_arith)
            requires
                p.out_width() == width * tile_count,
                p.out_height() == height * tile_count,
                width == 0 || height == 0 || tile_count == 0,
        ;
        assert(p.out_width() == 0 || p.out_height() == 0) by (nonlinear_arith)
            requires
                p.out_width() == width * tile_count,
                p.out_height() == height * tile_count,
                width == 0 || height == 0 || tile_count == 0,
        ;
        return Ok(Vec::new());
    }
    proof {
        let ow = p.out_width();
        let oh = p.out_height();
        assert(ow >= 1 && oh >= 1 && 4 * ow * oh >= ow && 4 * ow * oh >= oh && 4 * ow * oh >= ow
            * oh) by (nonlinear_arith)
            requires
                ow == width * tile_count,
                oh == height * tile_count,
                width >= 1,
                height >= 1,
                tile_count >= 1,
        ;
    }
    let out_width: usize = match width.checked_mul(tile_count) {
        Some(n) => n,
        None => {
            return Err(CrossfadeError::OutputTooLarge);
        },
    };
    let out_height: usize = match height.checked_mul(tile_count) {
        Some(n) => n,
        None => {
            return Err(CrossfadeError::OutputTooLarge);
        },
    };
    let pixel_count: usize = match out_width.checked_mul(out_height) {
        Some(n) => n,
        None => {
            return Err(CrossfadeError::OutputTooLarge);
        },
    };
    let byte_count: usize = match pixel_count.checked_mul(4) {
        Some(n) => n,
        None => {
            assert(4 * p.out_width() * p.out_height() == (p.out_width() * p.out_height()) * 4)
                by (nonlinear_arith);
            return Err(CrossfadeError::OutputTooLarge);
        },
    };
    proof {
        assert(4 * p.out_width() * p.out_height() == (p.out_width() * p.out_height()) * 4)
            by (nonlinear_arith);
    }
    let mut out: Vec<u8> = Vec::with_capacity(byte_count);
    let mut y: usize = 0;
    while y < out_height
        invariant
            y <= out_height,
            out_width == p.out_width(),
            out_height == p.out_height(),
            out_width >= 1,
            0 <= p.blend_threshold <= SCALE,
            tiles@.len() == p.cell_count(),
            forall|c: int|
                0 <= c < tiles@.len() ==> descriptor_matches(#[trigger] tiles@[c], registry@, p, c),
            !p.debug ==> forall|c: int|
                0 <= c < tiles@.len() ==> (#[trigger] tiles@[c]).data@.len() == p.texture_len(),
            out@.len() == 4 * (y * out_width),
            forall|k: int|
                0 <= k < y * out_width ==> holds_pixel(
                    out@,
                    k,
                    #[trigger] pixel_spec(registry@, p, k % (out_width as int), k / (out_width as int)),
                ),
        decreases out_height - y,
    {
        let mut x: usize = 0;
        while x < out_width
            invariant
                x <= out_width,
                y < out_height,
                out_width == p.out_width(),
                out_height == p.out_height(),
                out_width >= 1,
                0 <= p.blend_threshold <= SCALE,
                tiles@.len() == p.cell_count(),
                forall|c: int|
                    0 <= c < tiles@.len() ==> descriptor_matches(
                        #[trigger] tiles@[c],
                        registry@,
                        p,
                        c,
                    ),
                !p.debug ==> forall|c: int|
                    0 <= c < tiles@.len() ==> (#[trigger] tiles@[c]).data@.len()
                        == p.texture_len(),
                out@.len() == 4 * (y * out_width + x),
                forall|k: int|
                    0 <= k < y * out_width + x ==> holds_pixel(
                        out@,
                        k,
                        #[trigger] pixel_spec(
                            registry@,
                            p,
                            k % (out_width as int),
                            k / (out_width as int),
                        ),
                    ),
            decreases out_width - x,
        {
            let sample = composite_pixel(&tiles, &p, x, y, Ghost(registry@));
            let (red, green, blue) = sample.to_bytes();
            proof {
                lemma_row_major(out_width as int, x as int, y as int);
            }
            out.push(red);
            out.push(green);
            out.push(blue);
            out.push(255);
            x = x + 1;
        }
        proof {
            assert((y + 1) * out_width == y * out_width + out_width) by (nonlinear_arith);
        }
        y = y + 1;
    }
    proof {
        assert forall|x: int, y: int|
            0 <= x < p.out_width() && 0 <= y < p.out_height() implies holds_pixel(
            out@,
            y * p.out_width() + x,
            #[trigger] pixel_spec(registry@, p, x, y),
        ) by {
            lemma_row_major(out_width as int, x, y);
            let k = y * out_width + x;
            assert(k < out_height * out_width) by (nonlinear_arith)
                requires
                    k == y * out_width + x,
                    0 <= x < out_width,
                    0 <= y < out_height,
            ;
            assert(holds_pixel(
                out@,
                k,
                pixel_spec(registry@, p, k % (out_width as int), k / (out_width as int)),
            ));
        }
        assert(4 * (out_height * out_width) == 4 * p.out_width() * p.out_height())
            by (nonlinear_arith)
            requires
                out_width == p.out_width(),
                out_height == p.out_height(),
        ;
    }
    Ok(out)
}

} // verus!

//! The texture sampler: reads the colour a tile shows at a pixel, through the
//! tile's offset and rotation.
//!
//! A texture wraps round on both axes. The offset shifts the sampled
//! position cyclically; the rotation then turns it by a multiple of a quarter
//! turn.

use crate::color::{color_of_bytes, Color, Rgb};
use vstd::arithmetic::div_mod::{
    lemma_add_mod_noop, lemma_fundamental_div_mod, lemma_fundamental_div_mod_converse,
    lemma_mod_pos_bound, lemma_small_mod,
};
use vstd::prelude::*;

verus! {

/// What the sampler needs to know of one grid cell: the texture assigned to
/// it, and how the cell shows it.
pub struct TileDescriptor<'a> {
    /// Width of the texture in pixels.
    pub width: usize,
    /// Height of the texture in pixels.
    pub height: usize,
    /// Index of the texture slot assigned to the cell.
    pub tex_ix: usize,
    /// The texture's pixels: RGBA, row-major.
    pub data: &'a [u8],
    /// The mean colour of the texture.
    pub average_color: Rgb,
    /// Quarter turns: 0, 1, 2 or 3.
    pub rotation: u8,
    /// Cyclic shift of the sampled column.
    pub offset_x: usize,
    /// Cyclic shift of the sampled row.
    pub offset_y: usize,
}

impl<'a> TileDescriptor<'a> {
    /// The descriptor can be sampled: the texture is not empty, its buffer
    /// holds exactly `width * height` RGBA pixels, and the rotation is one of
    /// the four codes.
    pub open spec fn wf(&self) -> bool {
        &&& self.width > 0
        &&& self.height > 0
        &&& self.data@.len() == self.width * self.height * 4
        &&& self.rotation < 4
    }
}

/// The position `v` shifted by `offset` on an axis of `extent` pixels that
/// wraps round.
pub open spec fn shift_coord(v: int, offset: int, extent: int) -> int {
    (v + offset) % extent
}

/// The texture coordinate that a rotated tile shows at `(x, y)`: the same
/// for rotation 0, `(y, height - 1 - x)` for a quarter turn,
/// `(width - 1 - x, height - 1 - y)` for a half turn and
/// `(height - 1 - y, x)` for three quarter turns, each wrapped into the
/// texture.
pub open spec fn rotate_coord(rotation: int, width: int, height: int, x: int, y: int) -> (
    int,
    int,
) {
    let tx = if rotation == 0 {
        x
    } else if rotation == 1 {
        y
    } else if rotation == 2 {
        width - 1 - x
    } else {
        height - 1 - y
    };
    let ty = if rotation == 0 {
        y
    } else if rotation == 1 {
        height - 1 - x
    } else if rotation == 2 {
        height - 1 - y
    } else {
        x
    };
    (tx % width, ty % height)
}

/// The texture coordinate that a tile shows at the pixel `(x, y)`: the
/// offset is added first, then the rotation applies.
pub open spec fn texel_coord(
    rotation: int,
    offset_x: int,
    offset_y: int,
    width: int,
    height: int,
    x: int,
    y: int,
) -> (int, int) {
    rotate_coord(
        rotation,
        width,
        height,
        shift_coord(x, offset_x, width),
        shift_coord(y, offset_y, height),
    )
}

/// The colour of the pixel at `(tx, ty)` of a row-major RGBA buffer `width`
/// pixels wide.
pub open spec fn texel_spec(data: Seq<u8>, width: int, tx: int, ty: int) -> Color {
    let bytes = texel_bytes(data, width, tx, ty);
    color_of_bytes(bytes.0, bytes.1, bytes.2)
}

/// The red, green and blue bytes of the pixel at `(tx, ty)` of a row-major
/// RGBA buffer `width` pixels wide.
pub open spec fn texel_bytes(data: Seq<u8>, width: int, tx: int, ty: int) -> (u8, u8, u8) {
    let ix = (ty * width + tx) * 4;
    (data[ix], data[ix + 1], data[ix + 2])
}

/// The colour that the tile shows at the pixel `(x, y)`.
pub open spec fn read_texture_spec(desc: TileDescriptor, x: int, y: int) -> Color {
    let t = texel_coord(
        desc.rotation as int,
        desc.offset_x as int,
        desc.offset_y as int,
        desc.width as int,
        desc.height as int,
        x,
        y,
    );
    texel_spec(desc.data@, desc.width as int, t.0, t.1)
}

/// The rotation that undoes `rotation`.
pub open spec fn inverse_rotation(rotation: int) -> int {
    (4 - rotation) % 4
}

/// A rotation suits a texture where it maps the texture onto itself: a half
/// turn suits every texture, a quarter turn only a square one.
pub open spec fn rotation_fits(rotation: int, width: int, height: int) -> bool {
    &&& 0 <= rotation < 4
    &&& width > 0
    &&& height > 0
    &&& rotation == 1 || rotation == 3 ==> width == height
}

/// The mirror image of a position on an axis, wrapped onto the axis.
proof fn lemma_mirror_mod(v: int, extent: int)
    requires
        extent > 0,
        v >= 0,
    ensures
        (extent - 1 - v) % extent == extent - 1 - (v % extent),
{
    lemma_fundamental_div_mod(v, extent);
    lemma_mod_pos_bound(v, extent);
    let q = v / extent;
    let r = v % extent;
    assert(extent - 1 - v == (-q) * extent + (extent - 1 - r)) by (nonlinear_arith)
        requires
            v == extent * q + r,
    ;
    lemma_fundamental_div_mod_converse(extent - 1 - v, extent, -q, extent - 1 - r);
}

/// A rotated coordinate lies inside the texture.
pub proof fn lemma_rotate_coord_range(rotation: int, width: int, height: int, x: int, y: int)
    requires
        width > 0,
        height > 0,
    ensures
        0 <= rotate_coord(rotation, width, height, x, y).0 < width,
        0 <= rotate_coord(rotation, width, height, x, y).1 < height,
{
}

/// Without rotation and offset a tile shows its texture as it is: the pixel
/// `(x, y)` of the tile is the pixel `(x, y)` of the texture.
pub proof fn lemma_identity_sampling(width: int, height: int, x: int, y: int)
    requires
        0 <= x < width,
        0 <= y < height,
    ensures
        texel_coord(0, 0, 0, width, height, x, y) == (x, y),
{
    lemma_small_mod(x as nat, width as nat);
    lemma_small_mod(y as nat, height as nat);
}

/// A rotation that suits the texture, applied to a coordinate inside it, is
/// the plain formula: nothing wraps.
pub proof fn lemma_rotate_coord_inside(rotation: int, width: int, height: int, x: int, y: int)
    requires
        rotation_fits(rotation, width, height),
        0 <= x < width,
        0 <= y < height,
    ensures
        rotate_coord(rotation, width, height, x, y) == if rotation == 0 {
            (x, y)
        } else if rotation == 1 {
            (y, height - 1 - x)
        } else if rotation == 2 {
            (width - 1 - x, height - 1 - y)
        } else {
            (height - 1 - y, x)
        },
{
    lemma_small_mod(x as nat, width as nat);
    lemma_small_mod(y as nat, height as nat);
    lemma_small_mod((width - 1 - x) as nat, width as nat);
    lemma_small_mod((height - 1 - y) as nat, height as nat);
    if rotation == 1 || rotation == 3 {
        lemma_small_mod(y as nat, width as nat);
        lemma_small_mod(x as nat, height as nat);
        lemma_small_mod((height - 1 - x) as nat, height as nat);
        lemma_small_mod((height - 1 - y) as nat, width as nat);
    }
}

/// Every rotation is undone by its inverse: on a texture that the rotation
/// suits, each coordinate comes back from the one it maps to.
pub proof fn lemma_inverse_rotation_undoes(rotation: int, width: int, height: int, x: int, y: int)
    requires
        rotation_fits(rotation, width, height),
        0 <= x < width,
        0 <= y < height,
    ensures
        ({
            let t = rotate_coord(rotation, width, height, x, y);
            rotate_coord(inverse_rotation(rotation), width, height, t.0, t.1) == (x, y)
        }),
{
    lemma_rotate_coord_inside(rotation, width, height, x, y);
    let t = rotate_coord(rotation, width, height, x, y);
    lemma_rotate_coord_inside(inverse_rotation(rotation), width, height, t.0, t.1);
}

/// Four quarter turns of a square texture are the identity.
pub proof fn lemma_quarter_turn_four_times(size: int, x: int, y: int)
    requires
        0 <= x < size,
        0 <= y < size,
    ensures
        ({
            let a = rotate_coord(1, size, size, x, y);
            let b = rotate_coord(1, size, size, a.0, a.1);
            let c = rotate_coord(1, size, size, b.0, b.1);
            rotate_coord(1, size, size, c.0, c.1) == (x, y)
        }),
{
    lemma_rotate_coord_inside(1, size, size, x, y);
    let a = rotate_coord(1, size, size, x, y);
    lemma_rotate_coord_inside(1, size, size, a.0, a.1);
    let b = rotate_coord(1, size, size, a.0, a.1);
    lemma_rotate_coord_inside(1, size, size, b.0, b.1);
    let c = rotate_coord(1, size, size, b.0, b.1);
    lemma_rotate_coord_inside(1, size, size, c.0, c.1);
}

/// Two half turns are the identity, on a texture of any shape.
pub proof fn lemma_half_turn_twice(width: int, height: int, x: int, y: int)
    requires
        0 <= x < width,
        0 <= y < height,
    ensures
        ({
            let a = rotate_coord(2, width, height, x, y);
            rotate_coord(2, width, height, a.0, a.1) == (x, y)
        }),
{
    lemma_rotate_coord_inside(2, width, height, x, y);
    let a = rotate_coord(2, width, height, x, y);
    lemma_rotate_coord_inside(2, width, height, a.0, a.1);
}

/// A cyclic shift maps an axis one to one onto itself: positions on the axis
/// that shift to the same place are the same.
pub proof fn lemma_shift_coord_injective(a: int, b: int, offset: int, extent: int)
    requires
        0 <= a < extent,
        0 <= b < extent,
        offset >= 0,
        shift_coord(a, offset, extent) == shift_coord(b, offset, extent),
    ensures
        a == b,
{
    lemma_fundamental_div_mod(a + offset, extent);
    lemma_fundamental_div_mod(b + offset, extent);
    let qa = (a + offset) / extent;
    let qb = (b + offset) / extent;
    assert(a - b == extent * (qa - qb)) by (nonlinear_arith)
        requires
            a + offset == extent * qa + (a + offset) % extent,
            b + offset == extent * qb + (b + offset) % extent,
            (a + offset) % extent == (b + offset) % extent,
    ;
    assert(qa == qb) by (nonlinear_arith)
        requires
            a - b == extent * (qa - qb),
            -extent < a - b < extent,
    ;
}

/// The sampler shows each pixel of the texture at exactly one pixel of the
/// tile: where the rotation suits the texture, two pixels of the tile that
/// show the same pixel of the texture are the same.
pub proof fn lemma_texel_coord_injective(
    rotation: int,
    offset_x: int,
    offset_y: int,
    width: int,
    height: int,
    x1: int,
    y1: int,
    x2: int,
    y2: int,
)
    requires
        rotation_fits(rotation, width, height),
        offset_x >= 0,
        offset_y >= 0,
        0 <= x1 < width,
        0 <= y1 < height,
        0 <= x2 < width,
        0 <= y2 < height,
        texel_coord(rotation, offset_x, offset_y, width, height, x1, y1) == texel_coord(
            rotation,
            offset_x,
            offset_y,
            width,
            height,
            x2,
            y2,
        ),
    ensures
        x1 == x2,
        y1 == y2,
{
    let sx1 = shift_coord(x1, offset_x, width);
    let sy1 = shift_coord(y1, offset_y, height);
    let sx2 = shift_coord(x2, offset_x, width);
    let sy2 = shift_coord(y2, offset_y, height);
    lemma_mod_pos_bound(x1 + offset_x, width);
    lemma_mod_pos_bound(y1 + offset_y, height);
    lemma_mod_pos_bound(x2 + offset_x, width);
    lemma_mod_pos_bound(y2 + offset_y, height);
    lemma_inverse_rotation_undoes(rotation, width, height, sx1, sy1);
    lemma_inverse_rotation_undoes(rotation, width, height, sx2, sy2);
    lemma_shift_coord_injective(x1, x2, offset_x, width);
    lemma_shift_coord_injective(y1, y2, offset_y, height);
}

/// The position on an axis that a cyclic shift by `offset` moves to `target`.
pub open spec fn unshift_coord(target: int, offset: int, extent: int) -> int {
    (target - offset) % extent
}

/// The pixel of the tile at which the sampler shows the pixel `(tx, ty)` of
/// the texture.
pub open spec fn source_coord(
    rotation: int,
    offset_x: int,
    offset_y: int,
    width: int,
    height: int,
    tx: int,
    ty: int,
) -> (int, int) {
    let s = rotate_coord(inverse_rotation(rotation), width, height, tx, ty);
    (unshift_coord(s.0, offset_x, width), unshift_coord(s.1, offset_y, height))
}

/// A cyclic shift reaches every position of the axis.
proof fn lemma_shift_after_unshift(target: int, offset: int, extent: int)
    requires
        0 <= target < extent,
    ensures
        0 <= unshift_coord(target, offset, extent) < extent,
        shift_coord(unshift_coord(target, offset, extent), offset, extent) == target,
{
    let u = (target - offset) % extent;
    lemma_fundamental_div_mod(target - offset, extent);
    let q = (target - offset) / extent;
    assert(u + offset == (-q) * extent + target) by (nonlinear_arith)
        requires
            target - offset == extent * q + u,
    ;
    lemma_fundamental_div_mod_converse(u + offset, extent, -q, target);
}

/// The sampler shows every pixel of the texture: where the rotation suits
/// the texture, each pixel of the texture is shown at the pixel of the tile
/// that `source_coord` names.
pub proof fn lemma_texel_coord_surjective(
    rotation: int,
    offset_x: int,
    offset_y: int,
    width: int,
    height: int,
    tx: int,
    ty: int,
)
    requires
        rotation_fits(rotation, width, height),
        0 <= tx < width,
        0 <= ty < height,
    ensures
        ({
            let p = source_coord(rotation, offset_x, offset_y, width, height, tx, ty);
            &&& 0 <= p.0 < width
            &&& 0 <= p.1 < height
            &&& texel_coord(rotation, offset_x, offset_y, width, height, p.0, p.1) == (tx, ty)
        }),
{
    let inv = inverse_rotation(rotation);
    let s = rotate_coord(inv, width, height, tx, ty);
    lemma_rotate_coord_range(inv, width, height, tx, ty);
    lemma_shift_after_unshift(s.0, offset_x, width);
    lemma_shift_after_unshift(s.1, offset_y, height);
    lemma_inverse_rotation_undoes(inv, width, height, tx, ty);
    assert(inverse_rotation(inv) == rotation);
}

fn wrapped_sum(v: usize, offset: usize, extent: usize) -> (r: usize)
    requires
        extent > 0,
    ensures
        r == shift_coord(v as int, offset as int, extent as int),
        r < extent,
{
    proof {
        lemma_add_mod_noop(v as int, offset as int, extent as int);
        lemma_mod_pos_bound(v as int, extent as int);
        lemma_mod_pos_bound(offset as int, extent as int);
        lemma_mod_pos_bound(v + offset, extent as int);
    }
    let a: usize = v % extent;
    let b: usize = offset % extent;
    if a >= extent - b {
        proof {
            lemma_fundamental_div_mod_converse(a + b, extent as int, 1, a + b - extent);
        }
        a - (extent - b)
    } else {
        proof {
            lemma_small_mod((a + b) as nat, extent as nat);
        }
        a + b
    }
}

fn mirrored(v: usize, extent: usize) -> (r: usize)
    requires
        extent > 0,
    ensures
        r == (extent - 1 - v) % (extent as int),
        r < extent,
{
    proof {
        lemma_mirror_mod(v as int, extent as int);
        lemma_mod_pos_bound(v as int, extent as int);
    }
    extent - 1 - v % extent
}

/// Reads the colour that a tile shows at its pixel `(x, y)`.
///
/// The tile's offset is added to the position, which wraps round the
/// texture; the rotation then maps it to the texture coordinate that
/// [`texel_coord`] gives, and the red, green and blue bytes at that
/// coordinate are the colour. Alpha is not read.
pub fn read_texture(desc: &TileDescriptor, x: usize, y: usize) -> (c: Rgb)
    requires
        desc.wf(),
    ensures
        c@ == read_texture_spec(*desc, x as int, y as int),
        c@.between(color_of_bytes(0, 0, 0), color_of_bytes(255, 255, 255)),
        desc.rotation == 0 && desc.offset_x == 0 && desc.offset_y == 0 && x < desc.width && y
            < desc.height ==> c@ == texel_spec(desc.data@, desc.width as int, x as int, y as int),
{
    let sx: usize = wrapped_sum(x, desc.offset_x, desc.width);
    let sy: usize = wrapped_sum(y, desc.offset_y, desc.height);
    let transformed_x: usize = if desc.rotation == 0 {
        sx
    } else if desc.rotation == 1 {
        sy % desc.width
    } else if desc.rotation == 2 {
        mirrored(sx, desc.width)
    } else {
        mirrored(sy, desc.height) % desc.width
    };
    let transformed_y: usize = if desc.rotation == 0 {
        sy
    } else if desc.rotation == 1 {
        mirrored(sx, desc.height)
    } else if desc.rotation == 2 {
        mirrored(sy, desc.height)
    } else {
        sx % desc.height
    };
    proof {
        let w = desc.width as int;
        let h = desc.height as int;
        lemma_small_mod(sx as nat, w as nat);
        lemma_small_mod(sy as nat, h as nat);
        lemma_small_mod((h - 1 - sy) as nat, h as nat);
        lemma_mod_pos_bound(sy as int, w);
        lemma_mod_pos_bound(sx as int, h);
        lemma_mod_pos_bound(h - 1 - sy, w);
        assert(0 <= transformed_y * w && transformed_y * w + transformed_x < w * h)
            by (nonlinear_arith)
            requires
                0 <= transformed_x < w,
                0 <= transformed_y < h,
        ;
        assert(desc.data.len() == desc.data@.len());
        if desc.rotation == 0 && desc.offset_x == 0 && desc.offset_y == 0 && x < w && y < h {
            lemma_identity_sampling(w, h, x as int, y as int);
        }
    }
    let ix: usize = (transformed_y * desc.width + transformed_x) * 4;
    Rgb::from_bytes(desc.data[ix], desc.data[ix + 1], desc.data[ix + 2])
}

} // verus!

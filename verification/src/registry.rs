//! The tile registry: the textures that can be laid out, and the placement
//! of one of them in each cell of the grid.

use crate::color::{average_color_spec, compute_average_color, Color, Rgb};
use crate::sampler::TileDescriptor;
use vstd::prelude::*;

verus! {

/// Why a call on the registry or a composition was refused.
#[derive(Clone, Copy, Debug, PartialEq, Eq, Structural)]
pub enum CrossfadeError {
    /// A texture was assigned to a slot that the registry does not have.
    SlotOutOfRange,
    /// A pixel buffer's length is not a multiple of four.
    MalformedPixels,
    /// More cells were addressed than the registry has.
    TooManyTiles,
    /// A rotation code is not 0, 1, 2 or 3.
    InvalidRotation,
    /// The blend threshold does not lie between zero and one.
    InvalidThreshold,
    /// A cell of the grid refers to a slot that holds no texture.
    UnsetTexture,
    /// A texture to be sampled does not hold `width * height` pixels.
    TextureSizeMismatch,
    /// The output image has more bytes than can be addressed.
    OutputTooLarge,
}

/// The placement of a texture in one cell of the grid.
#[derive(Clone, Copy, Debug, PartialEq, Eq, Structural)]
pub struct TileAssignment {
    /// The slot of the texture that the cell shows.
    pub texture_slot_index: usize,
    /// Quarter turns by which the texture is rotated: 0, 1, 2 or 3.
    pub rotation: u8,
    /// Cyclic shift of the texture along its columns.
    pub offset_x: usize,
    /// Cyclic shift of the texture along its rows.
    pub offset_y: usize,
}

struct TextureSlot {
    pixels: Vec<u8>,
    average_color: Rgb,
}

/// The mathematical value of a [`Registry`].
pub struct RegistryView {
    /// For each slot the pixels of its texture, if it holds one.
    pub textures: Seq<Option<Seq<u8>>>,
    /// The placement in each cell, row by row.
    pub tiles: Seq<TileAssignment>,
}

impl RegistryView {
    /// The slot that `cell` refers to.
    pub open spec fn slot_of(self, cell: int) -> int {
        self.tiles[cell].texture_slot_index as int
    }

    /// `cell` is a cell of the registry and refers to a slot that holds a
    /// texture.
    pub open spec fn cell_is_set(self, cell: int) -> bool {
        &&& 0 <= cell < self.tiles.len()
        &&& 0 <= self.slot_of(cell) < self.textures.len()
        &&& self.textures[self.slot_of(cell)] is Some
    }

    /// The pixels of the texture that `cell` shows.
    pub open spec fn cell_pixels(self, cell: int) -> Seq<u8> {
        self.textures[self.slot_of(cell)].unwrap()
    }

    /// The mean colour of the texture that `cell` shows.
    pub open spec fn cell_average(self, cell: int) -> Color {
        average_color_spec(self.cell_pixels(cell))
    }

    /// Every texture is a whole number of RGBA pixels, and every rotation
    /// code is 0, 1, 2 or 3.
    pub open spec fn valid(self) -> bool {
        &&& forall|slot: int|
            0 <= slot < self.textures.len() ==> match #[trigger] self.textures[slot] {
                Some(pixels) => pixels.len() % 4 == 0,
                None => true,
            }
        &&& forall|cell: int|
            0 <= cell < self.tiles.len() ==> (#[trigger] self.tiles[cell]).rotation < 4
    }
}

/// The placements `tiles` after the slots of the first cells are set to
/// `indices`, one per cell.
pub open spec fn with_indices(tiles: Seq<TileAssignment>, indices: Seq<usize>) -> Seq<
    TileAssignment,
> {
    Seq::new(
        tiles.len(),
        |i: int|
            if i < indices.len() {
                TileAssignment { texture_slot_index: indices[i], ..tiles[i] }
            } else {
                tiles[i]
            },
    )
}

/// The placements `tiles` after the rotations of the first cells are set to
/// `rotations`, one per cell.
pub open spec fn with_rotations(tiles: Seq<TileAssignment>, rotations: Seq<u8>) -> Seq<
    TileAssignment,
> {
    Seq::new(
        tiles.len(),
        |i: int|
            if i < rotations.len() {
                TileAssignment { rotation: rotations[i], ..tiles[i] }
            } else {
                tiles[i]
            },
    )
}

/// The placements `tiles` after the column offsets of the first cells are
/// set to `offsets_x` and the row offsets of the first cells to `offsets_y`,
/// one per cell each.
pub open spec fn with_offsets(
    tiles: Seq<TileAssignment>,
    offsets_x: Seq<usize>,
    offsets_y: Seq<usize>,
) -> Seq<TileAssignment> {
    Seq::new(
        tiles.len(),
        |i: int|
            TileAssignment {
                offset_x: if i < offsets_x.len() {
                    offsets_x[i]
                } else {
                    tiles[i].offset_x
                },
                offset_y: if i < offsets_y.len() {
                    offsets_y[i]
                } else {
                    tiles[i].offset_y
                },
                ..tiles[i]
            },
    )
}

/// Every code in `rotations` is 0, 1, 2 or 3.
pub open spec fn rotations_valid(rotations: Seq<u8>) -> bool {
    forall|i: int| 0 <= i < rotations.len() ==> #[trigger] rotations[i] < 4
}

/// The textures available for tiling, one per slot, and the placement of a
/// texture in each cell of the grid.
///
pub struct Registry {
    textures: Vec<Option<TextureSlot>>,
    tiles: Vec<TileAssignment>,
}

impl View for Registry {
    type V = RegistryView;

    closed spec fn view(&self) -> RegistryView {
        RegistryView {
            textures: Seq::new(
                self.textures@.len(),
                |i: int|
                    match self.textures@[i] {
                        Some(slot) => Some(slot.pixels@),
                        None => None,
                    },
            ),
            tiles: self.tiles@,
        }
    }
}

impl Registry {
    /// The registry is consistent: every pixel buffer it holds is a whole
    /// number of RGBA pixels and has its mean colour recorded, and every
    /// rotation code is 0, 1, 2 or 3.
    pub closed spec fn wf(&self) -> bool {
        &&& forall|i: int|
            0 <= i < self.textures@.len() ==> match #[trigger] self.textures@[i] {
                Some(slot) => slot.pixels@.len() % 4 == 0 && slot.average_color@
                    == average_color_spec(slot.pixels@),
                None => true,
            }
        &&& forall|j: int| 0 <= j < self.tiles@.len() ==> (#[trigger] self.tiles@[j]).rotation < 4
    }

    /// What a consistent registry holds is valid.
    pub proof fn lemma_wf_is_valid(&self)
        requires
            self.wf(),
        ensures
            self@.valid(),
    {
    }

    /// A registry with `texture_capacity` empty slots and `tile_capacity`
    /// cells, each of which refers to slot zero without rotation or offset.
    pub fn new(texture_capacity: usize, tile_capacity: usize) -> (registry: Registry)
        ensures
            registry.wf(),
            registry@.textures.len() == texture_capacity,
            registry@.tiles.len() == tile_capacity,
            forall|i: int| 0 <= i < texture_capacity ==> registry@.textures[i] is None,
            forall|j: int|
                0 <= j < tile_capacity ==> registry@.tiles[j] == (TileAssignment {
                    texture_slot_index: 0,
                    rotation: 0,
                    offset_x: 0,
                    offset_y: 0,
                }),
    {
        let mut textures: Vec<Option<TextureSlot>> = Vec::new();
        let mut i: usize = 0;
        while i < texture_capacity
            invariant
                i <= texture_capacity,
                textures@.len() == i,
                forall|k: int| 0 <= k < i ==> textures@[k] is None,
            decreases texture_capacity - i,
        {
            textures.push(None);
            i = i + 1;
        }
        let mut tiles: Vec<TileAssignment> = Vec::new();
        let mut j: usize = 0;
        while j < tile_capacity
            invariant
                j <= tile_capacity,
                tiles@.len() == j,
                forall|k: int|
                    0 <= k < j ==> tiles@[k] == (TileAssignment {
                        texture_slot_index: 0,
                        rotation: 0,
                        offset_x: 0,
                        offset_y: 0,
                    }),
            decreases tile_capacity - j,
        {
            tiles.push(
                TileAssignment { texture_slot_index: 0, rotation: 0, offset_x: 0, offset_y: 0 },
            );
            j = j + 1;
        }
        Registry { textures, tiles }
    }

    /// Stores the whole placement of one cell.
    ///
    /// Fails, and changes nothing, with `TooManyTiles` where the registry
    /// has no cell `cell_index`, and otherwise with `InvalidRotation` where
    /// `rotation` is not 0, 1, 2 or 3.
    pub fn set_tile_assignment(
        &mut self,
        cell_index: usize,
        slot_index: usize,
        rotation: u8,
        offset_x: usize,
        offset_y: usize,
    ) -> (r: Result<(), CrossfadeError>)
        requires
            old(self).wf(),
        ensures
            final(self).wf(),
            final(self)@.textures == old(self)@.textures,
            match r {
                Ok(_) => {
                    &&& cell_index < old(self)@.tiles.len()
                    &&& rotation < 4
                    &&& final(self)@.tiles == old(self)@.tiles.update(
                        cell_index as int,
                        TileAssignment {
                            texture_slot_index: slot_index,
                            rotation,
                            offset_x,
                            offset_y,
                        },
                    )
                },
                Err(e) => {
                    &&& final(self)@.tiles == old(self)@.tiles
                    &&& e == if cell_index >= old(self)@.tiles.len() {
                        CrossfadeError::TooManyTiles
                    } else {
                        CrossfadeError::InvalidRotation
                    }
                    &&& cell_index >= old(self)@.tiles.len() || rotation >= 4
                },
            },
    {
        if cell_index >= self.tiles.len() {
            return Err(CrossfadeError::TooManyTiles);
        }
        if rotation > 3 {
            return Err(CrossfadeError::InvalidRotation);
        }
        let ghost before = self@.textures;
        self.tiles.set(
            cell_index,
            TileAssignment { texture_slot_index: slot_index, rotation, offset_x, offset_y },
        );
        proof {
            assert(self@.textures =~= before);
        }
        Ok(())
    }

    /// What the sampler needs to know of `cell`, for textures of `width` by
    /// `height` pixels: the pixels and the mean colour of the texture that
    /// the cell refers to, and the cell's rotation and offsets. `None` where
    /// the registry has no such cell or the cell's slot holds no texture.
    pub fn tile_descriptor(&self, cell: usize, width: usize, height: usize) -> (r: Option<
        TileDescriptor<'_>,
    >)
        requires
            self.wf(),
        ensures
            r is Some <==> self@.cell_is_set(cell as int),
            match r {
                Some(desc) => {
                    &&& desc.width == width
                    &&& desc.height == height
                    &&& desc.tex_ix == self@.slot_of(cell as int)
                    &&& desc.data@ == self@.cell_pixels(cell as int)
                    &&& desc.average_color@ == self@.cell_average(cell as int)
                    &&& desc.rotation == self@.tiles[cell as int].rotation
                    &&& desc.offset_x == self@.tiles[cell as int].offset_x
                    &&& desc.offset_y == self@.tiles[cell as int].offset_y
                    &&& desc.rotation < 4
                    &&& desc.data@.len() % 4 == 0
                },
                None => true,
            },
    {
        if cell >= self.tiles.len() {
            return None;
        }
        let tile = self.tiles[cell];
        if tile.texture_slot_index >= self.textures.len() {
            return None;
        }
        match &self.textures[tile.texture_slot_index] {
            Some(slot) => Some(
                TileDescriptor {
                    width,
                    height,
                    tex_ix: tile.texture_slot_index,
                    data: slot.pixels.as_slice(),
                    average_color: slot.average_color,
                    rotation: tile.rotation,
                    offset_x: tile.offset_x,
                    offset_y: tile.offset_y,
                },
            ),
            None => None,
        }
    }

    /// The placement of `cell`, if the registry has such a cell.
    pub fn tile(&self, cell: usize) -> (r: Option<TileAssignment>)
        ensures
            r == if cell < self@.tiles.len() {
                Some(self@.tiles[cell as int])
            } else {
                None
            },
    {
        if cell < self.tiles.len() {
            Some(self.tiles[cell])
        } else {
            None
        }
    }

    /// The pixels of the texture in `slot`, if the registry has such a slot
    /// and it holds a texture.
    pub fn texture(&self, slot: usize) -> (r: Option<&[u8]>)
        ensures
            match r {
                Some(pixels) => slot < self@.textures.len() && self@.textures[slot as int] == Some(
                    pixels@,
                ),
                None => slot >= self@.textures.len() || self@.textures[slot as int] is None,
            },
    {
        if slot >= self.textures.len() {
            return None;
        }
        match &self.textures[slot] {
            Some(held) => Some(held.pixels.as_slice()),
            None => None,
        }
    }

    /// The mean colour of the texture in `slot`, as recorded when the
    /// texture was assigned, if the registry has such a slot and it holds a
    /// texture.
    pub fn average_color(&self, slot: usize) -> (r: Option<Rgb>)
        requires
            self.wf(),
        ensures
            match r {
                Some(c) => {
                    &&& slot < self@.textures.len()
                    &&& self@.textures[slot as int] matches Some(pixels)
                    &&& c@ == average_color_spec(pixels)
                },
                None => slot >= self@.textures.len() || self@.textures[slot as int] is None,
            },
    {
        if slot >= self.textures.len() {
            return None;
        }
        match &self.textures[slot] {
            Some(held) => Some(held.average_color),
            None => None,
        }
    }

    /// The number of texture slots.
    pub fn texture_capacity(&self) -> (n: usize)
        ensures
            n == self@.textures.len(),
    {
        self.textures.len()
    }

    /// The number of grid cells that can be given a placement.
    pub fn tile_capacity(&self) -> (n: usize)
        ensures
            n == self@.tiles.len(),
    {
        self.tiles.len()
    }
}

/// Assigns a texture to the slot `index`, in place of the one it may hold,
/// and records the texture's mean colour. No other slot changes.
///
/// Fails with `SlotOutOfRange` where the registry has no slot `index`, with
/// `MalformedPixels` where `data` is not a whole number of RGBA pixels; the
/// registry is then unchanged.
pub fn crossfade_set_texture(registry: &mut Registry, data: Vec<u8>, index: usize) -> (r: Result<
    (),
    CrossfadeError,
>)
    requires
        old(registry).wf(),
    ensures
        final(registry).wf(),
        match r {
            Ok(_) => {
                &&& index < old(registry)@.textures.len()
                &&& data@.len() % 4 == 0
                &&& final(registry)@.textures == old(registry)@.textures.update(
                    index as int,
                    Some(data@),
                )
                &&& final(registry)@.tiles == old(registry)@.tiles
            },
            Err(e) => {
                &&& final(registry)@ == old(registry)@
                &&& e == if index >= old(registry)@.textures.len() {
                    CrossfadeError::SlotOutOfRange
                } else {
                    CrossfadeError::MalformedPixels
                }
                &&& index >= old(registry)@.textures.len() || data@.len() % 4 != 0
            },
        },
{
    if index >= registry.textures.len() {
        return Err(CrossfadeError::SlotOutOfRange);
    }
    if data.len() % 4 != 0 {
        return Err(CrossfadeError::MalformedPixels);
    }
    let average_color = compute_average_color(data.as_slice());
    registry.textures.set(index, Some(TextureSlot { pixels: data, average_color }));
    proof {
        assert(final(registry)@.textures =~= old(registry)@.textures.update(
            index as int,
            Some(data@),
        ));
    }
    Ok(())
}

/// Empties every texture slot. The placements stay as they are; a cell
/// refers to an empty slot until a texture is assigned to its slot again.
pub fn crossfade_reset(registry: &mut Registry)
    requires
        old(registry).wf(),
    ensures
        final(registry).wf(),
        final(registry)@.textures.len() == old(registry)@.textures.len(),
        forall|i: int|
            0 <= i < final(registry)@.textures.len() ==> final(registry)@.textures[i] is None,
        final(registry)@.tiles == old(registry)@.tiles,
{
    let n: usize = registry.textures.len();
    let mut i: usize = 0;
    while i < n
        invariant
            i <= n,
            registry.textures@.len() == n,
            registry.tiles@ == old(registry).tiles@,
            registry.wf(),
            forall|k: int| 0 <= k < i ==> registry.textures@[k] is None,
        decreases n - i,
    {
        registry.textures.set(i, None);
        i = i + 1;
    }
}

/// Sets the texture slots of the first `indices.len()` cells, one per cell;
/// the other cells and the other parts of each placement stay as they are.
///
/// Fails with `TooManyTiles`, and changes nothing, where `indices` is longer
/// than the registry has cells.
pub fn crossfade_set_texture_indices(registry: &mut Registry, indices: &[usize]) -> (r: Result<
    (),
    CrossfadeError,
>)
    requires
        old(registry).wf(),
    ensures
        final(registry).wf(),
        final(registry)@.textures == old(registry)@.textures,
        match r {
            Ok(_) => {
                &&& indices@.len() <= old(registry)@.tiles.len()
                &&& final(registry)@.tiles == with_indices(old(registry)@.tiles, indices@)
            },
            Err(e) => {
                &&& e == CrossfadeError::TooManyTiles
                &&& indices@.len() > old(registry)@.tiles.len()
                &&& final(registry)@.tiles == old(registry)@.tiles
            },
        },
{
    if indices.len() > registry.tiles.len() {
        return Err(CrossfadeError::TooManyTiles);
    }
    let mut i: usize = 0;
    while i < indices.len()
        invariant
            i <= indices@.len() <= registry.tiles@.len(),
            registry.wf(),
            registry@.textures == old(registry)@.textures,
            registry.tiles@.len() == old(registry).tiles@.len(),
            forall|k: int|
                0 <= k < registry.tiles@.len() ==> #[trigger] registry.tiles@[k] == if k < i {
                    with_indices(old(registry).tiles@, indices@)[k]
                } else {
                    old(registry).tiles@[k]
                },
        decreases indices@.len() - i,
    {
        let ghost before = registry@.textures;
        let mut tile = registry.tiles[i];
        tile.texture_slot_index = indices[i];
        registry.tiles.set(i, tile);
        proof {
            assert(registry@.textures =~= before);
        }
        i = i + 1;
    }
    proof {
        assert(registry.tiles@ =~= with_indices(old(registry).tiles@, indices@));
    }
    Ok(())
}

/// Sets the rotations of the first `rotations.len()` cells, one per cell;
/// the other cells and the other parts of each placement stay as they are.
///
/// Fails, and changes nothing, with `TooManyTiles` where `rotations` is
/// longer than the registry has cells, and otherwise with `InvalidRotation`
/// where one of the codes is not 0, 1, 2 or 3.
pub fn crossfade_set_texture_rotations(registry: &mut Registry, rotations: &[u8]) -> (r: Result<
    (),
    CrossfadeError,
>)
    requires
        old(registry).wf(),
    ensures
        final(registry).wf(),
        final(registry)@.textures == old(registry)@.textures,
        match r {
            Ok(_) => {
                &&& rotations@.len() <= old(registry)@.tiles.len()
                &&& rotations_valid(rotations@)
                &&& final(registry)@.tiles == with_rotations(old(registry)@.tiles, rotations@)
            },
            Err(e) => {
                &&& final(registry)@.tiles == old(registry)@.tiles
                &&& e == if rotations@.len() > old(registry)@.tiles.len() {
                    CrossfadeError::TooManyTiles
                } else {
                    CrossfadeError::InvalidRotation
                }
                &&& rotations@.len() > old(registry)@.tiles.len() || !rotations_valid(rotations@)
            },
        },
{
    if rotations.len() > registry.tiles.len() {
        return Err(CrossfadeError::TooManyTiles);
    }
    let mut k: usize = 0;
    while k < rotations.len()
        invariant
            k <= rotations@.len() <= registry.tiles@.len(),
            *registry == *old(registry),
            registry.wf(),
            forall|j: int| 0 <= j < k ==> #[trigger] rotations@[j] < 4,
        decreases rotations@.len() - k,
    {
        if rotations[k] > 3 {
            return Err(CrossfadeError::InvalidRotation);
        }
        k = k + 1;
    }
    let mut i: usize = 0;
    while i < rotations.len()
        invariant
            i <= rotations@.len() <= registry.tiles@.len(),
            rotations_valid(rotations@),
            registry.wf(),
            registry@.textures == old(registry)@.textures,
            registry.tiles@.len() == old(registry).tiles@.len(),
            forall|k: int|
                0 <= k < registry.tiles@.len() ==> #[trigger] registry.tiles@[k] == if k < i {
                    with_rotations(old(registry).tiles@, rotations@)[k]
                } else {
                    old(registry).tiles@[k]
                },
        decreases rotations@.len() - i,
    {
        let ghost before = registry@.textures;
        let mut tile = registry.tiles[i];
        tile.rotation = rotations[i];
        registry.tiles.set(i, tile);
        proof {
            assert(registry@.textures =~= before);
        }
        i = i + 1;
    }
    proof {
        assert(registry.tiles@ =~= with_rotations(old(registry).tiles@, rotations@));
    }
    Ok(())
}

/// Sets the column offsets of the first `offsets_x.len()` cells and the row
/// offsets of the first `offsets_y.len()` cells, one per cell each; the other
/// cells and the other parts of each placement stay as they are.
///
/// Fails with `TooManyTiles`, and changes nothing, where either slice is
/// longer than the registry has cells.
pub fn crossfade_set_texture_offsets(
    registry: &mut Registry,
    offsets_x: &[usize],
    offsets_y: &[usize],
) -> (r: Result<(), CrossfadeError>)
    requires
        old(registry).wf(),
    ensures
        final(registry).wf(),
        final(registry)@.textures == old(registry)@.textures,
        match r {
            Ok(_) => {
                &&& offsets_x@.len() <= old(registry)@.tiles.len()
                &&& offsets_y@.len() <= old(registry)@.tiles.len()
                &&& final(registry)@.tiles == with_offsets(
                    old(registry)@.tiles,
                    offsets_x@,
                    offsets_y@,
                )
            },
            Err(e) => {
                &&& e == CrossfadeError::TooManyTiles
                &&& offsets_x@.len() > old(registry)@.tiles.len() || offsets_y@.len() > old(
                    registry,
                )@.tiles.len()
                &&& final(registry)@.tiles == old(registry)@.tiles
            },
        },
{
    if offsets_x.len() > registry.tiles.len() || offsets_y.len() > registry.tiles.len() {
        return Err(CrossfadeError::TooManyTiles);
    }
    let mut i: usize = 0;
    while i < offsets_x.len()
        invariant
            i <= offsets_x@.len() <= registry.tiles@.len(),
            registry.wf(),
            registry@.textures == old(registry)@.textures,
            registry.tiles@.len() == old(registry).tiles@.len(),
            forall|k: int|
                0 <= k < registry.tiles@.len() ==> #[trigger] registry.tiles@[k] == if k < i {
                    with_offsets(old(registry).tiles@, offsets_x@, Seq::empty())[k]
                } else {
                    old(registry).tiles@[k]
                },
        decreases offsets_x@.len() - i,
    {
        let ghost before = registry@.textures;
        let mut tile = registry.tiles[i];
        tile.offset_x = offsets_x[i];
        registry.tiles.set(i, tile);
        proof {
            assert(registry@.textures =~= before);
        }
        i = i + 1;
    }
    let mut j: usize = 0;
    while j < offsets_y.len()
        invariant
            j <= offsets_y@.len() <= registry.tiles@.len(),
            registry.wf(),
            registry@.textures == old(registry)@.textures,
            registry.tiles@.len() == old(registry).tiles@.len(),
            forall|k: int|
                0 <= k < registry.tiles@.len() ==> #[trigger] registry.tiles@[k] == if k < j {
                    with_offsets(old(registry).tiles@, offsets_x@, offsets_y@)[k]
                } else {
                    with_offsets(old(registry).tiles@, offsets_x@, Seq::empty())[k]
                },
        decreases offsets_y@.len() - j,
    {
        let ghost before = registry@.textures;
        let mut tile = registry.tiles[j];
        tile.offset_y = offsets_y[j];
        registry.tiles.set(j, tile);
        proof {
            assert(registry@.textures =~= before);
        }
        j = j + 1;
    }
    proof {
        assert(registry.tiles@ =~= with_offsets(old(registry).tiles@, offsets_x@, offsets_y@));
    }
    Ok(())
}

} // verus!

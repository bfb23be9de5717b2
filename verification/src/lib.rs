//! Seamless tiling of textures over a square grid.
//!
//! A small set of textures, laid out repeatedly over a grid, shows seams
//! where tiles meet. The compositor removes them by fading each tile into
//! its neighbours near its edges and corners. The grid is a torus, so the
//! image also tiles seamlessly with itself.
//!
//! All fractional quantities are decimal fixed-point numbers, see
//! [`fixed`]: the result of a composition is defined exactly, down to the
//! last bit of every byte.

pub mod blend;
pub mod color;
pub mod compositor;
pub mod corner;
pub mod fixed;
pub mod pixels;
pub mod projector;
pub mod registry;
pub mod sampler;

pub use compositor::crossfade_generate;
pub use fixed::{Fixed, SCALE};
pub use registry::{
    crossfade_reset, crossfade_set_texture, crossfade_set_texture_indices,
    crossfade_set_texture_offsets, crossfade_set_texture_rotations, CrossfadeError, Registry,
};
